use rgrep::traffic_light::{get_next_color, get_next_state, TrafficLightColor, TrafficLightState};

#[test]
fn next_color_cycles() {
    for (start, next) in [
        (TrafficLightColor::Green, TrafficLightColor::Yellow),
        (TrafficLightColor::Yellow, TrafficLightColor::Red),
        (TrafficLightColor::Red, TrafficLightColor::Green),
    ] {
        let state = TrafficLightState {
            current_color: start,
            last_transition_time_ms: 0,
        };
        assert_eq!(get_next_color(state), next);
    }
}

#[test]
fn test_get_next_state_no_pedestrians() {
    let mut state = TrafficLightState {
        current_color: TrafficLightColor::Green,
        last_transition_time_ms: 0,
    };

    assert_eq!(get_next_state(state, 0, false), TrafficLightColor::Green);
    assert_eq!(get_next_state(state, 19000, false), TrafficLightColor::Green);
    assert_eq!(get_next_state(state, 21000, false), TrafficLightColor::Green);
    assert_eq!(get_next_state(state, 29000, false), TrafficLightColor::Green);
    assert_eq!(get_next_state(state, 31000, false), TrafficLightColor::Yellow);

    state.current_color = TrafficLightColor::Yellow;
    state.last_transition_time_ms = 30000;

    assert_eq!(get_next_state(state, 30000, false), TrafficLightColor::Yellow);
    assert_eq!(get_next_state(state, 34000, false), TrafficLightColor::Yellow);
    assert_eq!(get_next_state(state, 36000, false), TrafficLightColor::Red);

    state.current_color = TrafficLightColor::Red;
    state.last_transition_time_ms = 35000;

    assert_eq!(get_next_state(state, 35000, false), TrafficLightColor::Red);
    assert_eq!(get_next_state(state, 59000, false), TrafficLightColor::Red);
    assert_eq!(get_next_state(state, 61000, false), TrafficLightColor::Green);
}

#[test]
fn test_get_next_state_pedestrians() {
    let mut state = TrafficLightState {
        current_color: TrafficLightColor::Green,
        last_transition_time_ms: 0,
    };

    assert_eq!(get_next_state(state, 0, true), TrafficLightColor::Green);
    assert_eq!(get_next_state(state, 19000, true), TrafficLightColor::Green);
    assert_eq!(get_next_state(state, 21000, true), TrafficLightColor::Yellow);

    state.current_color = TrafficLightColor::Yellow;
    state.last_transition_time_ms = 20000;

    assert_eq!(get_next_state(state, 20000, true), TrafficLightColor::Yellow);
    assert_eq!(get_next_state(state, 24000, true), TrafficLightColor::Yellow);
    assert_eq!(get_next_state(state, 26000, true), TrafficLightColor::Red);

    state.current_color = TrafficLightColor::Red;
    state.last_transition_time_ms = 25000;

    assert_eq!(get_next_state(state, 25000, true), TrafficLightColor::Red);
    assert_eq!(get_next_state(state, 49000, true), TrafficLightColor::Red);
    assert_eq!(get_next_state(state, 51000, true), TrafficLightColor::Green);
}

#[test]
fn next_state_exactly_at_hold_time_stays() {
    let state = TrafficLightState {
        current_color: TrafficLightColor::Green,
        last_transition_time_ms: 1000,
    };
    assert_eq!(get_next_state(state, 31000, false), TrafficLightColor::Green);
    assert_eq!(get_next_state(state, 31001, false), TrafficLightColor::Yellow);
    assert_eq!(get_next_state(state, 21001, true), TrafficLightColor::Yellow);
}
