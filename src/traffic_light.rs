//! A traffic light controller: the colour cycle and how long each colour holds.

use vstd::prelude::*;

verus! {

#[derive(Clone, Copy, Debug, PartialEq, Eq, Structural)]
pub enum TrafficLightColor {
    Red,
    Yellow,
    Green,
}

/// The colour shown, and when (in milliseconds) the light last changed.
#[derive(Clone, Copy, Debug)]
pub struct TrafficLightState {
    pub current_color: TrafficLightColor,
    pub last_transition_time_ms: u32,
}

/// The colour that follows `c`: green, then yellow, then red, then green.
pub open spec fn next_color(c: TrafficLightColor) -> TrafficLightColor {
    match c {
        TrafficLightColor::Red => TrafficLightColor::Green,
        TrafficLightColor::Yellow => TrafficLightColor::Red,
        TrafficLightColor::Green => TrafficLightColor::Yellow,
    }
}

/// How many milliseconds `c` holds; a pedestrian request shortens green.
pub open spec fn hold_time(c: TrafficLightColor, pedestrian_walk_request: bool) -> int {
    match c {
        TrafficLightColor::Red => 25000,
        TrafficLightColor::Yellow => 5000,
        TrafficLightColor::Green => if pedestrian_walk_request {
            20000
        } else {
            30000
        },
    }
}

/// The colour that the light switches to next.
pub fn get_next_color(state: TrafficLightState) -> (r: TrafficLightColor)
    ensures
        r == next_color(state.current_color),
{
    match state.current_color {
        TrafficLightColor::Red => TrafficLightColor::Green,
        TrafficLightColor::Yellow => TrafficLightColor::Red,
        TrafficLightColor::Green => TrafficLightColor::Yellow,
    }
}

/// The colour to show at `current_time_ms`: the next one once the current
/// colour has been shown for longer than its hold time.
pub fn get_next_state(
    state: TrafficLightState,
    current_time_ms: u32,
    pedestrian_walk_request: bool,
) -> (r: TrafficLightColor)
    requires
        state.last_transition_time_ms <= current_time_ms,
    ensures
        r == if current_time_ms - state.last_transition_time_ms > hold_time(
            state.current_color,
            pedestrian_walk_request,
        ) {
            next_color(state.current_color)
        } else {
            state.current_color
        },
{
    let elapsed_time = current_time_ms - state.last_transition_time_ms;
    let required_time: u32 = match (state.current_color, pedestrian_walk_request) {
        (TrafficLightColor::Red, _) => 25000,
        (TrafficLightColor::Yellow, _) => 5000,
        (TrafficLightColor::Green, false) => 30000,
        (TrafficLightColor::Green, true) => 20000,
    };
    if elapsed_time > required_time {
        get_next_color(state)
    } else {
        state.current_color
    }
}

} // verus!
