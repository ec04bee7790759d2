use rgrep::fizz_buzz::{fizz_buzz_line, fizz_buzz_lines};
use rgrep::guessing_game::{judge_guess, keeps_guessing, parse_guess, GuessVerdict};
use rgrep::input::{select_source, split_lines, InputSource};
use rgrep::output::{plan_segments, Segment};

#[test]
fn test_standard_input() {
    let input = "line 1\nline 2\nline 3\n";
    let result = split_lines(input);

    assert_eq!(result.len(), 3);
    assert_eq!(result[0], "line 1");
    assert_eq!(result[1], "line 2");
    assert_eq!(result[2], "line 3");
}

#[test]
fn split_lines_edges() {
    assert!(split_lines("").is_empty());
    assert_eq!(split_lines("a\r\nb"), vec!["a".to_string(), "b".to_string()]);
    assert_eq!(split_lines("a\n\n"), vec!["a".to_string(), "".to_string()]);
    assert_eq!(split_lines("end\r"), vec!["end\r".to_string()]);
}

#[test]
fn source_selection() {
    assert!(matches!(select_source(None), InputSource::Standard));
    match select_source(Some("words.txt".to_string())) {
        InputSource::File { path } => assert_eq!(path, "words.txt"),
        InputSource::Standard => panic!("expected a file source"),
    }
}

#[test]
fn plan_segments_around_matches() {
    assert_eq!(
        plan_segments(6, &vec![(0, 2), (2, 2), (4, 5)]),
        vec![
            Segment { start: 0, end: 2, highlighted: true },
            Segment { start: 2, end: 4, highlighted: false },
            Segment { start: 4, end: 5, highlighted: true },
            Segment { start: 5, end: 6, highlighted: false },
        ]
    );
    assert_eq!(plan_segments(0, &Vec::new()), Vec::new());
}

#[test]
fn fizz_buzz_words() {
    assert_eq!(fizz_buzz_line(15), "FizzBuzz");
    assert_eq!(fizz_buzz_line(9), "Fizz");
    assert_eq!(fizz_buzz_line(10), "Buzz");
    assert_eq!(fizz_buzz_line(7), "7");
    assert_eq!(
        fizz_buzz_lines(5),
        vec!["1", "2", "Fizz", "4", "Buzz"]
            .into_iter()
            .map(String::from)
            .collect::<Vec<_>>()
    );
    assert!(fizz_buzz_lines(0).is_empty());
}

#[test]
fn guesses() {
    assert_eq!(judge_guess(50, 50), GuessVerdict::Correct);
    assert_eq!(judge_guess(50, 10), GuessVerdict::TooLow);
    assert_eq!(judge_guess(50, 90), GuessVerdict::TooHigh);
    assert!(keeps_guessing(GuessVerdict::TooLow));
    assert!(!keeps_guessing(GuessVerdict::Correct));
    assert_eq!(parse_guess("  42\n"), Some(42));
    assert_eq!(parse_guess("forty"), None);
}
