use ansi_term::Color;
use logan::pattern::CompiledPattern;
use logan::processors::{
    Colorize, EventPatterns, EventProcessor, PatternColor, PatternColors, StateProcessor,
};

fn date_regex() -> &'static str {
    r"[\d]{4}-[\d]{2}-[\d]{2} [\d]{2}:[\d]{2}:[\d]{2}"
}

fn test_log_lines() -> Vec<&'static str> {
    vec![
        "2020-01-01 10:00:00 INFO Start of log file",
        "2020-01-01 10:00:01 INFO Mouse left down at 0, 0",
        "2020-01-01 10:00:02 INFO Mouse moved to 10, 0",
        "2020-01-01 10:00:03 INFO Mouse left up at 10, 0",
        "2020-01-01 10:00:03 WARN Invalid mouse coordinates 10, 0",
        "2020-01-01 10:00:03 INFO Set state to options",
        "2020-01-01 10:00:04 INFO Mouse left down at 10, 0",
        "2020-01-01 10:00:04 INFO Mouse moved to 10, 10",
        "2020-01-01 10:00:05 INFO Mouse left up at 10, 10",
        "2020-01-01 10:00:05 INFO Set state to main_menu",
        "2020-01-01 10:00:50 ERROR Failed to start application",
        "An unknown error occurred",
        "2020-01-01 10:01:00 INFO End of log file",
    ]
}

fn compile(pattern: &str) -> CompiledPattern {
    CompiledPattern::new(pattern).unwrap()
}

fn create_level_colors() -> PatternColors {
    PatternColors(vec![
        PatternColor {
            regex: compile(format!("{} INFO ", date_regex()).as_str()),
            color: 28,
        },
        PatternColor {
            regex: compile(format!("{} WARN ", date_regex()).as_str()),
            color: 24,
        },
        PatternColor {
            regex: compile(format!("{} ERROR ", date_regex()).as_str()),
            color: 88,
        },
    ])
}

#[test]
fn test_colorize_lines() {
    let lines = test_log_lines();
    let mut lines = lines.into_iter();

    let mut colorize = Colorize::new(create_level_colors());
    assert_eq!(
        colorize.process_line(lines.next().unwrap()),
        Some(
            Color::Fixed(28)
                .paint("2020-01-01 10:00:00 INFO Start of log file")
                .to_string()
        )
    );
    assert_eq!(
        colorize.process_line(lines.next().unwrap()),
        Some(
            Color::Fixed(28)
                .paint("2020-01-01 10:00:01 INFO Mouse left down at 0, 0")
                .to_string()
        )
    );
    assert_eq!(
        colorize.process_line(lines.next().unwrap()),
        Some(
            Color::Fixed(28)
                .paint("2020-01-01 10:00:02 INFO Mouse moved to 10, 0")
                .to_string()
        )
    );
    assert_eq!(
        colorize.process_line(lines.next().unwrap()),
        Some(
            Color::Fixed(28)
                .paint("2020-01-01 10:00:03 INFO Mouse left up at 10, 0")
                .to_string()
        )
    );
    assert_eq!(
        colorize.process_line(lines.next().unwrap()),
        Some(
            Color::Fixed(24)
                .paint("2020-01-01 10:00:03 WARN Invalid mouse coordinates 10, 0")
                .to_string()
        )
    );
    assert_eq!(
        colorize.process_line(lines.next().unwrap()),
        Some(
            Color::Fixed(28)
                .paint("2020-01-01 10:00:03 INFO Set state to options")
                .to_string()
        )
    );
    assert_eq!(
        colorize.process_line(lines.next().unwrap()),
        Some(
            Color::Fixed(28)
                .paint("2020-01-01 10:00:04 INFO Mouse left down at 10, 0")
                .to_string()
        )
    );
    assert_eq!(
        colorize.process_line(lines.next().unwrap()),
        Some(
            Color::Fixed(28)
                .paint("2020-01-01 10:00:04 INFO Mouse moved to 10, 10")
                .to_string()
        )
    );
    assert_eq!(
        colorize.process_line(lines.next().unwrap()),
        Some(
            Color::Fixed(28)
                .paint("2020-01-01 10:00:05 INFO Mouse left up at 10, 10")
                .to_string()
        )
    );
    assert_eq!(
        colorize.process_line(lines.next().unwrap()),
        Some(
            Color::Fixed(28)
                .paint("2020-01-01 10:00:05 INFO Set state to main_menu")
                .to_string()
        )
    );
    assert_eq!(
        colorize.process_line(lines.next().unwrap()),
        Some(
            Color::Fixed(88)
                .paint("2020-01-01 10:00:50 ERROR Failed to start application")
                .to_string()
        )
    );
    assert_eq!(
        colorize.process_line(lines.next().unwrap()),
        Some(Color::Fixed(88).paint("An unknown error occurred").to_string())
    );
    assert_eq!(
        colorize.process_line(lines.next().unwrap()),
        Some(
            Color::Fixed(28)
                .paint("2020-01-01 10:01:00 INFO End of log file")
                .to_string()
        )
    );
}

#[test]
fn test_events() {
    let mut events = EventProcessor::new(EventPatterns {
        start_regex: compile(
            format!(r"{} INFO Mouse left down at [\d]+, [\d]+", date_regex()).as_str(),
        ),
        end_regex: compile(
            format!(r"{} INFO Mouse left up at [\d]+, [\d]+", date_regex()).as_str(),
        ),
        color: Some(28),
    });

    let mut emitted = Vec::new();
    for line in test_log_lines() {
        if let Some(event) = events.process_line(line) {
            emitted.push(event);
        }
    }

    assert_eq!(
        emitted[0],
        Color::Fixed(28)
            .paint(
                "Event:
2020-01-01 10:00:01 INFO Mouse left down at 0, 0
2020-01-01 10:00:02 INFO Mouse moved to 10, 0
2020-01-01 10:00:03 INFO Mouse left up at 10, 0
"
            )
            .to_string()
    );
    assert_eq!(
        emitted[1],
        Color::Fixed(28)
            .paint(
                "Event:
2020-01-01 10:00:04 INFO Mouse left down at 10, 0
2020-01-01 10:00:04 INFO Mouse moved to 10, 10
2020-01-01 10:00:05 INFO Mouse left up at 10, 10
"
            )
            .to_string()
    );
}

#[test]
fn test_states() {
    let mut states = StateProcessor::new(
        compile(format!("{} INFO Set state to (.*)", date_regex()).as_str()),
        Some(28),
    );

    let mut emitted = Vec::new();
    for line in test_log_lines() {
        if let Some(state) = states.process_line(line) {
            emitted.push(state);
        }
    }

    assert_eq!(
        emitted[0],
        Color::Fixed(28)
            .paint("State: 2020-01-01 10:00:03 INFO Set state to options\n")
            .to_string()
    );
    assert_eq!(
        emitted[1],
        Color::Fixed(28)
            .paint("State: 2020-01-01 10:00:05 INFO Set state to main_menu\n")
            .to_string()
    );
}

#[test]
fn first_match_wins_over_later_rules() {
    let rules = PatternColors(vec![
        PatternColor { regex: compile("ERROR"), color: 11 },
        PatternColor { regex: compile("ERR"), color: 22 },
    ]);
    assert_eq!(rules.find_color_for_pattern("an ERROR here"), Some(11));
    assert_eq!(rules.find_color_for_pattern("an ERRand here"), Some(22));
    assert_eq!(rules.find_color_for_pattern("nothing"), None);
}

#[test]
fn color_persists_across_unmatched_lines() {
    let rules = PatternColors(vec![PatternColor { regex: compile("ERROR"), color: 7 }]);
    let mut colorize = Colorize::new(rules);
    assert_eq!(
        colorize.process_line("an ERROR happened"),
        Some(Color::Fixed(7).paint("an ERROR happened").to_string())
    );
    assert_eq!(
        colorize.process_line("stack trace line"),
        Some(Color::Fixed(7).paint("stack trace line").to_string())
    );
    assert_eq!(
        colorize.process_line("another plain line"),
        Some(Color::Fixed(7).paint("another plain line").to_string())
    );
}

#[test]
fn colorize_paints_white_before_any_match() {
    let mut colorize = Colorize::new(PatternColors(vec![]));
    assert_eq!(
        colorize.process_line("hello"),
        Some(Color::White.paint("hello").to_string())
    );
}

#[test]
fn span_is_emitted_whole_on_the_end_line() {
    let mut events = EventProcessor::new(EventPatterns {
        start_regex: compile("BEGIN"),
        end_regex: compile("END"),
        color: None,
    });
    assert_eq!(events.process_line("x"), None);
    assert_eq!(events.process_line("BEGIN a"), None);
    assert_eq!(events.process_line("mid"), None);
    assert_eq!(
        events.process_line("END b"),
        Some(String::from("Event:\nBEGIN a\nmid\nEND b\n"))
    );
    assert_eq!(events.process_line("y"), None);
}

#[test]
fn unterminated_span_is_dropped() {
    let mut events = EventProcessor::new(EventPatterns {
        start_regex: compile("BEGIN"),
        end_regex: compile("END"),
        color: None,
    });
    assert_eq!(events.process_line("BEGIN a"), None);
    assert_eq!(events.process_line("mid"), None);
}

#[test]
fn capture_group_extraction() {
    let mut group_one = StateProcessor::with_group(compile(r"Set state to (\w+)"), 1, None);
    assert_eq!(
        group_one.process_line("2020-01-01 Set state to options"),
        Some(String::from("State: options\n"))
    );

    let mut whole_match = StateProcessor::with_group(compile(r"Set state to (\w+)"), 0, None);
    assert_eq!(
        whole_match.process_line("2020-01-01 Set state to options"),
        Some(String::from("State: Set state to options\n"))
    );
}

#[test]
fn absent_capture_group_emits_nothing() {
    let mut states = StateProcessor::with_group(compile(r"Set state to (\w+)"), 2, None);
    assert_eq!(states.process_line("2020-01-01 Set state to options"), None);
}
