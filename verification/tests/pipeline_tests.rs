use ansi_term::Color;
use logan::config::Config;
use logan::pattern::{create_regex_with_prefix, CompiledPattern};
use logan::pipeline::{AnyProcessor, Pipeline};
use logan::processors::{
    Colorize, EventPatterns, EventProcessor, PatternColor, PatternColors,
};

fn compile(pattern: &str) -> CompiledPattern {
    CompiledPattern::new(pattern).unwrap()
}

fn separator() -> String {
    "-".repeat(50)
}

#[test]
fn separator_appears_around_event_output_only() {
    let colorize = AnyProcessor::Colorize(Colorize::new(PatternColors(vec![PatternColor {
        regex: compile("ERROR"),
        color: 9,
    }])));
    let events = AnyProcessor::Events(EventProcessor::new(EventPatterns {
        start_regex: compile("BEGIN"),
        end_regex: compile("END"),
        color: None,
    }));
    let mut pipeline = Pipeline::new(vec![colorize, events]);

    // Two dense colorize-only outputs: no separator between them.
    let first = pipeline.process_line("plain ERROR line");
    assert_eq!(first, vec![Color::Fixed(9).paint("plain ERROR line").to_string()]);
    let second = pipeline.process_line("BEGIN work");
    assert_eq!(second, vec![Color::Fixed(9).paint("BEGIN work").to_string()]);

    // The line that closes the span: the colorize output stays dense, the
    // event block arrives behind a separator.
    let third = pipeline.process_line("END work");
    assert_eq!(third.len(), 2);
    assert_eq!(third[0], Color::Fixed(9).paint("END work").to_string());
    assert_eq!(
        third[1],
        format!("{}\nEvent:\nBEGIN work\nEND work\n", separator())
    );

    // The next dense output follows event output, so it is separated too.
    let fourth = pipeline.process_line("after");
    assert_eq!(
        fourth,
        vec![format!(
            "{}\n{}",
            separator(),
            Color::Fixed(9).paint("after").to_string()
        )]
    );

    // And after that, dense output is dense again.
    let fifth = pipeline.process_line("calm");
    assert_eq!(fifth, vec![Color::Fixed(9).paint("calm").to_string()]);
}

#[test]
fn prefix_composition() {
    let compiled = create_regex_with_prefix(&Some("^\\d+ "), "ERROR").unwrap();
    assert_eq!(compiled.as_str(), "^\\d+ ERROR");
    assert!(compiled.is_match("123 ERROR boom"));
    assert!(!compiled.is_match("ERROR boom"));

    let bare = create_regex_with_prefix(&None, "ERROR").unwrap();
    assert_eq!(bare.as_str(), "ERROR");
    assert!(bare.is_match("ERROR boom"));
}

#[test]
fn prefix_composition_rejects_bad_patterns() {
    assert!(create_regex_with_prefix(&Some("("), "ERROR").is_err());
    assert!(create_regex_with_prefix(&None, "foo(").is_err());
}

#[test]
fn empty_config_builds_an_empty_pipeline() {
    let config = Config::from_json_str("{}").unwrap();
    let pipeline = Pipeline::from_config(config);
    assert_eq!(pipeline.processors.len(), 0);
    assert!(!pipeline.has_output);
    assert_eq!(pipeline.results().len(), 0);
}

#[test]
fn pipeline_from_config_orders_processors() {
    let json = r#"{
        "pattern_colors": [ { "pattern": "INFO", "color": "28" } ],
        "event_patterns": [ { "start_pattern": "BEGIN", "end_pattern": "END" } ],
        "state_patterns": [ { "pattern": "state" } ]
    }"#;
    let config = Config::from_json_str(json).unwrap();
    let pipeline = Pipeline::from_config(config);
    assert_eq!(pipeline.processors.len(), 3);
    assert!(matches!(pipeline.processors[0], AnyProcessor::Colorize(_)));
    assert!(matches!(pipeline.processors[1], AnyProcessor::Events(_)));
    assert!(matches!(pipeline.processors[2], AnyProcessor::States(_)));
}

#[test]
fn pipeline_runs_states_and_events_together() {
    let events = AnyProcessor::Events(EventProcessor::new(EventPatterns {
        start_regex: compile("BEGIN"),
        end_regex: compile("END"),
        color: None,
    }));
    let states = AnyProcessor::States(logan::processors::StateProcessor::new(
        compile("state=(\\w+)"),
        None,
    ));
    let mut pipeline = Pipeline::new(vec![events, states]);

    assert_eq!(pipeline.process_line("BEGIN"), Vec::<String>::new());
    assert_eq!(
        pipeline.process_line("state=ready"),
        vec![String::from("State: state=ready\n")]
    );
    let closing = pipeline.process_line("END");
    assert_eq!(
        closing,
        vec![format!(
            "{}\nEvent:\nBEGIN\nstate=ready\nEND\n",
            separator()
        )]
    );
}
