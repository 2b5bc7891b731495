use logan::config::Config;
use logan::error::{ColorParseKind, ConfigError, JsonType, ParseColorError};
use logan::json::JsonValue;

#[test]
fn test_config_from_json() {
    let prefix = r#"[\w]{3} [\d]{2} [\d]{2}:[\d]{2}:[\d]{2} [^ ]* "#;
    let json = r#"{
        "prefix": "[\\w]{3} [\\d]{2} [\\d]{2}:[\\d]{2}:[\\d]{2} [^ ]* ",
        "pattern_colors": [
            { "pattern": "NetworkManager ", "color": "28" }
        ],
        "event_patterns": [
            {
                "start_pattern": "Starting Network Manager ",
                "end_pattern": "Started Network Manager ",
                "color": "28"
            }
        ],
        "state_patterns": [
            { "pattern": "Switched to [^ ]+", "group": 1, "color": "28" }
        ]
    }"#;

    let config = Config::from_json_str(json).unwrap();
    let pattern = &config.pattern_colors.unwrap()[0];
    assert_eq!(pattern.regex.as_str(), format!(r#"{}NetworkManager "#, prefix));
    assert_eq!(pattern.color, 28);

    let events = config.events;
    assert_eq!(
        events[0].start_regex.as_str(),
        format!(r#"{}Starting Network Manager "#, prefix)
    );
    assert_eq!(
        events[0].end_regex.as_str(),
        format!(r#"{}Started Network Manager "#, prefix)
    );
    assert_eq!(events[0].color, Some(28));

    let states = config.states;
    assert_eq!(states[0].regex.as_str(), format!(r#"{}Switched to [^ ]+"#, prefix));
    assert_eq!(states[0].color, Some(28));
}

#[test]
fn test_empty_config_file() {
    let json = r#"{}"#;

    let config = Config::from_json_str(json).unwrap();
    assert!(config.pattern_colors.is_none());
    assert!(config.events.is_empty());
    assert!(config.states.is_empty());
}

#[test]
fn state_group_is_read_from_config() {
    let json = r#"{
        "state_patterns": [
            { "pattern": "Switched to (\\w+)", "group": 1 }
        ]
    }"#;
    let config = Config::from_json_str(json).unwrap();
    assert_eq!(config.states[0].group, 1);
    assert_eq!(config.states[0].color, None);

    let defaulted = Config::from_json_str(r#"{ "state_patterns": [ { "pattern": "x" } ] }"#)
        .unwrap();
    assert_eq!(defaulted.states[0].group, 0);
}

#[test]
fn invalid_json_text_is_a_parse_error() {
    let err = Config::from_json_str("{ not json").unwrap_err();
    assert!(matches!(err, ConfigError::JsonParse(_)));
    assert!(err.message().starts_with("Invalid configuration file: "));
}

#[test]
fn wrong_prefix_type_is_a_shape_error() {
    let err = Config::from_json_str(r#"{ "prefix": 5 }"#).unwrap_err();
    match err {
        ConfigError::JsonType(field, expected) => {
            assert_eq!(field, "prefix");
            assert_eq!(expected, JsonType::Str);
        }
        _ => panic!("expected a shape error"),
    }
}

#[test]
fn wrong_section_type_is_a_shape_error() {
    let err = Config::from_json_str(r#"{ "pattern_colors": "nope" }"#).unwrap_err();
    match err {
        ConfigError::JsonType(field, expected) => {
            assert_eq!(field, "pattern_colors");
            assert_eq!(expected, JsonType::Arr);
        }
        _ => panic!("expected a shape error"),
    }
    let err = Config::from_json_str(r#"{ "event_patterns": [ { "start_pattern": "a" } ] }"#)
        .unwrap_err();
    match err {
        ConfigError::JsonType(field, expected) => {
            assert_eq!(field, "event_patterns.end_pattern");
            assert_eq!(expected, JsonType::Str);
        }
        _ => panic!("expected a shape error"),
    }
}

#[test]
fn invalid_pattern_is_a_regex_error() {
    let err = Config::from_json_str(
        r#"{ "pattern_colors": [ { "pattern": "foo(", "color": "28" } ] }"#,
    )
    .unwrap_err();
    match err {
        ConfigError::Regex(field, _) => {
            assert_eq!(field, "pattern_colors.pattern");
        }
        _ => panic!("expected a regex error"),
    }
    let message = Config::from_json_str(
        r#"{ "pattern_colors": [ { "pattern": "foo(", "color": "28" } ] }"#,
    )
    .unwrap_err()
    .message();
    assert!(message.starts_with(r#"Invalid configuration file: Invalid regex for "pattern_colors.pattern". ("#));
}

#[test]
fn invalid_color_is_a_parse_int_error() {
    let err = Config::from_json_str(
        r#"{ "pattern_colors": [ { "pattern": "x", "color": "256" } ] }"#,
    )
    .unwrap_err();
    match err {
        ConfigError::ParseInt(field, kind) => {
            assert_eq!(field, "pattern_colors.color");
            assert_eq!(kind, ColorParseKind::PosOverflow);
        }
        _ => panic!("expected a color parse error"),
    }
    let err = Config::from_json_str(
        r#"{ "state_patterns": [ { "pattern": "x", "color": "red" } ] }"#,
    )
    .unwrap_err();
    match err {
        ConfigError::ParseInt(field, kind) => {
            assert_eq!(field, "state_patterns.color");
            assert_eq!(kind, ColorParseKind::InvalidDigit);
        }
        _ => panic!("expected a color parse error"),
    }
}

#[test]
fn parse_color_exact_values() {
    assert_eq!(logan::config::parse_color("0"), Ok(0));
    assert_eq!(logan::config::parse_color("28"), Ok(28));
    assert_eq!(logan::config::parse_color("255"), Ok(255));
    assert_eq!(logan::config::parse_color("+28"), Ok(28));
    assert_eq!(logan::config::parse_color("0028"), Ok(28));
    assert_eq!(logan::config::parse_color("256"), Err(ColorParseKind::PosOverflow));
    assert_eq!(logan::config::parse_color(""), Err(ColorParseKind::Empty));
    assert_eq!(logan::config::parse_color("+"), Err(ColorParseKind::InvalidDigit));
    assert_eq!(logan::config::parse_color("2a"), Err(ColorParseKind::InvalidDigit));
    assert_eq!(logan::config::parse_color("-1"), Err(ColorParseKind::InvalidDigit));
}

#[test]
fn parse_color_matches_std() {
    for s in ["", "+", "0", "28", "255", "256", "0028", "+28", "2a", "-1", "999999"] {
        let expected = s.parse::<u8>();
        let got = logan::config::parse_color(s);
        assert_eq!(got.is_ok(), expected.is_ok(), "token {:?}", s);
        if let (Ok(g), Ok(e)) = (&got, &expected) {
            assert_eq!(g, e, "token {:?}", s);
        }
    }
}

#[test]
fn parse_color_error_message() {
    let err = ParseColorError::new("red", ColorParseKind::InvalidDigit);
    assert_eq!(
        err.message(),
        "Invalid color value: red (invalid digit found in string)"
    );
}

#[test]
fn from_json_value_accepts_a_built_tree() {
    let tree = JsonValue::Obj(vec![(
        String::from("pattern_colors"),
        JsonValue::Arr(vec![JsonValue::Obj(vec![
            (String::from("pattern"), JsonValue::Str(String::from("INFO"))),
            (String::from("color"), JsonValue::Str(String::from("28"))),
        ])]),
    )]);
    let config = Config::from_json_value(&tree).unwrap();
    let rules = config.pattern_colors.unwrap();
    assert_eq!(rules.len(), 1);
    assert_eq!(rules[0].regex.as_str(), "INFO");
    assert_eq!(rules[0].color, 28);
}

#[test]
fn json_type_names() {
    assert_eq!(JsonType::Str.name(), "String");
    assert_eq!(JsonType::Arr.name(), "Array");
    assert_eq!(JsonType::Num.name(), "Number");
    let err = Config::from_json_str(r#"{ "prefix": [] }"#).unwrap_err();
    assert_eq!(
        err.message(),
        r#"Invalid configuration file: Invalid Json value type for "prefix" (Expected: String)"#
    );
}
