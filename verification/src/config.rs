//! The configuration model.
//!
//! A configuration arrives as a JSON-shaped value and is turned into typed
//! rule lists: pattern/color rules for a colorizer, start/end rules for
//! event extractors, and pattern rules for state extractors.  An optional
//! shared `prefix` is compiled in front of every pattern, as regex
//! concatenation.  Every shape, regex and color failure is detected here,
//! before any line is processed, and names the offending field.

use vstd::prelude::*;
use vstd::string::StringExecFns;

use crate::error::{ColorParseKind, ConfigError, JsonType};
use crate::json::{json_get, json_parsed, parse_json, JsonValue};
use crate::pattern::{regex_valid, CompiledPattern};
use crate::processors::{EventPatterns, PatternColor, StateProcessor};

verus! {

/// Whether `c` is an ASCII decimal digit.
pub open spec fn spec_digit(c: char) -> bool {
    48 <= c as u32 && c as u32 <= 57
}

/// The numeric value of the ASCII digit `c`.
pub open spec fn spec_digit_val(c: char) -> int {
    c as u32 - 48
}

/// Consumes the digit run `s` left to right with accumulator `acc`, exactly
/// as the standard decimal parse of an unsigned 8-bit integer does: the
/// first non-digit fails the parse, and overflow past 255 is reported as
/// soon as the digits consumed so far exceed it.
pub open spec fn spec_parse_digits(s: Seq<char>, acc: int) -> Result<u8, ColorParseKind>
    decreases s.len(),
{
    if s.len() == 0 {
        Ok(acc as u8)
    } else if !spec_digit(s[0]) {
        Err(ColorParseKind::InvalidDigit)
    } else if acc * 10 + spec_digit_val(s[0]) > 255 {
        Err(ColorParseKind::PosOverflow)
    } else {
        spec_parse_digits(s.drop_first(), acc * 10 + spec_digit_val(s[0]))
    }
}

/// What parsing the color token `s` yields: the value of an optionally
/// `+`-signed run of decimal digits when it fits in 0–255, and otherwise
/// the failure the standard parse reports.
pub open spec fn spec_parse_color(s: Seq<char>) -> Result<u8, ColorParseKind> {
    if s.len() == 0 {
        Err(ColorParseKind::Empty)
    } else {
        let digits = if s[0] == '+' {
            s.drop_first()
        } else {
            s
        };
        if digits.len() == 0 {
            Err(ColorParseKind::InvalidDigit)
        } else {
            spec_parse_digits(digits, 0)
        }
    }
}

/// Parses a fixed-palette color token: a decimal string in range 0–255.
pub fn parse_color(s: &str) -> (r: Result<u8, ColorParseKind>)
    ensures
        r == spec_parse_color(s@),
{
    let len = s.unicode_len();
    if len == 0 {
        return Err(ColorParseKind::Empty);
    }
    let first = s.get_char(0);
    let start: usize = if first == '+' {
        1
    } else {
        0
    };
    if len == start {
        return Err(ColorParseKind::InvalidDigit);
    }
    let ghost digits = if s@[0] == '+' {
        s@.drop_first()
    } else {
        s@
    };
    let mut acc: u32 = 0;
    let mut i: usize = start;
    proof {
        assert(digits.skip(0) =~= digits);
        if s@[0] == '+' {
            assert(digits =~= s@.skip(1));
        } else {
            assert(digits =~= s@.skip(0));
        }
    }
    while i < len
        invariant
            start <= i <= len,
            len == s@.len(),
            s@.len() > 0,
            start == (if s@[0] == '+' {
                1int
            } else {
                0int
            }),
            digits == (if s@[0] == '+' {
                s@.drop_first()
            } else {
                s@
            }),
            digits =~= s@.skip(start as int),
            digits.len() == len - start,
            0 <= acc <= 255,
            spec_parse_color(s@) == spec_parse_digits(
                digits.skip(i - start),
                acc as int,
            ),
        decreases len - i,
    {
        proof {
            assert(digits.skip(i - start)[0] == digits[i - start]);
            assert(digits[i - start] == s@[i as int]);
            assert(digits.skip(i - start).drop_first() =~= digits.skip(i + 1 - start));
        }
        let c = s.get_char(i);
        let d = c as u32;
        if d < 48 || d > 57 {
            return Err(ColorParseKind::InvalidDigit);
        }
        if acc * 10 + (d - 48) > 255 {
            return Err(ColorParseKind::PosOverflow);
        }
        acc = acc * 10 + (d - 48);
        i = i + 1;
    }
    proof {
        assert(digits.skip(len - start).len() == 0);
    }
    Ok(acc as u8)
}

/// The first problem a configuration value holds, in scan order: a field of
/// the wrong JSON shape, a pattern that does not compile, or a color token
/// that does not parse.  Each case names the field path it was found at.
pub enum ConfigIssue {
    Shape(Seq<char>, JsonType),
    BadRegex(Seq<char>),
    BadColor(Seq<char>, ColorParseKind),
}

/// Whether the error `e` reports the problem `issue`: same failure, same
/// field path, and for a color failure the same parse failure; the message
/// of a regex compilation error is not constrained.
pub open spec fn error_matches(e: ConfigError, issue: ConfigIssue) -> bool {
    match issue {
        ConfigIssue::Shape(f, t) => e matches ConfigError::JsonType(name, ty) && name@ == f && ty
            == t,
        ConfigIssue::BadRegex(f) => e matches ConfigError::Regex(name, _) && name@ == f,
        ConfigIssue::BadColor(f, k) => e matches ConfigError::ParseInt(name, kind) && name@ == f
            && kind == k,
    }
}

/// The shared pattern prefix of a configuration: the `prefix` field's text,
/// the empty prefix when the field is absent, and a shape error otherwise.
pub open spec fn spec_config_prefix(v: JsonValue) -> Result<Seq<char>, ConfigIssue> {
    match json_get(v, "prefix"@) {
        JsonValue::Str(p) => Ok(p@),
        JsonValue::Null => Ok(Seq::empty()),
        _ => Err(ConfigIssue::Shape("prefix"@, JsonType::Str)),
    }
}

/// The full pattern compiled for `item`'s field `key`: the prefix followed
/// by the field's text.  The field must be a string and the result must be
/// a valid regular expression; `field` is the path reported on failure.
pub open spec fn spec_pattern(
    item: JsonValue,
    key: Seq<char>,
    field: Seq<char>,
    prefix: Seq<char>,
) -> Result<Seq<char>, ConfigIssue> {
    match json_get(item, key) {
        JsonValue::Str(p) => if regex_valid(prefix + p@) {
            Ok(prefix + p@)
        } else {
            Err(ConfigIssue::BadRegex(field))
        },
        _ => Err(ConfigIssue::Shape(field, JsonType::Str)),
    }
}

/// `item`'s required `color` field: a string token parsed as a 0–255
/// decimal value; `field` is the path reported on failure.
pub open spec fn spec_required_color(item: JsonValue, field: Seq<char>) -> Result<
    u8,
    ConfigIssue,
> {
    match json_get(item, "color"@) {
        JsonValue::Str(s) => match spec_parse_color(s@) {
            Ok(c) => Ok(c),
            Err(k) => Err(ConfigIssue::BadColor(field, k)),
        },
        _ => Err(ConfigIssue::Shape(field, JsonType::Str)),
    }
}

/// `item`'s optional `color` field: as [`spec_required_color`], except that
/// an absent field means no color.
pub open spec fn spec_opt_color(item: JsonValue, field: Seq<char>) -> Result<
    Option<u8>,
    ConfigIssue,
> {
    match json_get(item, "color"@) {
        JsonValue::Str(s) => match spec_parse_color(s@) {
            Ok(c) => Ok(Some(c)),
            Err(k) => Err(ConfigIssue::BadColor(field, k)),
        },
        JsonValue::Null => Ok(None),
        _ => Err(ConfigIssue::Shape(field, JsonType::Str)),
    }
}

/// `item`'s optional `group` field: a capture group index, 0 (the whole
/// match) when the field is absent.  Any number that is not an unsigned
/// integer the machine can index with is a shape error.
pub open spec fn spec_group(item: JsonValue) -> Result<int, ConfigIssue> {
    match json_get(item, "group"@) {
        JsonValue::Nat(n) => if n <= usize::MAX as u64 {
            Ok(n as int)
        } else {
            Err(ConfigIssue::Shape("state_patterns.group"@, JsonType::Num))
        },
        JsonValue::Null => Ok(0),
        _ => Err(ConfigIssue::Shape("state_patterns.group"@, JsonType::Num)),
    }
}

/// The pattern/color rules of the `pattern_colors` items, in order, each as
/// its full pattern text and color; or the first problem among them.
pub open spec fn spec_pattern_color_items(items: Seq<JsonValue>, prefix: Seq<char>) -> Result<
    Seq<(Seq<char>, u8)>,
    ConfigIssue,
>
    decreases items.len(),
{
    if items.len() == 0 {
        Ok(Seq::empty())
    } else {
        match spec_pattern(items[0], "pattern"@, "pattern_colors.pattern"@, prefix) {
            Err(issue) => Err(issue),
            Ok(full) => match spec_required_color(items[0], "pattern_colors.color"@) {
                Err(issue) => Err(issue),
                Ok(c) => match spec_pattern_color_items(items.drop_first(), prefix) {
                    Err(issue) => Err(issue),
                    Ok(rest) => Ok(seq![(full, c)] + rest),
                },
            },
        }
    }
}

/// The event rules of the `event_patterns` items, in order, each as its
/// full start pattern, full end pattern and optional color; or the first
/// problem among them.
pub open spec fn spec_event_items(items: Seq<JsonValue>, prefix: Seq<char>) -> Result<
    Seq<(Seq<char>, Seq<char>, Option<u8>)>,
    ConfigIssue,
>
    decreases items.len(),
{
    if items.len() == 0 {
        Ok(Seq::empty())
    } else {
        match spec_pattern(items[0], "start_pattern"@, "event_patterns.start_pattern"@, prefix) {
            Err(issue) => Err(issue),
            Ok(start) => match spec_pattern(
                items[0],
                "end_pattern"@,
                "event_patterns.end_pattern"@,
                prefix,
            ) {
                Err(issue) => Err(issue),
                Ok(end) => match spec_opt_color(items[0], "event_patterns.color"@) {
                    Err(issue) => Err(issue),
                    Ok(color) => match spec_event_items(items.drop_first(), prefix) {
                        Err(issue) => Err(issue),
                        Ok(rest) => Ok(seq![(start, end, color)] + rest),
                    },
                },
            },
        }
    }
}

/// The state rules of the `state_patterns` items, in order, each as its
/// full pattern text, capture group and optional color; or the first
/// problem among them.
pub open spec fn spec_state_items(items: Seq<JsonValue>, prefix: Seq<char>) -> Result<
    Seq<(Seq<char>, int, Option<u8>)>,
    ConfigIssue,
>
    decreases items.len(),
{
    if items.len() == 0 {
        Ok(Seq::empty())
    } else {
        match spec_pattern(items[0], "pattern"@, "state_patterns.pattern"@, prefix) {
            Err(issue) => Err(issue),
            Ok(full) => match spec_group(items[0]) {
                Err(issue) => Err(issue),
                Ok(group) => match spec_opt_color(items[0], "state_patterns.color"@) {
                    Err(issue) => Err(issue),
                    Ok(color) => match spec_state_items(items.drop_first(), prefix) {
                        Err(issue) => Err(issue),
                        Ok(rest) => Ok(seq![(full, group, color)] + rest),
                    },
                },
            },
        }
    }
}

/// The abstract content of a built configuration: every rule reduced to its
/// pattern text and plain fields.
#[verifier::ext_equal]
pub struct ConfigView {
    pub pattern_colors: Option<Seq<(Seq<char>, u8)>>,
    pub events: Seq<(Seq<char>, Seq<char>, Option<u8>)>,
    pub states: Seq<(Seq<char>, int, Option<u8>)>,
}

/// What building a configuration from `v` yields: the typed rule lists, or
/// the first problem found scanning `prefix`, then `pattern_colors`, then
/// `event_patterns`, then `state_patterns`, each in item order.  An absent
/// section means no rules of that kind.
pub open spec fn spec_config(v: JsonValue) -> Result<ConfigView, ConfigIssue> {
    match spec_config_prefix(v) {
        Err(issue) => Err(issue),
        Ok(prefix) => {
            let pc = match json_get(v, "pattern_colors"@) {
                JsonValue::Arr(items) => match spec_pattern_color_items(items@, prefix) {
                    Ok(s) => Ok(Some(s)),
                    Err(issue) => Err(issue),
                },
                JsonValue::Null => Ok(None),
                _ => Err(ConfigIssue::Shape("pattern_colors"@, JsonType::Arr)),
            };
            match pc {
                Err(issue) => Err(issue),
                Ok(pcv) => {
                    let ev = match json_get(v, "event_patterns"@) {
                        JsonValue::Arr(items) => spec_event_items(items@, prefix),
                        JsonValue::Null => Ok(Seq::empty()),
                        _ => Err(ConfigIssue::Shape("event_patterns"@, JsonType::Arr)),
                    };
                    match ev {
                        Err(issue) => Err(issue),
                        Ok(evv) => {
                            let st = match json_get(v, "state_patterns"@) {
                                JsonValue::Arr(items) => spec_state_items(items@, prefix),
                                JsonValue::Null => Ok(Seq::empty()),
                                _ => Err(ConfigIssue::Shape("state_patterns"@, JsonType::Arr)),
                            };
                            match st {
                                Err(issue) => Err(issue),
                                Ok(stv) => Ok(
                                    ConfigView {
                                        pattern_colors: pcv,
                                        events: evv,
                                        states: stv,
                                    },
                                ),
                            }
                        },
                    }
                },
            }
        },
    }
}

/// The typed rule lists a configuration resolves to: pattern/color rules
/// for one colorizer (absent when the section is), event rules and state
/// rules.
#[derive(Debug)]
pub struct Config {
    pub pattern_colors: Option<Vec<PatternColor>>,
    pub events: Vec<EventPatterns>,
    pub states: Vec<StateProcessor>,
}

/// The abstract content of one pattern/color rule.
pub open spec fn pattern_color_view(pc: PatternColor) -> (Seq<char>, u8) {
    (pc.regex@, pc.color)
}

/// The abstract content of a list of pattern/color rules.
pub open spec fn pattern_colors_view(s: Seq<PatternColor>) -> Seq<(Seq<char>, u8)> {
    s.map_values(|pc: PatternColor| pattern_color_view(pc))
}

/// The abstract content of one event rule.
pub open spec fn event_view(e: EventPatterns) -> (Seq<char>, Seq<char>, Option<u8>) {
    (e.start_regex@, e.end_regex@, e.color)
}

/// The abstract content of a list of event rules.
pub open spec fn events_view(s: Seq<EventPatterns>) -> Seq<(Seq<char>, Seq<char>, Option<u8>)> {
    s.map_values(|e: EventPatterns| event_view(e))
}

/// The abstract content of one state rule.
pub open spec fn state_view(s: StateProcessor) -> (Seq<char>, int, Option<u8>) {
    (s.regex@, s.group as int, s.color)
}

/// The abstract content of a list of state rules.
pub open spec fn states_view(s: Seq<StateProcessor>) -> Seq<(Seq<char>, int, Option<u8>)> {
    s.map_values(|sp: StateProcessor| state_view(sp))
}

impl View for Config {
    type V = ConfigView;

    open spec fn view(&self) -> ConfigView {
        ConfigView {
            pattern_colors: match self.pattern_colors {
                Some(v) => Some(pattern_colors_view(v@)),
                None => None,
            },
            events: events_view(self.events@),
            states: states_view(self.states@),
        }
    }
}

/// Reads `item`'s field `key` as a pattern and compiles it with the shared
/// prefix in front; `field` is the path reported on failure.
fn parse_pattern_field(item: &JsonValue, key: &str, field: &str, prefix: &str) -> (r: Result<
    CompiledPattern,
    ConfigError,
>)
    ensures
        match spec_pattern(*item, key@, field@, prefix@) {
            Ok(full) => r matches Ok(cp) && cp@ == full,
            Err(issue) => r matches Err(e) && error_matches(e, issue),
        },
{
    match item.get(key) {
        Some(JsonValue::Str(p)) => {
            let mut full: String = prefix.to_owned();
            full.append(p.as_str());
            match CompiledPattern::new(full.as_str()) {
                Ok(cp) => Ok(cp),
                Err(msg) => Err(ConfigError::Regex(field.to_owned(), msg)),
            }
        },
        _ => Err(ConfigError::JsonType(field.to_owned(), JsonType::Str)),
    }
}

/// Reads `item`'s required `color` field; `field` is the path reported on
/// failure.
fn parse_required_color(item: &JsonValue, field: &str) -> (r: Result<u8, ConfigError>)
    ensures
        match spec_required_color(*item, field@) {
            Ok(c) => r == Ok::<u8, ConfigError>(c),
            Err(issue) => r matches Err(e) && error_matches(e, issue),
        },
{
    match item.get("color") {
        Some(JsonValue::Str(s)) => match parse_color(s.as_str()) {
            Ok(c) => Ok(c),
            Err(k) => Err(ConfigError::ParseInt(field.to_owned(), k)),
        },
        _ => Err(ConfigError::JsonType(field.to_owned(), JsonType::Str)),
    }
}

/// Reads `item`'s optional `color` field; `field` is the path reported on
/// failure.
fn parse_opt_color(item: &JsonValue, field: &str) -> (r: Result<Option<u8>, ConfigError>)
    ensures
        match spec_opt_color(*item, field@) {
            Ok(c) => r == Ok::<Option<u8>, ConfigError>(c),
            Err(issue) => r matches Err(e) && error_matches(e, issue),
        },
{
    match item.get("color") {
        Some(JsonValue::Str(s)) => match parse_color(s.as_str()) {
            Ok(c) => Ok(Some(c)),
            Err(k) => Err(ConfigError::ParseInt(field.to_owned(), k)),
        },
        Some(JsonValue::Null) | None => Ok(None),
        Some(_) => Err(ConfigError::JsonType(field.to_owned(), JsonType::Str)),
    }
}

/// Parses one `pattern_colors` item into a rule.
fn parse_pattern_color_item(item: &JsonValue, prefix: &str) -> (r: Result<
    PatternColor,
    ConfigError,
>)
    ensures
        match spec_pattern(*item, "pattern"@, "pattern_colors.pattern"@, prefix@) {
            Ok(full) => match spec_required_color(*item, "pattern_colors.color"@) {
                Ok(c) => r matches Ok(pc) && pattern_color_view(pc) == (full, c),
                Err(issue) => r matches Err(e) && error_matches(e, issue),
            },
            Err(issue) => r matches Err(e) && error_matches(e, issue),
        },
{
    let regex = match parse_pattern_field(item, "pattern", "pattern_colors.pattern", prefix) {
        Ok(cp) => cp,
        Err(e) => {
            return Err(e);
        },
    };
    let color = match parse_required_color(item, "pattern_colors.color") {
        Ok(c) => c,
        Err(e) => {
            return Err(e);
        },
    };
    Ok(PatternColor { regex, color })
}

/// Parses one `event_patterns` item into a rule.
fn parse_event_item(item: &JsonValue, prefix: &str) -> (r: Result<EventPatterns, ConfigError>)
    ensures
        match spec_pattern(*item, "start_pattern"@, "event_patterns.start_pattern"@, prefix@) {
            Ok(start) => match spec_pattern(
                *item,
                "end_pattern"@,
                "event_patterns.end_pattern"@,
                prefix@,
            ) {
                Ok(end) => match spec_opt_color(*item, "event_patterns.color"@) {
                    Ok(color) => r matches Ok(e) && event_view(e) == (start, end, color),
                    Err(issue) => r matches Err(e) && error_matches(e, issue),
                },
                Err(issue) => r matches Err(e) && error_matches(e, issue),
            },
            Err(issue) => r matches Err(e) && error_matches(e, issue),
        },
{
    let start_regex = match parse_pattern_field(
        item,
        "start_pattern",
        "event_patterns.start_pattern",
        prefix,
    ) {
        Ok(cp) => cp,
        Err(e) => {
            return Err(e);
        },
    };
    let end_regex = match parse_pattern_field(
        item,
        "end_pattern",
        "event_patterns.end_pattern",
        prefix,
    ) {
        Ok(cp) => cp,
        Err(e) => {
            return Err(e);
        },
    };
    let color = match parse_opt_color(item, "event_patterns.color") {
        Ok(c) => c,
        Err(e) => {
            return Err(e);
        },
    };
    Ok(EventPatterns { start_regex, end_regex, color })
}

/// Parses one `state_patterns` item into a rule.
fn parse_state_item(item: &JsonValue, prefix: &str) -> (r: Result<StateProcessor, ConfigError>)
    ensures
        match spec_pattern(*item, "pattern"@, "state_patterns.pattern"@, prefix@) {
            Ok(full) => match spec_group(*item) {
                Ok(group) => match spec_opt_color(*item, "state_patterns.color"@) {
                    Ok(color) => r matches Ok(sp) && state_view(sp) == (full, group, color),
                    Err(issue) => r matches Err(e) && error_matches(e, issue),
                },
                Err(issue) => r matches Err(e) && error_matches(e, issue),
            },
            Err(issue) => r matches Err(e) && error_matches(e, issue),
        },
{
    let regex = match parse_pattern_field(item, "pattern", "state_patterns.pattern", prefix) {
        Ok(cp) => cp,
        Err(e) => {
            return Err(e);
        },
    };
    let group: usize = match item.get("group") {
        Some(JsonValue::Nat(n)) => {
            if *n <= usize::MAX as u64 {
                *n as usize
            } else {
                return Err(ConfigError::JsonType("state_patterns.group".to_owned(), JsonType::Num));
            }
        },
        Some(JsonValue::Null) | None => 0,
        Some(_) => {
            return Err(ConfigError::JsonType("state_patterns.group".to_owned(), JsonType::Num));
        },
    };
    let color = match parse_opt_color(item, "state_patterns.color") {
        Ok(c) => c,
        Err(e) => {
            return Err(e);
        },
    };
    Ok(StateProcessor::with_group(regex, group, color))
}

/// Parses the `pattern_colors` items in order, stopping at the first
/// problem.
fn parse_pattern_colors(items: &Vec<JsonValue>, prefix: &str) -> (r: Result<
    Vec<PatternColor>,
    ConfigError,
>)
    ensures
        match spec_pattern_color_items(items@, prefix@) {
            Ok(s) => r matches Ok(v) && pattern_colors_view(v@) == s,
            Err(issue) => r matches Err(e) && error_matches(e, issue),
        },
{
    let mut acc: Vec<PatternColor> = Vec::new();
    let n = items.len();
    let mut i: usize = 0;
    proof {
        assert(items@.skip(0) =~= items@);
        assert(pattern_colors_view(acc@) =~= Seq::<(Seq<char>, u8)>::empty());
    }
    while i < n
        invariant
            i <= n,
            n == items@.len(),
            spec_pattern_color_items(items@, prefix@) == (match spec_pattern_color_items(
                items@.skip(i as int),
                prefix@,
            ) {
                Ok(rest) => Ok(pattern_colors_view(acc@) + rest),
                Err(issue) => Err::<Seq<(Seq<char>, u8)>, ConfigIssue>(issue),
            }),
        decreases n - i,
    {
        proof {
            assert(items@.skip(i as int)[0] == items@[i as int]);
            assert(items@.skip(i as int).drop_first() =~= items@.skip(i + 1));
        }
        let ghost accv = pattern_colors_view(acc@);
        match parse_pattern_color_item(&items[i], prefix) {
            Ok(pc) => {
                acc.push(pc);
                proof {
                    assert(pattern_colors_view(acc@) =~= accv.push(pattern_color_view(pc)));
                    match spec_pattern_color_items(items@.skip(i + 1), prefix@) {
                        Ok(rest) => {
                            assert(accv + (seq![pattern_color_view(pc)] + rest) =~= accv.push(
                                pattern_color_view(pc),
                            ) + rest);
                        },
                        Err(_) => {},
                    }
                }
            },
            Err(e) => {
                return Err(e);
            },
        }
        i = i + 1;
    }
    proof {
        assert(items@.skip(n as int).len() == 0);
        assert(pattern_colors_view(acc@) + Seq::<(Seq<char>, u8)>::empty() =~= pattern_colors_view(
            acc@,
        ));
    }
    Ok(acc)
}

/// Parses the `event_patterns` items in order, stopping at the first
/// problem.
fn parse_events(items: &Vec<JsonValue>, prefix: &str) -> (r: Result<Vec<EventPatterns>, ConfigError>)
    ensures
        match spec_event_items(items@, prefix@) {
            Ok(s) => r matches Ok(v) && events_view(v@) == s,
            Err(issue) => r matches Err(e) && error_matches(e, issue),
        },
{
    let mut acc: Vec<EventPatterns> = Vec::new();
    let n = items.len();
    let mut i: usize = 0;
    proof {
        assert(items@.skip(0) =~= items@);
        assert(events_view(acc@) =~= Seq::<(Seq<char>, Seq<char>, Option<u8>)>::empty());
    }
    while i < n
        invariant
            i <= n,
            n == items@.len(),
            spec_event_items(items@, prefix@) == (match spec_event_items(
                items@.skip(i as int),
                prefix@,
            ) {
                Ok(rest) => Ok(events_view(acc@) + rest),
                Err(issue) => Err::<Seq<(Seq<char>, Seq<char>, Option<u8>)>, ConfigIssue>(issue),
            }),
        decreases n - i,
    {
        proof {
            assert(items@.skip(i as int)[0] == items@[i as int]);
            assert(items@.skip(i as int).drop_first() =~= items@.skip(i + 1));
        }
        let ghost accv = events_view(acc@);
        match parse_event_item(&items[i], prefix) {
            Ok(ev) => {
                acc.push(ev);
                proof {
                    assert(events_view(acc@) =~= accv.push(event_view(ev)));
                    match spec_event_items(items@.skip(i + 1), prefix@) {
                        Ok(rest) => {
                            assert(accv + (seq![event_view(ev)] + rest) =~= accv.push(
                                event_view(ev),
                            ) + rest);
                        },
                        Err(_) => {},
                    }
                }
            },
            Err(e) => {
                return Err(e);
            },
        }
        i = i + 1;
    }
    proof {
        assert(items@.skip(n as int).len() == 0);
        assert(events_view(acc@) + Seq::<(Seq<char>, Seq<char>, Option<u8>)>::empty()
            =~= events_view(acc@));
    }
    Ok(acc)
}

/// Parses the `state_patterns` items in order, stopping at the first
/// problem.
fn parse_states(items: &Vec<JsonValue>, prefix: &str) -> (r: Result<Vec<StateProcessor>, ConfigError>)
    ensures
        match spec_state_items(items@, prefix@) {
            Ok(s) => r matches Ok(v) && states_view(v@) == s,
            Err(issue) => r matches Err(e) && error_matches(e, issue),
        },
{
    let mut acc: Vec<StateProcessor> = Vec::new();
    let n = items.len();
    let mut i: usize = 0;
    proof {
        assert(items@.skip(0) =~= items@);
        assert(states_view(acc@) =~= Seq::<(Seq<char>, int, Option<u8>)>::empty());
    }
    while i < n
        invariant
            i <= n,
            n == items@.len(),
            spec_state_items(items@, prefix@) == (match spec_state_items(
                items@.skip(i as int),
                prefix@,
            ) {
                Ok(rest) => Ok(states_view(acc@) + rest),
                Err(issue) => Err::<Seq<(Seq<char>, int, Option<u8>)>, ConfigIssue>(issue),
            }),
        decreases n - i,
    {
        proof {
            assert(items@.skip(i as int)[0] == items@[i as int]);
            assert(items@.skip(i as int).drop_first() =~= items@.skip(i + 1));
        }
        let ghost accv = states_view(acc@);
        match parse_state_item(&items[i], prefix) {
            Ok(sp) => {
                acc.push(sp);
                proof {
                    assert(states_view(acc@) =~= accv.push(state_view(sp)));
                    match spec_state_items(items@.skip(i + 1), prefix@) {
                        Ok(rest) => {
                            assert(accv + (seq![state_view(sp)] + rest) =~= accv.push(
                                state_view(sp),
                            ) + rest);
                        },
                        Err(_) => {},
                    }
                }
            },
            Err(e) => {
                return Err(e);
            },
        }
        i = i + 1;
    }
    proof {
        assert(items@.skip(n as int).len() == 0);
        assert(states_view(acc@) + Seq::<(Seq<char>, int, Option<u8>)>::empty() =~= states_view(
            acc@,
        ));
    }
    Ok(acc)
}

impl Config {
    /// Builds the typed rule lists from an already-parsed configuration
    /// value: resolves the shared prefix, then each section in order,
    /// reporting the first shape, regex or color problem with its field
    /// path.  Absent sections default to no rules.
    pub fn from_json_value(json_value: &JsonValue) -> (r: Result<Config, ConfigError>)
        ensures
            match spec_config(*json_value) {
                Ok(cv) => r matches Ok(c) && c@ == cv,
                Err(issue) => r matches Err(e) && error_matches(e, issue),
            },
    {
        let prefix: String = match json_value.get("prefix") {
            Some(JsonValue::Str(p)) => p.clone(),
            Some(JsonValue::Null) | None => String::new(),
            Some(_) => {
                return Err(ConfigError::JsonType("prefix".to_owned(), JsonType::Str));
            },
        };
        let pattern_colors: Option<Vec<PatternColor>> = match json_value.get("pattern_colors") {
            Some(JsonValue::Arr(items)) => match parse_pattern_colors(items, prefix.as_str()) {
                Ok(v) => Some(v),
                Err(e) => {
                    return Err(e);
                },
            },
            Some(JsonValue::Null) | None => None,
            Some(_) => {
                return Err(ConfigError::JsonType("pattern_colors".to_owned(), JsonType::Arr));
            },
        };
        let events: Vec<EventPatterns> = match json_value.get("event_patterns") {
            Some(JsonValue::Arr(items)) => match parse_events(items, prefix.as_str()) {
                Ok(v) => v,
                Err(e) => {
                    return Err(e);
                },
            },
            Some(JsonValue::Null) | None => Vec::new(),
            Some(_) => {
                return Err(ConfigError::JsonType("event_patterns".to_owned(), JsonType::Arr));
            },
        };
        let states: Vec<StateProcessor> = match json_value.get("state_patterns") {
            Some(JsonValue::Arr(items)) => match parse_states(items, prefix.as_str()) {
                Ok(v) => v,
                Err(e) => {
                    return Err(e);
                },
            },
            Some(JsonValue::Null) | None => Vec::new(),
            Some(_) => {
                return Err(ConfigError::JsonType("state_patterns".to_owned(), JsonType::Arr));
            },
        };
        let c = Config { pattern_colors, events, states };
        proof {
            if events@.len() == 0 {
                assert(events_view(events@) =~= Seq::<(Seq<char>, Seq<char>, Option<u8>)>::empty());
            }
            if states@.len() == 0 {
                assert(states_view(states@) =~= Seq::<(Seq<char>, int, Option<u8>)>::empty());
            }
            match spec_config(*json_value) {
                Ok(cv) => {
                    assert(c@ =~= cv);
                },
                Err(_) => {},
            }
        }
        Ok(c)
    }

    /// Parses JSON text and builds the configuration from it: a syntax
    /// error in the text is reported as a JSON parse error, and everything
    /// else as [`Config::from_json_value`] reports it.
    pub fn from_json_str(json_str: &str) -> (r: Result<Config, ConfigError>)
        ensures
            match json_parsed(json_str@) {
                Some(v) => match spec_config(v) {
                    Ok(cv) => r matches Ok(c) && c@ == cv,
                    Err(issue) => r matches Err(e) && error_matches(e, issue),
                },
                None => r matches Err(e) && e matches ConfigError::JsonParse(_),
            },
    {
        match parse_json(json_str) {
            Ok(v) => Config::from_json_value(&v),
            Err(msg) => Err(ConfigError::JsonParse(msg)),
        }
    }
}

/// Config defaulting: an empty configuration object resolves successfully,
/// to no prefix, no color rules, no event rules and no state rules.
pub proof fn lemma_empty_config_defaults(v: JsonValue)
    requires
        v matches JsonValue::Obj(entries) && entries@.len() == 0,
    ensures
        spec_config(v) == Ok::<ConfigView, ConfigIssue>(
            (ConfigView { pattern_colors: None, events: Seq::empty(), states: Seq::empty() }),
        ),
{
    assert(json_get(v, "prefix"@) == JsonValue::Null);
    assert(json_get(v, "pattern_colors"@) == JsonValue::Null);
    assert(json_get(v, "event_patterns"@) == JsonValue::Null);
    assert(json_get(v, "state_patterns"@) == JsonValue::Null);
}

} // verus!
