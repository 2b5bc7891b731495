//! The per-line processors.
//!
//! Three processors share one shape: offered a line, each decides to emit
//! zero or one annotated output.  `Colorize` always emits the line painted
//! with the most recently matched rule color; `EventProcessor` accumulates
//! the lines of a start/end-delimited span and emits them as one block when
//! the span closes; `StateProcessor` emits a marker for every line its
//! pattern matches.  Each processor owns its state exclusively and mutates
//! it only inside its own `process_line`.

use vstd::prelude::*;
use vstd::string::StringExecFns;

use crate::pattern::{
    painted, regex_captured, regex_matches, paint, CompiledPattern,
};

verus! {

/// The capability shared by all processors: offered one line, emit at most
/// one annotated output.  Multi-line output (`requires_separator`) is set
/// apart visually by the pipeline, and `result` is a trailing-summary hook
/// that none of the processors here uses.
pub trait Processor {
    fn process_line(&mut self, line: &str) -> Option<String>;

    fn requires_separator(&self) -> bool;

    fn result(&self) -> Option<String>;
}

/// The view of an optional owned string.
pub open spec fn opt_str_view(o: Option<String>) -> Option<Seq<char>> {
    match o {
        Some(s) => Some(s@),
        None => None,
    }
}

/// `text` annotated with `color` when one is given, or left plain.
pub open spec fn colored_or_plain(color: Option<u8>, text: Seq<char>) -> Seq<char> {
    match color {
        Some(c) => painted(Some(c), text),
        None => text,
    }
}

/// Annotates `text` with `color` when one is given, or returns it plain.
pub(crate) fn color_or_plain(color: Option<u8>, text: String) -> (r: String)
    ensures
        r@ == colored_or_plain(color, text@),
{
    match color {
        Some(c) => paint(Some(c), text.as_str()),
        None => text,
    }
}

/// One ordered rule: a pattern and the color of the lines it claims.
#[derive(Debug)]
pub struct PatternColor {
    pub regex: CompiledPattern,
    pub color: u8,
}

/// An ordered list of pattern/color rules; the order is significant, since
/// the first matching rule wins.
#[derive(Debug)]
pub struct PatternColors(pub Vec<PatternColor>);

/// The color of the first rule in `rules` whose pattern matches `line`, or
/// `None` when no rule matches.
pub open spec fn find_color_spec(rules: Seq<PatternColor>, line: Seq<char>) -> Option<u8>
    decreases rules.len(),
{
    if rules.len() == 0 {
        None
    } else if regex_matches(rules[0].regex@, line) {
        Some(rules[0].color)
    } else {
        find_color_spec(rules.drop_first(), line)
    }
}

impl PatternColors {
    /// Scans the rules in configured order and returns the color of the
    /// first rule whose pattern matches anywhere in `line`.
    pub fn find_color_for_pattern(&self, line: &str) -> (r: Option<u8>)
        ensures
            r == find_color_spec(self.0@, line@),
    {
        let n = self.0.len();
        let mut i: usize = 0;
        proof {
            assert(self.0@.skip(0) =~= self.0@);
        }
        while i < n
            invariant
                i <= n,
                n == self.0@.len(),
                find_color_spec(self.0@, line@) == find_color_spec(
                    self.0@.skip(i as int),
                    line@,
                ),
            decreases n - i,
        {
            proof {
                assert(self.0@.skip(i as int)[0] == self.0@[i as int]);
                assert(self.0@.skip(i as int).drop_first() =~= self.0@.skip(i + 1));
            }
            if self.0[i].regex.is_match(line) {
                return Some(self.0[i].color);
            }
            i = i + 1;
        }
        None
    }
}

/// The color state after one line: the first matching rule's color when one
/// matches, otherwise the color carried over from earlier lines.
pub open spec fn next_color(cur: Option<u8>, rules: Seq<PatternColor>, line: Seq<char>) -> Option<
    u8,
> {
    match find_color_spec(rules, line) {
        Some(c) => Some(c),
        None => cur,
    }
}

/// A stateful processor that paints every line with the color of the most
/// recently matched rule, or with the default white before any rule has
/// matched.
#[derive(Debug)]
pub struct Colorize {
    pub pattern_colors: PatternColors,
    pub current_color: Option<u8>,
}

impl Colorize {
    /// A fresh colorizer over `pattern_colors`, with no color seen yet.
    pub fn new(pattern_colors: PatternColors) -> (r: Self)
        ensures
            r.pattern_colors == pattern_colors,
            r.current_color is None,
    {
        Colorize { pattern_colors, current_color: None }
    }

    /// Offers one line: updates the persistent color when a rule matches,
    /// and always emits the line painted with the current color (or the
    /// default white when none has been seen).
    pub fn process_line(&mut self, line: &str) -> (r: Option<String>)
        ensures
            final(self).pattern_colors == old(self).pattern_colors,
            final(self).current_color == next_color(
                old(self).current_color,
                old(self).pattern_colors.0@,
                line@,
            ),
            r matches Some(s) && s@ == painted(final(self).current_color, line@),
    {
        match self.pattern_colors.find_color_for_pattern(line) {
            Some(color) => {
                self.current_color = Some(color);
            },
            None => {},
        }
        Some(paint(self.current_color, line))
    }

    /// The trailing-summary hook: a colorizer aggregates no summary.
    pub fn result(&self) -> (r: Option<String>)
        ensures
            r is None,
    {
        None
    }
}

impl Processor for Colorize {
    fn process_line(&mut self, line: &str) -> Option<String> {
        self.process_line(line)
    }

    fn requires_separator(&self) -> bool {
        false
    }

    fn result(&self) -> Option<String> {
        None
    }
}

/// The rules of one event extractor: where a span starts, where it ends, and
/// the color of the emitted block, if any.
#[derive(Debug)]
pub struct EventPatterns {
    pub start_regex: CompiledPattern,
    pub end_regex: CompiledPattern,
    pub color: Option<u8>,
}

/// A stateful processor that accumulates the lines from a start-pattern
/// match to the next end-pattern match and emits them as one multi-line
/// event.  A span still open when the input ends is silently dropped, and a
/// start match seen while a span is already open is ordinary span content,
/// not a new span.
#[derive(Debug)]
pub struct EventProcessor {
    pub event_patterns: EventPatterns,
    pub current_event: Option<String>,
}

/// `line` with a trailing newline, as it is accumulated into a span.
pub open spec fn with_newline(line: Seq<char>) -> Seq<char> {
    line + "\n"@
}

/// The pending span after one line.  While idle, a start match opens a span
/// with this line; while accumulating, an end match closes the span, and any
/// other line (a further start match included) is appended as ordinary span
/// content.
pub open spec fn event_next_pending(
    pending: Option<Seq<char>>,
    start: Seq<char>,
    end: Seq<char>,
    line: Seq<char>,
) -> Option<Seq<char>> {
    match pending {
        Some(acc) => if regex_matches(end, line) {
            None
        } else {
            Some(acc + with_newline(line))
        },
        None => if regex_matches(start, line) {
            Some(with_newline(line))
        } else {
            None
        },
    }
}

/// What one line makes the extractor emit: the labeled full span, annotated
/// with the rule color if one is given, exactly when the line closes an open
/// span.
pub open spec fn event_emitted(
    pending: Option<Seq<char>>,
    end: Seq<char>,
    color: Option<u8>,
    line: Seq<char>,
) -> Option<Seq<char>> {
    match pending {
        Some(acc) => if regex_matches(end, line) {
            Some(colored_or_plain(color, "Event:\n"@ + acc + with_newline(line)))
        } else {
            None
        },
        None => None,
    }
}

impl EventProcessor {
    /// A fresh extractor over `event_patterns`, with no span open.
    pub fn new(event_patterns: EventPatterns) -> (r: Self)
        ensures
            r.event_patterns == event_patterns,
            r.current_event is None,
    {
        EventProcessor { event_patterns, current_event: None }
    }

    /// Offers one line and applies the span state machine: open on a start
    /// match, accumulate while open, emit and close on an end match.
    pub fn process_line(&mut self, line: &str) -> (r: Option<String>)
        ensures
            final(self).event_patterns == old(self).event_patterns,
            opt_str_view(final(self).current_event) == event_next_pending(
                opt_str_view(old(self).current_event),
                old(self).event_patterns.start_regex@,
                old(self).event_patterns.end_regex@,
                line@,
            ),
            opt_str_view(r) == event_emitted(
                opt_str_view(old(self).current_event),
                old(self).event_patterns.end_regex@,
                old(self).event_patterns.color,
                line@,
            ),
    {
        let mut pending: Option<String> = None;
        core::mem::swap(&mut self.current_event, &mut pending);
        match pending {
            Some(mut acc) => {
                if self.event_patterns.end_regex.is_match(line) {
                    let mut text: String = "Event:\n".to_owned();
                    text.append(acc.as_str());
                    text.append(line);
                    text.append("\n");
                    proof {
                        assert(text@ =~= "Event:\n"@ + acc@ + with_newline(line@));
                    }
                    Some(color_or_plain(self.event_patterns.color, text))
                } else {
                    acc.append(line);
                    acc.append("\n");
                    self.current_event = Some(acc);
                    None
                }
            },
            None => {
                if self.event_patterns.start_regex.is_match(line) {
                    let mut opened: String = line.to_owned();
                    opened.append("\n");
                    self.current_event = Some(opened);
                }
                None
            },
        }
    }

    /// The trailing-summary hook: an event extractor aggregates no summary.
    pub fn result(&self) -> (r: Option<String>)
        ensures
            r is None,
    {
        None
    }
}

impl Processor for EventProcessor {
    fn process_line(&mut self, line: &str) -> Option<String> {
        self.process_line(line)
    }

    fn requires_separator(&self) -> bool {
        true
    }

    fn result(&self) -> Option<String> {
        None
    }
}

/// A stateless processor that emits a `State: ` marker whenever its pattern
/// matches a line, carrying the whole match or one capture group of it.  A
/// group index that is out of range for the pattern is treated like a group
/// that did not participate in the match: the marker is simply not emitted.
#[derive(Debug)]
pub struct StateProcessor {
    pub regex: CompiledPattern,
    pub group: usize,
    pub color: Option<u8>,
}

/// What one line makes the state extractor emit: a marker holding the text
/// of capture group `group` (group 0 is the whole match), annotated with
/// `color` when one is given; nothing when the pattern does not match or the
/// group did not participate.
pub open spec fn state_output(
    pattern: Seq<char>,
    group: int,
    color: Option<u8>,
    line: Seq<char>,
) -> Option<Seq<char>> {
    match regex_captured(pattern, line, group) {
        Some(text) => Some(colored_or_plain(color, "State: "@ + text + "\n"@)),
        None => None,
    }
}

impl StateProcessor {
    /// A state extractor that reports the whole matched substring.
    pub fn new(regex: CompiledPattern, color: Option<u8>) -> (r: Self)
        ensures
            r == (StateProcessor { regex, group: 0, color }),
    {
        StateProcessor { regex, group: 0, color }
    }

    /// A state extractor that reports capture group `group` of each match.
    pub fn with_group(regex: CompiledPattern, group: usize, color: Option<u8>) -> (r: Self)
        ensures
            r == (StateProcessor { regex, group, color }),
    {
        StateProcessor { regex, group, color }
    }

    /// Offers one line: emits a marker when the pattern matches and the
    /// configured capture group participated in the match.
    pub fn process_line(&mut self, line: &str) -> (r: Option<String>)
        ensures
            *final(self) == *old(self),
            opt_str_view(r) == state_output(
                old(self).regex@,
                old(self).group as int,
                old(self).color,
                line@,
            ),
    {
        match self.regex.capture_text(line, self.group) {
            Some(text) => {
                let mut s: String = "State: ".to_owned();
                s.append(text.as_str());
                s.append("\n");
                proof {
                    assert(s@ =~= "State: "@ + text@ + "\n"@);
                }
                Some(color_or_plain(self.color, s))
            },
            None => None,
        }
    }

    /// The trailing-summary hook: a state extractor aggregates no summary.
    pub fn result(&self) -> (r: Option<String>)
        ensures
            r is None,
    {
        None
    }
}

impl Processor for StateProcessor {
    fn process_line(&mut self, line: &str) -> Option<String> {
        self.process_line(line)
    }

    fn requires_separator(&self) -> bool {
        false
    }

    fn result(&self) -> Option<String> {
        None
    }
}

/// First match wins: when rule `i` matches the line and no earlier rule
/// does, the resolved color is rule `i`'s — never that of a later rule,
/// even if a later rule's pattern also matches.
pub proof fn lemma_first_match_wins(rules: Seq<PatternColor>, line: Seq<char>, i: int)
    requires
        0 <= i < rules.len(),
        regex_matches(rules[i].regex@, line),
        forall|j: int| 0 <= j < i ==> !regex_matches(rules[j].regex@, line),
    ensures
        find_color_spec(rules, line) == Some(rules[i].color),
    decreases i,
{
    if i > 0 {
        let rest = rules.drop_first();
        assert(rest[i - 1] == rules[i]);
        assert forall|j: int| 0 <= j < i - 1 implies !regex_matches(
            rest[j].regex@,
            line,
        ) by {
            assert(rest[j] == rules[j + 1]);
        }
        lemma_first_match_wins(rest, line, i - 1);
    }
}

/// When no rule's pattern matches the line, no color is resolved.
pub proof fn lemma_no_rule_matches(rules: Seq<PatternColor>, line: Seq<char>)
    requires
        forall|j: int| 0 <= j < rules.len() ==> !regex_matches(rules[j].regex@, line),
    ensures
        find_color_spec(rules, line) is None,
    decreases rules.len(),
{
    if rules.len() > 0 {
        let rest = rules.drop_first();
        assert forall|j: int| 0 <= j < rest.len() implies !regex_matches(
            rest[j].regex@,
            line,
        ) by {
            assert(rest[j] == rules[j + 1]);
        }
        lemma_no_rule_matches(rest, line);
    }
}

/// The outputs of a colorizer run over `lines`, starting from color state
/// `cur`: one painted line per input line.
pub open spec fn colorize_run(
    cur: Option<u8>,
    rules: Seq<PatternColor>,
    lines: Seq<Seq<char>>,
) -> Seq<Seq<char>>
    decreases lines.len(),
{
    if lines.len() == 0 {
        Seq::empty()
    } else {
        let next = next_color(cur, rules, lines[0]);
        seq![painted(next, lines[0])] + colorize_run(next, rules, lines.drop_first())
    }
}

/// While no line resolves a color, a colorizer holding color `c` paints
/// every line with `c`.
pub proof fn lemma_colorize_steady(c: u8, rules: Seq<PatternColor>, lines: Seq<Seq<char>>)
    requires
        forall|k: int| 0 <= k < lines.len() ==> find_color_spec(rules, lines[k]) is None,
    ensures
        colorize_run(Some(c), rules, lines).len() == lines.len(),
        forall|k: int|
            0 <= k < lines.len() ==> colorize_run(Some(c), rules, lines)[k] == painted(
                Some(c),
                lines[k],
            ),
    decreases lines.len(),
{
    if lines.len() > 0 {
        let rest = lines.drop_first();
        assert forall|k: int| 0 <= k < rest.len() implies find_color_spec(
            rules,
            rest[k],
        ) is None by {
            assert(rest[k] == lines[k + 1]);
        }
        lemma_colorize_steady(c, rules, rest);
        assert(next_color(Some(c), rules, lines[0]) == Some(c));
        assert forall|k: int| 0 <= k < lines.len() implies colorize_run(Some(c), rules, lines)[k]
            == painted(Some(c), lines[k]) by {
            if k > 0 {
                assert(colorize_run(Some(c), rules, lines)[k] == colorize_run(
                    Some(c),
                    rules,
                    rest,
                )[k - 1]);
                assert(rest[k - 1] == lines[k]);
            }
        }
    }
}

/// Color persistence: in a run whose first line resolves color `c` and
/// whose later lines resolve none, every line of the run — whatever color
/// state the run started from — is painted with `c`.
pub proof fn lemma_color_persistence(
    init: Option<u8>,
    rules: Seq<PatternColor>,
    lines: Seq<Seq<char>>,
    c: u8,
)
    requires
        lines.len() >= 1,
        find_color_spec(rules, lines[0]) == Some(c),
        forall|k: int| 1 <= k < lines.len() ==> find_color_spec(rules, lines[k]) is None,
    ensures
        colorize_run(init, rules, lines).len() == lines.len(),
        forall|k: int|
            0 <= k < lines.len() ==> colorize_run(init, rules, lines)[k] == painted(
                Some(c),
                lines[k],
            ),
{
    let rest = lines.drop_first();
    assert(next_color(init, rules, lines[0]) == Some(c));
    assert forall|k: int| 0 <= k < rest.len() implies find_color_spec(rules, rest[k]) is None by {
        assert(rest[k] == lines[k + 1]);
    }
    lemma_colorize_steady(c, rules, rest);
    assert forall|k: int| 0 <= k < lines.len() implies colorize_run(init, rules, lines)[k]
        == painted(Some(c), lines[k]) by {
        if k > 0 {
            assert(colorize_run(init, rules, lines)[k] == colorize_run(
                Some(c),
                rules,
                rest,
            )[k - 1]);
            assert(rest[k - 1] == lines[k]);
        }
    }
}

/// The outputs of an event-extractor run over `lines`, starting from span
/// state `pending`: one block per span closed during the run.
pub open spec fn event_run_outputs(
    pending: Option<Seq<char>>,
    start: Seq<char>,
    end: Seq<char>,
    color: Option<u8>,
    lines: Seq<Seq<char>>,
) -> Seq<Seq<char>>
    decreases lines.len(),
{
    if lines.len() == 0 {
        Seq::empty()
    } else {
        let emitted = event_emitted(pending, end, color, lines[0]);
        let next = event_next_pending(pending, start, end, lines[0]);
        let rest = event_run_outputs(next, start, end, color, lines.drop_first());
        match emitted {
            Some(e) => seq![e] + rest,
            None => rest,
        }
    }
}

/// The span state of an event-extractor run after `lines`.
pub open spec fn event_run_pending(
    pending: Option<Seq<char>>,
    start: Seq<char>,
    end: Seq<char>,
    lines: Seq<Seq<char>>,
) -> Option<Seq<char>>
    decreases lines.len(),
{
    if lines.len() == 0 {
        pending
    } else {
        event_run_pending(
            event_next_pending(pending, start, end, lines[0]),
            start,
            end,
            lines.drop_first(),
        )
    }
}

/// Unterminated span drop: when no line of the run matches the end pattern,
/// the extractor emits nothing at all, whatever state it started from.
pub proof fn lemma_unterminated_span_drop(
    pending: Option<Seq<char>>,
    start: Seq<char>,
    end: Seq<char>,
    color: Option<u8>,
    lines: Seq<Seq<char>>,
)
    requires
        forall|k: int| 0 <= k < lines.len() ==> !regex_matches(end, lines[k]),
    ensures
        event_run_outputs(pending, start, end, color, lines).len() == 0,
    decreases lines.len(),
{
    if lines.len() > 0 {
        let rest = lines.drop_first();
        assert forall|k: int| 0 <= k < rest.len() implies !regex_matches(end, rest[k]) by {
            assert(rest[k] == lines[k + 1]);
        }
        assert(event_emitted(pending, end, color, lines[0]) is None);
        lemma_unterminated_span_drop(
            event_next_pending(pending, start, end, lines[0]),
            start,
            end,
            color,
            rest,
        );
    }
}

/// The accumulated span text of `lines`: each line with a trailing newline,
/// concatenated in order.
pub open spec fn joined_lines(lines: Seq<Seq<char>>) -> Seq<char>
    decreases lines.len(),
{
    if lines.len() == 0 {
        Seq::empty()
    } else {
        with_newline(lines[0]) + joined_lines(lines.drop_first())
    }
}

/// Span atomicity: an extractor that is accumulating `acc` and is then fed
/// lines of which only the last matches the end pattern emits exactly one
/// block — the label, the accumulated text, and every one of these lines in
/// order — and returns to the idle state.
pub proof fn lemma_span_atomicity(
    acc: Seq<char>,
    start: Seq<char>,
    end: Seq<char>,
    color: Option<u8>,
    lines: Seq<Seq<char>>,
)
    requires
        lines.len() >= 1,
        forall|k: int| 0 <= k < lines.len() - 1 ==> !regex_matches(end, lines[k]),
        regex_matches(end, lines[lines.len() - 1]),
    ensures
        event_run_outputs(Some(acc), start, end, color, lines) =~= seq![
            colored_or_plain(color, "Event:\n"@ + acc + joined_lines(lines)),
        ],
        event_run_pending(Some(acc), start, end, lines) is None,
    decreases lines.len(),
{
    let rest = lines.drop_first();
    if lines.len() == 1 {
        let e = colored_or_plain(color, "Event:\n"@ + acc + with_newline(lines[0]));
        assert(regex_matches(end, lines[0]));
        assert(event_emitted(Some(acc), end, color, lines[0]) == Some(e));
        assert(event_next_pending(Some(acc), start, end, lines[0]) is None);
        assert(rest.len() == 0);
        assert(event_run_pending(None, start, end, rest) is None);
        assert(event_run_pending(Some(acc), start, end, lines) is None);
        assert(event_run_outputs(None, start, end, color, rest) =~= Seq::<Seq<char>>::empty());
        assert(event_run_outputs(Some(acc), start, end, color, lines) =~= seq![e]);
        assert(joined_lines(rest).len() == 0);
        assert(joined_lines(lines) =~= with_newline(lines[0]));
        assert(event_run_outputs(Some(acc), start, end, color, lines) =~= seq![
            colored_or_plain(color, "Event:\n"@ + acc + joined_lines(lines)),
        ]);
    } else {
        assert(!regex_matches(end, lines[0]));
        let acc2 = acc + with_newline(lines[0]);
        assert(event_next_pending(Some(acc), start, end, lines[0]) == Some(acc2));
        assert forall|k: int| 0 <= k < rest.len() - 1 implies !regex_matches(end, rest[k]) by {
            assert(rest[k] == lines[k + 1]);
        }
        assert(rest[rest.len() - 1] == lines[lines.len() - 1]);
        lemma_span_atomicity(acc2, start, end, color, rest);
        assert("Event:\n"@ + acc2 + joined_lines(rest) =~= "Event:\n"@ + acc + joined_lines(
            lines,
        ));
    }
}

/// While the extractor is idle and no line matches the start pattern, it
/// emits nothing and stays idle.
pub proof fn lemma_event_idle(
    start: Seq<char>,
    end: Seq<char>,
    color: Option<u8>,
    lines: Seq<Seq<char>>,
)
    requires
        forall|k: int| 0 <= k < lines.len() ==> !regex_matches(start, lines[k]),
    ensures
        event_run_outputs(None, start, end, color, lines).len() == 0,
        event_run_pending(None, start, end, lines) is None,
    decreases lines.len(),
{
    if lines.len() > 0 {
        let rest = lines.drop_first();
        assert forall|k: int| 0 <= k < rest.len() implies !regex_matches(start, rest[k]) by {
            assert(rest[k] == lines[k + 1]);
        }
        lemma_event_idle(start, end, color, rest);
    }
}

/// Splitting an event-extractor run: the outputs over `a + b` are the
/// outputs over `a` followed by the outputs over `b` run from the state
/// that `a` leaves behind, and the final state composes the same way.
pub proof fn lemma_event_run_append(
    pending: Option<Seq<char>>,
    start: Seq<char>,
    end: Seq<char>,
    color: Option<u8>,
    a: Seq<Seq<char>>,
    b: Seq<Seq<char>>,
)
    ensures
        event_run_outputs(pending, start, end, color, a + b) =~= event_run_outputs(
            pending,
            start,
            end,
            color,
            a,
        ) + event_run_outputs(event_run_pending(pending, start, end, a), start, end, color, b),
        event_run_pending(pending, start, end, a + b) == event_run_pending(
            event_run_pending(pending, start, end, a),
            start,
            end,
            b,
        ),
    decreases a.len(),
{
    if a.len() == 0 {
        assert(a + b =~= b);
        assert(event_run_outputs(pending, start, end, color, a) =~= Seq::<Seq<char>>::empty());
        assert(event_run_outputs(pending, start, end, color, a) + event_run_outputs(
            pending,
            start,
            end,
            color,
            b,
        ) =~= event_run_outputs(pending, start, end, color, b));
    } else {
        let next = event_next_pending(pending, start, end, a[0]);
        assert((a + b)[0] == a[0]);
        assert((a + b).drop_first() =~= a.drop_first() + b);
        lemma_event_run_append(next, start, end, color, a.drop_first(), b);
        match event_emitted(pending, end, color, a[0]) {
            Some(e) => {
                assert(seq![e] + (event_run_outputs(next, start, end, color, a.drop_first())
                    + event_run_outputs(
                    event_run_pending(next, start, end, a.drop_first()),
                    start,
                    end,
                    color,
                    b,
                )) =~= (seq![e] + event_run_outputs(next, start, end, color, a.drop_first()))
                    + event_run_outputs(
                    event_run_pending(next, start, end, a.drop_first()),
                    start,
                    end,
                    color,
                    b,
                ));
            },
            None => {},
        }
    }
}

/// Span atomicity over a whole run from the idle state: when no line before
/// the span matches the start pattern, the span opens at `s` and closes at
/// the first end match `e`, and no line after the span matches the start
/// pattern, the run emits exactly one block — the span's lines, labeled, in
/// order — and ends idle.
pub proof fn lemma_single_span_run(
    start: Seq<char>,
    end: Seq<char>,
    color: Option<u8>,
    lines: Seq<Seq<char>>,
    s: int,
    e: int,
)
    requires
        0 <= s < e < lines.len(),
        forall|k: int| 0 <= k < s ==> !regex_matches(start, lines[k]),
        regex_matches(start, lines[s]),
        forall|k: int| s < k < e ==> !regex_matches(end, lines[k]),
        regex_matches(end, lines[e]),
        forall|k: int| e < k < lines.len() ==> !regex_matches(start, lines[k]),
    ensures
        event_run_outputs(None, start, end, color, lines) =~= seq![
            colored_or_plain(color, "Event:\n"@ + joined_lines(lines.subrange(s, e + 1))),
        ],
        event_run_pending(None, start, end, lines) is None,
{
    let pre = lines.subrange(0, s);
    let from_span = lines.skip(s);
    assert(lines =~= pre + from_span);
    assert forall|k: int| 0 <= k < pre.len() implies !regex_matches(start, pre[k]) by {
        assert(pre[k] == lines[k]);
    }
    lemma_event_idle(start, end, color, pre);
    lemma_event_run_append(None, start, end, color, pre, from_span);

    // The line at `s` opens the span and emits nothing.
    let acc = with_newline(lines[s]);
    assert(from_span[0] == lines[s]);
    assert(event_next_pending(None, start, end, from_span[0]) == Some(acc));
    assert(event_emitted(None, end, color, from_span[0]) is None);

    // The lines strictly inside the span accumulate, and `e` closes it.
    let mid_end = lines.subrange(s + 1, e + 1);
    let tail = lines.skip(e + 1);
    assert(from_span.drop_first() =~= mid_end + tail);
    assert(mid_end.len() == e - s);
    assert forall|k: int| 0 <= k < mid_end.len() - 1 implies !regex_matches(
        end,
        mid_end[k],
    ) by {
        assert(mid_end[k] == lines[s + 1 + k]);
    }
    assert(mid_end[mid_end.len() - 1] == lines[e]);
    lemma_span_atomicity(acc, start, end, color, mid_end);
    lemma_event_run_append(Some(acc), start, end, color, mid_end, tail);

    // Nothing after the span starts a new one.
    assert forall|k: int| 0 <= k < tail.len() implies !regex_matches(start, tail[k]) by {
        assert(tail[k] == lines[e + 1 + k]);
    }
    lemma_event_idle(start, end, color, tail);

    // The one emitted block covers the span's lines exactly.
    let span = lines.subrange(s, e + 1);
    assert(span[0] == lines[s]);
    assert(span.drop_first() =~= mid_end);
    assert(joined_lines(span) == acc + joined_lines(mid_end));
    assert("Event:\n"@ + acc + joined_lines(mid_end) =~= "Event:\n"@ + joined_lines(span));
    assert(event_run_outputs(Some(acc), start, end, color, mid_end + tail) =~= seq![
        colored_or_plain(color, "Event:\n"@ + joined_lines(span)),
    ]);
    assert(event_run_outputs(None, start, end, color, from_span) =~= seq![
        colored_or_plain(color, "Event:\n"@ + joined_lines(span)),
    ]);
}

} // verus!
