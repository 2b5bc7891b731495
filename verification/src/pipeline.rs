//! The processor pipeline.
//!
//! A pipeline runs an ordered, heterogeneous list of processors over each
//! input line exactly once.  Every output a processor emits is printed in
//! processor order, and a separator block is inserted before an output when
//! it, or the output printed just before it, demands visual separation —
//! currently only multi-line event output does.  The pipeline's per-line
//! behavior is specified as a fold over the processor list.

use vstd::prelude::*;
use vstd::string::StringExecFns;

use crate::config::Config;
use crate::pattern::painted;
use crate::processors::{
    event_emitted, event_next_pending, next_color, opt_str_view, state_output, Colorize,
    EventPatterns, EventProcessor, PatternColor, PatternColors, StateProcessor,
};

verus! {

/// One processor of a pipeline: a closed sum over the three processor
/// kinds, so that a pipeline can hold a heterogeneous ordered collection
/// without downcasting.
#[derive(Debug)]
pub enum AnyProcessor {
    Colorize(Colorize),
    Events(EventProcessor),
    States(StateProcessor),
}

impl AnyProcessor {
    /// Whether this processor's output demands visual separation from the
    /// surrounding single-line output.
    pub open spec fn spec_requires_separator(self) -> bool {
        self matches AnyProcessor::Events(_)
    }

    /// What offering `line` to this processor makes it emit, as a function
    /// of the processor's state before the line.
    pub open spec fn spec_emits(self, line: Seq<char>) -> Option<Seq<char>> {
        match self {
            AnyProcessor::Colorize(c) => Some(
                painted(next_color(c.current_color, c.pattern_colors.0@, line), line),
            ),
            AnyProcessor::Events(e) => event_emitted(
                opt_str_view(e.current_event),
                e.event_patterns.end_regex@,
                e.event_patterns.color,
                line,
            ),
            AnyProcessor::States(s) => state_output(s.regex@, s.group as int, s.color, line),
        }
    }

    /// How offering one line moves a processor from state `pre` to state
    /// `post`: the rules are kept and the mutable state advances by the
    /// processor's own step.
    pub open spec fn spec_steps_to(pre: AnyProcessor, post: AnyProcessor, line: Seq<char>) -> bool {
        match (pre, post) {
            (AnyProcessor::Colorize(a), AnyProcessor::Colorize(b)) => b.pattern_colors
                == a.pattern_colors && b.current_color == next_color(
                a.current_color,
                a.pattern_colors.0@,
                line,
            ),
            (AnyProcessor::Events(a), AnyProcessor::Events(b)) => b.event_patterns
                == a.event_patterns && opt_str_view(b.current_event) == event_next_pending(
                opt_str_view(a.current_event),
                a.event_patterns.start_regex@,
                a.event_patterns.end_regex@,
                line,
            ),
            (AnyProcessor::States(a), AnyProcessor::States(b)) => b == a,
            _ => false,
        }
    }

    /// Whether this processor's output demands visual separation.
    pub fn requires_separator(&self) -> (r: bool)
        ensures
            r == self.spec_requires_separator(),
    {
        match self {
            AnyProcessor::Events(_) => true,
            _ => false,
        }
    }

    /// Offers one line to the processor this value wraps.
    pub fn process_line(&mut self, line: &str) -> (r: Option<String>)
        ensures
            AnyProcessor::spec_steps_to(*old(self), *final(self), line@),
            opt_str_view(r) == old(self).spec_emits(line@),
    {
        match self {
            AnyProcessor::Colorize(c) => c.process_line(line),
            AnyProcessor::Events(e) => e.process_line(line),
            AnyProcessor::States(s) => s.process_line(line),
        }
    }

    /// The trailing-summary hook: none of the processor kinds aggregates
    /// one.
    pub fn result(&self) -> (r: Option<String>)
        ensures
            r is None,
    {
        match self {
            AnyProcessor::Colorize(c) => c.result(),
            AnyProcessor::Events(e) => e.result(),
            AnyProcessor::States(s) => s.result(),
        }
    }
}

/// An output block prefixed by the visual separator line: a fixed-width rule
/// of fifty dashes on a line of its own, then the output.
pub open spec fn separator_block(text: Seq<char>) -> Seq<char> {
    "--------------------------------------------------"@ + "\n"@ + text
}

/// The blocks a pipeline prints for one line: each processor's emission in
/// processor order, with a separator block prefixed wherever the output just
/// printed demanded separation, or the one before it did.
pub open spec fn pipeline_outputs(
    procs: Seq<AnyProcessor>,
    has_out: bool,
    last_sep: bool,
    line: Seq<char>,
) -> Seq<Seq<char>>
    decreases procs.len(),
{
    if procs.len() == 0 {
        Seq::empty()
    } else {
        match procs[0].spec_emits(line) {
            Some(text) => {
                let req = procs[0].spec_requires_separator();
                let block = if has_out && (last_sep || req) {
                    separator_block(text)
                } else {
                    text
                };
                seq![block] + pipeline_outputs(procs.drop_first(), true, req, line)
            },
            None => pipeline_outputs(procs.drop_first(), has_out, last_sep, line),
        }
    }
}

/// The pipeline's separator bookkeeping after one line: whether anything has
/// been printed yet, and whether the output printed last demanded
/// separation.
pub open spec fn pipeline_state_after(
    procs: Seq<AnyProcessor>,
    has_out: bool,
    last_sep: bool,
    line: Seq<char>,
) -> (bool, bool)
    decreases procs.len(),
{
    if procs.len() == 0 {
        (has_out, last_sep)
    } else {
        match procs[0].spec_emits(line) {
            Some(_) => pipeline_state_after(
                procs.drop_first(),
                true,
                procs[0].spec_requires_separator(),
                line,
            ),
            None => pipeline_state_after(procs.drop_first(), has_out, last_sep, line),
        }
    }
}

/// A configured colorizer wrapped for a pipeline: fresh, with no color seen.
pub open spec fn wrap_colorize(pcs: Vec<PatternColor>) -> AnyProcessor {
    AnyProcessor::Colorize(
        Colorize { pattern_colors: PatternColors(pcs), current_color: None },
    )
}

/// A configured event rule wrapped for a pipeline: fresh, with no span open.
pub open spec fn wrap_event(e: EventPatterns) -> AnyProcessor {
    AnyProcessor::Events(EventProcessor { event_patterns: e, current_event: None })
}

/// A configured state rule wrapped for a pipeline.
pub open spec fn wrap_state(s: StateProcessor) -> AnyProcessor {
    AnyProcessor::States(s)
}

/// The processors a configuration resolves to, in order: one colorizer over
/// the pattern/color rules when that section is present, then one event
/// extractor per event rule, then one state extractor per state rule.
pub open spec fn spec_processors_of(c: Config) -> Seq<AnyProcessor> {
    let colorizers = match c.pattern_colors {
        Some(pcs) => seq![wrap_colorize(pcs)],
        None => Seq::empty(),
    };
    colorizers + c.events@.map_values(|e: EventPatterns| wrap_event(e)) + c.states@.map_values(
        |s: StateProcessor| wrap_state(s),
    )
}

/// Config defaulting, pipeline side: a configuration with no rules of any
/// kind builds a pipeline with no processors at all.
pub proof fn lemma_empty_config_pipeline(c: Config)
    requires
        c.pattern_colors is None,
        c.events@.len() == 0,
        c.states@.len() == 0,
    ensures
        spec_processors_of(c) =~= Seq::<AnyProcessor>::empty(),
{
}

/// An ordered list of processors run over one pass of the input, together
/// with the separator bookkeeping that spans lines.
#[derive(Debug)]
pub struct Pipeline {
    pub processors: Vec<AnyProcessor>,
    pub has_output: bool,
    pub last_required_separator: bool,
}

impl Pipeline {
    /// A fresh pipeline over `processors`, with nothing printed yet.
    pub fn new(processors: Vec<AnyProcessor>) -> (r: Self)
        ensures
            r.processors == processors,
            !r.has_output,
            !r.last_required_separator,
    {
        Pipeline { processors, has_output: false, last_required_separator: false }
    }

    /// Builds the pipeline a configuration describes: a colorizer over the
    /// pattern/color rules when that section is present, then one event
    /// extractor per event rule, then one state extractor per state rule,
    /// each fresh.
    pub fn from_config(config: Config) -> (r: Pipeline)
        ensures
            r.processors@ == spec_processors_of(config),
            !r.has_output,
            !r.last_required_separator,
    {
        let ghost cfg = config;
        let Config { pattern_colors, events, states } = config;
        let ghost events0 = events@;
        let ghost states0 = states@;
        let mut processors: Vec<AnyProcessor> = Vec::new();
        match pattern_colors {
            Some(pcs) => {
                processors.push(AnyProcessor::Colorize(Colorize::new(PatternColors(pcs))));
            },
            None => {},
        }
        let ghost base = processors@;
        let mut evs = events;
        let mut i: usize = 0;
        proof {
            assert(events0.len() == evs.len());
            assert(events0.skip(0) =~= events0);
            assert(base + events0.take(0).map_values(|e: EventPatterns| wrap_event(e)) =~= base);
        }
        while evs.len() > 0
            invariant
                events0.len() <= usize::MAX,
                i + evs@.len() == events0.len(),
                evs@ =~= events0.skip(i as int),
                processors@ == base + events0.take(i as int).map_values(
                    |e: EventPatterns| wrap_event(e),
                ),
            decreases evs@.len(),
        {
            let e = evs.remove(0);
            proof {
                assert(events0.skip(i as int)[0] == events0[i as int]);
                assert(events0.skip(i as int).drop_first() =~= events0.skip(i + 1));
            }
            processors.push(AnyProcessor::Events(EventProcessor::new(e)));
            proof {
                assert(events0.take(i + 1) =~= events0.take(i as int).push(events0[i as int]));
                assert(base + events0.take(i + 1).map_values(|e: EventPatterns| wrap_event(e))
                    =~= (base + events0.take(i as int).map_values(
                    |e: EventPatterns| wrap_event(e),
                )).push(wrap_event(events0[i as int])));
            }
            i = i + 1;
        }
        let ghost base2 = processors@;
        let mut sts = states;
        let mut j: usize = 0;
        proof {
            assert(states0.len() == sts.len());
            assert(states0.skip(0) =~= states0);
            assert(base2 + states0.take(0).map_values(|s: StateProcessor| wrap_state(s))
                =~= base2);
        }
        while sts.len() > 0
            invariant
                states0.len() <= usize::MAX,
                j + sts@.len() == states0.len(),
                sts@ =~= states0.skip(j as int),
                processors@ == base2 + states0.take(j as int).map_values(
                    |s: StateProcessor| wrap_state(s),
                ),
            decreases sts@.len(),
        {
            let s = sts.remove(0);
            proof {
                assert(states0.skip(j as int)[0] == states0[j as int]);
                assert(states0.skip(j as int).drop_first() =~= states0.skip(j + 1));
            }
            processors.push(AnyProcessor::States(s));
            proof {
                assert(states0.take(j + 1) =~= states0.take(j as int).push(states0[j as int]));
                assert(base2 + states0.take(j + 1).map_values(|s: StateProcessor| wrap_state(s))
                    =~= (base2 + states0.take(j as int).map_values(
                    |s: StateProcessor| wrap_state(s),
                )).push(wrap_state(states0[j as int])));
            }
            j = j + 1;
        }
        proof {
            assert(events0.take(events0.len() as int) =~= events0);
            assert(states0.take(states0.len() as int) =~= states0);
            assert(processors@ =~= spec_processors_of(cfg));
        }
        Pipeline::new(processors)
    }

    /// Offers `line` to every processor in configured order and returns the
    /// blocks to print for this line, separators included, in print order.
    pub fn process_line(&mut self, line: &str) -> (outputs: Vec<String>)
        ensures
            final(self).processors@.len() == old(self).processors@.len(),
            forall|j: int|
                0 <= j < old(self).processors@.len() ==> AnyProcessor::spec_steps_to(
                    old(self).processors@[j],
                    final(self).processors@[j],
                    line@,
                ),
            outputs.deep_view() == pipeline_outputs(
                old(self).processors@,
                old(self).has_output,
                old(self).last_required_separator,
                line@,
            ),
            (final(self).has_output, final(self).last_required_separator) == pipeline_state_after(
                old(self).processors@,
                old(self).has_output,
                old(self).last_required_separator,
                line@,
            ),
    {
        let ghost procs0 = self.processors@;
        let ghost ho0 = self.has_output;
        let ghost ls0 = self.last_required_separator;
        let mut outputs: Vec<String> = Vec::new();
        let n = self.processors.len();
        let mut i: usize = 0;
        proof {
            assert(procs0.skip(0) =~= procs0);
            assert(outputs.deep_view() =~= Seq::<Seq<char>>::empty());
        }
        while i < n
            invariant
                i <= n,
                n == self.processors@.len(),
                n == procs0.len(),
                forall|j: int| i <= j < n ==> self.processors@[j] == procs0[j],
                forall|j: int|
                    0 <= j < i ==> AnyProcessor::spec_steps_to(
                        procs0[j],
                        self.processors@[j],
                        line@,
                    ),
                pipeline_outputs(procs0, ho0, ls0, line@) == outputs.deep_view()
                    + pipeline_outputs(
                    procs0.skip(i as int),
                    self.has_output,
                    self.last_required_separator,
                    line@,
                ),
                pipeline_state_after(procs0, ho0, ls0, line@) == pipeline_state_after(
                    procs0.skip(i as int),
                    self.has_output,
                    self.last_required_separator,
                    line@,
                ),
            decreases n - i,
        {
            proof {
                assert(procs0.skip(i as int)[0] == procs0[i as int]);
                assert(procs0.skip(i as int).drop_first() =~= procs0.skip(i + 1));
            }
            let req_sep = self.processors[i].requires_separator();
            let ghost outputs_before = outputs.deep_view();
            let out = self.processors[i].process_line(line);
            match out {
                Some(text) => {
                    if self.has_output && (self.last_required_separator || req_sep) {
                        let mut block: String =
                            "--------------------------------------------------".to_owned();
                        block.append("\n");
                        block.append(text.as_str());
                        proof {
                            assert(block@ =~= separator_block(text@));
                        }
                        outputs.push(block);
                    } else {
                        outputs.push(text);
                    }
                    self.has_output = true;
                    self.last_required_separator = req_sep;
                },
                None => {},
            }
            proof {
                if procs0[i as int].spec_emits(line@) is Some {
                    assert(outputs.deep_view() =~= outputs_before.push(
                        outputs.deep_view().last(),
                    ));
                    assert(outputs.deep_view() + pipeline_outputs(
                        procs0.skip(i + 1),
                        self.has_output,
                        self.last_required_separator,
                        line@,
                    ) =~= outputs_before + (seq![outputs.deep_view().last()] + pipeline_outputs(
                        procs0.skip(i + 1),
                        self.has_output,
                        self.last_required_separator,
                        line@,
                    )));
                }
            }
            i = i + 1;
        }
        proof {
            assert(procs0.skip(n as int) =~= Seq::<AnyProcessor>::empty());
            assert(outputs.deep_view() + Seq::<Seq<char>>::empty() =~= outputs.deep_view());
        }
        outputs
    }

    /// Collects the trailing results of every processor, in order; the
    /// processor kinds here aggregate none, so nothing is collected.
    pub fn results(&self) -> (r: Vec<String>)
        ensures
            r@.len() == 0,
    {
        let mut collected: Vec<String> = Vec::new();
        let n = self.processors.len();
        let mut i: usize = 0;
        while i < n
            invariant
                i <= n,
                n == self.processors@.len(),
                collected@.len() == 0,
            decreases n - i,
        {
            match self.processors[i].result() {
                Some(text) => {
                    collected.push(text);
                },
                None => {},
            }
            i = i + 1;
        }
        collected
    }
}

} // verus!
