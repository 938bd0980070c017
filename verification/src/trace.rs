//! Failure traces.  When a grammar rule rejects its input, it reports a stack
//! of entries, innermost first: each entry carries the remaining input at the
//! point of the failure and a kind naming what was expected there.  Named
//! rules append a `Context` entry on the way out, so the outermost entries
//! identify the enclosing rules.

use vstd::prelude::*;

verus! {

/// The named grammar rules that annotate a failure trace.
#[derive(Clone, Copy, Debug, Eq, PartialEq, Hash)]
pub enum Rule {
    CommentStart,
    CommentEnd,
    LineLeading,
    TagName,
    InlineTagBodyLine,
    InlineTagBody,
    InlineTag,
    BodyTextSegment,
    Description,
    BlockTag,
    DocComment,
}

/// What a single trace entry reports: the token class that failed to match,
/// a specific expected character, or the name of an enclosing rule.
#[derive(Clone, Copy, Debug, Eq, PartialEq, Hash)]
pub enum TraceKind {
    Tag,
    Not,
    Alpha,
    NonEmpty,
    Verify,
    Alt,
    Many1,
    Eof,
    Char(char),
    Context(Rule),
}

/// A failure trace: the stack of entries accumulated while a parse failure
/// propagated outward.  Each entry borrows the remaining input at its point
/// of failure.
#[derive(Clone, Debug, Eq, PartialEq)]
pub struct Trace<'a> {
    pub errors: Vec<(&'a str, TraceKind)>,
}

impl<'a> View for Trace<'a> {
    type V = Seq<(Seq<char>, TraceKind)>;

    open spec fn view(&self) -> Seq<(Seq<char>, TraceKind)> {
        self.errors@.map_values(|e: (&'a str, TraceKind)| (e.0@, e.1))
    }
}

impl<'a> Trace<'a> {
    /// A trace holding a single entry.
    pub fn single(input: &'a str, kind: TraceKind) -> (r: Trace<'a>)
        ensures
            r@ == seq![(input@, kind)],
    {
        let t = Trace { errors: vec![(input, kind)] };
        proof {
            assert(t@ =~= seq![(input@, kind)]);
        }
        t
    }

    /// A trace of one failing token and the rule it failed inside.
    pub fn two(fail: &'a str, kind: TraceKind, input: &'a str, rule: Rule) -> (r: Trace<'a>)
        ensures
            r@ == seq![(fail@, kind), (input@, TraceKind::Context(rule))],
    {
        let t = Trace { errors: vec![(fail, kind), (input, TraceKind::Context(rule))] };
        proof {
            assert(t@ =~= seq![(fail@, kind), (input@, TraceKind::Context(rule))]);
        }
        t
    }

    /// A trace of one failing token, the exhausted ordered choice around it,
    /// and the rule they failed inside.
    pub fn alt_three(fail: &'a str, kind: TraceKind, input: &'a str, rule: Rule) -> (r: Trace<'a>)
        ensures
            r@ == seq![
                (fail@, kind),
                (input@, TraceKind::Alt),
                (input@, TraceKind::Context(rule)),
            ],
    {
        let t = Trace {
            errors: vec![
                (fail, kind),
                (input, TraceKind::Alt),
                (input, TraceKind::Context(rule)),
            ],
        };
        proof {
            assert(t@ =~= seq![
                (fail@, kind),
                (input@, TraceKind::Alt),
                (input@, TraceKind::Context(rule)),
            ]);
        }
        t
    }

    /// Appends an entry naming the rule that the failure is propagating out of.
    pub fn with_context(self, input: &'a str, rule: Rule) -> (r: Trace<'a>)
        ensures
            r@ == self@ + seq![(input@, TraceKind::Context(rule))],
    {
        let mut errors = self.errors;
        let ghost before = errors@;
        errors.push((input, TraceKind::Context(rule)));
        let t = Trace { errors };
        proof {
            assert(t@ =~= before.map_values(|e: (&'a str, TraceKind)| (e.0@, e.1)) + seq![
                (input@, TraceKind::Context(rule)),
            ]);
        }
        t
    }

}

} // verus!
