//! Byte-level predicates and their combination into a rule's pattern list.
use vstd::prelude::*;
use crate::Address;
use crate::arch::context::{Context, ContextView};
use crate::arch::Arch;
use crate::text::str_eq;

verus! {

/// A predicate on one byte of the window, the current address and the flags.
#[derive(Debug)]
pub enum Pattern {
    /// The byte is the given one.
    Exact(u8),
    /// The byte shares at least one set bit with the given mask.
    And(u8),
    /// Every pattern of the list matches.
    List(Vec<Pattern>),
    /// Any byte.
    Any,
    /// Matches whether or not there is a byte.
    Always,
    /// The current address lies in the half-open interval.
    Address(Address, Address),
    /// The flag has the given value, or, with `None`, is not set.
    Flag(String, Option<String>),
    Never,
}

impl Clone for Pattern {
    fn clone(&self) -> (r: Pattern)
        ensures
            self.spec_alike(&r),
        decreases self, 1int,
    {
        match self {
            Pattern::Exact(b) => Pattern::Exact(*b),
            Pattern::And(b) => Pattern::And(*b),
            Pattern::List(l) => Pattern::List(Pattern::clone_list(l)),
            Pattern::Any => Pattern::Any,
            Pattern::Always => Pattern::Always,
            Pattern::Address(start, end) => Pattern::Address(*start, *end),
            Pattern::Flag(key, value) => Pattern::Flag(
                key.clone(),
                match value {
                    Some(v) => Some(v.clone()),
                    None => None,
                },
            ),
            Pattern::Never => Pattern::Never,
        }
    }
}

impl Default for Pattern {
    fn default() -> (r: Pattern)
        ensures
            r == Pattern::Never,
    {
        Pattern::Never
    }
}

/// Whether a flag's state is the one that a pattern asks for.
pub open spec fn flag_is(flags: Map<Seq<char>, Seq<char>>, key: Seq<char>, value: Option<String>) -> bool {
    match value {
        Some(v) => flags.contains_key(key) && flags[key] == v@,
        None => !flags.contains_key(key),
    }
}

impl Pattern {
    /// Whether `byte` satisfies the pattern in the state `ctx`.
    pub open spec fn spec_is_match(&self, ctx: ContextView, byte: u8) -> bool
        decreases self, 0int,
    {
        match self {
            Pattern::Exact(b) => *b == byte,
            Pattern::And(b) => *b & byte != 0,
            Pattern::List(l) => Self::spec_all_match(l, 0, ctx, byte),
            Pattern::Address(start, end) => *start <= ctx.address() < *end,
            Pattern::Any => true,
            Pattern::Always => true,
            Pattern::Never => false,
            Pattern::Flag(key, value) => flag_is(ctx.flags, key@, *value),
        }
    }

    /// Whether `byte` satisfies every pattern of `list` from `from` on.
    pub open spec fn spec_all_match(list: &Vec<Pattern>, from: int, ctx: ContextView, byte: u8) -> bool
        decreases list, list.len() - from,
    {
        if from < 0 || from >= list.len() {
            true
        } else {
            list@[from].spec_is_match(ctx, byte) && Self::spec_all_match(list, from + 1, ctx, byte)
        }
    }

    /// Whether `byte` satisfies the pattern in the state of `ctx`.
    pub fn is_match(&self, _arch: &Arch, ctx: &Context, byte: u8) -> (r: bool)
        ensures
            r == self.spec_is_match(ctx@, byte),
        decreases self, 1int,
    {
        match self {
            Pattern::Exact(b) => *b == byte,
            Pattern::And(b) => *b & byte != 0,
            Pattern::List(l) => Self::all_match(l, _arch, ctx, byte),
            Pattern::Address(start, end) => {
                let a = ctx.address();
                a >= *start && a < *end
            },
            Pattern::Any => true,
            Pattern::Always => true,
            Pattern::Never => false,
            Pattern::Flag(key, value) => {
                match (ctx.get_flag(key.as_str()), value) {
                    (Some(have), Some(want)) => str_eq(have.as_str(), want.as_str()),
                    (None, None) => true,
                    _ => false,
                }
            },
        }
    }

    /// Whether `byte` satisfies every pattern of `list`. Every pattern is
    /// evaluated; none is skipped.
    fn all_match(list: &Vec<Pattern>, arch: &Arch, ctx: &Context, byte: u8) -> (r: bool)
        ensures
            r == Self::spec_all_match(list, 0, ctx@, byte),
        decreases list, 2int,
    {
        let mut all = true;
        let mut i: usize = 0;
        while i < list.len()
            invariant
                i <= list.len(),
                (all && Self::spec_all_match(list, i as int, ctx@, byte)) == Self::spec_all_match(
                    list,
                    0,
                    ctx@,
                    byte,
                ),
            decreases list.len() - i,
        {
            let one = list[i].is_match(arch, ctx, byte);
            all = all && one;
            i += 1;
        }
        all
    }

    /// Whether `other` is a pattern like this one: of the same kind, with
    /// the same numbers and texts, and, for a list, with patterns alike one
    /// by one.
    pub open spec fn spec_alike(&self, other: &Pattern) -> bool
        decreases self,
    {
        match (self, other) {
            (Pattern::Exact(a), Pattern::Exact(b)) => a == b,
            (Pattern::And(a), Pattern::And(b)) => a == b,
            (Pattern::List(a), Pattern::List(b)) => a.len() == b.len() && forall|i: int|
                0 <= i < a.len() ==> (#[trigger] a@[i]).spec_alike(&b@[i]),
            (Pattern::Any, Pattern::Any) => true,
            (Pattern::Always, Pattern::Always) => true,
            (Pattern::Address(a, b), Pattern::Address(c, d)) => a == c && b == d,
            (Pattern::Flag(k, v), Pattern::Flag(l, w)) => k@ == l@ && (match (v, w) {
                (Some(x), Some(y)) => x@ == y@,
                (None, None) => true,
                _ => false,
            }),
            (Pattern::Never, Pattern::Never) => true,
            _ => false,
        }
    }

    /// A copy of every pattern of `list`, in order.
    fn clone_list(list: &Vec<Pattern>) -> (r: Vec<Pattern>)
        ensures
            r.len() == list.len(),
            forall|i: int| 0 <= i < list.len() ==> (#[trigger] list@[i]).spec_alike(&r@[i]),
        decreases list, 2int,
    {
        let mut out: Vec<Pattern> = Vec::new();
        let mut i: usize = 0;
        while i < list.len()
            invariant
                i <= list.len(),
                out.len() == i,
                forall|k: int| 0 <= k < i ==> (#[trigger] list@[k]).spec_alike(&out@[k]),
            decreases list.len() - i,
        {
            out.push(list[i].clone());
            i += 1;
        }
        out
    }

    /// Whether the pattern is the one that matches without a byte.
    pub fn always(&self) -> (r: bool)
        ensures
            r == (self is Always),
    {
        match self {
            Pattern::Always => true,
            _ => false,
        }
    }
}

/// A pattern together with the offset, in the window, of the byte it tests.
#[derive(Debug)]
pub struct PatternAt {
    pub offset: usize,
    pub pattern: Pattern,
}

impl Clone for PatternAt {
    fn clone(&self) -> (r: PatternAt)
        ensures
            self.spec_alike(&r),
    {
        PatternAt { offset: self.offset, pattern: self.pattern.clone() }
    }
}

impl Default for PatternAt {
    fn default() -> (r: PatternAt)
        ensures
            r.offset == 0,
            r.pattern == Pattern::Never,
    {
        PatternAt { offset: 0, pattern: Pattern::Never }
    }
}

impl PatternAt {
    /// The pattern `pattern`, to be tested on the byte at `offset`.
    pub fn new(pattern: Pattern, offset: usize) -> (r: PatternAt)
        ensures
            r.pattern == pattern,
            r.offset == offset,
    {
        PatternAt { pattern, offset }
    }

    /// Whether `other` tests a pattern like this one at the same offset.
    pub open spec fn spec_alike(&self, other: &PatternAt) -> bool {
        self.offset == other.offset && self.pattern.spec_alike(&other.pattern)
    }

    /// The pattern matches without a byte, or the window holds a byte at the
    /// pattern's offset and that byte satisfies it.
    pub open spec fn spec_holds(&self, ctx: ContextView, window: Seq<u8>) -> bool {
        self.pattern is Always || (self.offset < window.len() && self.pattern.spec_is_match(
            ctx,
            window[self.offset as int],
        ))
    }
}

/// Whether every pattern of `patterns` holds on `window` in the state `ctx`.
pub open spec fn all_hold(patterns: Seq<PatternAt>, ctx: ContextView, window: Seq<u8>) -> bool {
    forall|i: int| 0 <= i < patterns.len() ==> (#[trigger] patterns[i]).spec_holds(ctx, window)
}

} // verus!
