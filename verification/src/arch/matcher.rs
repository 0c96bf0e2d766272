//! Match rules: a list of patterns, the name of the transform to run when
//! all of them hold, and the name under which the rule is rendered.
use vstd::prelude::*;
use vstd::slice::slice_subrange;
use crate::arch::context::{Context, ContextView};
use crate::arch::node::{CallbackKind, Node, NodeView};
use crate::arch::pattern::{all_hold, PatternAt};
use crate::arch::trace::{
    accepted, faithful, lemma_abort_within, lemma_accepted_none, lemma_after_after, lemma_continue,
    lemma_met, sink_total, Emission, Outcome,
};
use crate::arch::transform::Transform;
use crate::arch::Arch;
use crate::error::{Error, ErrorView};

verus! {

/// A rule of an architecture.
#[derive(Clone, Debug)]
pub struct Matcher {
    /// The patterns that all have to hold for the rule to match.
    pub patterns: Vec<PatternAt>,
    /// The name of the transform that runs when the rule matches.
    pub transforms: String,
    /// The name under which the rule is rendered.
    pub name: Node,
}

impl Default for Matcher {
    fn default() -> (r: Matcher)
        ensures
            r.patterns@.len() == 0,
            r.transforms@ == Seq::<char>::empty(),
            r.name@ == (NodeView { text: Seq::empty(), kind: crate::arch::node::NodeKind::Static }),
    {
        Matcher { patterns: Vec::new(), transforms: String::new(), name: Node::default() }
    }
}

/// Running the operations of `ops` from `from` on, on `window`, of which
/// `total` bytes are consumed already. Each operation works on what is left of
/// the window; one that wants to move the cursor past the window's end fails;
/// the cursor's offset follows every move.
pub open spec fn pipeline(
    ops: Seq<Transform>,
    from: int,
    total: usize,
    window: Seq<u8>,
    arch: &Arch,
    ctx: ContextView,
    name: NodeView,
) -> Outcome<usize>
    decreases ops.len() - from,
{
    if from < 0 || from >= ops.len() {
        Outcome::quiet(ctx, Ok(total))
    } else {
        let step = ops[from].spec_apply(window.skip(total as int), arch, ctx, name);
        match step.res {
            Err(e) => step,
            Ok(read) => if read > window.len() - total {
                step.failing(ErrorView::TransformOutOfData(step.ctx.address()))
            } else {
                pipeline(
                    ops,
                    from + 1,
                    (total + read) as usize,
                    window,
                    arch,
                    step.ctx.advanced(read),
                    name,
                ).after(step.trace)
            },
        }
    }
}

/// The rules that match `window` in the state `ctx`.
pub open spec fn rule_matches(ctx: ContextView, window: Seq<u8>) -> spec_fn(Matcher) -> bool {
    |m: Matcher| m.spec_is_match(ctx, window)
}

impl Matcher {
    /// Whether every pattern of the rule holds on `window`.
    pub open spec fn spec_is_match(&self, ctx: ContextView, window: Seq<u8>) -> bool {
        all_hold(self.patterns@, ctx, window)
    }

    /// What firing the rule on `window` does: the transform that the rule
    /// names runs from the start of the window; a name that the architecture
    /// does not define is a failure.
    pub open spec fn spec_transform(&self, window: Seq<u8>, arch: &Arch, ctx: ContextView) -> Outcome<usize> {
        if arch.transforms@.contains_key(self.transforms@) {
            pipeline(arch.transforms@[self.transforms@]@, 0, 0, window, arch, ctx, self.name@)
        } else {
            Outcome::quiet(ctx, Err(ErrorView::TransformNotFound(self.transforms@)))
        }
    }

    /// Whether the rule matches `data` in the state of `ctx`.
    pub fn is_match(&self, arch: &Arch, ctx: &Context, data: &[u8]) -> (r: bool)
        ensures
            r == self.spec_is_match(ctx@, data@),
    {
        Self::is_match_with(arch, ctx, data, self.patterns.as_slice())
    }

    /// Whether every pattern of `patterns` holds on `data` in the state of `ctx`.
    pub fn is_match_with(arch: &Arch, ctx: &Context, data: &[u8], patterns: &[PatternAt]) -> (r: bool)
        ensures
            r == all_hold(patterns@, ctx@, data@),
    {
        let mut i: usize = 0;
        while i < patterns.len()
            invariant
                i <= patterns.len(),
                forall|k: int| 0 <= k < i ==> (#[trigger] patterns@[k]).spec_holds(ctx@, data@),
            decreases patterns.len() - i,
        {
            let pa = &patterns[i];
            if !pa.pattern.always() {
                if pa.offset < data.len() {
                    if !pa.pattern.is_match(arch, ctx, data[pa.offset]) {
                        return false;
                    }
                } else {
                    return false;
                }
            }
            i += 1;
        }
        true
    }

    /// Fires the rule: runs the transform that it names on `data`.
    pub fn transform<F: FnMut(&Node, CallbackKind, &[u8], &Arch, &Context) -> Result<(), Error>>(
        &self,
        f: &mut F,
        data: &[u8],
        arch: &Arch,
        ctx: &mut Context,
    ) -> (r: Result<usize, Error>)
        requires
            sink_total(*old(f)),
        ensures
            *final(f) == *old(f),
            faithful(*old(f), self.spec_transform(data@, arch, old(ctx)@), r, final(ctx)@),
            r matches Ok(n) ==> n <= data@.len(),
    {
        match arch.get_transform(self.transforms.as_str()) {
            Some(tl) => self.apply(f, data, arch, ctx, 0, tl),
            None => {
                proof {
                    let whole = self.spec_transform(data@, arch, old(ctx)@);
                    lemma_accepted_none(*f, whole.trace);
                    lemma_met(
                        *f,
                        whole,
                        Err::<usize, Error>(Error::TransformNotFound(self.transforms)),
                        ctx@,
                    );
                }
                Err(Error::TransformNotFound(self.transforms.clone()))
            },
        }
    }

    /// Runs the operations of `tl` in order on `data`, of which `total` bytes
    /// are consumed already, and gives the number of bytes consumed in the end.
    fn apply<F: FnMut(&Node, CallbackKind, &[u8], &Arch, &Context) -> Result<(), Error>>(
        &self,
        f: &mut F,
        data: &[u8],
        arch: &Arch,
        ctx: &mut Context,
        total: usize,
        tl: &Vec<Transform>,
    ) -> (r: Result<usize, Error>)
        requires
            sink_total(*old(f)),
            total <= data@.len(),
        ensures
            *final(f) == *old(f),
            faithful(
                *old(f),
                pipeline(tl@, 0, total, data@, arch, old(ctx)@, self.name@),
                r,
                final(ctx)@,
            ),
            r matches Ok(n) ==> n <= data@.len(),
    {
        let ghost whole = pipeline(tl@, 0, total, data@, arch, old(ctx)@, self.name@);
        let ghost mut done: Seq<Emission> = Seq::empty();
        let mut consumed = total;
        let mut i: usize = 0;
        proof {
            lemma_after_after(whole, Seq::empty(), Seq::empty());
            lemma_accepted_none(*f, done);
        }
        while i < tl.len()
            invariant
                i <= tl.len(),
                consumed <= data@.len(),
                *f == *old(f),
                sink_total(*f),
                accepted(*f, done, done.len() as int),
                whole == pipeline(tl@, 0, total, data@, arch, old(ctx)@, self.name@),
                whole == pipeline(tl@, i as int, consumed, data@, arch, ctx@, self.name@).after(done),
            decreases tl.len() - i,
        {
            let window = slice_subrange(data, consumed, data.len());
            assert(window@ =~= data@.skip(consumed as int));
            let ghost before = ctx@;
            let ghost step = tl@[i as int].spec_apply(window@, arch, before, self.name@);
            let ghost rest = pipeline(tl@, i as int, consumed, data@, arch, before, self.name@);
            match tl[i].apply(f, window, arch, ctx, &self.name) {
                Err(e) => {
                    proof {
                        assert(rest.trace.take(step.trace.len() as int) =~= step.trace);
                        lemma_abort_within(*f, done, step, rest, Err::<usize, Error>(e), ctx@, e);
                    }
                    return Err(e);
                },
                Ok(read) => {
                    proof {
                        lemma_continue(*f, done, step, Ok::<usize, Error>(read), ctx@);
                    }
                    if read > data.len() - consumed {
                        proof {
                            assert(whole.trace =~= done + step.trace);
                            lemma_met(
                                *f,
                                whole,
                                Err::<usize, Error>(Error::TransformOutOfData(ctx@.address())),
                                ctx@,
                            );
                        }
                        return Err(Error::TransformOutOfData(ctx.address()));
                    }
                    consumed += read;
                    ctx.offset = ctx.offset.wrapping_add(read as u64);
                    proof {
                        let next = pipeline(tl@, i + 1, consumed, data@, arch, ctx@, self.name@);
                        assert(rest == next.after(step.trace));
                        lemma_after_after(next, done, step.trace);
                        done = done + step.trace;
                    }
                },
            }
            i += 1;
        }
        proof {
            assert(whole.trace =~= done);
            lemma_met(*f, whole, Ok::<usize, Error>(consumed), ctx@);
        }
        Ok(consumed)
    }
}

} // verus!
