//! Directives that a caller lays around every instruction: text and flag
//! changes, gated by an address or by a byte pattern.
use vstd::prelude::*;
use vstd::slice::slice_subrange;
use vstd::string::StringExecFns;
use crate::Address;
use crate::arch::context::{Context, ContextView};
use crate::arch::matcher::Matcher;
use crate::arch::node::{CallbackKind, Node};
use crate::arch::pattern::{all_hold, PatternAt};
use crate::arch::trace::{
    accepted, faithful, lemma_abort_within, lemma_accepted_none, lemma_accepted_one,
    lemma_after_after, lemma_continue, lemma_met, lemma_refused, saw, sink_total, Emission, Outcome,
};
use crate::arch::transform::plain;
use crate::arch::Arch;
use crate::error::Error;

verus! {

/// A directive that runs before or after every matched instruction.
#[derive(Debug)]
pub enum StaticOp {
    /// Runs the listed directives where the current address is the given one.
    Address(Address, Vec<StaticOp>),
    /// During rendering, emits the text, followed by a line break.
    StringLn(String),
    SetFlag(String, String),
    UnsetFlag(String),
    /// Runs the listed directives where the patterns hold on the window.
    Match(Vec<PatternAt>, Vec<StaticOp>),
}

impl Clone for StaticOp {
    fn clone(&self) -> (r: StaticOp)
        ensures
            self.spec_alike(&r),
        decreases self, 1int,
    {
        match self {
            StaticOp::Address(address, ops) => StaticOp::Address(*address, StaticOp::clone_list(ops)),
            StaticOp::StringLn(string) => StaticOp::StringLn(string.clone()),
            StaticOp::SetFlag(flag, value) => StaticOp::SetFlag(flag.clone(), value.clone()),
            StaticOp::UnsetFlag(flag) => StaticOp::UnsetFlag(flag.clone()),
            StaticOp::Match(patterns, ops) => {
                let mut copied: Vec<PatternAt> = Vec::new();
                let mut i: usize = 0;
                while i < patterns.len()
                    invariant
                        i <= patterns.len(),
                        copied.len() == i,
                        forall|k: int| 0 <= k < i ==> (#[trigger] patterns@[k]).spec_alike(&copied@[k]),
                    decreases patterns.len() - i,
                {
                    copied.push(patterns[i].clone());
                    i += 1;
                }
                StaticOp::Match(copied, StaticOp::clone_list(ops))
            },
        }
    }
}

/// Running the directives of `ops` from `from` on, in order.
pub open spec fn static_list(ops: Seq<StaticOp>, from: int, window: Seq<u8>, arch: &Arch, ctx: ContextView) -> Outcome<
    (),
>
    decreases ops, ops.len() - from,
{
    if from < 0 || from >= ops.len() {
        Outcome::quiet(ctx, Ok(()))
    } else {
        let step = ops[from].spec_apply(window, arch, ctx);
        match step.res {
            Err(e) => step,
            Ok(_) => static_list(ops, from + 1, window, arch, step.ctx).after(step.trace),
        }
    }
}

impl StaticOp {
    /// What the directive does on `window` in the state `ctx`.
    pub open spec fn spec_apply(&self, window: Seq<u8>, arch: &Arch, ctx: ContextView) -> Outcome<()>
        decreases self, 0int,
    {
        match self {
            StaticOp::Address(address, ops) => if ctx.address() == *address {
                static_list(ops@, 0, window, arch, ctx)
            } else {
                Outcome::quiet(ctx, Ok(()))
            },
            StaticOp::StringLn(string) => if ctx.analyze {
                Outcome::quiet(ctx, Ok(()))
            } else {
                Outcome {
                    ctx,
                    trace: seq![
                        Emission {
                            node: plain(string@ + "\n"@),
                            kind: CallbackKind::Static,
                            raw: Seq::empty(),
                            arch: *arch,
                            ctx,
                        },
                    ],
                    res: Ok(()),
                }
            },
            StaticOp::SetFlag(flag, value) => Outcome::quiet(
                ContextView { flags: ctx.flags.insert(flag@, value@), ..ctx },
                Ok(()),
            ),
            StaticOp::UnsetFlag(flag) => Outcome::quiet(
                ContextView { flags: ctx.flags.remove(flag@), ..ctx },
                Ok(()),
            ),
            StaticOp::Match(patterns, ops) => if all_hold(patterns@, ctx, window) {
                static_list(ops@, 0, window, arch, ctx)
            } else {
                Outcome::quiet(ctx, Ok(()))
            },
        }
    }

    /// Runs the directive.
    pub fn apply<F: FnMut(&Node, CallbackKind, &[u8], &Arch, &Context) -> Result<(), Error>>(
        &self,
        f: &mut F,
        data: &[u8],
        arch: &Arch,
        ctx: &mut Context,
    ) -> (r: Result<(), Error>)
        requires
            sink_total(*old(f)),
        ensures
            *final(f) == *old(f),
            faithful(*old(f), self.spec_apply(data@, arch, old(ctx)@), r, final(ctx)@),
        decreases self, 1int,
    {
        let ghost whole = self.spec_apply(data@, arch, old(ctx)@);
        match self {
            StaticOp::Address(address, ops) => {
                if ctx.address() == *address {
                    Self::apply_list(f, ops, data, arch, ctx)
                } else {
                    proof {
                        Self::lemma_quiet(*f, whole, ctx@);
                    }
                    Ok(())
                }
            },
            StaticOp::StringLn(string) => {
                if ctx.analyze {
                    proof {
                        Self::lemma_quiet(*f, whole, ctx@);
                    }
                    return Ok(());
                }
                let mut text = string.clone();
                text.append("\n");
                let node = Node::new(text);
                let none = slice_subrange(data, 0, 0);
                assert(none@ =~= Seq::<u8>::empty());
                let r = f(&node, CallbackKind::Static, none, arch, &*ctx);
                let ghost answer = r;
                let ghost e = Emission {
                    node: plain(string@ + "\n"@),
                    kind: CallbackKind::Static,
                    raw: Seq::empty(),
                    arch: *arch,
                    ctx: ctx@,
                };
                proof {
                    assert(saw(*f, e, answer));
                    assert(whole.trace[0] == e);
                    lemma_accepted_none(*f, Seq::empty());
                    lemma_accepted_none(*f, whole.trace);
                }
                match r {
                    Ok(u) => {
                        proof {
                            lemma_accepted_one(*f, Seq::empty(), e, answer);
                            assert(whole.trace =~= Seq::<Emission>::empty() + seq![e]);
                            assert(whole.res->Ok_0 == ());
                            lemma_met(*f, whole, Ok::<(), Error>(()), ctx@);
                        }
                        Ok(())
                    },
                    Err(err) => {
                        proof {
                            assert(answer == Err::<(), Error>(err));
                            lemma_refused(*f, whole, 0, Err::<(), Error>(err), ctx@);
                        }
                        Err(err)
                    },
                }
            },
            StaticOp::SetFlag(flag, value) => {
                ctx.def_flag(flag.as_str(), value.as_str());
                proof {
                    Self::lemma_quiet(*f, whole, ctx@);
                }
                Ok(())
            },
            StaticOp::UnsetFlag(flag) => {
                ctx.undef_flag(flag.as_str());
                proof {
                    Self::lemma_quiet(*f, whole, ctx@);
                }
                Ok(())
            },
            StaticOp::Match(patterns, ops) => {
                if Matcher::is_match_with(arch, ctx, data, patterns.as_slice()) {
                    Self::apply_list(f, ops, data, arch, ctx)
                } else {
                    proof {
                        Self::lemma_quiet(*f, whole, ctx@);
                    }
                    Ok(())
                }
            },
        }
    }

    /// Whether `other` is a directive like this one: of the same kind, with
    /// the same address, texts and patterns, and with the directives it
    /// holds alike one by one.
    pub open spec fn spec_alike(&self, other: &StaticOp) -> bool
        decreases self,
    {
        match (self, other) {
            (StaticOp::Address(a, x), StaticOp::Address(b, y)) => a == b && x.len() == y.len() && forall|
                i: int,
            | 0 <= i < x.len() ==> (#[trigger] x@[i]).spec_alike(&y@[i]),
            (StaticOp::StringLn(a), StaticOp::StringLn(b)) => a@ == b@,
            (StaticOp::SetFlag(a, v), StaticOp::SetFlag(b, w)) => a@ == b@ && v@ == w@,
            (StaticOp::UnsetFlag(a), StaticOp::UnsetFlag(b)) => a@ == b@,
            (StaticOp::Match(p, x), StaticOp::Match(q, y)) => p.len() == q.len() && (forall|i: int|
                0 <= i < p.len() ==> (#[trigger] p@[i]).spec_alike(&q@[i])) && x.len() == y.len() && forall|
                i: int,
            | 0 <= i < x.len() ==> (#[trigger] x@[i]).spec_alike(&y@[i]),
            _ => false,
        }
    }

    /// A copy of every directive of `ops`, in order.
    fn clone_list(ops: &Vec<StaticOp>) -> (r: Vec<StaticOp>)
        ensures
            r.len() == ops.len(),
            forall|i: int| 0 <= i < ops.len() ==> (#[trigger] ops@[i]).spec_alike(&r@[i]),
        decreases ops, 2int,
    {
        let mut out: Vec<StaticOp> = Vec::new();
        let mut i: usize = 0;
        while i < ops.len()
            invariant
                i <= ops.len(),
                out.len() == i,
                forall|k: int| 0 <= k < i ==> (#[trigger] ops@[k]).spec_alike(&out@[k]),
            decreases ops.len() - i,
        {
            out.push(ops[i].clone());
            i += 1;
        }
        out
    }

    /// An outcome without emissions that succeeded is met by success.
    proof fn lemma_quiet<F: FnMut(&Node, CallbackKind, &[u8], &Arch, &Context) -> Result<(), Error>>(
        f: F,
        out: Outcome<()>,
        end: ContextView,
    )
        requires
            out.trace.len() == 0,
            out.res is Ok,
            out.ctx == end,
        ensures
            faithful(f, out, Ok::<(), Error>(()), end),
    {
        lemma_accepted_none(f, out.trace);
        assert(out.res->Ok_0 == ());
        lemma_met(f, out, Ok::<(), Error>(()), end);
    }

    /// Runs the directives of `ops` in order, until one fails.
    pub fn apply_list<F: FnMut(&Node, CallbackKind, &[u8], &Arch, &Context) -> Result<(), Error>>(
        f: &mut F,
        ops: &Vec<StaticOp>,
        data: &[u8],
        arch: &Arch,
        ctx: &mut Context,
    ) -> (r: Result<(), Error>)
        requires
            sink_total(*old(f)),
        ensures
            *final(f) == *old(f),
            faithful(*old(f), static_list(ops@, 0, data@, arch, old(ctx)@), r, final(ctx)@),
        decreases ops, 2int,
    {
        let ghost whole = static_list(ops@, 0, data@, arch, old(ctx)@);
        let ghost mut done: Seq<Emission> = Seq::empty();
        let mut i: usize = 0;
        proof {
            lemma_after_after(whole, Seq::empty(), Seq::empty());
            lemma_accepted_none(*f, done);
        }
        while i < ops.len()
            invariant
                i <= ops.len(),
                *f == *old(f),
                sink_total(*f),
                accepted(*f, done, done.len() as int),
                whole == static_list(ops@, 0, data@, arch, old(ctx)@),
                whole == static_list(ops@, i as int, data@, arch, ctx@).after(done),
            decreases ops.len() - i,
        {
            let ghost before = ctx@;
            let ghost step = ops@[i as int].spec_apply(data@, arch, before);
            let ghost rest = static_list(ops@, i as int, data@, arch, before);
            match ops[i].apply(f, data, arch, ctx) {
                Err(e) => {
                    proof {
                        assert(rest.trace.take(step.trace.len() as int) =~= step.trace);
                        lemma_abort_within(*f, done, step, rest, Err::<(), Error>(e), ctx@, e);
                    }
                    return Err(e);
                },
                Ok(u) => {
                    proof {
                        lemma_continue(*f, done, step, Ok::<(), Error>(u), ctx@);
                        let next = static_list(ops@, i + 1, data@, arch, ctx@);
                        assert(rest == next.after(step.trace));
                        lemma_after_after(next, done, step.trace);
                        done = done + step.trace;
                    }
                },
            }
            i += 1;
        }
        proof {
            assert(whole.trace =~= done);
            assert(whole.res->Ok_0 == ());
            lemma_met(*f, whole, Ok::<(), Error>(()), ctx@);
        }
        Ok(())
    }
}

} // verus!
