//! What a pass hands to the sink, and what it means for the sink to have
//! received it.
use vstd::prelude::*;
use crate::arch::context::{Context, ContextView};
use crate::arch::node::{CallbackKind, Node, NodeView};
use crate::arch::Arch;
use crate::error::{Error, ErrorView};
use crate::search::views;

verus! {

/// One call of the sink: the node, why it is emitted, the bytes it renders,
/// the architecture that decodes the instruction, and the state in which the
/// sink sees the context.
pub struct Emission {
    pub node: NodeView,
    pub kind: CallbackKind,
    pub raw: Seq<u8>,
    pub arch: Arch,
    pub ctx: ContextView,
}

/// What a part of a pass does when no sink refuses a node: the state it ends
/// in, the emissions it makes in order, and its result.
pub struct Outcome<T> {
    pub ctx: ContextView,
    pub trace: Seq<Emission>,
    pub res: Result<T, ErrorView>,
}

impl<T> Outcome<T> {
    /// An outcome without emissions.
    pub open spec fn quiet(ctx: ContextView, res: Result<T, ErrorView>) -> Outcome<T> {
        Outcome { ctx, trace: Seq::empty(), res }
    }

    /// This outcome, preceded by the emissions `done`.
    pub open spec fn after(self, done: Seq<Emission>) -> Outcome<T> {
        Outcome { ctx: self.ctx, trace: done + self.trace, res: self.res }
    }

    /// This outcome with the result replaced by the failure `e`.
    pub open spec fn failing<U>(self, e: ErrorView) -> Outcome<U> {
        Outcome { ctx: self.ctx, trace: self.trace, res: Err(e) }
    }

    /// This outcome with the result replaced by the success `v`.
    pub open spec fn giving<U>(self, v: U) -> Outcome<U> {
        Outcome { ctx: self.ctx, trace: self.trace, res: Ok(v) }
    }
}

/// A node that waits to be handed to the sink.
pub struct Piece {
    pub node: Node,
    pub kind: CallbackKind,
    pub raw: Vec<u8>,
}

/// The mathematical value of a [`Piece`].
pub struct PieceView {
    pub node: NodeView,
    pub kind: CallbackKind,
    pub raw: Seq<u8>,
}

impl View for Piece {
    type V = PieceView;

    open spec fn view(&self) -> PieceView {
        PieceView { node: self.node@, kind: self.kind, raw: self.raw@ }
    }
}

/// Handing over the pieces from `from` on: before each call the length of the
/// node's text is added to the length of the current line.
pub open spec fn emit_from(ctx: ContextView, pieces: Seq<PieceView>, from: int, arch: &Arch) -> Outcome<()>
    decreases pieces.len() - from,
{
    if from < 0 || from >= pieces.len() {
        Outcome::quiet(ctx, Ok(()))
    } else {
        let seen = ctx.bumped(pieces[from].node.text);
        let e = Emission {
            node: pieces[from].node,
            kind: pieces[from].kind,
            raw: pieces[from].raw,
            arch: *arch,
            ctx: seen,
        };
        emit_from(seen, pieces, from + 1, arch).after(seq![e])
    }
}

/// Handing pieces over does not fail of itself, and changes nothing in the
/// context but the length of the current line.
pub proof fn lemma_emit_from(ctx: ContextView, pieces: Seq<PieceView>, from: int, arch: &Arch)
    ensures
        emit_from(ctx, pieces, from, arch).res is Ok,
        emit_from(ctx, pieces, from, arch).ctx == (ContextView {
            line_len: emit_from(ctx, pieces, from, arch).ctx.line_len,
            ..ctx
        }),
    decreases pieces.len() - from,
{
    if 0 <= from < pieces.len() {
        lemma_emit_from(ctx.bumped(pieces[from].node.text), pieces, from + 1, arch);
    }
}

/// The sink can be called with any arguments.
pub open spec fn sink_total<F: FnMut(&Node, CallbackKind, &[u8], &Arch, &Context) -> Result<(), Error>>(
    f: F,
) -> bool {
    forall|node: &Node, kind: CallbackKind, raw: &[u8], arch: &Arch, ctx: &Context|
        call_requires(f, (node, kind, raw, arch, ctx))
}

/// The sink was called with the emission `e`, its architecture included,
/// and answered `r`.
pub open spec fn saw<F: FnMut(&Node, CallbackKind, &[u8], &Arch, &Context) -> Result<(), Error>>(
    f: F,
    e: Emission,
    r: Result<(), Error>,
) -> bool {
    exists|node: &Node, raw: &[u8], ctx: &Context|
        node@ == e.node && raw@ == e.raw && ctx@ == e.ctx && #[trigger] call_ensures(
            f,
            (node, e.kind, raw, &e.arch, ctx),
            r,
        )
}

/// The sink was called with each of the first `upto` emissions of `trace` and
/// accepted each.
#[verifier::opaque]
pub open spec fn accepted<F: FnMut(&Node, CallbackKind, &[u8], &Arch, &Context) -> Result<(), Error>>(
    f: F,
    trace: Seq<Emission>,
    upto: int,
) -> bool {
    forall|j: int| 0 <= j < upto ==> saw(f, #[trigger] trace[j], Ok(()))
}

/// Whether `r` and `res` are the same result: the same value, or errors of
/// the same value.
pub open spec fn same_result<T>(r: Result<T, Error>, res: Result<T, ErrorView>) -> bool {
    match (r, res) {
        (Ok(a), Ok(b)) => a == b,
        (Err(e), Err(v)) => e@ == v,
        _ => false,
    }
}

/// The result `r` and the final state `end` are what `out` describes, as far
/// as the sink let the pass go. Either the sink accepted every emission, and
/// result and state are those of `out`; or it accepted the emissions before
/// some emission, refused that one with the error that `r` carries, and the
/// state is the one in which it saw the context.
#[verifier::opaque]
pub open spec fn faithful<
    F: FnMut(&Node, CallbackKind, &[u8], &Arch, &Context) -> Result<(), Error>,
    T,
>(f: F, out: Outcome<T>, r: Result<T, Error>, end: ContextView) -> bool {
    ||| {
        &&& accepted(f, out.trace, out.trace.len() as int)
        &&& end == out.ctx
        &&& same_result(r, out.res)
    }
    ||| exists|i: int| refused_at(f, out.trace, i, r, end)
}

/// The result `r` without the value that it carries on success.
pub open spec fn without_value<T>(r: Result<T, Error>) -> Result<(), Error> {
    match r {
        Ok(_) => Ok(()),
        Err(e) => Err(e),
    }
}

/// The sink accepted the emissions before the one at `i` and refused that one
/// with the error of `r`, seeing the context in the state `end`.
pub open spec fn refused_at<
    F: FnMut(&Node, CallbackKind, &[u8], &Arch, &Context) -> Result<(), Error>,
    T,
>(f: F, trace: Seq<Emission>, i: int, r: Result<T, Error>, end: ContextView) -> bool {
    &&& 0 <= i < trace.len()
    &&& accepted(f, trace, i)
    &&& r is Err
    &&& saw(f, trace[i], Err(r->Err_0))
    &&& end == trace[i].ctx
}

/// Nothing was handed over yet.
pub proof fn lemma_accepted_none<
    F: FnMut(&Node, CallbackKind, &[u8], &Arch, &Context) -> Result<(), Error>,
>(f: F, trace: Seq<Emission>)
    ensures
        accepted(f, trace, 0),
{
    reveal(accepted);
}

/// One more emission was accepted.
pub proof fn lemma_accepted_one<
    F: FnMut(&Node, CallbackKind, &[u8], &Arch, &Context) -> Result<(), Error>,
>(f: F, done: Seq<Emission>, e: Emission, r: Result<(), Error>)
    requires
        accepted(f, done, done.len() as int),
        saw(f, e, r),
        r is Ok,
    ensures
        accepted(f, done + seq![e], (done + seq![e]).len() as int),
{
    reveal(accepted);
    assert(r->Ok_0 == ());
    assert(r == Ok::<(), Error>(()));
    assert forall|j: int| 0 <= j < done.len() + 1 implies saw(f, #[trigger] (done + seq![e])[j], Ok(())) by {
        if j < done.len() {
            assert((done + seq![e])[j] == done[j]);
        } else {
            assert((done + seq![e])[j] == e);
        }
    }
}

/// Extending accepted emissions by accepted emissions.
pub proof fn lemma_accepted_join<
    F: FnMut(&Node, CallbackKind, &[u8], &Arch, &Context) -> Result<(), Error>,
>(f: F, done: Seq<Emission>, more: Seq<Emission>)
    requires
        accepted(f, done, done.len() as int),
        accepted(f, more, more.len() as int),
    ensures
        accepted(f, done + more, (done + more).len() as int),
{
    reveal(accepted);
    assert forall|j: int| 0 <= j < (done + more).len() implies saw(f, #[trigger] (done + more)[j], Ok(())) by {
        if j < done.len() {
            assert((done + more)[j] == done[j]);
        } else {
            assert((done + more)[j] == more[j - done.len()]);
        }
    }
}

/// Emissions that were accepted as the beginning of a longer run.
pub proof fn lemma_accepted_prefix<
    F: FnMut(&Node, CallbackKind, &[u8], &Arch, &Context) -> Result<(), Error>,
>(f: F, done: Seq<Emission>, whole: Seq<Emission>)
    requires
        accepted(f, done, done.len() as int),
        done.len() <= whole.len(),
        whole.take(done.len() as int) == done,
    ensures
        accepted(f, whole, done.len() as int),
{
    reveal(accepted);
    assert forall|j: int| 0 <= j < done.len() implies saw(f, #[trigger] whole[j], Ok(())) by {
        assert(whole.take(done.len() as int)[j] == whole[j]);
    }
}

/// The sink accepted everything, and result and state are those of `out`.
pub proof fn lemma_met<
    F: FnMut(&Node, CallbackKind, &[u8], &Arch, &Context) -> Result<(), Error>,
    T,
>(f: F, out: Outcome<T>, r: Result<T, Error>, end: ContextView)
    requires
        accepted(f, out.trace, out.trace.len() as int),
        end == out.ctx,
        same_result(r, out.res),
    ensures
        faithful(f, out, r, end),
{
    reveal(faithful);
}

/// The sink refused the emission at `i`.
pub proof fn lemma_refused<
    F: FnMut(&Node, CallbackKind, &[u8], &Arch, &Context) -> Result<(), Error>,
    T,
>(f: F, out: Outcome<T>, i: int, r: Result<T, Error>, end: ContextView)
    requires
        refused_at(f, out.trace, i, r, end),
    ensures
        faithful(f, out, r, end),
{
    reveal(faithful);
}

/// A success means that the sink accepted everything and that result and
/// state are those of the outcome.
pub proof fn lemma_faithful_ok<
    F: FnMut(&Node, CallbackKind, &[u8], &Arch, &Context) -> Result<(), Error>,
    T,
>(f: F, out: Outcome<T>, r: Result<T, Error>, end: ContextView)
    requires
        faithful(f, out, r, end),
        r is Ok,
    ensures
        accepted(f, out.trace, out.trace.len() as int),
        end == out.ctx,
        out.res is Ok,
        out.res->Ok_0 == r->Ok_0,
{
    reveal(faithful);
}

/// Where nothing was to be emitted, the sink had no say: result and state
/// are those of the outcome.
pub proof fn lemma_faithful_quiet<
    F: FnMut(&Node, CallbackKind, &[u8], &Arch, &Context) -> Result<(), Error>,
    T,
>(f: F, out: Outcome<T>, r: Result<T, Error>, end: ContextView)
    requires
        faithful(f, out, r, end),
        out.trace.len() == 0,
    ensures
        same_result(r, out.res),
        end == out.ctx,
{
    reveal(faithful);
}

/// The same outcome under another type of value.
pub proof fn lemma_faithful_cast<
    F: FnMut(&Node, CallbackKind, &[u8], &Arch, &Context) -> Result<(), Error>,
    T,
    U,
>(f: F, out: Outcome<T>, r: Result<T, Error>, end: ContextView, other: Outcome<U>, s: Result<U, Error>)
    requires
        faithful(f, out, r, end),
        other.trace == out.trace,
        other.ctx == out.ctx,
        r is Err ==> s is Err && s->Err_0 == r->Err_0,
        r is Ok ==> s is Ok,
        out.res is Err ==> other.res is Err && other.res->Err_0 == out.res->Err_0,
        out.res is Ok && s is Ok ==> other.res is Ok && other.res->Ok_0 == s->Ok_0,
        out.res is Ok ==> other.res is Ok,
    ensures
        faithful(f, other, s, end),
{
    reveal(faithful);
    if exists|i: int| refused_at(f, out.trace, i, r, end) {
        let i = choose|i: int| refused_at(f, out.trace, i, r, end);
        assert(refused_at(f, other.trace, i, s, end));
    }
}

/// A part that ran after accepted emissions is faithful to the whole.
pub proof fn lemma_faithful_after<
    F: FnMut(&Node, CallbackKind, &[u8], &Arch, &Context) -> Result<(), Error>,
    T,
>(f: F, done: Seq<Emission>, out: Outcome<T>, r: Result<T, Error>, end: ContextView)
    requires
        accepted(f, done, done.len() as int),
        faithful(f, out, r, end),
    ensures
        faithful(f, out.after(done), r, end),
{
    reveal(faithful);
    reveal(accepted);
    let whole = out.after(done);
    if exists|i: int| refused_at(f, out.trace, i, r, end) {
        let i = choose|i: int| refused_at(f, out.trace, i, r, end);
        assert(whole.trace[done.len() + i] == out.trace[i]);
        assert forall|j: int| 0 <= j < done.len() + i implies saw(f, #[trigger] whole.trace[j], Ok(())) by {
            if j < done.len() {
                assert(whole.trace[j] == done[j]);
            } else {
                assert(whole.trace[j] == out.trace[j - done.len()]);
            }
        }
        assert(refused_at(f, whole.trace, done.len() + i, r, end));
    } else {
        assert forall|j: int| 0 <= j < whole.trace.len() implies saw(f, #[trigger] whole.trace[j], Ok(())) by {
            if j < done.len() {
                assert(whole.trace[j] == done[j]);
            } else {
                assert(whole.trace[j] == out.trace[j - done.len()]);
            }
        }
    }
}

/// Where a part failed, be it by its own error or by a refusal of the sink,
/// every whole that begins with the part and fails as it does is met too.
pub proof fn lemma_faithful_abort<
    F: FnMut(&Node, CallbackKind, &[u8], &Arch, &Context) -> Result<(), Error>,
    T,
    U,
>(f: F, part: Outcome<T>, r: Result<T, Error>, end: ContextView, whole: Outcome<U>, e: Error)
    requires
        faithful(f, part, r, end),
        r == Err::<T, Error>(e),
        part.trace.len() <= whole.trace.len(),
        whole.trace.take(part.trace.len() as int) == part.trace,
        part.res is Err ==> whole == part.failing::<U>(part.res->Err_0),
    ensures
        faithful(f, whole, Err::<U, Error>(e), end),
{
    reveal(faithful);
    reveal(accepted);
    if exists|i: int| refused_at(f, part.trace, i, r, end) {
        let i = choose|i: int| refused_at(f, part.trace, i, r, end);
        assert forall|j: int| 0 <= j <= i implies whole.trace[j] == part.trace[j] by {
            assert(whole.trace.take(part.trace.len() as int)[j] == whole.trace[j]);
        }
        assert(refused_at(f, whole.trace, i, Err::<U, Error>(e), end));
    } else {
        assert(part.res is Err);
        assert(whole.trace == part.trace);
    }
}

/// Where a part failed after accepted emissions, the whole that those
/// emissions and the rest make up is met too.
pub proof fn lemma_abort_within<
    F: FnMut(&Node, CallbackKind, &[u8], &Arch, &Context) -> Result<(), Error>,
    T,
    U,
>(
    f: F,
    done: Seq<Emission>,
    part: Outcome<T>,
    rest: Outcome<U>,
    r: Result<T, Error>,
    end: ContextView,
    e: Error,
)
    requires
        accepted(f, done, done.len() as int),
        faithful(f, part, r, end),
        r == Err::<T, Error>(e),
        part.trace.len() <= rest.trace.len(),
        rest.trace.take(part.trace.len() as int) == part.trace,
        part.res is Err ==> rest == part.failing::<U>(part.res->Err_0),
    ensures
        faithful(f, rest.after(done), Err::<U, Error>(e), end),
{
    lemma_faithful_abort(f, part, r, end, rest, e);
    lemma_faithful_after(f, done, rest, Err::<U, Error>(e), end);
}

/// A part succeeded after accepted emissions: its emissions were accepted
/// too, and it ended as its outcome says.
pub proof fn lemma_continue<
    F: FnMut(&Node, CallbackKind, &[u8], &Arch, &Context) -> Result<(), Error>,
    T,
>(f: F, done: Seq<Emission>, part: Outcome<T>, r: Result<T, Error>, end: ContextView)
    requires
        accepted(f, done, done.len() as int),
        faithful(f, part, r, end),
        r is Ok,
    ensures
        accepted(f, done + part.trace, (done + part.trace).len() as int),
        end == part.ctx,
        part.res is Ok,
        part.res->Ok_0 == r->Ok_0,
{
    lemma_faithful_ok(f, part, r, end);
    lemma_accepted_join(f, done, part.trace);
}

/// Two runs of emissions, one after the other, in front of an outcome.
pub proof fn lemma_after_after<T>(out: Outcome<T>, first: Seq<Emission>, second: Seq<Emission>)
    ensures
        out.after(second).after(first) == out.after(first + second),
        out.after(Seq::empty()) == out,
{
    assert(first + (second + out.trace) =~= (first + second) + out.trace);
    assert(Seq::<Emission>::empty() + out.trace =~= out.trace);
}

/// Hands one node to the sink, after adding the length of its text to the
/// length of the current line.
pub fn cb<F: FnMut(&Node, CallbackKind, &[u8], &Arch, &Context) -> Result<(), Error>>(
    f: &mut F,
    node: &Node,
    kind: CallbackKind,
    data: &[u8],
    arch: &Arch,
    ctx: &mut Context,
) -> (r: Result<(), Error>)
    requires
        sink_total(*old(f)),
    ensures
        *final(f) == *old(f),
        final(ctx)@ == old(ctx)@.bumped(node@.text),
        saw(*old(f), Emission { node: node@, kind, raw: data@, arch: *arch, ctx: final(ctx)@ }, r),
{
    ctx.tr_ctx.line_len = ctx.tr_ctx.line_len.wrapping_add(node.string.as_str().len());
    let r = f(node, kind, data, arch, &*ctx);
    r
}

/// Hands the pieces to the sink in order, until the sink refuses one.
pub fn deliver<F: FnMut(&Node, CallbackKind, &[u8], &Arch, &Context) -> Result<(), Error>>(
    f: &mut F,
    pieces: &Vec<Piece>,
    arch: &Arch,
    ctx: &mut Context,
) -> (r: Result<(), Error>)
    requires
        sink_total(*old(f)),
    ensures
        *final(f) == *old(f),
        faithful(*old(f), emit_from(old(ctx)@, views(pieces@), 0, arch), r, final(ctx)@),
{
    let ghost whole = emit_from(old(ctx)@, views(pieces@), 0, arch);
    let ghost mut done: Seq<Emission> = Seq::empty();
    let mut i: usize = 0;
    proof {
        lemma_after_after(whole, Seq::empty(), Seq::empty());
        lemma_accepted_none(*f, done);
    }
    while i < pieces.len()
        invariant
            i <= pieces.len(),
            *f == *old(f),
            sink_total(*f),
            accepted(*f, done, done.len() as int),
            whole == emit_from(old(ctx)@, views(pieces@), 0, arch),
            whole == emit_from(ctx@, views(pieces@), i as int, arch).after(done),
        decreases pieces.len() - i,
    {
        let piece = &pieces[i];
        let ghost before = ctx@;
        let ghost rest = emit_from(before.bumped(piece@.node.text), views(pieces@), i + 1, arch);
        let r = cb(f, &piece.node, piece.kind, piece.raw.as_slice(), arch, ctx);
        let ghost answer = r;
        let ghost e = Emission {
            node: piece@.node,
            kind: piece@.kind,
            raw: piece@.raw,
            arch: *arch,
            ctx: ctx@,
        };
        proof {
            assert(saw(*f, e, answer));
            assert(views(pieces@)[i as int] == piece@);
            assert(emit_from(before, views(pieces@), i as int, arch) == rest.after(seq![e]));
            lemma_after_after(rest, done, seq![e]);
            assert(whole == rest.after(done + seq![e]));
            assert(whole.trace[done.len() as int] == e);
        }
        match r {
            Err(err) => {
                proof {
                    assert(answer == Err::<(), Error>(err));
                    assert(whole.trace.take(done.len() as int) =~= done);
                    lemma_accepted_prefix(*f, done, whole.trace);
                    lemma_refused(*f, whole, done.len() as int, Err::<(), Error>(err), ctx@);
                }
                return Err(err);
            },
            Ok(u) => {
                proof {
                    lemma_accepted_one(*f, done, e, answer);
                    done = done + seq![e];
                }
            },
        }
        i += 1;
    }
    proof {
        assert(whole.trace =~= done);
        lemma_met(*f, whole, Ok::<(), Error>(()), ctx@);
    }
    Ok(())
}

} // verus!
