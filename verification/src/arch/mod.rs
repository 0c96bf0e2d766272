//! Architectures as data, the context of a pass, and the engine that runs one.
use vstd::prelude::*;
use vstd::slice::slice_subrange;
use crate::Address;
use crate::error::{Error, ErrorView};
use crate::name_map::NameMap;
use crate::search::first_index;
use crate::symbols::SymbolList;
use crate::value::DataType;

pub mod a6502;
pub mod a65c02;
pub mod a65c816;
pub mod context;
pub mod endian;
pub mod laws;
pub mod matcher;
pub mod node;
pub mod pattern;
pub mod statics;
pub mod tables;
pub mod trace;
pub mod transform;

pub use context::{Context, ContextView, TransformContext};
pub use endian::Endianess;
pub use matcher::Matcher;
pub use node::{CallbackKind, Node, NodeKind, NodeView};
pub use pattern::{Pattern, PatternAt};
pub use statics::StaticOp;
pub use trace::{Emission, Outcome};
pub use transform::{DefSym, Transform, ValOut};

use context::share;
use matcher::rule_matches;
use statics::static_list;
use trace::{
    accepted, faithful, lemma_abort_within, lemma_accepted_join, lemma_accepted_none,
    lemma_after_after, lemma_continue, lemma_faithful_abort, lemma_faithful_after,
    lemma_faithful_cast, lemma_faithful_ok, lemma_faithful_quiet, lemma_met, same_result,
    sink_total, without_value,
};

verus! {

/// An instruction set as data: rules in the order of their priority, named
/// transforms, and what frames every instruction.
#[derive(Clone, Debug)]
pub struct Arch {
    /// The rules of which the first that matches decodes an instruction.
    pub patterns: Vec<Matcher>,
    /// The transforms that rules name.
    pub transforms: NameMap<Vec<Transform>>,
    /// Rules of which the first that matches runs before every instruction.
    pub pre_patterns: Vec<Matcher>,
    /// Rules of which the first that matches runs after every instruction.
    pub post_patterns: Vec<Matcher>,
    pub endianess: Endianess,
    /// The width of an address.
    pub addr_type: DataType,
    /// Prefixes and suffixes of numbers, filed under the keys of the formats.
    pub node_map: NameMap<Node>,
}

impl Default for Arch {
    fn default() -> (r: Arch)
        ensures
            r.patterns@.len() == 0,
            r.transforms@ == Map::<Seq<char>, Vec<Transform>>::empty(),
            r.pre_patterns@.len() == 0,
            r.post_patterns@.len() == 0,
            r.endianess == Endianess::Little,
            r.addr_type == DataType::NoData,
            r.node_map@ == Map::<Seq<char>, Node>::empty(),
    {
        Arch {
            patterns: Vec::new(),
            transforms: NameMap::new(),
            pre_patterns: Vec::new(),
            post_patterns: Vec::new(),
            endianess: Endianess::Little,
            addr_type: DataType::NoData,
            node_map: NameMap::new(),
        }
    }
}

/// What a layer of framing rules does on `window`: the first rule that
/// matches fires; where none matches, nothing happens.
pub open spec fn layer(rules: Seq<Matcher>, window: Seq<u8>, arch: &Arch, ctx: ContextView) -> Outcome<usize> {
    match first_index(rules, rule_matches(ctx, window), 0) {
        Some(i) => rules[i].spec_transform(window, arch, ctx),
        None => Outcome::quiet(ctx, Ok(0)),
    }
}

impl Arch {
    /// The end of an instruction of `n` bytes: the directives that frame it
    /// from behind.
    #[verifier::opaque]
    pub open spec fn step_after_post(&self, window: Seq<u8>, ctx: ContextView, n: usize) -> Outcome<usize> {
        let last = static_list(ctx.static_ops_post, 0, window, self, ctx);
        match last.res {
            Err(e) => last.failing(e),
            Ok(_) => last.giving(n),
        }
    }

    /// An instruction from its rear framing rules on: they see the `a + b`
    /// bytes consumed so far, and the instruction may not end past the window.
    #[verifier::opaque]
    pub open spec fn step_after_main(&self, window: Seq<u8>, ctx: ContextView, a: usize, b: usize) -> Outcome<
        usize,
    > {
        let post = layer(self.post_patterns@, window.take(a + b), self, ctx);
        match post.res {
            Err(e) => post,
            Ok(c) => if a + b + c > window.len() {
                post.failing(ErrorView::TransformOutOfData(post.ctx.address()))
            } else {
                self.step_after_post(window, post.ctx, (a + b + c) as usize).after(post.trace)
            },
        }
    }

    /// An instruction from the firing of its rule on, after the front framing
    /// consumed `a` bytes.
    #[verifier::opaque]
    pub open spec fn step_after_pre(&self, rule: int, window: Seq<u8>, ctx: ContextView, a: usize) -> Outcome<
        usize,
    > {
        let main = self.patterns@[rule].spec_transform(window.skip(a as int), self, ctx);
        match main.res {
            Err(e) => main,
            Ok(b) => self.step_after_main(window, main.ctx, a, b).after(main.trace),
        }
    }

    /// An instruction from its front framing rules on.
    #[verifier::opaque]
    pub open spec fn step_after_statics(&self, rule: int, window: Seq<u8>, ctx: ContextView) -> Outcome<usize> {
        let pre = layer(self.pre_patterns@, window, self, ctx);
        match pre.res {
            Err(e) => pre,
            Ok(a) => self.step_after_pre(rule, window, pre.ctx, a).after(pre.trace),
        }
    }

    /// Decoding one instruction at the start of `window`. The first rule that
    /// matches is the instruction's; without one the step fails. The line
    /// starts empty; then run, in this order, the directives in front, the
    /// front framing, the rule's transform, the rear framing and the
    /// directives behind. The result is the number of bytes consumed.
    pub open spec fn spec_step(&self, window: Seq<u8>, ctx: ContextView) -> Outcome<usize> {
        match first_index(self.patterns@, rule_matches(ctx, window), 0) {
            None => Outcome::quiet(ctx, Err(ErrorView::NoMatch)),
            Some(rule) => {
                let start = ContextView { line_len: 0, ..ctx };
                let first = static_list(start.static_ops_pre, 0, window, self, start);
                match first.res {
                    Err(e) => first.failing(e),
                    Ok(_) => self.step_after_statics(rule, window, first.ctx).after(first.trace),
                }
            },
        }
    }

    /// The position of the first rule of `rules` that matches.
    fn find_rule(&self, rules: &Vec<Matcher>, ctx: &Context, data: &[u8]) -> (r: Option<usize>)
        ensures
            match r {
                Some(i) => i < rules.len() && first_index(rules@, rule_matches(ctx@, data@), 0) == Some(
                    i as int,
                ),
                None => first_index(rules@, rule_matches(ctx@, data@), 0) is None,
            },
    {
        let mut i: usize = 0;
        while i < rules.len()
            invariant
                i <= rules.len(),
                first_index(rules@, rule_matches(ctx@, data@), 0) == first_index(
                    rules@,
                    rule_matches(ctx@, data@),
                    i as int,
                ),
            decreases rules.len() - i,
        {
            if rules[i].is_match(self, ctx, data) {
                return Some(i);
            }
            i += 1;
        }
        None
    }

    /// Decodes one instruction at the start of `data` and gives the number of
    /// bytes that it consumed.
    pub fn match_patterns<F: FnMut(&Node, CallbackKind, &[u8], &Arch, &Context) -> Result<(), Error>>(
        &self,
        f: &mut F,
        data: &[u8],
        ctx: &mut Context,
    ) -> (r: Result<usize, Error>)
        requires
            sink_total(*old(f)),
        ensures
            *final(f) == *old(f),
            faithful(*old(f), self.spec_step(data@, old(ctx)@), r, final(ctx)@),
            r matches Ok(n) ==> n <= data@.len(),
    {
        let ghost whole = self.spec_step(data@, old(ctx)@);
        let rule = match self.find_rule(&self.patterns, ctx, data) {
            Some(i) => i,
            None => {
                proof {
                    lemma_accepted_none(*f, whole.trace);
                    lemma_met(*f, whole, Err::<usize, Error>(Error::NoMatch), ctx@);
                }
                return Err(Error::NoMatch);
            },
        };
        ctx.tr_ctx = TransformContext { line_len: 0 };

        let ghost first = static_list(ctx@.static_ops_pre, 0, data@, self, ctx@);
        let ghost rest0 = self.step_after_statics(rule as int, data@, first.ctx);
        proof {
            lemma_accepted_none(*f, Seq::empty());
        }
        match self.apply_statics_pre(f, data, ctx) {
            Ok(u) => {
                proof {
                    lemma_continue(*f, Seq::empty(), first, Ok::<(), Error>(u), ctx@);
                    assert(Seq::<Emission>::empty() + first.trace =~= first.trace);
                }
            },
            Err(e) => {
                proof {
                    assert(whole.trace.take(first.trace.len() as int) =~= first.trace);
                    lemma_faithful_abort(*f, first, Err::<(), Error>(e), ctx@, whole, e);
                }
                return Err(e);
            },
        }
        let ghost done1 = first.trace;
        assert(whole == rest0.after(done1));
        match self.front(f, data, ctx, rule) {
            Ok(n) => {
                proof {
                    lemma_faithful_ok(*f, rest0, Ok::<usize, Error>(n), ctx@);
                    lemma_accepted_join(*f, done1, rest0.trace);
                    lemma_met(*f, whole, Ok::<usize, Error>(n), ctx@);
                }
                Ok(n)
            },
            Err(e) => {
                proof {
                    lemma_faithful_after(*f, done1, rest0, Err::<usize, Error>(e), ctx@);
                }
                Err(e)
            },
        }
    }

    /// An instruction from its front framing rules on.
    fn front<F: FnMut(&Node, CallbackKind, &[u8], &Arch, &Context) -> Result<(), Error>>(
        &self,
        f: &mut F,
        data: &[u8],
        ctx: &mut Context,
        rule: usize,
    ) -> (r: Result<usize, Error>)
        requires
            sink_total(*old(f)),
            rule < self.patterns.len(),
        ensures
            *final(f) == *old(f),
            faithful(*old(f), self.step_after_statics(rule as int, data@, old(ctx)@), r, final(ctx)@),
            r matches Ok(n) ==> n <= data@.len(),
    {
        let ghost whole = self.step_after_statics(rule as int, data@, old(ctx)@);
        let ghost pre = layer(self.pre_patterns@, data@, self, old(ctx)@);
        proof {
            reveal(Arch::step_after_statics);
            lemma_accepted_none(*f, Seq::empty());
        }
        let a = match self.match_additional_patterns(f, data, ctx, &self.pre_patterns) {
            Ok(a) => {
                proof {
                    lemma_continue(*f, Seq::empty(), pre, Ok::<usize, Error>(a), ctx@);
                    assert(Seq::<Emission>::empty() + pre.trace =~= pre.trace);
                }
                a
            },
            Err(e) => {
                proof {
                    assert(whole.trace.take(pre.trace.len() as int) =~= pre.trace);
                    lemma_faithful_abort(*f, pre, Err::<usize, Error>(e), ctx@, whole, e);
                }
                return Err(e);
            },
        };
        let ghost rest = self.step_after_pre(rule as int, data@, pre.ctx, a);
        assert(whole == rest.after(pre.trace));
        match self.middle(f, data, ctx, rule, a) {
            Ok(n) => {
                proof {
                    lemma_faithful_ok(*f, rest, Ok::<usize, Error>(n), ctx@);
                    lemma_accepted_join(*f, pre.trace, rest.trace);
                    lemma_met(*f, whole, Ok::<usize, Error>(n), ctx@);
                }
                Ok(n)
            },
            Err(e) => {
                proof {
                    lemma_faithful_after(*f, pre.trace, rest, Err::<usize, Error>(e), ctx@);
                }
                Err(e)
            },
        }
    }

    /// An instruction from the firing of its rule on.
    fn middle<F: FnMut(&Node, CallbackKind, &[u8], &Arch, &Context) -> Result<(), Error>>(
        &self,
        f: &mut F,
        data: &[u8],
        ctx: &mut Context,
        rule: usize,
        a: usize,
    ) -> (r: Result<usize, Error>)
        requires
            sink_total(*old(f)),
            rule < self.patterns.len(),
            a <= data@.len(),
        ensures
            *final(f) == *old(f),
            faithful(*old(f), self.step_after_pre(rule as int, data@, old(ctx)@, a), r, final(ctx)@),
            r matches Ok(n) ==> n <= data@.len(),
    {
        let ghost whole = self.step_after_pre(rule as int, data@, old(ctx)@, a);
        let tail = slice_subrange(data, a, data.len());
        assert(tail@ =~= data@.skip(a as int));
        let ghost main = self.patterns@[rule as int].spec_transform(tail@, self, old(ctx)@);
        proof {
            reveal(Arch::step_after_pre);
            lemma_accepted_none(*f, Seq::empty());
        }
        let b = match self.patterns[rule].transform(f, tail, self, ctx) {
            Ok(b) => {
                proof {
                    lemma_continue(*f, Seq::empty(), main, Ok::<usize, Error>(b), ctx@);
                    assert(Seq::<Emission>::empty() + main.trace =~= main.trace);
                }
                b
            },
            Err(e) => {
                proof {
                    assert(whole.trace.take(main.trace.len() as int) =~= main.trace);
                    lemma_faithful_abort(*f, main, Err::<usize, Error>(e), ctx@, whole, e);
                }
                return Err(e);
            },
        };
        let ghost rest = self.step_after_main(data@, main.ctx, a, b);
        assert(whole == rest.after(main.trace));
        match self.rear(f, data, ctx, a, b) {
            Ok(n) => {
                proof {
                    lemma_faithful_ok(*f, rest, Ok::<usize, Error>(n), ctx@);
                    lemma_accepted_join(*f, main.trace, rest.trace);
                    lemma_met(*f, whole, Ok::<usize, Error>(n), ctx@);
                }
                Ok(n)
            },
            Err(e) => {
                proof {
                    lemma_faithful_after(*f, main.trace, rest, Err::<usize, Error>(e), ctx@);
                }
                Err(e)
            },
        }
    }

    /// An instruction from its rear framing rules on.
    fn rear<F: FnMut(&Node, CallbackKind, &[u8], &Arch, &Context) -> Result<(), Error>>(
        &self,
        f: &mut F,
        data: &[u8],
        ctx: &mut Context,
        a: usize,
        b: usize,
    ) -> (r: Result<usize, Error>)
        requires
            sink_total(*old(f)),
            a + b <= data@.len(),
        ensures
            *final(f) == *old(f),
            faithful(*old(f), self.step_after_main(data@, old(ctx)@, a, b), r, final(ctx)@),
            r matches Ok(n) ==> n <= data@.len(),
    {
        let ghost whole = self.step_after_main(data@, old(ctx)@, a, b);
        let available = data.len();
        let head = slice_subrange(data, 0, a + b);
        assert(head@ =~= data@.take(a + b));
        let ghost post = layer(self.post_patterns@, head@, self, old(ctx)@);
        proof {
            reveal(Arch::step_after_main);
            reveal(Arch::step_after_post);
            lemma_accepted_none(*f, Seq::empty());
        }
        let c = match self.match_additional_patterns(f, head, ctx, &self.post_patterns) {
            Ok(c) => {
                proof {
                    lemma_continue(*f, Seq::empty(), post, Ok::<usize, Error>(c), ctx@);
                    assert(Seq::<Emission>::empty() + post.trace =~= post.trace);
                }
                c
            },
            Err(e) => {
                proof {
                    assert(whole.trace.take(post.trace.len() as int) =~= post.trace);
                    lemma_faithful_abort(*f, post, Err::<usize, Error>(e), ctx@, whole, e);
                }
                return Err(e);
            },
        };
        if c > data.len() - (a + b) {
            proof {
                lemma_met(*f, whole, Err::<usize, Error>(Error::TransformOutOfData(ctx@.address())), ctx@);
            }
            return Err(Error::TransformOutOfData(ctx.address()));
        }
        let n = a + b + c;
        let ghost rest = self.step_after_post(data@, post.ctx, n);
        let ghost last = static_list(post.ctx.static_ops_post, 0, data@, self, post.ctx);
        assert(whole == rest.after(post.trace));
        match self.apply_statics_post(f, data, ctx) {
            Ok(u) => {
                proof {
                    lemma_continue(*f, post.trace, last, Ok::<(), Error>(u), ctx@);
                    lemma_met(*f, whole, Ok::<usize, Error>(n), ctx@);
                }
                Ok(n)
            },
            Err(e) => {
                proof {
                    assert(rest.trace.take(last.trace.len() as int) =~= last.trace);
                    lemma_abort_within(*f, post.trace, last, rest, Err::<(), Error>(e), ctx@, e);
                }
                Err(e)
            },
        }
    }

    /// Runs the directives that stand in front of every instruction.
    fn apply_statics_pre<F: FnMut(&Node, CallbackKind, &[u8], &Arch, &Context) -> Result<(), Error>>(
        &self,
        f: &mut F,
        data: &[u8],
        ctx: &mut Context,
    ) -> (r: Result<(), Error>)
        requires
            sink_total(*old(f)),
        ensures
            *final(f) == *old(f),
            faithful(
                *old(f),
                static_list(old(ctx)@.static_ops_pre, 0, data@, self, old(ctx)@),
                r,
                final(ctx)@,
            ),
    {
        let st = share(&ctx.static_ops_pre);
        StaticOp::apply_list(f, &st, data, self, ctx)
    }

    /// Runs the directives that stand behind every instruction.
    fn apply_statics_post<F: FnMut(&Node, CallbackKind, &[u8], &Arch, &Context) -> Result<(), Error>>(
        &self,
        f: &mut F,
        data: &[u8],
        ctx: &mut Context,
    ) -> (r: Result<(), Error>)
        requires
            sink_total(*old(f)),
        ensures
            *final(f) == *old(f),
            faithful(
                *old(f),
                static_list(old(ctx)@.static_ops_post, 0, data@, self, old(ctx)@),
                r,
                final(ctx)@,
            ),
    {
        let st = share(&ctx.static_ops_post);
        StaticOp::apply_list(f, &st, data, self, ctx)
    }

    /// Fires the first rule of `patterns` that matches `data`, if there is one.
    fn match_additional_patterns<
        F: FnMut(&Node, CallbackKind, &[u8], &Arch, &Context) -> Result<(), Error>,
    >(&self, f: &mut F, data: &[u8], ctx: &mut Context, patterns: &Vec<Matcher>) -> (r: Result<
        usize,
        Error,
    >)
        requires
            sink_total(*old(f)),
        ensures
            *final(f) == *old(f),
            faithful(*old(f), layer(patterns@, data@, self, old(ctx)@), r, final(ctx)@),
            r matches Ok(n) ==> n <= data@.len(),
    {
        match self.find_rule(patterns, ctx, data) {
            Some(i) => patterns[i].transform(f, data, self, ctx),
            None => {
                proof {
                    let whole = layer(patterns@, data@, self, old(ctx)@);
                    lemma_accepted_none(*f, whole.trace);
                    lemma_met(*f, whole, Ok::<usize, Error>(0), ctx@);
                }
                Ok(0)
            },
        }
    }

    /// The position of the first rule of `rules` that names a transform
    /// which the architecture does not define.
    fn unresolved(&self, rules: &Vec<Matcher>) -> (r: Option<usize>)
        ensures
            match r {
                Some(i) => i < rules.len() && !self.transforms@.contains_key(rules@[i as int].transforms@),
                None => laws::rules_resolve(rules@, self),
            },
    {
        let mut i: usize = 0;
        while i < rules.len()
            invariant
                i <= rules.len(),
                forall|k: int|
                    0 <= k < i ==> self.transforms@.contains_key((#[trigger] rules@[k]).transforms@),
            decreases rules.len() - i,
        {
            if !self.transforms.contains_key(rules[i].transforms.as_str()) {
                return Some(i);
            }
            i += 1;
        }
        None
    }

    /// Checks, ahead of any pass, that every rule names a transform that the
    /// architecture defines. The failure names the transform that a rule
    /// asks for in vain.
    pub fn validate(&self) -> (r: Result<(), Error>)
        ensures
            r is Ok <==> laws::resolves(self),
            r is Err ==> r->Err_0 is TransformNotFound && laws::asked_in_vain(
                self,
                r->Err_0->TransformNotFound_0@,
            ),
    {
        match self.unresolved(&self.patterns) {
            Some(i) => {
                return Err(Error::TransformNotFound(self.patterns[i].transforms.clone()));
            },
            None => {},
        }
        match self.unresolved(&self.pre_patterns) {
            Some(i) => {
                return Err(Error::TransformNotFound(self.pre_patterns[i].transforms.clone()));
            },
            None => {},
        }
        match self.unresolved(&self.post_patterns) {
            Some(i) => Err(Error::TransformNotFound(self.post_patterns[i].transforms.clone())),
            None => Ok(()),
        }
    }

    /// The transform called `name`.
    pub fn get_transform(&self, name: &str) -> (r: Option<&Vec<Transform>>)
        ensures
            match r {
                Some(tl) => self.transforms@.contains_key(name@) && *tl == self.transforms@[name@],
                None => !self.transforms@.contains_key(name@),
            },
    {
        self.transforms.get(name)
    }
}

/// A collection of architectures, of which the context selects one for each
/// instruction, together with the state that a fresh context starts from.
#[derive(Clone, Debug)]
pub struct Archs {
    /// The architectures by key; the empty key is the default.
    pub archs: NameMap<Arch>,
    /// The origin of a fresh context.
    pub org: Address,
    /// The symbols that a fresh context knows.
    pub syms: SymbolList,
}

impl Default for Archs {
    fn default() -> (r: Archs)
        ensures
            r.archs@ == Map::<Seq<char>, Arch>::empty(),
            r.org == 0,
            r.syms@ == Seq::<crate::symbols::SymbolView>::empty(),
    {
        Archs { archs: NameMap::new(), org: 0, syms: SymbolList::default() }
    }
}

/// The part of `data` that a pass works on: it starts at `start_read` and is
/// `len_read` bytes long, both cut down to what `data` holds.
pub open spec fn spec_window(data: Seq<u8>, start_read: usize, len_read: Option<usize>) -> Seq<u8> {
    let start = if start_read <= data.len() {
        start_read as int
    } else {
        data.len() as int
    };
    let room = data.len() - start;
    let len = match len_read {
        Some(l) => if l <= room {
            l as int
        } else {
            room
        },
        None => room,
    };
    data.subrange(start, start + len)
}

/// A number of bytes as a machine count.
pub open spec fn as_count(n: int) -> usize {
    if 0 <= n <= usize::MAX {
        n as usize
    } else {
        0
    }
}

/// A step never claims more bytes than its window holds.
pub proof fn lemma_step_bound(arch: &Arch, window: Seq<u8>, ctx: ContextView)
    ensures
        arch.spec_step(window, ctx).res matches Ok(n) ==> n <= window.len(),
{
    let whole = arch.spec_step(window, ctx);
    reveal(Arch::step_after_statics);
    reveal(Arch::step_after_pre);
    reveal(Arch::step_after_main);
    reveal(Arch::step_after_post);
    match first_index(arch.patterns@, rule_matches(ctx, window), 0) {
        None => {},
        Some(rule) => {
            let start = ContextView { line_len: 0, ..ctx };
            let first = static_list(start.static_ops_pre, 0, window, arch, start);
            if first.res is Ok {
                let pre = layer(arch.pre_patterns@, window, arch, first.ctx);
                if let Ok(a) = pre.res {
                    let main = arch.patterns@[rule].spec_transform(window.skip(a as int), arch, pre.ctx);
                    if let Ok(b) = main.res {
                        let post = layer(arch.post_patterns@, window.take(a + b), arch, main.ctx);
                        if let Ok(c) = post.res {
                            if a + b + c <= window.len() {
                                let n = (a + b + c) as usize;
                                let last = static_list(post.ctx.static_ops_post, 0, window, arch, post.ctx);
                                assert(arch.step_after_post(window, post.ctx, n).res matches Ok(m) ==> m
                                    == n);
                            }
                        }
                    }
                }
            }
        },
    }
}

/// Decoding instruction after instruction until `window` is used up, with
/// `total` bytes of it consumed already. Each instruction belongs to the
/// architecture that the context selects when the instruction starts; a key
/// that the registry does not hold is a failure, and so is an instruction
/// that consumes nothing. The result is the number of bytes consumed.
pub open spec fn pass(archs: &Archs, window: Seq<u8>, total: int, ctx: ContextView) -> Outcome<usize>
    decreases window.len() - total,
{
    if total < 0 || total >= window.len() {
        Outcome::quiet(ctx, Ok(as_count(total)))
    } else if !archs.archs@.contains_key(ctx.arch_key) {
        Outcome::quiet(ctx, Err(ErrorView::ArchNotFound(ctx.arch_key)))
    } else {
        let step = archs.archs@[ctx.arch_key].spec_step(window.skip(total), ctx);
        match step.res {
            Err(e) => step.failing(e),
            Ok(n) => if n == 0 {
                step.failing(ErrorView::Unknown)
            } else {
                proof {
                    lemma_step_bound(&archs.archs@[ctx.arch_key], window.skip(total), ctx);
                }
                pass(archs, window, total + n, step.ctx).after(step.trace)
            },
        }
    }
}

impl Archs {
    /// What a pass over the window of `data` does, from the state `ctx`.
    pub open spec fn spec_disas_ctx(&self, data: Seq<u8>, ctx: ContextView) -> Outcome<()> {
        let run = pass(self, spec_window(data, ctx.start_read, ctx.len_read), 0, ctx);
        match run.res {
            Ok(_) => run.giving(()),
            Err(e) => run.failing(e),
        }
    }

    /// Checks, ahead of any pass, every architecture of the registry: see
    /// [`Arch::validate`].
    pub fn validate(&self) -> (r: Result<(), Error>)
        ensures
            r is Ok <==> laws::all_resolve(self),
            r is Err ==> r->Err_0 is TransformNotFound && exists|key: Seq<char>| #[trigger]
                self.archs@.contains_key(key) && laws::asked_in_vain(
                    &self.archs@[key],
                    r->Err_0->TransformNotFound_0@,
                ),
    {
        let mut i: usize = 0;
        while i < self.archs.entries.len()
            invariant
                i <= self.archs.entries.len(),
                forall|k: int|
                    0 <= k < i ==> laws::resolves(&self.archs@[(#[trigger] self.archs.entries@[k]).0@]),
            decreases self.archs.entries.len() - i,
        {
            proof {
                crate::name_map::lemma_entered_is_bound(self.archs.entries@, i as int);
            }
            match self.archs.get(self.archs.entries[i].0.as_str()) {
                Some(arch) => match arch.validate() {
                    Ok(u) => {},
                    Err(e) => {
                        return Err(e);
                    },
                },
                None => {},
            }
            i += 1;
        }
        proof {
            assert forall|key: Seq<char>| #[trigger] self.archs@.contains_key(key) implies laws::resolves(
                &self.archs@[key],
            ) by {
                crate::name_map::lemma_bound_is_entered(self.archs.entries@, key);
                let k = choose|k: int|
                    0 <= k < self.archs.entries@.len() && (#[trigger] self.archs.entries@[k]).0@ == key;
                assert(laws::resolves(&self.archs@[self.archs.entries@[k].0@]));
            }
        }
        Ok(())
    }

    /// Runs a pass over `data` in a fresh context and gives the context back.
    pub fn disas<F: FnMut(&Node, CallbackKind, &[u8], &Arch, &Context) -> Result<(), Error>>(
        &self,
        f: F,
        data: &[u8],
    ) -> (r: Result<Context, Error>)
        requires
            sink_total(f),
        ensures
            exists|end: ContextView|
                {
                    &&& #[trigger] faithful(
                        f,
                        self.spec_disas_ctx(data@, ContextView::fresh(self.org, self.syms@)),
                        without_value(r),
                        end,
                    )
                    &&& r matches Ok(c) ==> c@ == end
                },
    {
        let mut ctx = Context::new(self.org, self.syms.clone());
        let ghost whole = self.spec_disas_ctx(data@, ContextView::fresh(self.org, self.syms@));
        match self.disas_ctx(f, data, &mut ctx) {
            Ok(u) => {
                proof {
                    assert(u == ());
                    assert(faithful(f, whole, Ok::<(), Error>(()), ctx@));
                }
                Ok(ctx)
            },
            Err(e) => {
                proof {
                    assert(faithful(f, whole, Err::<(), Error>(e), ctx@));
                }
                Err(e)
            },
        }
    }

    /// Runs a pass over the window of `data` that `ctx` selects: decodes
    /// instruction after instruction, each with the architecture that `ctx`
    /// selects at that moment, and hands every rendered node to `f`.
    pub fn disas_ctx<F: FnMut(&Node, CallbackKind, &[u8], &Arch, &Context) -> Result<(), Error>>(
        &self,
        f: F,
        data: &[u8],
        ctx: &mut Context,
    ) -> (r: Result<(), Error>)
        requires
            sink_total(f),
        ensures
            faithful(f, self.spec_disas_ctx(data@, old(ctx)@), r, final(ctx)@),
            old(ctx)@.analyze ==> same_result(r, self.spec_disas_ctx(data@, old(ctx)@).res)
                && final(ctx)@ == self.spec_disas_ctx(data@, old(ctx)@).ctx,
    {
        let mut f = f;
        let start_read = if ctx.start_read <= data.len() {
            ctx.start_read
        } else {
            data.len()
        };
        let room = data.len() - start_read;
        let len = match ctx.len_read {
            Some(l) => if l <= room {
                l
            } else {
                room
            },
            None => room,
        };
        let window = slice_subrange(data, start_read, start_read + len);
        assert(window@ == spec_window(data@, old(ctx)@.start_read, old(ctx)@.len_read));
        let ghost run = pass(self, window@, 0, old(ctx)@);
        let ghost whole = self.spec_disas_ctx(data@, old(ctx)@);
        match self.run(&mut f, window, ctx) {
            Ok(u) => {
                proof {
                    assert(whole.res is Ok ==> whole.res->Ok_0 == ());
                    lemma_faithful_cast(f, run, Ok::<usize, Error>(u), ctx@, whole, Ok::<(), Error>(()));
                    if old(ctx)@.analyze {
                        laws::lemma_analysis_is_silent(self, data@, old(ctx)@);
                        lemma_faithful_quiet(f, whole, Ok::<(), Error>(()), ctx@);
                    }
                }
                Ok(())
            },
            Err(e) => {
                proof {
                    lemma_faithful_cast(f, run, Err::<usize, Error>(e), ctx@, whole, Err::<(), Error>(e));
                    if old(ctx)@.analyze {
                        laws::lemma_analysis_is_silent(self, data@, old(ctx)@);
                        lemma_faithful_quiet(f, whole, Err::<(), Error>(e), ctx@);
                    }
                }
                Err(e)
            },
        }
    }

    /// What the two-pass protocol starts its rendering pass from, given the
    /// state in which the analysis pass ended: the cursor back at the origin,
    /// the mode set to rendering, and everything that analysis found kept.
    pub open spec fn spec_second_start(found: ContextView) -> ContextView {
        ContextView { analyze: false, ..found.restarted() }
    }

    /// What the analysis pass of the two-pass protocol does, from the state `ctx`.
    pub open spec fn spec_analysis(&self, data: Seq<u8>, ctx: ContextView) -> Outcome<()> {
        self.spec_disas_ctx(data, ContextView { analyze: true, ..ctx })
    }

    /// Runs the passes of a disassembly over `data`. With `pre_analyze`, an
    /// analysis pass comes first: it discovers symbols and never calls `f`;
    /// where it fails, its error is the result and no rendering takes place.
    /// Then the cursor goes back to the origin and a rendering pass hands its
    /// nodes to `f`. Without `pre_analyze` there is one pass, in the mode
    /// that `ctx` is in.
    pub fn disas_passes<F: FnMut(&Node, CallbackKind, &[u8], &Arch, &Context) -> Result<(), Error>>(
        &self,
        f: F,
        data: &[u8],
        ctx: &mut Context,
        pre_analyze: bool,
    ) -> (r: Result<(), Error>)
        requires
            sink_total(f),
        ensures
            !pre_analyze ==> faithful(f, self.spec_disas_ctx(data@, old(ctx)@), r, final(ctx)@),
            pre_analyze && self.spec_analysis(data@, old(ctx)@).res is Err ==> same_result(
                r,
                self.spec_analysis(data@, old(ctx)@).res,
            ) && final(ctx)@ == self.spec_analysis(data@, old(ctx)@).ctx,
            pre_analyze && self.spec_analysis(data@, old(ctx)@).res is Ok ==> faithful(
                f,
                self.spec_disas_ctx(
                    data@,
                    Self::spec_second_start(self.spec_analysis(data@, old(ctx)@).ctx),
                ),
                r,
                final(ctx)@,
            ),
    {
        if pre_analyze {
            ctx.analyze = true;
            let quiet = |_node: &Node, _kind: CallbackKind, _raw: &[u8], _arch: &Arch, _ctx: &Context| -> (r:
                Result<(), Error>) { Ok(()) };
            match self.disas_ctx(quiet, data, ctx) {
                Ok(u) => {},
                Err(e) => {
                    return Err(e);
                },
            }
            ctx.restart();
            ctx.analyze = false;
        }
        self.disas_ctx(f, data, ctx)
    }

    /// Decodes instruction after instruction until `window` is used up, and
    /// gives the number of bytes consumed.
    fn run<F: FnMut(&Node, CallbackKind, &[u8], &Arch, &Context) -> Result<(), Error>>(
        &self,
        f: &mut F,
        window: &[u8],
        ctx: &mut Context,
    ) -> (r: Result<usize, Error>)
        requires
            sink_total(*old(f)),
        ensures
            *final(f) == *old(f),
            faithful(*old(f), pass(self, window@, 0, old(ctx)@), r, final(ctx)@),
    {
        let ghost whole = pass(self, window@, 0, old(ctx)@);
        let ghost mut done: Seq<Emission> = Seq::empty();
        let mut total: usize = 0;
        proof {
            lemma_after_after(whole, Seq::empty(), Seq::empty());
            lemma_accepted_none(*f, done);
        }
        while total < window.len()
            invariant
                total <= window@.len(),
                *f == *old(f),
                sink_total(*f),
                accepted(*f, done, done.len() as int),
                whole == pass(self, window@, 0, old(ctx)@),
                whole == pass(self, window@, total as int, ctx@).after(done),
            decreases window@.len() - total,
        {
            let ghost before = ctx@;
            let ghost rest = pass(self, window@, total as int, before);
            let arch = match self.archs.get(ctx.arch_key.as_str()) {
                Some(arch) => arch,
                None => {
                    proof {
                        assert(whole.trace =~= done);
                        lemma_met(
                            *f,
                            whole,
                            Err::<usize, Error>(Error::ArchNotFound(ctx.arch_key)),
                            ctx@,
                        );
                    }
                    return Err(Error::ArchNotFound(ctx.arch_key.clone()));
                },
            };
            let tail = slice_subrange(window, total, window.len());
            assert(tail@ =~= window@.skip(total as int));
            let ghost step = arch.spec_step(tail@, before);
            match arch.match_patterns(f, tail, ctx) {
                Err(e) => {
                    proof {
                        assert(rest.trace.take(step.trace.len() as int) =~= step.trace);
                        lemma_abort_within(*f, done, step, rest, Err::<usize, Error>(e), ctx@, e);
                    }
                    return Err(e);
                },
                Ok(n) => {
                    proof {
                        lemma_continue(*f, done, step, Ok::<usize, Error>(n), ctx@);
                    }
                    if n == 0 {
                        proof {
                            assert(whole.trace =~= done + step.trace);
                            lemma_met(*f, whole, Err::<usize, Error>(Error::Unknown), ctx@);
                        }
                        return Err(Error::Unknown);
                    }
                    total += n;
                    proof {
                        let next = pass(self, window@, total as int, ctx@);
                        assert(rest == next.after(step.trace));
                        lemma_after_after(next, done, step.trace);
                        done = done + step.trace;
                    }
                },
            }
        }
        proof {
            assert(whole.trace =~= done);
            lemma_met(*f, whole, Ok::<usize, Error>(total), ctx@);
        }
        Ok(total)
    }
}

} // verus!
