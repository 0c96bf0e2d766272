//! What holds of every pass, whatever the architecture and the input.
use vstd::prelude::*;
use crate::arch::context::ContextView;
use crate::arch::matcher::{pipeline, rule_matches, Matcher};
use crate::arch::node::NodeView;
use crate::arch::pattern::{all_hold, Pattern};
use crate::arch::statics::{static_list, StaticOp};
use crate::arch::trace::lemma_emit_from;
use crate::arch::transform::Transform;
use crate::arch::{layer, lemma_step_bound, pass, spec_window, Arch, Archs};
use crate::error::ErrorView;
use crate::search::{first_index, lemma_first_index_found, lemma_first_index_least};

verus! {

/// A rule that matches every byte: its only pattern is `Any` at the start of
/// the window.
pub open spec fn is_catch_all(m: Matcher) -> bool {
    &&& m.patterns@.len() == 1
    &&& m.patterns@[0].offset == 0
    &&& m.patterns@[0].pattern is Any
}

/// The architecture has a rule that matches every byte.
pub open spec fn has_catch_all(arch: &Arch) -> bool {
    exists|i: int| 0 <= i < arch.patterns@.len() && is_catch_all(#[trigger] arch.patterns@[i])
}

/// Every architecture of the registry has a rule that matches every byte.
pub open spec fn all_have_catch_all(archs: &Archs) -> bool {
    forall|key: Seq<char>| #[trigger]
        archs.archs@.contains_key(key) ==> has_catch_all(&archs.archs@[key])
}

/// Every rule of `rules` names a transform that `arch` defines.
pub open spec fn rules_resolve(rules: Seq<Matcher>, arch: &Arch) -> bool {
    forall|i: int| 0 <= i < rules.len() ==> arch.transforms@.contains_key((#[trigger] rules[i]).transforms@)
}

/// Every rule of `arch`, be it a rule of an instruction or a framing rule,
/// names a transform that `arch` defines.
pub open spec fn resolves(arch: &Arch) -> bool {
    &&& rules_resolve(arch.patterns@, arch)
    &&& rules_resolve(arch.pre_patterns@, arch)
    &&& rules_resolve(arch.post_patterns@, arch)
}

/// Whether `name` is a transform that a rule of `arch` names and `arch` does
/// not define.
pub open spec fn asked_in_vain(arch: &Arch, name: Seq<char>) -> bool {
    &&& !arch.transforms@.contains_key(name)
    &&& (exists|i: int| 0 <= i < arch.patterns@.len() && (#[trigger] arch.patterns@[i]).transforms@ == name)
        || (exists|i: int|
        0 <= i < arch.pre_patterns@.len() && (#[trigger] arch.pre_patterns@[i]).transforms@ == name) || (
    exists|i: int| 0 <= i < arch.post_patterns@.len() && (#[trigger] arch.post_patterns@[i]).transforms@ == name)
}

/// Every architecture of the registry resolves.
pub open spec fn all_resolve(archs: &Archs) -> bool {
    forall|key: Seq<char>| #[trigger] archs.archs@.contains_key(key) ==> resolves(&archs.archs@[key])
}

/// A pipeline fails only for want of data.
pub proof fn lemma_pipeline_errors(
    ops: Seq<Transform>,
    from: int,
    total: usize,
    window: Seq<u8>,
    arch: &Arch,
    ctx: ContextView,
    name: NodeView,
)
    ensures
        pipeline(ops, from, total, window, arch, ctx, name).res matches Err(e)
            ==> e is TransformOutOfData,
    decreases ops.len() - from,
{
    if 0 <= from < ops.len() {
        let step = ops[from].spec_apply(window.skip(total as int), arch, ctx, name);
        if let Ok(read) = step.res {
            if read <= window.len() - total {
                lemma_pipeline_errors(
                    ops,
                    from + 1,
                    (total + read) as usize,
                    window,
                    arch,
                    step.ctx.advanced(read),
                    name,
                );
            }
        }
    }
}

/// Directives do not fail of themselves.
pub proof fn lemma_static_list_ok(ops: Seq<StaticOp>, from: int, window: Seq<u8>, arch: &Arch, ctx: ContextView)
    ensures
        static_list(ops, from, window, arch, ctx).res is Ok,
    decreases ops, ops.len() - from,
{
    if 0 <= from < ops.len() {
        lemma_static_op_ok(ops[from], window, arch, ctx);
        let step = ops[from].spec_apply(window, arch, ctx);
        lemma_static_list_ok(ops, from + 1, window, arch, step.ctx);
    }
}

/// A directive does not fail of itself.
pub proof fn lemma_static_op_ok(op: StaticOp, window: Seq<u8>, arch: &Arch, ctx: ContextView)
    ensures
        op.spec_apply(window, arch, ctx).res is Ok,
    decreases op, 0int,
{
    match op {
        StaticOp::Address(_, ops) => {
            lemma_static_list_ok(ops@, 0, window, arch, ctx);
        },
        StaticOp::Match(_, ops) => {
            lemma_static_list_ok(ops@, 0, window, arch, ctx);
        },
        _ => {},
    }
}

/// A framing layer never fails for want of a match.
pub proof fn lemma_layer_errors(rules: Seq<Matcher>, window: Seq<u8>, arch: &Arch, ctx: ContextView)
    ensures
        layer(rules, window, arch, ctx).res != Err::<usize, ErrorView>(ErrorView::NoMatch),
{
    match first_index(rules, rule_matches(ctx, window), 0) {
        Some(i) => {
            lemma_first_index_least(rules, rule_matches(ctx, window), 0);
            lemma_rule_errors(rules[i], window, arch, ctx);
        },
        None => {},
    }
}

/// Firing a rule never fails for want of a match.
pub proof fn lemma_rule_errors(rule: Matcher, window: Seq<u8>, arch: &Arch, ctx: ContextView)
    ensures
        rule.spec_transform(window, arch, ctx).res != Err::<usize, ErrorView>(ErrorView::NoMatch),
{
    if arch.transforms@.contains_key(rule.transforms@) {
        lemma_pipeline_errors(arch.transforms@[rule.transforms@]@, 0, 0, window, arch, ctx, rule.name@);
    }
}

/// A step fails for want of a match exactly where no rule of the
/// architecture matches the window.
pub proof fn lemma_step_no_match(arch: &Arch, window: Seq<u8>, ctx: ContextView)
    ensures
        arch.spec_step(window, ctx).res == Err::<usize, ErrorView>(ErrorView::NoMatch) <==> first_index(
            arch.patterns@,
            rule_matches(ctx, window),
            0,
        ) is None,
{
    reveal(Arch::step_after_statics);
    reveal(Arch::step_after_pre);
    reveal(Arch::step_after_main);
    reveal(Arch::step_after_post);
    match first_index(arch.patterns@, rule_matches(ctx, window), 0) {
        None => {},
        Some(rule) => {
            lemma_first_index_least(arch.patterns@, rule_matches(ctx, window), 0);
            let start = ContextView { line_len: 0, ..ctx };
            let first = static_list(start.static_ops_pre, 0, window, arch, start);
            lemma_static_list_ok(start.static_ops_pre, 0, window, arch, start);
            let pre = layer(arch.pre_patterns@, window, arch, first.ctx);
            lemma_layer_errors(arch.pre_patterns@, window, arch, first.ctx);
            if let Ok(a) = pre.res {
                let main = arch.patterns@[rule].spec_transform(window.skip(a as int), arch, pre.ctx);
                lemma_rule_errors(arch.patterns@[rule], window.skip(a as int), arch, pre.ctx);
                if let Ok(b) = main.res {
                    let post = layer(arch.post_patterns@, window.take(a + b), arch, main.ctx);
                    lemma_layer_errors(arch.post_patterns@, window.take(a + b), arch, main.ctx);
                    if let Ok(c) = post.res {
                        lemma_static_list_ok(post.ctx.static_ops_post, 0, window, arch, post.ctx);
                    }
                }
            }
        },
    }
}

/// A rule that matches every byte matches every window that is not empty.
pub proof fn lemma_catch_all_matches(arch: &Arch, window: Seq<u8>, ctx: ContextView)
    requires
        has_catch_all(arch),
        window.len() > 0,
    ensures
        first_index(arch.patterns@, rule_matches(ctx, window), 0) is Some,
{
    let i = choose|i: int| 0 <= i < arch.patterns@.len() && is_catch_all(#[trigger] arch.patterns@[i]);
    let m = arch.patterns@[i];
    assert(m.patterns@[0].spec_holds(ctx, window));
    assert(all_hold(m.patterns@, ctx, window));
    lemma_first_index_found(arch.patterns@, rule_matches(ctx, window), 0, i);
}

/// Total coverage, for the rest of a pass: where every architecture of the
/// registry has a rule that matches every byte, no pass fails for want of a
/// match.
pub proof fn lemma_pass_always_matches(archs: &Archs, window: Seq<u8>, total: int, ctx: ContextView)
    requires
        all_have_catch_all(archs),
    ensures
        pass(archs, window, total, ctx).res != Err::<usize, ErrorView>(ErrorView::NoMatch),
    decreases window.len() - total,
{
    if 0 <= total < window.len() && archs.archs@.contains_key(ctx.arch_key) {
        let arch = &archs.archs@[ctx.arch_key];
        let step = arch.spec_step(window.skip(total), ctx);
        lemma_catch_all_matches(arch, window.skip(total), ctx);
        lemma_step_no_match(arch, window.skip(total), ctx);
        lemma_step_bound(arch, window.skip(total), ctx);
        if let Ok(n) = step.res {
            if n > 0 {
                lemma_pass_always_matches(archs, window, total + n, step.ctx);
            }
        }
    }
}

/// Total coverage: where every architecture of the registry has a rule that
/// matches every byte, a pass over any input, from any state, does not fail
/// for want of a match.
pub proof fn lemma_total_coverage(archs: &Archs, data: Seq<u8>, ctx: ContextView)
    requires
        all_have_catch_all(archs),
    ensures
        archs.spec_disas_ctx(data, ctx).res != Err::<(), ErrorView>(ErrorView::NoMatch),
{
    lemma_pass_always_matches(archs, spec_window(data, ctx.start_read, ctx.len_read), 0, ctx);
}

/// The window of a pass: it starts at `start_read` and holds as many bytes as
/// are asked for, or as are left of the input where that is less.
pub proof fn lemma_window(data: Seq<u8>, start_read: usize, len_read: Option<usize>)
    requires
        start_read <= data.len(),
    ensures
        spec_window(data, start_read, len_read).len() == (match len_read {
            Some(l) => if l <= data.len() - start_read {
                l as int
            } else {
                data.len() - start_read
            },
            None => data.len() - start_read,
        }),
        forall|i: int|
            0 <= i < spec_window(data, start_read, len_read).len() ==> spec_window(
                data,
                start_read,
                len_read,
            )[i] == data[start_read + i],
{
}

/// Window correctness. A pass that succeeds has consumed as many bytes as
/// were asked for from the start of the window on, or as many as the input
/// holds from there where that is less: no more and no fewer, wherever the
/// instructions begin and end.
pub proof fn lemma_window_correctness(archs: &Archs, data: Seq<u8>, ctx: ContextView)
    requires
        data.len() <= usize::MAX,
        ctx.start_read <= data.len(),
    ensures
        pass(archs, spec_window(data, ctx.start_read, ctx.len_read), 0, ctx).res matches Ok(n) ==> n == (
        match ctx.len_read {
            Some(l) => if l <= data.len() - ctx.start_read {
                l as int
            } else {
                data.len() - ctx.start_read
            },
            None => data.len() - ctx.start_read,
        }),
{
    lemma_window(data, ctx.start_read, ctx.len_read);
    lemma_pass_consumes_window(archs, spec_window(data, ctx.start_read, ctx.len_read), 0, ctx);
}

/// A pass that succeeds has consumed the window to its last byte and not a
/// byte more, wherever the instructions in it begin and end.
pub proof fn lemma_pass_consumes_window(archs: &Archs, window: Seq<u8>, total: int, ctx: ContextView)
    requires
        0 <= total <= window.len() <= usize::MAX,
    ensures
        pass(archs, window, total, ctx).res matches Ok(n) ==> n == window.len(),
    decreases window.len() - total,
{
    if total < window.len() && archs.archs@.contains_key(ctx.arch_key) {
        let arch = &archs.archs@[ctx.arch_key];
        let step = arch.spec_step(window.skip(total), ctx);
        lemma_step_bound(arch, window.skip(total), ctx);
        if let Ok(n) = step.res {
            if n > 0 {
                lemma_pass_consumes_window(archs, window, total + n, step.ctx);
            }
        }
    }
}

/// What no part of a pass changes: the window, the static offset, the raw
/// toggle, the patches, the directives and the mode; and, in a rendering
/// pass, the symbols.
pub open spec fn kept(before: ContextView, after: ContextView) -> bool {
    &&& after.static_offset == before.static_offset
    &&& after.start_read == before.start_read
    &&& after.len_read == before.len_read
    &&& after.allow_raw == before.allow_raw
    &&& after.patches == before.patches
    &&& after.static_ops_pre == before.static_ops_pre
    &&& after.static_ops_post == before.static_ops_post
    &&& after.analyze == before.analyze
    &&& !before.analyze ==> after.syms == before.syms
}

/// Two states that differ at most in the length of the current line.
pub open spec fn same_but_line(a: ContextView, b: ContextView) -> bool {
    a == (ContextView { line_len: a.line_len, ..b })
}

/// An operation keeps what a pass keeps.
pub proof fn lemma_apply_keeps(op: Transform, window: Seq<u8>, arch: &Arch, ctx: ContextView, name: NodeView)
    ensures
        kept(ctx, op.spec_apply(window, arch, ctx, name).ctx),
{
    match op.spec_slice(window, arch.addr_type) {
        None => {},
        Some(slice) => {
            lemma_emit_from(ctx, op.spec_pieces(slice, arch, ctx, name), 0, arch);
        },
    }
}

/// A pipeline keeps what a pass keeps.
pub proof fn lemma_pipeline_keeps(
    ops: Seq<Transform>,
    from: int,
    total: usize,
    window: Seq<u8>,
    arch: &Arch,
    ctx: ContextView,
    name: NodeView,
)
    ensures
        kept(ctx, pipeline(ops, from, total, window, arch, ctx, name).ctx),
    decreases ops.len() - from,
{
    if 0 <= from < ops.len() {
        let step = ops[from].spec_apply(window.skip(total as int), arch, ctx, name);
        lemma_apply_keeps(ops[from], window.skip(total as int), arch, ctx, name);
        if let Ok(read) = step.res {
            if read <= window.len() - total {
                lemma_pipeline_keeps(
                    ops,
                    from + 1,
                    (total + read) as usize,
                    window,
                    arch,
                    step.ctx.advanced(read),
                    name,
                );
            }
        }
    }
}

/// A framing layer keeps what a pass keeps.
pub proof fn lemma_layer_keeps(rules: Seq<Matcher>, window: Seq<u8>, arch: &Arch, ctx: ContextView)
    ensures
        kept(ctx, layer(rules, window, arch, ctx).ctx),
{
    match first_index(rules, rule_matches(ctx, window), 0) {
        Some(i) => {
            lemma_first_index_least(rules, rule_matches(ctx, window), 0);
            lemma_rule_keeps(rules[i], window, arch, ctx);
        },
        None => {},
    }
}

/// Firing a rule keeps what a pass keeps.
pub proof fn lemma_rule_keeps(rule: Matcher, window: Seq<u8>, arch: &Arch, ctx: ContextView)
    ensures
        kept(ctx, rule.spec_transform(window, arch, ctx).ctx),
{
    if arch.transforms@.contains_key(rule.transforms@) {
        lemma_pipeline_keeps(arch.transforms@[rule.transforms@]@, 0, 0, window, arch, ctx, rule.name@);
    }
}

/// Directives keep what a pass keeps.
pub proof fn lemma_static_list_keeps(ops: Seq<StaticOp>, from: int, window: Seq<u8>, arch: &Arch, ctx: ContextView)
    ensures
        kept(ctx, static_list(ops, from, window, arch, ctx).ctx),
    decreases ops, ops.len() - from,
{
    if 0 <= from < ops.len() {
        lemma_static_op_keeps(ops[from], window, arch, ctx);
        let step = ops[from].spec_apply(window, arch, ctx);
        lemma_static_list_keeps(ops, from + 1, window, arch, step.ctx);
    }
}

/// A directive keeps what a pass keeps.
pub proof fn lemma_static_op_keeps(op: StaticOp, window: Seq<u8>, arch: &Arch, ctx: ContextView)
    ensures
        kept(ctx, op.spec_apply(window, arch, ctx).ctx),
    decreases op, 0int,
{
    match op {
        StaticOp::Address(_, ops) => {
            lemma_static_list_keeps(ops@, 0, window, arch, ctx);
        },
        StaticOp::Match(_, ops) => {
            lemma_static_list_keeps(ops@, 0, window, arch, ctx);
        },
        _ => {},
    }
}

/// A step keeps what a pass keeps.
pub proof fn lemma_step_keeps(arch: &Arch, window: Seq<u8>, ctx: ContextView)
    ensures
        kept(ctx, arch.spec_step(window, ctx).ctx),
{
    reveal(Arch::step_after_statics);
    reveal(Arch::step_after_pre);
    reveal(Arch::step_after_main);
    reveal(Arch::step_after_post);
    match first_index(arch.patterns@, rule_matches(ctx, window), 0) {
        None => {},
        Some(rule) => {
            lemma_first_index_least(arch.patterns@, rule_matches(ctx, window), 0);
            let start = ContextView { line_len: 0, ..ctx };
            let first = static_list(start.static_ops_pre, 0, window, arch, start);
            lemma_static_list_keeps(start.static_ops_pre, 0, window, arch, start);
            let pre = layer(arch.pre_patterns@, window, arch, first.ctx);
            lemma_layer_keeps(arch.pre_patterns@, window, arch, first.ctx);
            if let Ok(a) = pre.res {
                let main = arch.patterns@[rule].spec_transform(window.skip(a as int), arch, pre.ctx);
                lemma_rule_keeps(arch.patterns@[rule], window.skip(a as int), arch, pre.ctx);
                if let Ok(b) = main.res {
                    let post = layer(arch.post_patterns@, window.take(a + b), arch, main.ctx);
                    lemma_layer_keeps(arch.post_patterns@, window.take(a + b), arch, main.ctx);
                    if let Ok(c) = post.res {
                        lemma_static_list_keeps(post.ctx.static_ops_post, 0, window, arch, post.ctx);
                    }
                }
            }
        },
    }
}

/// A pass keeps what a pass keeps.
pub proof fn lemma_pass_keeps(archs: &Archs, window: Seq<u8>, total: int, ctx: ContextView)
    ensures
        kept(ctx, pass(archs, window, total, ctx).ctx),
    decreases window.len() - total,
{
    if 0 <= total < window.len() && archs.archs@.contains_key(ctx.arch_key) {
        let arch = &archs.archs@[ctx.arch_key];
        let step = arch.spec_step(window.skip(total), ctx);
        lemma_step_keeps(arch, window.skip(total), ctx);
        lemma_step_bound(arch, window.skip(total), ctx);
        if let Ok(n) = step.res {
            if n > 0 {
                lemma_pass_keeps(archs, window, total + n, step.ctx);
            }
        }
    }
}

/// Whether a pattern matches does not depend on the length of the line.
pub proof fn lemma_pattern_reads(p: &Pattern, a: ContextView, b: ContextView, byte: u8)
    requires
        same_but_line(a, b),
    ensures
        p.spec_is_match(a, byte) == p.spec_is_match(b, byte),
    decreases p, 0int,
{
    match p {
        Pattern::List(l) => {
            lemma_patterns_read(l, 0, a, b, byte);
        },
        _ => {},
    }
}

/// Whether the patterns of a list match does not depend on the length of the line.
pub proof fn lemma_patterns_read(list: &Vec<Pattern>, from: int, a: ContextView, b: ContextView, byte: u8)
    requires
        same_but_line(a, b),
    ensures
        Pattern::spec_all_match(list, from, a, byte) == Pattern::spec_all_match(list, from, b, byte),
    decreases list, list.len() - from,
{
    if 0 <= from < list.len() {
        lemma_pattern_reads(&list@[from], a, b, byte);
        lemma_patterns_read(list, from + 1, a, b, byte);
    }
}

/// Which rule matches first does not depend on the length of the line.
pub proof fn lemma_rules_read(rules: Seq<Matcher>, from: int, window: Seq<u8>, a: ContextView, b: ContextView)
    requires
        same_but_line(a, b),
    ensures
        first_index(rules, rule_matches(a, window), from) == first_index(
            rules,
            rule_matches(b, window),
            from,
        ),
    decreases rules.len() - from,
{
    if 0 <= from < rules.len() {
        let m = rules[from];
        assert forall|i: int| 0 <= i < m.patterns@.len() implies (#[trigger] m.patterns@[i]).spec_holds(
            a,
            window,
        ) == m.patterns@[i].spec_holds(b, window) by {
            let pa = m.patterns@[i];
            if pa.offset < window.len() {
                lemma_pattern_reads(&pa.pattern, a, b, window[pa.offset as int]);
            }
        }
        assert(m.spec_is_match(a, window) == m.spec_is_match(b, window));
        lemma_rules_read(rules, from + 1, window, a, b);
    }
}

/// What a step emits and how it ends do not depend on the length that the
/// line had before the step.
pub proof fn lemma_step_reads(arch: &Arch, window: Seq<u8>, a: ContextView, b: ContextView)
    requires
        same_but_line(a, b),
    ensures
        arch.spec_step(window, a).trace == arch.spec_step(window, b).trace,
        arch.spec_step(window, a).res == arch.spec_step(window, b).res,
        same_but_line(arch.spec_step(window, a).ctx, arch.spec_step(window, b).ctx),
{
    lemma_rules_read(arch.patterns@, 0, window, a, b);
    let start_a = ContextView { line_len: 0, ..a };
    let start_b = ContextView { line_len: 0, ..b };
    assert(start_a == start_b);
}

/// What a pass emits and how it ends do not depend on the length that the
/// line had before the pass.
pub proof fn lemma_pass_reads(archs: &Archs, window: Seq<u8>, total: int, a: ContextView, b: ContextView)
    requires
        same_but_line(a, b),
    ensures
        pass(archs, window, total, a).trace == pass(archs, window, total, b).trace,
        pass(archs, window, total, a).res == pass(archs, window, total, b).res,
        same_but_line(pass(archs, window, total, a).ctx, pass(archs, window, total, b).ctx),
    decreases window.len() - total,
{
    if 0 <= total < window.len() && archs.archs@.contains_key(a.arch_key) {
        let arch = &archs.archs@[a.arch_key];
        let step_a = arch.spec_step(window.skip(total), a);
        let step_b = arch.spec_step(window.skip(total), b);
        lemma_step_reads(arch, window.skip(total), a, b);
        lemma_step_bound(arch, window.skip(total), a);
        if let Ok(n) = step_a.res {
            if n > 0 {
                lemma_pass_reads(archs, window, total + n, step_a.ctx, step_b.ctx);
            }
        }
    }
}

/// Idempotent restart. Take a rendering pass that starts with the cursor at
/// the origin and succeeds, leaving origin, flags and selected architecture as
/// they were. After `restart`, a second pass over the same input emits what
/// the first one emitted and ends as it did.
pub proof fn lemma_idempotent_restart(archs: &Archs, data: Seq<u8>, ctx: ContextView)
    requires
        !ctx.analyze,
        ctx.offset == 0,
        archs.spec_disas_ctx(data, ctx).res is Ok,
        archs.spec_disas_ctx(data, ctx).ctx.org == ctx.org,
        archs.spec_disas_ctx(data, ctx).ctx.flags == ctx.flags,
        archs.spec_disas_ctx(data, ctx).ctx.arch_key == ctx.arch_key,
    ensures
        archs.spec_disas_ctx(data, archs.spec_disas_ctx(data, ctx).ctx.restarted()).trace
            == archs.spec_disas_ctx(data, ctx).trace,
        archs.spec_disas_ctx(data, archs.spec_disas_ctx(data, ctx).ctx.restarted()).res
            == archs.spec_disas_ctx(data, ctx).res,
{
    let window = spec_window(data, ctx.start_read, ctx.len_read);
    let first = pass(archs, window, 0, ctx);
    lemma_pass_keeps(archs, window, 0, ctx);
    let again = archs.spec_disas_ctx(data, ctx).ctx.restarted();
    assert(same_but_line(again, ctx));
    lemma_pass_reads(archs, window, 0, again, ctx);
}

/// An operation of an analysis pass emits nothing.
pub proof fn lemma_apply_silent(op: Transform, window: Seq<u8>, arch: &Arch, ctx: ContextView, name: NodeView)
    requires
        ctx.analyze,
    ensures
        op.spec_apply(window, arch, ctx, name).trace.len() == 0,
{
}

/// A pipeline of an analysis pass emits nothing.
pub proof fn lemma_pipeline_silent(
    ops: Seq<Transform>,
    from: int,
    total: usize,
    window: Seq<u8>,
    arch: &Arch,
    ctx: ContextView,
    name: NodeView,
)
    requires
        ctx.analyze,
    ensures
        pipeline(ops, from, total, window, arch, ctx, name).trace.len() == 0,
    decreases ops.len() - from,
{
    if 0 <= from < ops.len() {
        let step = ops[from].spec_apply(window.skip(total as int), arch, ctx, name);
        lemma_apply_silent(ops[from], window.skip(total as int), arch, ctx, name);
        lemma_apply_keeps(ops[from], window.skip(total as int), arch, ctx, name);
        if let Ok(read) = step.res {
            if read <= window.len() - total {
                lemma_pipeline_silent(
                    ops,
                    from + 1,
                    (total + read) as usize,
                    window,
                    arch,
                    step.ctx.advanced(read),
                    name,
                );
            }
        }
    }
}

/// A framing layer of an analysis pass emits nothing.
pub proof fn lemma_layer_silent(rules: Seq<Matcher>, window: Seq<u8>, arch: &Arch, ctx: ContextView)
    requires
        ctx.analyze,
    ensures
        layer(rules, window, arch, ctx).trace.len() == 0,
{
    match first_index(rules, rule_matches(ctx, window), 0) {
        Some(i) => {
            lemma_first_index_least(rules, rule_matches(ctx, window), 0);
            lemma_rule_silent(rules[i], window, arch, ctx);
        },
        None => {},
    }
}

/// Firing a rule in an analysis pass emits nothing.
pub proof fn lemma_rule_silent(rule: Matcher, window: Seq<u8>, arch: &Arch, ctx: ContextView)
    requires
        ctx.analyze,
    ensures
        rule.spec_transform(window, arch, ctx).trace.len() == 0,
{
    if arch.transforms@.contains_key(rule.transforms@) {
        lemma_pipeline_silent(arch.transforms@[rule.transforms@]@, 0, 0, window, arch, ctx, rule.name@);
    }
}

/// Directives of an analysis pass emit nothing.
pub proof fn lemma_static_list_silent(ops: Seq<StaticOp>, from: int, window: Seq<u8>, arch: &Arch, ctx: ContextView)
    requires
        ctx.analyze,
    ensures
        static_list(ops, from, window, arch, ctx).trace.len() == 0,
    decreases ops, ops.len() - from,
{
    if 0 <= from < ops.len() {
        lemma_static_op_silent(ops[from], window, arch, ctx);
        lemma_static_op_keeps(ops[from], window, arch, ctx);
        let step = ops[from].spec_apply(window, arch, ctx);
        lemma_static_list_silent(ops, from + 1, window, arch, step.ctx);
    }
}

/// A directive of an analysis pass emits nothing.
pub proof fn lemma_static_op_silent(op: StaticOp, window: Seq<u8>, arch: &Arch, ctx: ContextView)
    requires
        ctx.analyze,
    ensures
        op.spec_apply(window, arch, ctx).trace.len() == 0,
    decreases op, 0int,
{
    match op {
        StaticOp::Address(_, ops) => {
            lemma_static_list_silent(ops@, 0, window, arch, ctx);
        },
        StaticOp::Match(_, ops) => {
            lemma_static_list_silent(ops@, 0, window, arch, ctx);
        },
        _ => {},
    }
}

/// A step of an analysis pass emits nothing.
pub proof fn lemma_step_silent(arch: &Arch, window: Seq<u8>, ctx: ContextView)
    requires
        ctx.analyze,
    ensures
        arch.spec_step(window, ctx).trace.len() == 0,
{
    reveal(Arch::step_after_statics);
    reveal(Arch::step_after_pre);
    reveal(Arch::step_after_main);
    reveal(Arch::step_after_post);
    match first_index(arch.patterns@, rule_matches(ctx, window), 0) {
        None => {},
        Some(rule) => {
            lemma_first_index_least(arch.patterns@, rule_matches(ctx, window), 0);
            let start = ContextView { line_len: 0, ..ctx };
            let first = static_list(start.static_ops_pre, 0, window, arch, start);
            lemma_static_list_silent(start.static_ops_pre, 0, window, arch, start);
            lemma_static_list_keeps(start.static_ops_pre, 0, window, arch, start);
            let pre = layer(arch.pre_patterns@, window, arch, first.ctx);
            lemma_layer_silent(arch.pre_patterns@, window, arch, first.ctx);
            lemma_layer_keeps(arch.pre_patterns@, window, arch, first.ctx);
            if let Ok(a) = pre.res {
                let main = arch.patterns@[rule].spec_transform(window.skip(a as int), arch, pre.ctx);
                lemma_rule_silent(arch.patterns@[rule], window.skip(a as int), arch, pre.ctx);
                lemma_rule_keeps(arch.patterns@[rule], window.skip(a as int), arch, pre.ctx);
                if let Ok(b) = main.res {
                    let post = layer(arch.post_patterns@, window.take(a + b), arch, main.ctx);
                    lemma_layer_silent(arch.post_patterns@, window.take(a + b), arch, main.ctx);
                    lemma_layer_keeps(arch.post_patterns@, window.take(a + b), arch, main.ctx);
                    if let Ok(c) = post.res {
                        lemma_static_list_silent(post.ctx.static_ops_post, 0, window, arch, post.ctx);
                    }
                }
            }
        },
    }
}

/// The rest of an analysis pass emits nothing.
pub proof fn lemma_pass_silent(archs: &Archs, window: Seq<u8>, total: int, ctx: ContextView)
    requires
        ctx.analyze,
    ensures
        pass(archs, window, total, ctx).trace.len() == 0,
    decreases window.len() - total,
{
    if 0 <= total < window.len() && archs.archs@.contains_key(ctx.arch_key) {
        let arch = &archs.archs@[ctx.arch_key];
        let step = arch.spec_step(window.skip(total), ctx);
        lemma_step_silent(arch, window.skip(total), ctx);
        lemma_step_keeps(arch, window.skip(total), ctx);
        lemma_step_bound(arch, window.skip(total), ctx);
        if let Ok(n) = step.res {
            if n > 0 {
                lemma_pass_silent(archs, window, total + n, step.ctx);
            }
        }
    }
}

/// An analysis pass never calls the sink.
pub proof fn lemma_analysis_is_silent(archs: &Archs, data: Seq<u8>, ctx: ContextView)
    requires
        ctx.analyze,
    ensures
        archs.spec_disas_ctx(data, ctx).trace.len() == 0,
{
    lemma_pass_silent(archs, spec_window(data, ctx.start_read, ctx.len_read), 0, ctx);
}

/// A framing layer of resolved rules does not fail for want of a transform.
pub proof fn lemma_layer_resolved(rules: Seq<Matcher>, window: Seq<u8>, arch: &Arch, ctx: ContextView)
    requires
        rules_resolve(rules, arch),
    ensures
        !(layer(rules, window, arch, ctx).res is Err && layer(rules, window, arch, ctx).res->Err_0
            is TransformNotFound),
{
    match first_index(rules, rule_matches(ctx, window), 0) {
        Some(i) => {
            lemma_first_index_least(rules, rule_matches(ctx, window), 0);
            lemma_pipeline_errors(arch.transforms@[rules[i].transforms@]@, 0, 0, window, arch, ctx, rules[i].name@);
        },
        None => {},
    }
}

/// A step of a resolved architecture does not fail for want of a transform.
pub proof fn lemma_step_resolved(arch: &Arch, window: Seq<u8>, ctx: ContextView)
    requires
        resolves(arch),
    ensures
        !(arch.spec_step(window, ctx).res is Err && arch.spec_step(window, ctx).res->Err_0
            is TransformNotFound),
{
    reveal(Arch::step_after_statics);
    reveal(Arch::step_after_pre);
    reveal(Arch::step_after_main);
    reveal(Arch::step_after_post);
    match first_index(arch.patterns@, rule_matches(ctx, window), 0) {
        None => {},
        Some(rule) => {
            lemma_first_index_least(arch.patterns@, rule_matches(ctx, window), 0);
            let start = ContextView { line_len: 0, ..ctx };
            let first = static_list(start.static_ops_pre, 0, window, arch, start);
            lemma_static_list_ok(start.static_ops_pre, 0, window, arch, start);
            let pre = layer(arch.pre_patterns@, window, arch, first.ctx);
            lemma_layer_resolved(arch.pre_patterns@, window, arch, first.ctx);
            if let Ok(a) = pre.res {
                let m = arch.patterns@[rule];
                let main = m.spec_transform(window.skip(a as int), arch, pre.ctx);
                lemma_pipeline_errors(
                    arch.transforms@[m.transforms@]@,
                    0,
                    0,
                    window.skip(a as int),
                    arch,
                    pre.ctx,
                    m.name@,
                );
                if let Ok(b) = main.res {
                    let post = layer(arch.post_patterns@, window.take(a + b), arch, main.ctx);
                    lemma_layer_resolved(arch.post_patterns@, window.take(a + b), arch, main.ctx);
                    if let Ok(c) = post.res {
                        lemma_static_list_ok(post.ctx.static_ops_post, 0, window, arch, post.ctx);
                    }
                }
            }
        },
    }
}

/// The rest of a pass over resolved architectures does not fail for want of
/// a transform.
pub proof fn lemma_pass_resolved(archs: &Archs, window: Seq<u8>, total: int, ctx: ContextView)
    requires
        all_resolve(archs),
    ensures
        !(pass(archs, window, total, ctx).res is Err && pass(archs, window, total, ctx).res->Err_0
            is TransformNotFound),
    decreases window.len() - total,
{
    if 0 <= total < window.len() && archs.archs@.contains_key(ctx.arch_key) {
        let arch = &archs.archs@[ctx.arch_key];
        let step = arch.spec_step(window.skip(total), ctx);
        lemma_step_resolved(arch, window.skip(total), ctx);
        lemma_step_bound(arch, window.skip(total), ctx);
        if let Ok(n) = step.res {
            if n > 0 {
                lemma_pass_resolved(archs, window, total + n, step.ctx);
            }
        }
    }
}

/// Validation at build time pays: a pass over a registry of which every
/// architecture resolves never fails for want of a transform.
pub proof fn lemma_validated_finds_transforms(archs: &Archs, data: Seq<u8>, ctx: ContextView)
    requires
        all_resolve(archs),
    ensures
        !(archs.spec_disas_ctx(data, ctx).res is Err && archs.spec_disas_ctx(data, ctx).res->Err_0
            is TransformNotFound),
{
    lemma_pass_resolved(archs, spec_window(data, ctx.start_read, ctx.len_read), 0, ctx);
}

/// Two-pass convergence, for one operand. Where analysis met an operand that
/// defines labels of itself, a later rendering of that operand at the same
/// address, with the symbols that analysis left, finds a symbol for it: it
/// renders a name, not the number.
pub proof fn lemma_auto_defined_is_found(
    ao: crate::arch::transform::ValOut,
    slice: Seq<u8>,
    arch: &Arch,
    ctx: ContextView,
    later: ContextView,
)
    requires
        ao.auto_def_sym,
        later.syms == Transform::Val(ao).spec_analyze(slice, arch, ctx).syms,
        later.address() == ctx.address(),
    ensures
        crate::arch::transform::value_pieces(ao, slice, arch, later).len() == 1,
        crate::arch::transform::value_pieces(ao, slice, arch, later)[0].kind
            == crate::arch::node::CallbackKind::Symbol,
{
    let value = arch.endianess.spec_decode(slice)->0;
    let wanted = crate::arch::transform::lookup_value(ao, value, ctx.address());
    let found = crate::symbols::matching(wanted, Some(ctx.address()));
    if ctx.first_symbol(wanted) is None {
        let last = later.syms.len() - 1;
        assert(later.syms[last].value == wanted);
        assert(later.syms[last].covers(later.syms[last].value, wanted));
        assert(found(later.syms[last]));
        lemma_first_index_found(later.syms, found, 0, last);
    }
}

} // verus!
