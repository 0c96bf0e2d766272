//! The 16-bit-capable architecture: the extended 8-bit one with wide
//! immediates, long addresses, stack-relative modes and block moves.
use vstd::prelude::*;
use crate::arch::a6502::{
    add_patterns_default, branch_target, branch_target_of, family, family_arch, framing_shaped,
    implied_instruction_map, lemma_well_formed, matcher2, matcher3, operand, operand_of,
    per_row_6502, shaped_6502, spelled, well_formed, ABSOLUTE, IMMEDIATE, IMMEDIATE16,
};
use crate::arch::a65c02::{
    is_mode_65c02, modes_65c02, per_row_own as per_row_65c02, shaped_own as shaped_65c02,
};
use crate::arch::node::Node;
use crate::arch::tables::{
    expand, grows, is_static, lemma_expand_known, lemma_grows_none, lemma_grows_resolved,
    lemma_grows_then, lemma_known_join, lemma_known_none, lemma_opt_known, mode_map, opt,
    operand_mode, operand_shape, relative_mode, relative_shape, resolved, rules_known,
    InstructionMap, MatcherList, ModeMap, RuleSpec, TransformList, TransformMap,
};
use crate::arch::transform::Transform;
use crate::arch::{Arch, Archs};
use crate::name_map::NameMap;
use crate::symbols::SymbolList;
use crate::value::DataType;

verus! {

/// Direct, through a long pointer.
pub const DIRECT24: &'static str = "direct24";

/// Direct, through a long pointer, indexed by `y`.
pub const INDIRECT_Y24: &'static str = "indirect_y24";

/// A long address.
pub const LONG: &'static str = "long";

/// A long address, indexed by `x`.
pub const LONG_X: &'static str = "long_x";

/// The addressing mode of long branches.
pub const RELATIVE16: &'static str = "relative16";

/// Stack relative.
pub const STACK_S: &'static str = "stack_s";

/// Stack relative indirect, indexed by `y`.
pub const STACK_S_Y: &'static str = "stack_s_y";

/// The two banks of a block move.
pub const MOVE: &'static str = "move";

/// The indirect mode of long jumps.
pub const JUMP_LONG_INDIRECT: &'static str = "jump_long_indirect";

/// The indexed indirect mode of subroutine calls.
pub const JSR_INDIRECT_X: &'static str = "jsr_indirect_x";

fn transform_stack_s(map: &mut TransformMap)
    ensures
        final(map)@ == old(map)@.insert(STACK_S@, final(map)@[STACK_S@]),
        operand_shape(final(map)@[STACK_S@]@, " "@, operand(2, DataType::U8), Some(", s"@)),
{
    map.insert(STACK_S.to_owned(), operand_mode(" ", operand_of(2, DataType::U8), Some(", s")));
}

fn transform_stack_s_y(map: &mut TransformMap)
    ensures
        final(map)@ == old(map)@.insert(STACK_S_Y@, final(map)@[STACK_S_Y@]),
        operand_shape(final(map)@[STACK_S_Y@]@, " ("@, operand(2, DataType::U8), Some(", s), y"@)),
{
    map.insert(STACK_S_Y.to_owned(), operand_mode(" (", operand_of(2, DataType::U8), Some(", s), y")));
}

fn transform_direct24(map: &mut TransformMap)
    ensures
        final(map)@ == old(map)@.insert(DIRECT24@, final(map)@[DIRECT24@]),
        operand_shape(final(map)@[DIRECT24@]@, " ["@, operand(2, DataType::U8), Some("]"@)),
{
    map.insert(DIRECT24.to_owned(), operand_mode(" [", operand_of(2, DataType::U8), Some("]")));
}

fn transform_jump_long_indirect(map: &mut TransformMap)
    ensures
        final(map)@ == old(map)@.insert(JUMP_LONG_INDIRECT@, final(map)@[JUMP_LONG_INDIRECT@]),
        operand_shape(final(map)@[JUMP_LONG_INDIRECT@]@, " ["@, operand(4, DataType::U16), Some("]"@)),
{
    map.insert(JUMP_LONG_INDIRECT.to_owned(), operand_mode(" [", operand_of(4, DataType::U16), Some("]")));
}

fn transform_jsr_indirect_x(map: &mut TransformMap)
    ensures
        final(map)@ == old(map)@.insert(JSR_INDIRECT_X@, final(map)@[JSR_INDIRECT_X@]),
        operand_shape(final(map)@[JSR_INDIRECT_X@]@, " ("@, operand(4, DataType::U16), Some(", x)"@)),
{
    map.insert(JSR_INDIRECT_X.to_owned(), operand_mode(" (", operand_of(4, DataType::U16), Some(", x)")));
}

fn transform_long(map: &mut TransformMap)
    ensures
        final(map)@ == old(map)@.insert(LONG@, final(map)@[LONG@]),
        operand_shape(final(map)@[LONG@]@, " "@, operand(2, DataType::U24), None),
{
    map.insert(LONG.to_owned(), operand_mode(" ", operand_of(2, DataType::U24), None));
}

fn transform_long_x(map: &mut TransformMap)
    ensures
        final(map)@ == old(map)@.insert(LONG_X@, final(map)@[LONG_X@]),
        operand_shape(final(map)@[LONG_X@]@, " "@, operand(2, DataType::U24), Some(", x"@)),
{
    map.insert(LONG_X.to_owned(), operand_mode(" ", operand_of(2, DataType::U24), Some(", x")));
}

fn transform_indirect_y24(map: &mut TransformMap)
    ensures
        final(map)@ == old(map)@.insert(INDIRECT_Y24@, final(map)@[INDIRECT_Y24@]),
        operand_shape(final(map)@[INDIRECT_Y24@]@, " ["@, operand(2, DataType::U8), Some("], y"@)),
{
    map.insert(INDIRECT_Y24.to_owned(), operand_mode(" [", operand_of(2, DataType::U8), Some("], y")));
}

fn transform_relative16(map: &mut TransformMap)
    ensures
        final(map)@ == old(map)@.insert(RELATIVE16@, final(map)@[RELATIVE16@]),
        relative_shape(final(map)@[RELATIVE16@]@, 3, branch_target(4, DataType::I16)),
{
    map.insert(RELATIVE16.to_owned(), relative_mode(3, branch_target_of(4, DataType::I16)));
}

/// The transform of a block move: the mnemonic, the opcode consumed, and the
/// two bank bytes as immediates.
pub open spec fn move_shape(tl: Seq<Transform>) -> bool {
    &&& tl.len() == 6
    &&& tl[0] is MatcherName
    &&& tl[1] == Transform::Consume(1)
    &&& is_static(tl[2], " #"@)
    &&& tl[3] == Transform::Val(operand(2, DataType::U8))
    &&& is_static(tl[4], ", #"@)
    &&& tl[5] == Transform::Val(operand(2, DataType::U8))
}

fn transform_move(map: &mut TransformMap)
    ensures
        final(map)@ == old(map)@.insert(MOVE@, final(map)@[MOVE@]),
        move_shape(final(map)@[MOVE@]@),
{
    let mut list: TransformList = Vec::new();
    list.push(Transform::MatcherName);
    list.push(Transform::Consume(1));
    list.push(Transform::Static(Node::text(" #")));
    list.push(Transform::Val(operand_of(2, DataType::U8)));
    list.push(Transform::Static(Node::text(", #")));
    list.push(Transform::Val(operand_of(2, DataType::U8)));
    map.insert(MOVE.to_owned(), list);
}

/// Whether `mode` is an addressing mode that this architecture adds.
pub open spec fn is_own_mode(mode: Seq<char>) -> bool {
    ||| mode == STACK_S@
    ||| mode == DIRECT24@
    ||| mode == LONG@
    ||| mode == LONG_X@
    ||| mode == STACK_S_Y@
    ||| mode == INDIRECT_Y24@
    ||| mode == RELATIVE16@
    ||| mode == MOVE@
    ||| mode == JUMP_LONG_INDIRECT@
    ||| mode == JSR_INDIRECT_X@
}

/// Whether `mode` is an addressing mode of this architecture.
pub open spec fn is_mode_65c816(mode: Seq<char>) -> bool {
    is_mode_65c02(mode) || is_own_mode(mode)
}

/// The addressing modes of this architecture, as a predicate.
pub open spec fn modes_65c816() -> spec_fn(Seq<char>) -> bool {
    |mode: Seq<char>| is_mode_65c816(mode)
}

/// Whether `map` defines every addressing mode of this architecture.
pub open spec fn defines_65c816(map: Map<Seq<char>, TransformList>) -> bool {
    forall|mode: Seq<char>| is_mode_65c816(mode) ==> #[trigger] map.contains_key(mode)
}

/// How the names of the transforms that this architecture adds are spelled,
/// as far as it takes to tell them apart from each other and from the older
/// ones.
pub proof fn lemma_names()
    ensures
        spelled(DIRECT24@, 8, 'd', 7, '4'),
        spelled(INDIRECT_Y24@, 12, 'i', 11, '4'),
        spelled(LONG@, 4, 'l', 3, 'g'),
        spelled(LONG_X@, 6, 'l', 5, 'x'),
        spelled(RELATIVE16@, 10, 'r', 9, '6'),
        spelled(STACK_S@, 7, 's', 6, 's'),
        spelled(STACK_S_Y@, 9, 's', 8, 'y'),
        spelled(MOVE@, 4, 'm', 3, 'e'),
        spelled(JUMP_LONG_INDIRECT@, 18, 'j', 17, 't'),
        spelled(JSR_INDIRECT_X@, 14, 'j', 13, 'x'),
{
    reveal_strlit("direct24");
    reveal_strlit("indirect_y24");
    reveal_strlit("long");
    reveal_strlit("long_x");
    reveal_strlit("relative16");
    reveal_strlit("stack_s");
    reveal_strlit("stack_s_y");
    reveal_strlit("move");
    reveal_strlit("jump_long_indirect");
    reveal_strlit("jsr_indirect_x");
}

/// Whether `map` holds, for every addressing mode that this architecture
/// adds, the transform of that mode.
pub open spec fn shaped_own(map: Map<Seq<char>, TransformList>) -> bool {
    &&& operand_shape(map[STACK_S@]@, " "@, operand(2, DataType::U8), Some(", s"@))
    &&& operand_shape(map[STACK_S_Y@]@, " ("@, operand(2, DataType::U8), Some(", s), y"@))
    &&& operand_shape(map[DIRECT24@]@, " ["@, operand(2, DataType::U8), Some("]"@))
    &&& operand_shape(map[JUMP_LONG_INDIRECT@]@, " ["@, operand(4, DataType::U16), Some("]"@))
    &&& operand_shape(map[JSR_INDIRECT_X@]@, " ("@, operand(4, DataType::U16), Some(", x)"@))
    &&& operand_shape(map[LONG@]@, " "@, operand(2, DataType::U24), None)
    &&& operand_shape(map[LONG_X@]@, " "@, operand(2, DataType::U24), Some(", x"@))
    &&& operand_shape(map[INDIRECT_Y24@]@, " ["@, operand(2, DataType::U8), Some("], y"@))
    &&& relative_shape(map[RELATIVE16@]@, 3, branch_target(4, DataType::I16))
    &&& move_shape(map[MOVE@]@)
}

/// The transforms of this architecture: those of the extended 8-bit one and
/// one for each mode that it adds.
pub fn transforms() -> (map: TransformMap)
    ensures
        defines_65c816(map@),
        shaped_6502(map@),
        shaped_65c02(map@),
        shaped_own(map@),
        framing_shaped(map@),
{
    proof {
        crate::arch::a6502::lemma_names();
        crate::arch::a65c02::lemma_names();
        lemma_names();
    }
    let mut map = crate::arch::a65c02::transforms();
    transform_stack_s(&mut map);
    transform_direct24(&mut map);
    transform_long(&mut map);
    transform_stack_s_y(&mut map);
    transform_indirect_y24(&mut map);
    transform_long_x(&mut map);
    transform_relative16(&mut map);
    transform_move(&mut map);
    transform_jump_long_indirect(&mut map);
    transform_jsr_indirect_x(&mut map);
    map
}

fn matcher_stack_s(matchers: &mut MatcherList, modes: &ModeMap, name: &str)
    ensures
        grows(old(matchers)@, final(matchers)@, opt(modes@, STACK_S@, name@, Some(1usize), None)),
{
    match modes.get(STACK_S) {
        Some(op) => {
            matcher2(matchers, *op, name, STACK_S);
        },
        None => {
            proof {
                lemma_grows_none(matchers@);
            }
        },
    }
}

fn matcher_direct24(matchers: &mut MatcherList, modes: &ModeMap, name: &str)
    ensures
        grows(old(matchers)@, final(matchers)@, opt(modes@, DIRECT24@, name@, Some(1usize), None)),
{
    match modes.get(DIRECT24) {
        Some(op) => {
            matcher2(matchers, *op, name, DIRECT24);
        },
        None => {
            proof {
                lemma_grows_none(matchers@);
            }
        },
    }
}

fn matcher_long(matchers: &mut MatcherList, modes: &ModeMap, name: &str)
    ensures
        grows(old(matchers)@, final(matchers)@, opt(modes@, LONG@, name@, Some(2usize), None)),
{
    match modes.get(LONG) {
        Some(op) => {
            matcher3(matchers, *op, name, LONG);
        },
        None => {
            proof {
                lemma_grows_none(matchers@);
            }
        },
    }
}

fn matcher_long_x(matchers: &mut MatcherList, modes: &ModeMap, name: &str)
    ensures
        grows(old(matchers)@, final(matchers)@, opt(modes@, LONG_X@, name@, Some(2usize), None)),
{
    match modes.get(LONG_X) {
        Some(op) => {
            matcher3(matchers, *op, name, LONG_X);
        },
        None => {
            proof {
                lemma_grows_none(matchers@);
            }
        },
    }
}

fn matcher_stack_s_y(matchers: &mut MatcherList, modes: &ModeMap, name: &str)
    ensures
        grows(old(matchers)@, final(matchers)@, opt(modes@, STACK_S_Y@, name@, Some(1usize), None)),
{
    match modes.get(STACK_S_Y) {
        Some(op) => {
            matcher2(matchers, *op, name, STACK_S_Y);
        },
        None => {
            proof {
                lemma_grows_none(matchers@);
            }
        },
    }
}

fn matcher_indirect_y24(matchers: &mut MatcherList, modes: &ModeMap, name: &str)
    ensures
        grows(old(matchers)@, final(matchers)@, opt(modes@, INDIRECT_Y24@, name@, Some(1usize), None)),
{
    match modes.get(INDIRECT_Y24) {
        Some(op) => {
            matcher2(matchers, *op, name, INDIRECT_Y24);
        },
        None => {
            proof {
                lemma_grows_none(matchers@);
            }
        },
    }
}

fn matcher_relative16(matchers: &mut MatcherList, modes: &ModeMap, name: &str)
    ensures
        grows(old(matchers)@, final(matchers)@, opt(modes@, RELATIVE16@, name@, Some(2usize), None)),
{
    match modes.get(RELATIVE16) {
        Some(op) => {
            matcher3(matchers, *op, name, RELATIVE16);
        },
        None => {
            proof {
                lemma_grows_none(matchers@);
            }
        },
    }
}

fn matcher_move(matchers: &mut MatcherList, modes: &ModeMap, name: &str)
    ensures
        grows(old(matchers)@, final(matchers)@, opt(modes@, MOVE@, name@, Some(2usize), None)),
{
    match modes.get(MOVE) {
        Some(op) => {
            matcher3(matchers, *op, name, MOVE);
        },
        None => {
            proof {
                lemma_grows_none(matchers@);
            }
        },
    }
}

fn matcher_jump_long_indirect(matchers: &mut MatcherList, modes: &ModeMap, name: &str)
    ensures
        grows(old(matchers)@, final(matchers)@, opt(modes@, JUMP_LONG_INDIRECT@, name@, Some(2usize), None)),
{
    match modes.get(JUMP_LONG_INDIRECT) {
        Some(op) => {
            matcher3(matchers, *op, name, JUMP_LONG_INDIRECT);
        },
        None => {
            proof {
                lemma_grows_none(matchers@);
            }
        },
    }
}

fn matcher_jsr_indirect_x(matchers: &mut MatcherList, modes: &ModeMap, name: &str)
    ensures
        grows(old(matchers)@, final(matchers)@, opt(modes@, JSR_INDIRECT_X@, name@, Some(2usize), None)),
{
    match modes.get(JSR_INDIRECT_X) {
        Some(op) => {
            matcher3(matchers, *op, name, JSR_INDIRECT_X);
        },
        None => {
            proof {
                lemma_grows_none(matchers@);
            }
        },
    }
}

/// The rules that one row gives for the modes that this architecture adds.
pub open spec fn rules_own(name: Seq<char>, modes: Map<Seq<char>, u8>) -> Seq<RuleSpec> {
    Seq::<RuleSpec>::empty()
        + opt(modes, STACK_S@, name, Some(1usize), None)
        + opt(modes, DIRECT24@, name, Some(1usize), None)
        + opt(modes, LONG@, name, Some(2usize), None)
        + opt(modes, LONG_X@, name, Some(2usize), None)
        + opt(modes, STACK_S_Y@, name, Some(1usize), None)
        + opt(modes, INDIRECT_Y24@, name, Some(1usize), None)
        + opt(modes, RELATIVE16@, name, Some(2usize), None)
        + opt(modes, MOVE@, name, Some(2usize), None)
        + opt(modes, JUMP_LONG_INDIRECT@, name, Some(2usize), None)
        + opt(modes, JSR_INDIRECT_X@, name, Some(2usize), None)
}

/// The rules of one row, as a function of the row.
pub open spec fn per_row_own() -> spec_fn(Seq<char>, Map<Seq<char>, u8>) -> Seq<RuleSpec> {
    |name: Seq<char>, modes: Map<Seq<char>, u8>| rules_own(name, modes)
}

/// Every rule of a row belongs to a mode of this architecture.
pub proof fn lemma_rules_own_known(name: Seq<char>, modes: Map<Seq<char>, u8>)
    ensures
        rules_known(rules_own(name, modes), modes_65c816()),
{
    let known = modes_65c816();
    let mut added = Seq::<RuleSpec>::empty();
    lemma_known_none(known);
    let part = opt(modes, STACK_S@, name, Some(1usize), None);
    lemma_opt_known(modes, STACK_S@, name, Some(1usize), None, known);
    lemma_known_join(added, part, known);
    added = added + part;
    let part = opt(modes, DIRECT24@, name, Some(1usize), None);
    lemma_opt_known(modes, DIRECT24@, name, Some(1usize), None, known);
    lemma_known_join(added, part, known);
    added = added + part;
    let part = opt(modes, LONG@, name, Some(2usize), None);
    lemma_opt_known(modes, LONG@, name, Some(2usize), None, known);
    lemma_known_join(added, part, known);
    added = added + part;
    let part = opt(modes, LONG_X@, name, Some(2usize), None);
    lemma_opt_known(modes, LONG_X@, name, Some(2usize), None, known);
    lemma_known_join(added, part, known);
    added = added + part;
    let part = opt(modes, STACK_S_Y@, name, Some(1usize), None);
    lemma_opt_known(modes, STACK_S_Y@, name, Some(1usize), None, known);
    lemma_known_join(added, part, known);
    added = added + part;
    let part = opt(modes, INDIRECT_Y24@, name, Some(1usize), None);
    lemma_opt_known(modes, INDIRECT_Y24@, name, Some(1usize), None, known);
    lemma_known_join(added, part, known);
    added = added + part;
    let part = opt(modes, RELATIVE16@, name, Some(2usize), None);
    lemma_opt_known(modes, RELATIVE16@, name, Some(2usize), None, known);
    lemma_known_join(added, part, known);
    added = added + part;
    let part = opt(modes, MOVE@, name, Some(2usize), None);
    lemma_opt_known(modes, MOVE@, name, Some(2usize), None, known);
    lemma_known_join(added, part, known);
    added = added + part;
    let part = opt(modes, JUMP_LONG_INDIRECT@, name, Some(2usize), None);
    lemma_opt_known(modes, JUMP_LONG_INDIRECT@, name, Some(2usize), None, known);
    lemma_known_join(added, part, known);
    added = added + part;
    let part = opt(modes, JSR_INDIRECT_X@, name, Some(2usize), None);
    lemma_opt_known(modes, JSR_INDIRECT_X@, name, Some(2usize), None, known);
    lemma_known_join(added, part, known);
    added = added + part;
}

/// The rules that a table gives: row after row those of the modes that this
/// architecture adds, then those that the extended 8-bit one adds, then the
/// baseline's.
pub open spec fn table_rules(rows: Seq<(String, ModeMap)>) -> Seq<RuleSpec> {
    expand(rows, rows.len() as int, per_row_own()) + (expand(rows, rows.len() as int, per_row_65c02())
        + expand(rows, rows.len() as int, per_row_6502()))
}

/// Every rule of a table belongs to a mode of this architecture.
pub proof fn lemma_table_known(rows: Seq<(String, ModeMap)>)
    ensures
        rules_known(table_rules(rows), modes_65c816()),
{
    let upto = rows.len() as int;
    assert forall|name: Seq<char>, modes: Map<Seq<char>, u8>|
        rules_known(#[trigger] per_row_own()(name, modes), modes_65c816()) by {
        lemma_rules_own_known(name, modes);
    }
    lemma_expand_known(rows, upto, per_row_own(), modes_65c816());
    crate::arch::a65c02::lemma_table_known(rows, upto);
    let middle = expand(rows, upto, per_row_65c02());
    assert forall|i: int| 0 <= i < middle.len() implies modes_65c816()((#[trigger] middle[i]).mode) by {
        assert(modes_65c02()(middle[i].mode));
    }
    let inner = expand(rows, upto, per_row_6502());
    assert forall|i: int| 0 <= i < inner.len() implies modes_65c816()((#[trigger] inner[i]).mode) by {
        assert(modes_65c02()(inner[i].mode));
    }
    lemma_known_join(middle, inner, modes_65c816());
    lemma_known_join(expand(rows, upto, per_row_own()), middle + inner, modes_65c816());
}

/// Adds the rules of one row for the modes that this architecture adds.
fn row_matchers(matchers: &mut MatcherList, name: &str, modes: &ModeMap)
    ensures
        grows(old(matchers)@, final(matchers)@, rules_own(name@, modes@)),
{
    let ghost mut added = Seq::<RuleSpec>::empty();
    let ghost mut mid = matchers@;
    proof {
        lemma_grows_none(matchers@);
    }
    matcher_stack_s(matchers, modes, name);
    proof {
        let part = opt(modes@, STACK_S@, name@, Some(1usize), None);
        lemma_grows_then(old(matchers)@, mid, matchers@, added, part);
        added = added + part;
        mid = matchers@;
    }
    matcher_direct24(matchers, modes, name);
    proof {
        let part = opt(modes@, DIRECT24@, name@, Some(1usize), None);
        lemma_grows_then(old(matchers)@, mid, matchers@, added, part);
        added = added + part;
        mid = matchers@;
    }
    matcher_long(matchers, modes, name);
    proof {
        let part = opt(modes@, LONG@, name@, Some(2usize), None);
        lemma_grows_then(old(matchers)@, mid, matchers@, added, part);
        added = added + part;
        mid = matchers@;
    }
    matcher_long_x(matchers, modes, name);
    proof {
        let part = opt(modes@, LONG_X@, name@, Some(2usize), None);
        lemma_grows_then(old(matchers)@, mid, matchers@, added, part);
        added = added + part;
        mid = matchers@;
    }
    matcher_stack_s_y(matchers, modes, name);
    proof {
        let part = opt(modes@, STACK_S_Y@, name@, Some(1usize), None);
        lemma_grows_then(old(matchers)@, mid, matchers@, added, part);
        added = added + part;
        mid = matchers@;
    }
    matcher_indirect_y24(matchers, modes, name);
    proof {
        let part = opt(modes@, INDIRECT_Y24@, name@, Some(1usize), None);
        lemma_grows_then(old(matchers)@, mid, matchers@, added, part);
        added = added + part;
        mid = matchers@;
    }
    matcher_relative16(matchers, modes, name);
    proof {
        let part = opt(modes@, RELATIVE16@, name@, Some(2usize), None);
        lemma_grows_then(old(matchers)@, mid, matchers@, added, part);
        added = added + part;
        mid = matchers@;
    }
    matcher_move(matchers, modes, name);
    proof {
        let part = opt(modes@, MOVE@, name@, Some(2usize), None);
        lemma_grows_then(old(matchers)@, mid, matchers@, added, part);
        added = added + part;
        mid = matchers@;
    }
    matcher_jump_long_indirect(matchers, modes, name);
    proof {
        let part = opt(modes@, JUMP_LONG_INDIRECT@, name@, Some(2usize), None);
        lemma_grows_then(old(matchers)@, mid, matchers@, added, part);
        added = added + part;
        mid = matchers@;
    }
    matcher_jsr_indirect_x(matchers, modes, name);
    proof {
        let part = opt(modes@, JSR_INDIRECT_X@, name@, Some(2usize), None);
        lemma_grows_then(old(matchers)@, mid, matchers@, added, part);
        added = added + part;
        mid = matchers@;
    }
}

/// Adds the rules of every row of the table: first, row after row, those of
/// the modes that this architecture adds, then those of the older modes.
pub fn matchers_from(matchers: &mut MatcherList, instrs: InstructionMap)
    ensures
        grows(old(matchers)@, final(matchers)@, table_rules(instrs.rows@)),
{
    let ghost mut added = Seq::<RuleSpec>::empty();
    let mut i: usize = 0;
    proof {
        lemma_grows_none(matchers@);
    }
    while i < instrs.rows.len()
        invariant
            i <= instrs.rows.len(),
            added == expand(instrs.rows@, i as int, per_row_own()),
            grows(old(matchers)@, matchers@, added),
        decreases instrs.rows.len() - i,
    {
        let ghost mid = matchers@;
        let row = &instrs.rows[i];
        row_matchers(matchers, row.0.as_str(), &row.1);
        proof {
            let part = rules_own(row.0@, row.1@);
            lemma_grows_then(old(matchers)@, mid, matchers@, added, part);
            added = added + part;
        }
        i += 1;
    }
    let ghost mid = matchers@;
    let ghost inner = expand(instrs.rows@, instrs.rows@.len() as int, per_row_65c02()) + expand(
        instrs.rows@,
        instrs.rows@.len() as int,
        per_row_6502(),
    );
    crate::arch::a65c02::matchers_from(matchers, instrs);
    proof {
        lemma_grows_then(old(matchers)@, mid, matchers@, added, inner);
    }
}

/// The row of an instruction with the six operand modes that this
/// architecture adds.
fn new_modes_instruction_map(
    name: &'static str,
    stack_s: u8,
    direct24: u8,
    long: u8,
    stack_s_y: u8,
    indirect_y24: u8,
    long_x: u8,
) -> (r: (&'static str, ModeMap))
    ensures
        r.0 == name,
        r.1@ == Map::<Seq<char>, u8>::empty().insert(STACK_S@, stack_s).insert(DIRECT24@, direct24).insert(
            LONG@,
            long,
        ).insert(STACK_S_Y@, stack_s_y).insert(INDIRECT_Y24@, indirect_y24).insert(LONG_X@, long_x),
{
    let mut modes: ModeMap = NameMap::new();
    modes.insert(STACK_S.to_owned(), stack_s);
    modes.insert(DIRECT24.to_owned(), direct24);
    modes.insert(LONG.to_owned(), long);
    modes.insert(STACK_S_Y.to_owned(), stack_s_y);
    modes.insert(INDIRECT_Y24.to_owned(), indirect_y24);
    modes.insert(LONG_X.to_owned(), long_x);
    (name, modes)
}

/// The instructions that this architecture adds, in the order of the
/// mnemonics.
fn instruction_map() -> (map: InstructionMap)
    ensures
        map.sorted(),
        map@ == table_65c816(),
{
    let mut map = InstructionMap::new();
    let ghost mut held = Map::<Seq<char>, Map<Seq<char>, u8>>::empty();
    map.insert(new_modes_instruction_map("ora", 0x03, 0x07, 0x0F, 0x13, 0x17, 0x1F));
    proof {
        held = held.insert("ora"@, new_modes(0x03, 0x07, 0x0F, 0x13, 0x17, 0x1F));
        assert(map@ == held);
    }
    map.insert(new_modes_instruction_map("and", 0x23, 0x27, 0x2F, 0x33, 0x37, 0x3F));
    proof {
        held = held.insert("and"@, new_modes(0x23, 0x27, 0x2F, 0x33, 0x37, 0x3F));
        assert(map@ == held);
    }
    map.insert(new_modes_instruction_map("eor", 0x43, 0x47, 0x4F, 0x53, 0x57, 0x5F));
    proof {
        held = held.insert("eor"@, new_modes(0x43, 0x47, 0x4F, 0x53, 0x57, 0x5F));
        assert(map@ == held);
    }
    map.insert(new_modes_instruction_map("adc", 0x63, 0x67, 0x6F, 0x73, 0x77, 0x7F));
    proof {
        held = held.insert("adc"@, new_modes(0x63, 0x67, 0x6F, 0x73, 0x77, 0x7F));
        assert(map@ == held);
    }
    map.insert(new_modes_instruction_map("sta", 0x83, 0x87, 0x8F, 0x93, 0x97, 0x9F));
    proof {
        held = held.insert("sta"@, new_modes(0x83, 0x87, 0x8F, 0x93, 0x97, 0x9F));
        assert(map@ == held);
    }
    map.insert(new_modes_instruction_map("lda", 0xA3, 0xA7, 0xAF, 0xB3, 0xB7, 0xBF));
    proof {
        held = held.insert("lda"@, new_modes(0xA3, 0xA7, 0xAF, 0xB3, 0xB7, 0xBF));
        assert(map@ == held);
    }
    map.insert(new_modes_instruction_map("cmp", 0xC3, 0xC7, 0xCF, 0xD3, 0xD7, 0xDF));
    proof {
        held = held.insert("cmp"@, new_modes(0xC3, 0xC7, 0xCF, 0xD3, 0xD7, 0xDF));
        assert(map@ == held);
    }
    map.insert(new_modes_instruction_map("sbc", 0xE3, 0xE7, 0xEF, 0xF3, 0xF7, 0xFF));
    proof {
        held = held.insert("sbc"@, new_modes(0xE3, 0xE7, 0xEF, 0xF3, 0xF7, 0xFF));
        assert(map@ == held);
    }
    map.insert(implied_instruction_map("phd", 0x0B));
    proof {
        held = held.insert("phd"@, crate::arch::a6502::implied_modes(0x0B));
        assert(map@ == held);
    }
    map.insert(implied_instruction_map("pld", 0x2B));
    proof {
        held = held.insert("pld"@, crate::arch::a6502::implied_modes(0x2B));
        assert(map@ == held);
    }
    map.insert(implied_instruction_map("phk", 0x4B));
    proof {
        held = held.insert("phk"@, crate::arch::a6502::implied_modes(0x4B));
        assert(map@ == held);
    }
    map.insert(implied_instruction_map("rtl", 0x6B));
    proof {
        held = held.insert("rtl"@, crate::arch::a6502::implied_modes(0x6B));
        assert(map@ == held);
    }
    map.insert(implied_instruction_map("phb", 0x8B));
    proof {
        held = held.insert("phb"@, crate::arch::a6502::implied_modes(0x8B));
        assert(map@ == held);
    }
    map.insert(implied_instruction_map("plb", 0xAB));
    proof {
        held = held.insert("plb"@, crate::arch::a6502::implied_modes(0xAB));
        assert(map@ == held);
    }
    map.insert(implied_instruction_map("wai", 0xCB));
    proof {
        held = held.insert("wai"@, crate::arch::a6502::implied_modes(0xCB));
        assert(map@ == held);
    }
    map.insert(implied_instruction_map("xba", 0xEB));
    proof {
        held = held.insert("xba"@, crate::arch::a6502::implied_modes(0xEB));
        assert(map@ == held);
    }
    map.insert(implied_instruction_map("tcs", 0x1B));
    proof {
        held = held.insert("tcs"@, crate::arch::a6502::implied_modes(0x1B));
        assert(map@ == held);
    }
    map.insert(implied_instruction_map("tsc", 0x3B));
    proof {
        held = held.insert("tsc"@, crate::arch::a6502::implied_modes(0x3B));
        assert(map@ == held);
    }
    map.insert(implied_instruction_map("tcd", 0x5B));
    proof {
        held = held.insert("tcd"@, crate::arch::a6502::implied_modes(0x5B));
        assert(map@ == held);
    }
    map.insert(implied_instruction_map("tdc", 0x7B));
    proof {
        held = held.insert("tdc"@, crate::arch::a6502::implied_modes(0x7B));
        assert(map@ == held);
    }
    map.insert(implied_instruction_map("txy", 0xBB));
    proof {
        held = held.insert("txy"@, crate::arch::a6502::implied_modes(0xBB));
        assert(map@ == held);
    }
    map.insert(implied_instruction_map("tyx", 0xBB));
    proof {
        held = held.insert("tyx"@, crate::arch::a6502::implied_modes(0xBB));
        assert(map@ == held);
    }
    map.insert(implied_instruction_map("stp", 0xDB));
    proof {
        held = held.insert("stp"@, crate::arch::a6502::implied_modes(0xDB));
        assert(map@ == held);
    }
    map.insert(implied_instruction_map("xce", 0xFB));
    proof {
        held = held.insert("xce"@, crate::arch::a6502::implied_modes(0xFB));
        assert(map@ == held);
    }
    let pairs = vec![(IMMEDIATE, 0x02)];
    assert(pairs@ =~= seq![(IMMEDIATE, 0x02u8)]);
    map.insert(("cop", mode_map(pairs)));
    proof {
        held = held.insert("cop"@, crate::arch::tables::pairs_map(seq![(IMMEDIATE, 0x02u8)], 1));
        assert(map@ == held);
    }
    let pairs = vec![(LONG, 0x22)];
    assert(pairs@ =~= seq![(LONG, 0x22u8)]);
    map.insert(("jsl", mode_map(pairs)));
    proof {
        held = held.insert("jsl"@, crate::arch::tables::pairs_map(seq![(LONG, 0x22u8)], 1));
        assert(map@ == held);
    }
    map.insert(implied_instruction_map("wdm", 0x42));
    proof {
        held = held.insert("wdm"@, crate::arch::a6502::implied_modes(0x42));
        assert(map@ == held);
    }
    let pairs = vec![(ABSOLUTE, 0x62)];
    assert(pairs@ =~= seq![(ABSOLUTE, 0x62u8)]);
    map.insert(("per", mode_map(pairs)));
    proof {
        held = held.insert("per"@, crate::arch::tables::pairs_map(seq![(ABSOLUTE, 0x62u8)], 1));
        assert(map@ == held);
    }
    let pairs = vec![(RELATIVE16, 0x82)];
    assert(pairs@ =~= seq![(RELATIVE16, 0x82u8)]);
    map.insert(("brl", mode_map(pairs)));
    proof {
        held = held.insert("brl"@, crate::arch::tables::pairs_map(seq![(RELATIVE16, 0x82u8)], 1));
        assert(map@ == held);
    }
    let pairs = vec![(IMMEDIATE, 0xC2)];
    assert(pairs@ =~= seq![(IMMEDIATE, 0xC2u8)]);
    map.insert(("rep", mode_map(pairs)));
    proof {
        held = held.insert("rep"@, crate::arch::tables::pairs_map(seq![(IMMEDIATE, 0xC2u8)], 1));
        assert(map@ == held);
    }
    let pairs = vec![(IMMEDIATE, 0xE2)];
    assert(pairs@ =~= seq![(IMMEDIATE, 0xE2u8)]);
    map.insert(("sep", mode_map(pairs)));
    proof {
        held = held.insert("sep"@, crate::arch::tables::pairs_map(seq![(IMMEDIATE, 0xE2u8)], 1));
        assert(map@ == held);
    }
    let pairs = vec![(MOVE, 0x54)];
    assert(pairs@ =~= seq![(MOVE, 0x54u8)]);
    map.insert(("mvn", mode_map(pairs)));
    proof {
        held = held.insert("mvn"@, crate::arch::tables::pairs_map(seq![(MOVE, 0x54u8)], 1));
        assert(map@ == held);
    }
    let pairs = vec![(MOVE, 0x44)];
    assert(pairs@ =~= seq![(MOVE, 0x44u8)]);
    map.insert(("mvp", mode_map(pairs)));
    proof {
        held = held.insert("mvp"@, crate::arch::tables::pairs_map(seq![(MOVE, 0x44u8)], 1));
        assert(map@ == held);
    }
    let pairs = vec![(IMMEDIATE, 0xD4)];
    assert(pairs@ =~= seq![(IMMEDIATE, 0xD4u8)]);
    map.insert(("pei", mode_map(pairs)));
    proof {
        held = held.insert("pei"@, crate::arch::tables::pairs_map(seq![(IMMEDIATE, 0xD4u8)], 1));
        assert(map@ == held);
    }
    let pairs = vec![(IMMEDIATE16, 0xF4)];
    assert(pairs@ =~= seq![(IMMEDIATE16, 0xF4u8)]);
    map.insert(("pea", mode_map(pairs)));
    proof {
        held = held.insert("pea"@, crate::arch::tables::pairs_map(seq![(IMMEDIATE16, 0xF4u8)], 1));
        assert(map@ == held);
    }
    let pairs = vec![(LONG, 0x5C), (JUMP_LONG_INDIRECT, 0xDC)];
    assert(pairs@ =~= seq![(LONG, 0x5Cu8), (JUMP_LONG_INDIRECT, 0xDCu8)]);
    map.insert(("jmp", mode_map(pairs)));
    proof {
        held = held.insert("jmp"@, crate::arch::tables::pairs_map(seq![(LONG, 0x5Cu8), (JUMP_LONG_INDIRECT, 0xDCu8)], 2));
        assert(map@ == held);
    }
    let pairs = vec![(JSR_INDIRECT_X, 0xFC)];
    assert(pairs@ =~= seq![(JSR_INDIRECT_X, 0xFCu8)]);
    map.insert(("jsr", mode_map(pairs)));
    proof {
        held = held.insert("jsr"@, crate::arch::tables::pairs_map(seq![(JSR_INDIRECT_X, 0xFCu8)], 1));
        assert(map@ == held);
    }
    map
}

/// The instructions that this architecture adds: for each mnemonic the
/// opcode of each of its modes. A mnemonic entered twice has what was
/// entered last.
pub open spec fn table_65c816() -> Map<Seq<char>, Map<Seq<char>, u8>> {
    Map::<Seq<char>, Map<Seq<char>, u8>>::empty()
        .insert("ora"@, new_modes(0x03, 0x07, 0x0F, 0x13, 0x17, 0x1F))
        .insert("and"@, new_modes(0x23, 0x27, 0x2F, 0x33, 0x37, 0x3F))
        .insert("eor"@, new_modes(0x43, 0x47, 0x4F, 0x53, 0x57, 0x5F))
        .insert("adc"@, new_modes(0x63, 0x67, 0x6F, 0x73, 0x77, 0x7F))
        .insert("sta"@, new_modes(0x83, 0x87, 0x8F, 0x93, 0x97, 0x9F))
        .insert("lda"@, new_modes(0xA3, 0xA7, 0xAF, 0xB3, 0xB7, 0xBF))
        .insert("cmp"@, new_modes(0xC3, 0xC7, 0xCF, 0xD3, 0xD7, 0xDF))
        .insert("sbc"@, new_modes(0xE3, 0xE7, 0xEF, 0xF3, 0xF7, 0xFF))
        .insert("phd"@, crate::arch::a6502::implied_modes(0x0B))
        .insert("pld"@, crate::arch::a6502::implied_modes(0x2B))
        .insert("phk"@, crate::arch::a6502::implied_modes(0x4B))
        .insert("rtl"@, crate::arch::a6502::implied_modes(0x6B))
        .insert("phb"@, crate::arch::a6502::implied_modes(0x8B))
        .insert("plb"@, crate::arch::a6502::implied_modes(0xAB))
        .insert("wai"@, crate::arch::a6502::implied_modes(0xCB))
        .insert("xba"@, crate::arch::a6502::implied_modes(0xEB))
        .insert("tcs"@, crate::arch::a6502::implied_modes(0x1B))
        .insert("tsc"@, crate::arch::a6502::implied_modes(0x3B))
        .insert("tcd"@, crate::arch::a6502::implied_modes(0x5B))
        .insert("tdc"@, crate::arch::a6502::implied_modes(0x7B))
        .insert("txy"@, crate::arch::a6502::implied_modes(0xBB))
        .insert("tyx"@, crate::arch::a6502::implied_modes(0xBB))
        .insert("stp"@, crate::arch::a6502::implied_modes(0xDB))
        .insert("xce"@, crate::arch::a6502::implied_modes(0xFB))
        .insert("cop"@, crate::arch::tables::pairs_map(seq![(IMMEDIATE, 0x02u8)], 1))
        .insert("jsl"@, crate::arch::tables::pairs_map(seq![(LONG, 0x22u8)], 1))
        .insert("wdm"@, crate::arch::a6502::implied_modes(0x42))
        .insert("per"@, crate::arch::tables::pairs_map(seq![(ABSOLUTE, 0x62u8)], 1))
        .insert("brl"@, crate::arch::tables::pairs_map(seq![(RELATIVE16, 0x82u8)], 1))
        .insert("rep"@, crate::arch::tables::pairs_map(seq![(IMMEDIATE, 0xC2u8)], 1))
        .insert("sep"@, crate::arch::tables::pairs_map(seq![(IMMEDIATE, 0xE2u8)], 1))
        .insert("mvn"@, crate::arch::tables::pairs_map(seq![(MOVE, 0x54u8)], 1))
        .insert("mvp"@, crate::arch::tables::pairs_map(seq![(MOVE, 0x44u8)], 1))
        .insert("pei"@, crate::arch::tables::pairs_map(seq![(IMMEDIATE, 0xD4u8)], 1))
        .insert("pea"@, crate::arch::tables::pairs_map(seq![(IMMEDIATE16, 0xF4u8)], 1))
        .insert("jmp"@, crate::arch::tables::pairs_map(seq![(LONG, 0x5Cu8), (JUMP_LONG_INDIRECT, 0xDCu8)], 2))
        .insert("jsr"@, crate::arch::tables::pairs_map(seq![(JSR_INDIRECT_X, 0xFCu8)], 1))
}

/// The opcodes of an instruction with the six operand modes that this
/// architecture adds.
pub open spec fn new_modes(stack_s: u8, direct24: u8, long: u8, stack_s_y: u8, indirect_y24: u8, long_x: u8) -> Map<Seq<char>, u8> {
    Map::<Seq<char>, u8>::empty().insert(STACK_S@, stack_s).insert(DIRECT24@, direct24).insert(
            LONG@,
            long,
        ).insert(STACK_S_Y@, stack_s_y).insert(INDIRECT_Y24@, indirect_y24).insert(LONG_X@, long_x)
}

/// Rules that name modes of the extended 8-bit architecture name modes of
/// this one.
pub proof fn lemma_resolved_wider(list: Seq<crate::arch::matcher::Matcher>)
    requires
        resolved(list, modes_65c02()),
    ensures
        resolved(list, modes_65c816()),
{
    assert forall|i: int| 0 <= i < list.len() implies modes_65c816()((#[trigger] list[i]).transforms@) by {
        assert(modes_65c02()(list[i].transforms@));
    }
}

/// The rules of this architecture: those of the extended 8-bit one, made
/// from its two tables, then those that the rows of this architecture's own
/// table give.
pub open spec fn rules_of_65c816(
    base: Seq<(String, ModeMap)>,
    middle: Seq<(String, ModeMap)>,
    own: Seq<(String, ModeMap)>,
) -> Seq<RuleSpec> {
    crate::arch::a65c02::rules_of_65c02(base, middle) + table_rules(own)
}

/// Whether `list` holds the rules of this architecture's instructions.
pub open spec fn built_65c816(list: Seq<crate::arch::matcher::Matcher>) -> bool {
    exists|base: Seq<(String, ModeMap)>, middle: Seq<(String, ModeMap)>, own: Seq<(String, ModeMap)>|
        crate::arch::tables::is_table(base, crate::arch::a6502::table_6502()) && crate::arch::tables::is_table(
            middle,
            crate::arch::a65c02::table_65c02(),
        ) && crate::arch::tables::is_table(own, table_65c816()) && grows(
            Seq::empty(),
            list,
            #[trigger] rules_of_65c816(base, middle, own),
        )
}

/// The rules of this architecture's instructions: the older ones first.
pub fn patterns() -> (list: MatcherList)
    ensures
        resolved(list@, modes_65c816()),
        built_65c816(list@),
{
    let mut list = crate::arch::a65c02::patterns();
    let map = instruction_map();
    let ghost before = list@;
    let ghost own = map.rows@;
    let ghost rules = table_rules(own);
    proof {
        lemma_resolved_wider(before);
        lemma_table_known(own);
    }
    matchers_from(&mut list, map);
    proof {
        lemma_grows_resolved(before, list@, rules, modes_65c816());
        let (base, middle) = choose|base: Seq<(String, ModeMap)>, middle: Seq<(String, ModeMap)>|
            crate::arch::tables::is_table(base, crate::arch::a6502::table_6502())
                && crate::arch::tables::is_table(middle, crate::arch::a65c02::table_65c02()) && grows(
                Seq::empty(),
                before,
                #[trigger] crate::arch::a65c02::rules_of_65c02(base, middle),
            );
        lemma_grows_then(
            Seq::empty(),
            before,
            list@,
            crate::arch::a65c02::rules_of_65c02(base, middle),
            rules,
        );
        assert(crate::arch::tables::is_table(own, table_65c816()));
        assert(grows(Seq::empty(), list@, rules_of_65c816(base, middle, own)));
    }
    list
}

/// This architecture under the default key.
pub fn archs() -> (map: NameMap<Arch>)
    ensures
        map@.dom() =~= set![""@],
        well_formed(&map@[""@]),
        family(&map@[""@]),
        shaped_6502(map@[""@].transforms@),
        shaped_65c02(map@[""@].transforms@),
        shaped_own(map@[""@].transforms@),
        resolved(map@[""@].patterns@.drop_last(), modes_65c816()),
        built_65c816(map@[""@].patterns@.drop_last()),
        map@[""@].addr_type == DataType::U32,
{
    let mut map: NameMap<Arch> = NameMap::new();
    let transforms = transforms();
    let base = patterns();
    let ghost listed = base@;
    let rules = add_patterns_default(base);
    let arch = family_arch(rules, transforms, DataType::U32);
    proof {
        assert(arch.patterns@.drop_last() =~= listed);
        lemma_well_formed(&arch, modes_65c816());
    }
    map.insert("".to_owned(), arch);
    map
}

/// The registry of this architecture. Its one architecture, under the
/// default key, is well formed; a fresh context starts at address zero and
/// knows no symbol.
pub fn arch() -> (r: Archs)
    ensures
        r.archs@.dom() =~= set![""@],
        well_formed(&r.archs@[""@]),
        family(&r.archs@[""@]),
        shaped_6502(r.archs@[""@].transforms@),
        shaped_65c02(r.archs@[""@].transforms@),
        shaped_own(r.archs@[""@].transforms@),
        resolved(r.archs@[""@].patterns@.drop_last(), modes_65c816()),
        built_65c816(r.archs@[""@].patterns@.drop_last()),
        r.archs@[""@].addr_type == DataType::U32,
        r.org == 0,
        r.syms@ == Seq::<crate::symbols::SymbolView>::empty(),
{
    Archs { archs: archs(), org: 0, syms: SymbolList::default() }
}

} // verus!
