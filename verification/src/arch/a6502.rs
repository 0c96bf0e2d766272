//! The 8-bit baseline architecture: addressing modes as transforms, and the
//! instruction table from which the rules are made.
use vstd::prelude::*;
use crate::arch::matcher::Matcher;
use crate::arch::node::Node;
use crate::arch::pattern::{Pattern, PatternAt};
use crate::arch::tables::{
    expand, grows, is_static, lemma_expand_known, lemma_grows_none, lemma_grows_one,
    lemma_grows_resolved, lemma_grows_then, lemma_known_join, lemma_known_none, lemma_opt_known,
    mode_map, opt, operand_mode, operand_shape,
    relative_mode, relative_shape, resolved, rules_known, InstructionMap, MatcherList, ModeMap,
    RuleSpec, TransformMap,
};
use crate::arch::transform::{plain, Transform, ValOut};
use crate::arch::{Arch, Archs};
use crate::arch::endian::Endianess;
use crate::arch::laws::{has_catch_all, is_catch_all, resolves};
use crate::name_map::NameMap;
use crate::symbols::SymbolList;
use crate::value::{DataType, ValueTypeFmt};

verus! {

/// An immediate operand of one byte.
pub const IMMEDIATE: &'static str = "immediate";

/// An immediate operand of two bytes.
pub const IMMEDIATE16: &'static str = "immediate16";

/// The mode of an accumulator immediate while the flag `m` is not set.
pub const IMMEDIATE_NO_M_FLAG: &'static str = "immediate_no_m_flag";

/// The mode of an accumulator immediate while the flag `m` is set.
pub const IMMEDIATE_M_FLAG: &'static str = "immediate_m_flag";

/// The mode of an index-register immediate while the flag `x` is set.
pub const IMMEDIATE_X_FLAG: &'static str = "immediate_no_x_flag";

/// The mode of an index-register immediate while the flag `x` is not set.
pub const IMMEDIATE_NO_X_FLAG: &'static str = "immediate_x_flag";

/// Zero page.
pub const ZP: &'static str = "zp";

/// Zero page, indexed by `x`.
pub const ZP_X: &'static str = "zp_x";

/// Zero page, indexed by `y`.
pub const ZP_Y: &'static str = "zp_y";

/// Absolute.
pub const ABSOLUTE: &'static str = "absolute";

/// Absolute, indexed by `y`.
pub const ABSOLUTE_Y: &'static str = "absolute_y";

/// Absolute, indexed by `x`.
pub const ABSOLUTE_X: &'static str = "absolute_x";

/// The indirect mode of jumps.
pub const INDIRECT_JMP: &'static str = "indirect_jmp";

/// Indexed indirect.
pub const INDIRECT_X: &'static str = "indirect_x";

/// Indirect indexed.
pub const INDIRECT_Y: &'static str = "indirect_y";

/// No operand.
pub const IMPLIED: &'static str = "implied";

/// The accumulator as operand.
pub const ACCUMULATOR: &'static str = "accumulator";

/// The addressing mode of branches.
pub const RELATIVE: &'static str = "relative";

/// The flag for a wide accumulator.
pub const FLAG_M: &'static str = "m";

/// The flag for wide index registers.
pub const FLAG_X: &'static str = "x";

/// The transform of the rule that matches every byte.
pub const DEFINE_BYTE: &'static str = "define_byte";

/// The transform that frames an instruction from the front.
pub const ADDRESS: &'static str = "address";

/// The transform that frames an instruction from behind.
pub const NEW_LINE: &'static str = "new_line";

/// A value of the given width, read at the start of what is left of the
/// window and shown in hexadecimal of at least `digits` digits.
pub open spec fn operand(digits: usize, data_type: DataType) -> ValOut {
    ValOut { offset: 0, fmt: ValueTypeFmt::LowerHex(digits), data_type, rel: false, auto_def_sym: false }
}

/// A value of the given width, read after the opcode, relative to the
/// address behind the instruction.
pub open spec fn branch_target(digits: usize, data_type: DataType) -> ValOut {
    ValOut { offset: 1, fmt: ValueTypeFmt::LowerHex(digits), data_type, rel: true, auto_def_sym: false }
}

/// The operand of the given width, as an executable value.
pub fn operand_of(digits: usize, data_type: DataType) -> (r: ValOut)
    ensures
        r == operand(digits, data_type),
{
    ValOut { offset: 0, fmt: ValueTypeFmt::LowerHex(digits), data_type, rel: false, auto_def_sym: false }
}

/// The branch target of the given width, as an executable value.
pub fn branch_target_of(digits: usize, data_type: DataType) -> (r: ValOut)
    ensures
        r == branch_target(digits, data_type),
{
    ValOut { offset: 1, fmt: ValueTypeFmt::LowerHex(digits), data_type, rel: true, auto_def_sym: false }
}

fn transform_indirect_jmp(map: &mut TransformMap)
    ensures
        final(map)@ == old(map)@.insert(INDIRECT_JMP@, final(map)@[INDIRECT_JMP@]),
        operand_shape(final(map)@[INDIRECT_JMP@]@, " ("@, operand(2, DataType::U16), Some(")"@)),
{
    map.insert(INDIRECT_JMP.to_owned(), operand_mode(" (", operand_of(2, DataType::U16), Some(")")));
}

fn transform_accumulator(map: &mut TransformMap)
    ensures
        final(map)@ == old(map)@.insert(ACCUMULATOR@, final(map)@[ACCUMULATOR@]),
        final(map)@[ACCUMULATOR@]@.len() == 3,
        final(map)@[ACCUMULATOR@]@[0] is MatcherName,
        final(map)@[ACCUMULATOR@]@[1] == Transform::Consume(1),
        is_static(final(map)@[ACCUMULATOR@]@[2], " a"@),
{
    let mut list: Vec<Transform> = Vec::new();
    list.push(Transform::MatcherName);
    list.push(Transform::Consume(1));
    list.push(Transform::Static(Node::text(" a")));
    map.insert(ACCUMULATOR.to_owned(), list);
}

fn transform_immediate(map: &mut TransformMap, short: DataType, mode: &str)
    ensures
        final(map)@ == old(map)@.insert(mode@, final(map)@[mode@]),
        operand_shape(final(map)@[mode@]@, " #"@, operand(2, short), None),
{
    map.insert(mode.to_owned(), operand_mode(" #", operand_of(2, short), None));
}

fn transform_immediate16(map: &mut TransformMap, short: DataType, mode: &str)
    ensures
        final(map)@ == old(map)@.insert(mode@, final(map)@[mode@]),
        operand_shape(final(map)@[mode@]@, " #"@, operand(4, short), None),
{
    map.insert(mode.to_owned(), operand_mode(" #", operand_of(4, short), None));
}

fn transform_relative(map: &mut TransformMap)
    ensures
        final(map)@ == old(map)@.insert(RELATIVE@, final(map)@[RELATIVE@]),
        relative_shape(final(map)@[RELATIVE@]@, 2, branch_target(2, DataType::I8)),
{
    map.insert(RELATIVE.to_owned(), relative_mode(2, branch_target_of(2, DataType::I8)));
}

fn transform_zp(map: &mut TransformMap)
    ensures
        final(map)@ == old(map)@.insert(ZP@, final(map)@[ZP@]),
        operand_shape(final(map)@[ZP@]@, " "@, operand(2, DataType::U8), None),
{
    map.insert(ZP.to_owned(), operand_mode(" ", operand_of(2, DataType::U8), None));
}

fn transform_zp_x(map: &mut TransformMap)
    ensures
        final(map)@ == old(map)@.insert(ZP_X@, final(map)@[ZP_X@]),
        operand_shape(final(map)@[ZP_X@]@, " "@, operand(2, DataType::U8), Some(", x"@)),
{
    map.insert(ZP_X.to_owned(), operand_mode(" ", operand_of(2, DataType::U8), Some(", x")));
}

fn transform_zp_y(map: &mut TransformMap)
    ensures
        final(map)@ == old(map)@.insert(ZP_Y@, final(map)@[ZP_Y@]),
        operand_shape(final(map)@[ZP_Y@]@, " "@, operand(2, DataType::U8), Some(", y"@)),
{
    map.insert(ZP_Y.to_owned(), operand_mode(" ", operand_of(2, DataType::U8), Some(", y")));
}

fn transform_absolute(map: &mut TransformMap)
    ensures
        final(map)@ == old(map)@.insert(ABSOLUTE@, final(map)@[ABSOLUTE@]),
        operand_shape(final(map)@[ABSOLUTE@]@, " "@, operand(2, DataType::U16), None),
{
    map.insert(ABSOLUTE.to_owned(), operand_mode(" ", operand_of(2, DataType::U16), None));
}

fn transform_absolute_x(map: &mut TransformMap)
    ensures
        final(map)@ == old(map)@.insert(ABSOLUTE_X@, final(map)@[ABSOLUTE_X@]),
        operand_shape(final(map)@[ABSOLUTE_X@]@, " "@, operand(2, DataType::U16), Some(", x"@)),
{
    map.insert(ABSOLUTE_X.to_owned(), operand_mode(" ", operand_of(2, DataType::U16), Some(", x")));
}

fn transform_absolute_y(map: &mut TransformMap)
    ensures
        final(map)@ == old(map)@.insert(ABSOLUTE_Y@, final(map)@[ABSOLUTE_Y@]),
        operand_shape(final(map)@[ABSOLUTE_Y@]@, " "@, operand(2, DataType::U16), Some(", y"@)),
{
    map.insert(ABSOLUTE_Y.to_owned(), operand_mode(" ", operand_of(2, DataType::U16), Some(", y")));
}

fn transform_indirect_x(map: &mut TransformMap)
    ensures
        final(map)@ == old(map)@.insert(INDIRECT_X@, final(map)@[INDIRECT_X@]),
        operand_shape(final(map)@[INDIRECT_X@]@, " ("@, operand(2, DataType::U8), Some(", x)"@)),
{
    map.insert(INDIRECT_X.to_owned(), operand_mode(" (", operand_of(2, DataType::U8), Some(", x)")));
}

fn transform_indirect_y(map: &mut TransformMap)
    ensures
        final(map)@ == old(map)@.insert(INDIRECT_Y@, final(map)@[INDIRECT_Y@]),
        operand_shape(final(map)@[INDIRECT_Y@]@, " ("@, operand(2, DataType::U8), Some("), y"@)),
{
    map.insert(INDIRECT_Y.to_owned(), operand_mode(" (", operand_of(2, DataType::U8), Some("), y")));
}

fn transform_implied(map: &mut TransformMap)
    ensures
        final(map)@ == old(map)@.insert(IMPLIED@, final(map)@[IMPLIED@]),
        final(map)@[IMPLIED@]@.len() == 2,
        final(map)@[IMPLIED@]@[0] is MatcherName,
        final(map)@[IMPLIED@]@[1] == Transform::Consume(1),
{
    let mut list: Vec<Transform> = Vec::new();
    list.push(Transform::MatcherName);
    list.push(Transform::Consume(1));
    map.insert(IMPLIED.to_owned(), list);
}

/// Whether `mode` is an addressing mode of the baseline architecture.
pub open spec fn is_mode_6502(mode: Seq<char>) -> bool {
    ||| mode == IMMEDIATE@
    ||| mode == IMMEDIATE_NO_M_FLAG@
    ||| mode == IMMEDIATE_M_FLAG@
    ||| mode == IMMEDIATE_X_FLAG@
    ||| mode == IMMEDIATE_NO_X_FLAG@
    ||| mode == ZP@
    ||| mode == ZP_X@
    ||| mode == ZP_Y@
    ||| mode == ABSOLUTE@
    ||| mode == ABSOLUTE_X@
    ||| mode == ABSOLUTE_Y@
    ||| mode == INDIRECT_X@
    ||| mode == INDIRECT_Y@
    ||| mode == ACCUMULATOR@
    ||| mode == RELATIVE@
    ||| mode == IMPLIED@
    ||| mode == INDIRECT_JMP@
    ||| mode == IMMEDIATE16@
}

/// The addressing modes of the baseline architecture, as a predicate.
pub open spec fn modes_6502() -> spec_fn(Seq<char>) -> bool {
    |mode: Seq<char>| is_mode_6502(mode)
}

/// Whether `map` defines every addressing mode of the baseline architecture.
pub open spec fn defines_6502(map: Map<Seq<char>, Vec<Transform>>) -> bool {
    forall|mode: Seq<char>| is_mode_6502(mode) ==> #[trigger] map.contains_key(mode)
}

/// Whether `map` holds, for every addressing mode of the baseline
/// architecture, the transform of that mode.
pub open spec fn shaped_6502(map: Map<Seq<char>, Vec<Transform>>) -> bool {
    &&& operand_shape(map[IMMEDIATE@]@, " #"@, operand(2, DataType::U8), None)
    &&& operand_shape(map[IMMEDIATE16@]@, " #"@, operand(4, DataType::U16), None)
    &&& operand_shape(map[IMMEDIATE_NO_M_FLAG@]@, " #"@, operand(2, DataType::U8), None)
    &&& operand_shape(map[IMMEDIATE_M_FLAG@]@, " #"@, operand(2, DataType::U16), None)
    &&& operand_shape(map[IMMEDIATE_X_FLAG@]@, " #"@, operand(2, DataType::U16), None)
    &&& operand_shape(map[IMMEDIATE_NO_X_FLAG@]@, " #"@, operand(2, DataType::U8), None)
    &&& operand_shape(map[ZP@]@, " "@, operand(2, DataType::U8), None)
    &&& operand_shape(map[ZP_X@]@, " "@, operand(2, DataType::U8), Some(", x"@))
    &&& operand_shape(map[ZP_Y@]@, " "@, operand(2, DataType::U8), Some(", y"@))
    &&& operand_shape(map[ABSOLUTE@]@, " "@, operand(2, DataType::U16), None)
    &&& operand_shape(map[ABSOLUTE_X@]@, " "@, operand(2, DataType::U16), Some(", x"@))
    &&& operand_shape(map[ABSOLUTE_Y@]@, " "@, operand(2, DataType::U16), Some(", y"@))
    &&& operand_shape(map[INDIRECT_X@]@, " ("@, operand(2, DataType::U8), Some(", x)"@))
    &&& operand_shape(map[INDIRECT_Y@]@, " ("@, operand(2, DataType::U8), Some("), y"@))
    &&& operand_shape(map[INDIRECT_JMP@]@, " ("@, operand(2, DataType::U16), Some(")"@))
    &&& relative_shape(map[RELATIVE@]@, 2, branch_target(2, DataType::I8))
    &&& map[IMPLIED@]@.len() == 2
    &&& map[IMPLIED@]@[0] is MatcherName
    &&& map[IMPLIED@]@[1] == Transform::Consume(1)
    &&& map[ACCUMULATOR@]@.len() == 3
    &&& map[ACCUMULATOR@]@[0] is MatcherName
    &&& map[ACCUMULATOR@]@[1] == Transform::Consume(1)
    &&& is_static(map[ACCUMULATOR@]@[2], " a"@)
}

/// Whether `name` has `len` characters, begins with `first`, and has the
/// character `mark` at the position `at`.
pub open spec fn spelled(name: Seq<char>, len: nat, first: char, at: int, mark: char) -> bool {
    name.len() == len && name[0] == first && name[at] == mark
}

/// How the names of the transforms are spelled, as far as it takes to tell
/// any two of them apart.
pub proof fn lemma_names()
    ensures
        spelled(IMMEDIATE@, 9, 'i', 8, 'e'),
        spelled(IMMEDIATE16@, 11, 'i', 10, '6'),
        spelled(IMMEDIATE_NO_M_FLAG@, 19, 'i', 13, 'm'),
        spelled(IMMEDIATE_M_FLAG@, 16, 'i', 10, 'm'),
        spelled(IMMEDIATE_X_FLAG@, 19, 'i', 13, 'x'),
        spelled(IMMEDIATE_NO_X_FLAG@, 16, 'i', 10, 'x'),
        spelled(ZP@, 2, 'z', 1, 'p'),
        spelled(ZP_X@, 4, 'z', 3, 'x'),
        spelled(ZP_Y@, 4, 'z', 3, 'y'),
        spelled(ABSOLUTE@, 8, 'a', 7, 'e'),
        spelled(ABSOLUTE_Y@, 10, 'a', 9, 'y'),
        spelled(ABSOLUTE_X@, 10, 'a', 9, 'x'),
        spelled(INDIRECT_JMP@, 12, 'i', 11, 'p'),
        spelled(INDIRECT_X@, 10, 'i', 9, 'x'),
        spelled(INDIRECT_Y@, 10, 'i', 9, 'y'),
        spelled(IMPLIED@, 7, 'i', 6, 'd'),
        spelled(ACCUMULATOR@, 11, 'a', 10, 'r'),
        spelled(RELATIVE@, 8, 'r', 7, 'e'),
        spelled(DEFINE_BYTE@, 11, 'd', 10, 'e'),
        spelled(ADDRESS@, 7, 'a', 6, 's'),
        spelled(NEW_LINE@, 8, 'n', 7, 'e'),
{
    reveal_strlit("immediate");
    reveal_strlit("immediate16");
    reveal_strlit("immediate_no_m_flag");
    reveal_strlit("immediate_m_flag");
    reveal_strlit("immediate_no_x_flag");
    reveal_strlit("immediate_x_flag");
    reveal_strlit("zp");
    reveal_strlit("zp_x");
    reveal_strlit("zp_y");
    reveal_strlit("absolute");
    reveal_strlit("absolute_y");
    reveal_strlit("absolute_x");
    reveal_strlit("indirect_jmp");
    reveal_strlit("indirect_x");
    reveal_strlit("indirect_y");
    reveal_strlit("implied");
    reveal_strlit("accumulator");
    reveal_strlit("relative");
    reveal_strlit("define_byte");
    reveal_strlit("address");
    reveal_strlit("new_line");
}

fn transforms_default_modes(map: &mut TransformMap)
    ensures
        defines_6502(final(map)@),
        shaped_6502(final(map)@),
        forall|key: Seq<char>| old(map)@.contains_key(key) ==> #[trigger] final(map)@.contains_key(key),
        forall|key: Seq<char>|
            old(map)@.contains_key(key) && !is_mode_6502(key) ==> #[trigger] final(map)@[key] == old(map)@[key],
{
    proof {
        lemma_names();
    }
    transform_immediate(map, DataType::U8, IMMEDIATE);
    transform_immediate16(map, DataType::U16, IMMEDIATE16);
    transform_immediate(map, DataType::U8, IMMEDIATE_NO_M_FLAG);
    transform_immediate(map, DataType::U16, IMMEDIATE_M_FLAG);
    transform_immediate(map, DataType::U16, IMMEDIATE_X_FLAG);
    transform_immediate(map, DataType::U8, IMMEDIATE_NO_X_FLAG);
    transform_zp(map);
    transform_zp_x(map);
    transform_zp_y(map);
    transform_absolute(map);
    transform_absolute_x(map);
    transform_absolute_y(map);
    transform_indirect_x(map);
    transform_indirect_y(map);
    transform_implied(map);
    transform_accumulator(map);
    transform_relative(map);
    transform_indirect_jmp(map);
}

/// Whether `map` holds the transform for a raw data byte and the two that
/// frame an instruction: in front the labels, the address in eight
/// hexadecimal digits and a space; behind a line break.
pub open spec fn framing_shaped(map: Map<Seq<char>, Vec<Transform>>) -> bool {
    &&& map.contains_key(DEFINE_BYTE@)
    &&& map[DEFINE_BYTE@]@.len() == 2
    &&& is_static(map[DEFINE_BYTE@]@[0], ".db "@)
    &&& map[DEFINE_BYTE@]@[1] == Transform::Val(operand(2, DataType::U8))
    &&& map.contains_key(ADDRESS@)
    &&& map[ADDRESS@]@.len() == 3
    &&& map[ADDRESS@]@[0] is Label
    &&& map[ADDRESS@]@[1] == Transform::Address(8)
    &&& is_static(map[ADDRESS@]@[2], crate::text::repeated(' ', 1))
    &&& map.contains_key(NEW_LINE@)
    &&& map[NEW_LINE@]@.len() == 1
    &&& is_static(map[NEW_LINE@]@[0], "\n"@)
}

/// The transforms of the baseline architecture: one for each addressing
/// mode, the one for a raw data byte, and the two that frame an instruction.
pub fn transforms() -> (map: TransformMap)
    ensures
        defines_6502(map@),
        shaped_6502(map@),
        framing_shaped(map@),
{
    proof {
        lemma_names();
    }
    let mut map: TransformMap = NameMap::new();
    let mut define_byte: Vec<Transform> = Vec::new();
    define_byte.push(Transform::Static(Node::text(".db ")));
    define_byte.push(Transform::Val(operand_of(2, DataType::U8)));
    map.insert(DEFINE_BYTE.to_owned(), define_byte);
    let mut address: Vec<Transform> = Vec::new();
    address.push(Transform::Label);
    address.push(Transform::Address(8));
    address.push(Transform::space(1));
    map.insert(ADDRESS.to_owned(), address);
    let mut new_line: Vec<Transform> = Vec::new();
    new_line.push(Transform::new_line());
    map.insert(NEW_LINE.to_owned(), new_line);
    transforms_default_modes(&mut map);
    map
}

/// Adds a rule for the opcode `op` alone.
pub fn matcher1(matchers: &mut MatcherList, op: u8, name: &str, mode: &str)
    ensures
        grows(
            old(matchers)@,
            final(matchers)@,
            seq![RuleSpec { op, any_at: None, flag: None, mode: mode@, name: name@ }],
        ),
{
    let ghost rule = RuleSpec { op, any_at: None, flag: None, mode: mode@, name: name@ };
    let mut patterns: Vec<PatternAt> = Vec::new();
    patterns.push(PatternAt::new(Pattern::Exact(op), 0));
    matchers.push(Matcher { patterns, transforms: mode.to_owned(), name: Node::text(name) });
    proof {
        lemma_grows_one(old(matchers)@, matchers@.last(), rule);
    }
}

/// Adds a rule for the opcode `op` followed by one byte, while the flag `m`
/// is not set.
pub fn matcher_immediate_no_m(matchers: &mut MatcherList, op: u8, name: &str, mode: &str)
    ensures
        grows(
            old(matchers)@,
            final(matchers)@,
            seq![
                RuleSpec { op, any_at: Some(1usize), flag: Some((FLAG_M@, false)), mode: mode@, name: name@ },
            ],
        ),
{
    let ghost rule = RuleSpec { op, any_at: Some(1usize), flag: Some((FLAG_M@, false)), mode: mode@, name: name@ };
    let mut patterns: Vec<PatternAt> = Vec::new();
    patterns.push(PatternAt::new(Pattern::Exact(op), 0));
    patterns.push(PatternAt::new(Pattern::Any, 1));
    patterns.push(PatternAt::new(Pattern::Flag(FLAG_M.to_owned(), None), 0));
    matchers.push(Matcher { patterns, transforms: mode.to_owned(), name: Node::text(name) });
    proof {
        lemma_grows_one(old(matchers)@, matchers@.last(), rule);
    }
}

/// Adds a rule for the opcode `op` followed by two bytes, while the flag `m`
/// is set.
pub fn matcher_immediate_m(matchers: &mut MatcherList, op: u8, name: &str, mode: &str)
    ensures
        grows(
            old(matchers)@,
            final(matchers)@,
            seq![
                RuleSpec { op, any_at: Some(2usize), flag: Some((FLAG_M@, true)), mode: mode@, name: name@ },
            ],
        ),
{
    let ghost rule = RuleSpec { op, any_at: Some(2usize), flag: Some((FLAG_M@, true)), mode: mode@, name: name@ };
    let mut patterns: Vec<PatternAt> = Vec::new();
    patterns.push(PatternAt::new(Pattern::Exact(op), 0));
    patterns.push(PatternAt::new(Pattern::Any, 2));
    patterns.push(PatternAt::new(Pattern::Flag(FLAG_M.to_owned(), Some(String::new())), 0));
    matchers.push(Matcher { patterns, transforms: mode.to_owned(), name: Node::text(name) });
    proof {
        lemma_grows_one(old(matchers)@, matchers@.last(), rule);
    }
}

/// Adds a rule for the opcode `op` followed by one byte, while the flag `x`
/// is not set.
pub fn matcher_immediate_no_x(matchers: &mut MatcherList, op: u8, name: &str, mode: &str)
    ensures
        grows(
            old(matchers)@,
            final(matchers)@,
            seq![
                RuleSpec { op, any_at: Some(1usize), flag: Some((FLAG_X@, false)), mode: mode@, name: name@ },
            ],
        ),
{
    let ghost rule = RuleSpec { op, any_at: Some(1usize), flag: Some((FLAG_X@, false)), mode: mode@, name: name@ };
    let mut patterns: Vec<PatternAt> = Vec::new();
    patterns.push(PatternAt::new(Pattern::Exact(op), 0));
    patterns.push(PatternAt::new(Pattern::Any, 1));
    patterns.push(PatternAt::new(Pattern::Flag(FLAG_X.to_owned(), None), 0));
    matchers.push(Matcher { patterns, transforms: mode.to_owned(), name: Node::text(name) });
    proof {
        lemma_grows_one(old(matchers)@, matchers@.last(), rule);
    }
}

/// Adds a rule for the opcode `op` followed by two bytes, while the flag `x`
/// is set.
pub fn matcher_immediate_x(matchers: &mut MatcherList, op: u8, name: &str, mode: &str)
    ensures
        grows(
            old(matchers)@,
            final(matchers)@,
            seq![
                RuleSpec { op, any_at: Some(2usize), flag: Some((FLAG_X@, true)), mode: mode@, name: name@ },
            ],
        ),
{
    let ghost rule = RuleSpec { op, any_at: Some(2usize), flag: Some((FLAG_X@, true)), mode: mode@, name: name@ };
    let mut patterns: Vec<PatternAt> = Vec::new();
    patterns.push(PatternAt::new(Pattern::Exact(op), 0));
    patterns.push(PatternAt::new(Pattern::Any, 2));
    patterns.push(PatternAt::new(Pattern::Flag(FLAG_X.to_owned(), Some(String::new())), 0));
    matchers.push(Matcher { patterns, transforms: mode.to_owned(), name: Node::text(name) });
    proof {
        lemma_grows_one(old(matchers)@, matchers@.last(), rule);
    }
}

/// Adds a rule for the opcode `op` followed by one byte.
pub fn matcher2(matchers: &mut MatcherList, op: u8, name: &str, mode: &str)
    ensures
        grows(
            old(matchers)@,
            final(matchers)@,
            seq![RuleSpec { op, any_at: Some(1usize), flag: None, mode: mode@, name: name@ }],
        ),
{
    let ghost rule = RuleSpec { op, any_at: Some(1usize), flag: None, mode: mode@, name: name@ };
    let mut patterns: Vec<PatternAt> = Vec::new();
    patterns.push(PatternAt::new(Pattern::Exact(op), 0));
    patterns.push(PatternAt::new(Pattern::Any, 1));
    matchers.push(Matcher { patterns, transforms: mode.to_owned(), name: Node::text(name) });
    proof {
        lemma_grows_one(old(matchers)@, matchers@.last(), rule);
    }
}

/// Adds a rule for the opcode `op` followed by two bytes.
pub fn matcher3(matchers: &mut MatcherList, op: u8, name: &str, mode: &str)
    ensures
        grows(
            old(matchers)@,
            final(matchers)@,
            seq![RuleSpec { op, any_at: Some(2usize), flag: None, mode: mode@, name: name@ }],
        ),
{
    let ghost rule = RuleSpec { op, any_at: Some(2usize), flag: None, mode: mode@, name: name@ };
    let mut patterns: Vec<PatternAt> = Vec::new();
    patterns.push(PatternAt::new(Pattern::Exact(op), 0));
    patterns.push(PatternAt::new(Pattern::Any, 2));
    matchers.push(Matcher { patterns, transforms: mode.to_owned(), name: Node::text(name) });
    proof {
        lemma_grows_one(old(matchers)@, matchers@.last(), rule);
    }
}

fn matcher_immediate(matchers: &mut MatcherList, modes: &ModeMap, name: &str)
    ensures
        grows(old(matchers)@, final(matchers)@, opt(modes@, IMMEDIATE@, name@, Some(1usize), None)),
{
    match modes.get(IMMEDIATE) {
        Some(op) => {
            matcher2(matchers, *op, name, IMMEDIATE);
        },
        None => {
            proof {
                lemma_grows_none(matchers@);
            }
        },
    }
}

fn matcher_immediate_no_m_flag(matchers: &mut MatcherList, modes: &ModeMap, name: &str)
    ensures
        grows(old(matchers)@, final(matchers)@, opt(modes@, IMMEDIATE_NO_M_FLAG@, name@, Some(1usize), Some((FLAG_M@, false)))),
{
    match modes.get(IMMEDIATE_NO_M_FLAG) {
        Some(op) => {
            matcher_immediate_no_m(matchers, *op, name, IMMEDIATE_NO_M_FLAG);
        },
        None => {
            proof {
                lemma_grows_none(matchers@);
            }
        },
    }
}

fn matcher_immediate_m_flag(matchers: &mut MatcherList, modes: &ModeMap, name: &str)
    ensures
        grows(old(matchers)@, final(matchers)@, opt(modes@, IMMEDIATE_M_FLAG@, name@, Some(2usize), Some((FLAG_M@, true)))),
{
    match modes.get(IMMEDIATE_M_FLAG) {
        Some(op) => {
            matcher_immediate_m(matchers, *op, name, IMMEDIATE_M_FLAG);
        },
        None => {
            proof {
                lemma_grows_none(matchers@);
            }
        },
    }
}

fn matcher_immediate_x_flag(matchers: &mut MatcherList, modes: &ModeMap, name: &str)
    ensures
        grows(old(matchers)@, final(matchers)@, opt(modes@, IMMEDIATE_X_FLAG@, name@, Some(2usize), Some((FLAG_X@, true)))),
{
    match modes.get(IMMEDIATE_X_FLAG) {
        Some(op) => {
            matcher_immediate_x(matchers, *op, name, IMMEDIATE_X_FLAG);
        },
        None => {
            proof {
                lemma_grows_none(matchers@);
            }
        },
    }
}

fn matcher_immediate_no_x_flag(matchers: &mut MatcherList, modes: &ModeMap, name: &str)
    ensures
        grows(old(matchers)@, final(matchers)@, opt(modes@, IMMEDIATE_NO_X_FLAG@, name@, Some(1usize), Some((FLAG_X@, false)))),
{
    match modes.get(IMMEDIATE_NO_X_FLAG) {
        Some(op) => {
            matcher_immediate_no_x(matchers, *op, name, IMMEDIATE_NO_X_FLAG);
        },
        None => {
            proof {
                lemma_grows_none(matchers@);
            }
        },
    }
}

fn matcher_zp(matchers: &mut MatcherList, modes: &ModeMap, name: &str)
    ensures
        grows(old(matchers)@, final(matchers)@, opt(modes@, ZP@, name@, Some(1usize), None)),
{
    match modes.get(ZP) {
        Some(op) => {
            matcher2(matchers, *op, name, ZP);
        },
        None => {
            proof {
                lemma_grows_none(matchers@);
            }
        },
    }
}

fn matcher_zp_x(matchers: &mut MatcherList, modes: &ModeMap, name: &str)
    ensures
        grows(old(matchers)@, final(matchers)@, opt(modes@, ZP_X@, name@, Some(1usize), None)),
{
    match modes.get(ZP_X) {
        Some(op) => {
            matcher2(matchers, *op, name, ZP_X);
        },
        None => {
            proof {
                lemma_grows_none(matchers@);
            }
        },
    }
}

fn matcher_zp_y(matchers: &mut MatcherList, modes: &ModeMap, name: &str)
    ensures
        grows(old(matchers)@, final(matchers)@, opt(modes@, ZP_Y@, name@, Some(1usize), None)),
{
    match modes.get(ZP_Y) {
        Some(op) => {
            matcher2(matchers, *op, name, ZP_Y);
        },
        None => {
            proof {
                lemma_grows_none(matchers@);
            }
        },
    }
}

fn matcher_absolute(matchers: &mut MatcherList, modes: &ModeMap, name: &str)
    ensures
        grows(old(matchers)@, final(matchers)@, opt(modes@, ABSOLUTE@, name@, Some(2usize), None)),
{
    match modes.get(ABSOLUTE) {
        Some(op) => {
            matcher3(matchers, *op, name, ABSOLUTE);
        },
        None => {
            proof {
                lemma_grows_none(matchers@);
            }
        },
    }
}

fn matcher_absolute_x(matchers: &mut MatcherList, modes: &ModeMap, name: &str)
    ensures
        grows(old(matchers)@, final(matchers)@, opt(modes@, ABSOLUTE_X@, name@, Some(2usize), None)),
{
    match modes.get(ABSOLUTE_X) {
        Some(op) => {
            matcher3(matchers, *op, name, ABSOLUTE_X);
        },
        None => {
            proof {
                lemma_grows_none(matchers@);
            }
        },
    }
}

fn matcher_absolute_y(matchers: &mut MatcherList, modes: &ModeMap, name: &str)
    ensures
        grows(old(matchers)@, final(matchers)@, opt(modes@, ABSOLUTE_Y@, name@, Some(2usize), None)),
{
    match modes.get(ABSOLUTE_Y) {
        Some(op) => {
            matcher3(matchers, *op, name, ABSOLUTE_Y);
        },
        None => {
            proof {
                lemma_grows_none(matchers@);
            }
        },
    }
}

fn matcher_indirect_x(matchers: &mut MatcherList, modes: &ModeMap, name: &str)
    ensures
        grows(old(matchers)@, final(matchers)@, opt(modes@, INDIRECT_X@, name@, Some(1usize), None)),
{
    match modes.get(INDIRECT_X) {
        Some(op) => {
            matcher2(matchers, *op, name, INDIRECT_X);
        },
        None => {
            proof {
                lemma_grows_none(matchers@);
            }
        },
    }
}

fn matcher_indirect_y(matchers: &mut MatcherList, modes: &ModeMap, name: &str)
    ensures
        grows(old(matchers)@, final(matchers)@, opt(modes@, INDIRECT_Y@, name@, Some(1usize), None)),
{
    match modes.get(INDIRECT_Y) {
        Some(op) => {
            matcher2(matchers, *op, name, INDIRECT_Y);
        },
        None => {
            proof {
                lemma_grows_none(matchers@);
            }
        },
    }
}

fn matcher_accumulator(matchers: &mut MatcherList, modes: &ModeMap, name: &str)
    ensures
        grows(old(matchers)@, final(matchers)@, opt(modes@, ACCUMULATOR@, name@, None, None)),
{
    match modes.get(ACCUMULATOR) {
        Some(op) => {
            matcher1(matchers, *op, name, ACCUMULATOR);
        },
        None => {
            proof {
                lemma_grows_none(matchers@);
            }
        },
    }
}

fn matcher_relative(matchers: &mut MatcherList, modes: &ModeMap, name: &str)
    ensures
        grows(old(matchers)@, final(matchers)@, opt(modes@, RELATIVE@, name@, Some(1usize), None)),
{
    match modes.get(RELATIVE) {
        Some(op) => {
            matcher2(matchers, *op, name, RELATIVE);
        },
        None => {
            proof {
                lemma_grows_none(matchers@);
            }
        },
    }
}

fn matcher_implied(matchers: &mut MatcherList, modes: &ModeMap, name: &str)
    ensures
        grows(old(matchers)@, final(matchers)@, opt(modes@, IMPLIED@, name@, None, None)),
{
    match modes.get(IMPLIED) {
        Some(op) => {
            matcher1(matchers, *op, name, IMPLIED);
        },
        None => {
            proof {
                lemma_grows_none(matchers@);
            }
        },
    }
}

fn matcher_indirect_jmp(matchers: &mut MatcherList, modes: &ModeMap, name: &str)
    ensures
        grows(old(matchers)@, final(matchers)@, opt(modes@, INDIRECT_JMP@, name@, Some(2usize), None)),
{
    match modes.get(INDIRECT_JMP) {
        Some(op) => {
            matcher3(matchers, *op, name, INDIRECT_JMP);
        },
        None => {
            proof {
                lemma_grows_none(matchers@);
            }
        },
    }
}

fn matcher_immediate16(matchers: &mut MatcherList, modes: &ModeMap, name: &str)
    ensures
        grows(old(matchers)@, final(matchers)@, opt(modes@, IMMEDIATE16@, name@, Some(1usize), None)),
{
    match modes.get(IMMEDIATE16) {
        Some(op) => {
            matcher2(matchers, *op, name, IMMEDIATE16);
        },
        None => {
            proof {
                lemma_grows_none(matchers@);
            }
        },
    }
}

/// The row of a branch instruction.
pub fn relative_instruction_map(name: &'static str, opcode: u8) -> (r: (&'static str, ModeMap))
    ensures
        r.0 == name,
        r.1@ == Map::<Seq<char>, u8>::empty().insert(RELATIVE@, opcode),
{
    let mut modes: ModeMap = NameMap::new();
    modes.insert(RELATIVE.to_owned(), opcode);
    (name, modes)
}

/// The row of an instruction with the eight common operand modes.
fn default_instruction_map(
    name: &'static str,
    immediate: u8,
    zp: u8,
    zp_x: u8,
    abs: u8,
    abs_x: u8,
    abs_y: u8,
    ind_x: u8,
    ind_y: u8,
) -> (r: (&'static str, ModeMap))
    ensures
        r.0 == name,
        r.1@ == Map::<Seq<char>, u8>::empty().insert(IMMEDIATE_M_FLAG@, immediate).insert(
            IMMEDIATE_NO_M_FLAG@,
            immediate,
        ).insert(ZP@, zp).insert(ZP_X@, zp_x).insert(ABSOLUTE@, abs).insert(ABSOLUTE_X@, abs_x).insert(
            ABSOLUTE_Y@,
            abs_y,
        ).insert(INDIRECT_X@, ind_x).insert(INDIRECT_Y@, ind_y),
{
    let mut modes: ModeMap = NameMap::new();
    modes.insert(IMMEDIATE_M_FLAG.to_owned(), immediate);
    modes.insert(IMMEDIATE_NO_M_FLAG.to_owned(), immediate);
    modes.insert(ZP.to_owned(), zp);
    modes.insert(ZP_X.to_owned(), zp_x);
    modes.insert(ABSOLUTE.to_owned(), abs);
    modes.insert(ABSOLUTE_X.to_owned(), abs_x);
    modes.insert(ABSOLUTE_Y.to_owned(), abs_y);
    modes.insert(INDIRECT_X.to_owned(), ind_x);
    modes.insert(INDIRECT_Y.to_owned(), ind_y);
    (name, modes)
}

/// The row of an instruction that compares an index register.
fn compare_index_instruction_map(name: &'static str, immediate: u8, zp: u8, abs: u8) -> (r: (
    &'static str,
    ModeMap,
))
    ensures
        r.0 == name,
        r.1@ == Map::<Seq<char>, u8>::empty().insert(IMMEDIATE_NO_X_FLAG@, immediate).insert(
            IMMEDIATE_X_FLAG@,
            immediate,
        ).insert(ZP@, zp).insert(ABSOLUTE@, abs),
{
    let mut modes: ModeMap = NameMap::new();
    modes.insert(IMMEDIATE_NO_X_FLAG.to_owned(), immediate);
    modes.insert(IMMEDIATE_X_FLAG.to_owned(), immediate);
    modes.insert(ZP.to_owned(), zp);
    modes.insert(ABSOLUTE.to_owned(), abs);
    (name, modes)
}

/// The row of an instruction that works on the accumulator or on memory.
fn accumulator_instruction_map(
    name: &'static str,
    accumulator: u8,
    zp: u8,
    zp_x: u8,
    abs: u8,
    abs_x: u8,
) -> (r: (&'static str, ModeMap))
    ensures
        r.0 == name,
        r.1@ == Map::<Seq<char>, u8>::empty().insert(ACCUMULATOR@, accumulator).insert(ZP@, zp).insert(
            ZP_X@,
            zp_x,
        ).insert(ABSOLUTE@, abs).insert(ABSOLUTE_X@, abs_x),
{
    let mut modes: ModeMap = NameMap::new();
    modes.insert(ACCUMULATOR.to_owned(), accumulator);
    modes.insert(ZP.to_owned(), zp);
    modes.insert(ZP_X.to_owned(), zp_x);
    modes.insert(ABSOLUTE.to_owned(), abs);
    modes.insert(ABSOLUTE_X.to_owned(), abs_x);
    (name, modes)
}

/// The row of an instruction that counts a memory cell up or down.
fn inc_dec_instruction_map(name: &'static str, zp: u8, zp_x: u8, abs: u8, abs_x: u8) -> (r: (
    &'static str,
    ModeMap,
))
    ensures
        r.0 == name,
        r.1@ == Map::<Seq<char>, u8>::empty().insert(ZP@, zp).insert(ZP_X@, zp_x).insert(
            ABSOLUTE@,
            abs,
        ).insert(ABSOLUTE_X@, abs_x),
{
    let mut modes: ModeMap = NameMap::new();
    modes.insert(ZP.to_owned(), zp);
    modes.insert(ZP_X.to_owned(), zp_x);
    modes.insert(ABSOLUTE.to_owned(), abs);
    modes.insert(ABSOLUTE_X.to_owned(), abs_x);
    (name, modes)
}

/// The row of an instruction without operand.
pub fn implied_instruction_map(name: &'static str, op: u8) -> (r: (&'static str, ModeMap))
    ensures
        r.0 == name,
        r.1@ == Map::<Seq<char>, u8>::empty().insert(IMPLIED@, op),
{
    let mut modes: ModeMap = NameMap::new();
    modes.insert(IMPLIED.to_owned(), op);
    (name, modes)
}

/// The instructions of the baseline architecture with the opcode of each of
/// their modes, in the order of the mnemonics.
fn instruction_map() -> (map: InstructionMap)
    ensures
        map.sorted(),
        map@ == table_6502(),
{
    let mut map = InstructionMap::new();
    let ghost mut held = Map::<Seq<char>, Map<Seq<char>, u8>>::empty();
    map.insert(default_instruction_map("adc", 0x69, 0x65, 0x75, 0x6D, 0x7D, 0x79, 0x61, 0x71));
    proof {
        held = held.insert("adc"@, default_modes(0x69, 0x65, 0x75, 0x6D, 0x7D, 0x79, 0x61, 0x71));
        assert(map@ == held);
    }
    map.insert(default_instruction_map("and", 0x29, 0x25, 0x35, 0x2D, 0x3D, 0x39, 0x21, 0x31));
    proof {
        held = held.insert("and"@, default_modes(0x29, 0x25, 0x35, 0x2D, 0x3D, 0x39, 0x21, 0x31));
        assert(map@ == held);
    }
    map.insert(accumulator_instruction_map("asl", 0x0A, 0x06, 0x16, 0x0E, 0x1E));
    proof {
        held = held.insert("asl"@, accumulator_modes(0x0A, 0x06, 0x16, 0x0E, 0x1E));
        assert(map@ == held);
    }
    let pairs = vec![(ABSOLUTE, 0x24), (ZP, 0x2C)];
    assert(pairs@ =~= seq![(ABSOLUTE, 0x24u8), (ZP, 0x2Cu8)]);
    map.insert(("bit", mode_map(pairs)));
    proof {
        held = held.insert("bit"@, crate::arch::tables::pairs_map(seq![(ABSOLUTE, 0x24u8), (ZP, 0x2Cu8)], 2));
        assert(map@ == held);
    }
    map.insert(relative_instruction_map("bpl", 0x10));
    proof {
        held = held.insert("bpl"@, relative_modes(0x10));
        assert(map@ == held);
    }
    map.insert(relative_instruction_map("bmi", 0x30));
    proof {
        held = held.insert("bmi"@, relative_modes(0x30));
        assert(map@ == held);
    }
    map.insert(relative_instruction_map("bvc", 0x50));
    proof {
        held = held.insert("bvc"@, relative_modes(0x50));
        assert(map@ == held);
    }
    map.insert(relative_instruction_map("bvs", 0x70));
    proof {
        held = held.insert("bvs"@, relative_modes(0x70));
        assert(map@ == held);
    }
    map.insert(relative_instruction_map("bcc", 0x90));
    proof {
        held = held.insert("bcc"@, relative_modes(0x90));
        assert(map@ == held);
    }
    map.insert(relative_instruction_map("bcs", 0xB0));
    proof {
        held = held.insert("bcs"@, relative_modes(0xB0));
        assert(map@ == held);
    }
    map.insert(relative_instruction_map("bne", 0xD0));
    proof {
        held = held.insert("bne"@, relative_modes(0xD0));
        assert(map@ == held);
    }
    map.insert(relative_instruction_map("beq", 0xF0));
    proof {
        held = held.insert("beq"@, relative_modes(0xF0));
        assert(map@ == held);
    }
    map.insert(implied_instruction_map("brk", 0x00));
    proof {
        held = held.insert("brk"@, implied_modes(0x00));
        assert(map@ == held);
    }
    map.insert(default_instruction_map("cmd", 0xC9, 0xC5, 0xD5, 0xCD, 0xDD, 0xD9, 0xC1, 0xD1));
    proof {
        held = held.insert("cmd"@, default_modes(0xC9, 0xC5, 0xD5, 0xCD, 0xDD, 0xD9, 0xC1, 0xD1));
        assert(map@ == held);
    }
    map.insert(compare_index_instruction_map("cpx", 0xE0, 0xE4, 0xEC));
    proof {
        held = held.insert("cpx"@, compare_index_modes(0xE0, 0xE4, 0xEC));
        assert(map@ == held);
    }
    map.insert(compare_index_instruction_map("cpy", 0xC0, 0xC4, 0xCC));
    proof {
        held = held.insert("cpy"@, compare_index_modes(0xC0, 0xC4, 0xCC));
        assert(map@ == held);
    }
    map.insert(inc_dec_instruction_map("dec", 0xC6, 0xD6, 0xCE, 0xDE));
    proof {
        held = held.insert("dec"@, inc_dec_modes(0xC6, 0xD6, 0xCE, 0xDE));
        assert(map@ == held);
    }
    map.insert(default_instruction_map("eor", 0x49, 0x45, 0x55, 0x4D, 0x5D, 0x59, 0x41, 0x51));
    proof {
        held = held.insert("eor"@, default_modes(0x49, 0x45, 0x55, 0x4D, 0x5D, 0x59, 0x41, 0x51));
        assert(map@ == held);
    }
    map.insert(implied_instruction_map("clc", 0x18));
    proof {
        held = held.insert("clc"@, implied_modes(0x18));
        assert(map@ == held);
    }
    map.insert(implied_instruction_map("sec", 0x38));
    proof {
        held = held.insert("sec"@, implied_modes(0x38));
        assert(map@ == held);
    }
    map.insert(implied_instruction_map("cli", 0x58));
    proof {
        held = held.insert("cli"@, implied_modes(0x58));
        assert(map@ == held);
    }
    map.insert(implied_instruction_map("sei", 0x78));
    proof {
        held = held.insert("sei"@, implied_modes(0x78));
        assert(map@ == held);
    }
    map.insert(implied_instruction_map("clv", 0xB8));
    proof {
        held = held.insert("clv"@, implied_modes(0xB8));
        assert(map@ == held);
    }
    map.insert(implied_instruction_map("cld", 0xD8));
    proof {
        held = held.insert("cld"@, implied_modes(0xD8));
        assert(map@ == held);
    }
    map.insert(implied_instruction_map("sed", 0xF8));
    proof {
        held = held.insert("sed"@, implied_modes(0xF8));
        assert(map@ == held);
    }
    map.insert(inc_dec_instruction_map("inc", 0xE6, 0xF6, 0xEE, 0xFE));
    proof {
        held = held.insert("inc"@, inc_dec_modes(0xE6, 0xF6, 0xEE, 0xFE));
        assert(map@ == held);
    }
    let pairs = vec![(ABSOLUTE, 0x4C), (INDIRECT_JMP, 0x6C)];
    assert(pairs@ =~= seq![(ABSOLUTE, 0x4Cu8), (INDIRECT_JMP, 0x6Cu8)]);
    map.insert(("jmp", mode_map(pairs)));
    proof {
        held = held.insert("jmp"@, crate::arch::tables::pairs_map(seq![(ABSOLUTE, 0x4Cu8), (INDIRECT_JMP, 0x6Cu8)], 2));
        assert(map@ == held);
    }
    let pairs = vec![(ABSOLUTE, 0x4C)];
    assert(pairs@ =~= seq![(ABSOLUTE, 0x4Cu8)]);
    map.insert(("jsr", mode_map(pairs)));
    proof {
        held = held.insert("jsr"@, crate::arch::tables::pairs_map(seq![(ABSOLUTE, 0x4Cu8)], 1));
        assert(map@ == held);
    }
    map.insert(default_instruction_map("lda", 0xA9, 0xA5, 0xB5, 0xAD, 0xBD, 0xB9, 0xA1, 0xB1));
    proof {
        held = held.insert("lda"@, default_modes(0xA9, 0xA5, 0xB5, 0xAD, 0xBD, 0xB9, 0xA1, 0xB1));
        assert(map@ == held);
    }
    let pairs = vec![(IMMEDIATE_X_FLAG, 0xA2), (IMMEDIATE_NO_X_FLAG, 0xA2), (ZP, 0xA6), (ZP_Y, 0xB6), (ABSOLUTE, 0xAE), (ABSOLUTE_Y, 0xBE)];
    assert(pairs@ =~= seq![(IMMEDIATE_X_FLAG, 0xA2u8), (IMMEDIATE_NO_X_FLAG, 0xA2u8), (ZP, 0xA6u8), (ZP_Y, 0xB6u8), (ABSOLUTE, 0xAEu8), (ABSOLUTE_Y, 0xBEu8)]);
    map.insert(("ldx", mode_map(pairs)));
    proof {
        held = held.insert("ldx"@, crate::arch::tables::pairs_map(seq![(IMMEDIATE_X_FLAG, 0xA2u8), (IMMEDIATE_NO_X_FLAG, 0xA2u8), (ZP, 0xA6u8), (ZP_Y, 0xB6u8), (ABSOLUTE, 0xAEu8), (ABSOLUTE_Y, 0xBEu8)], 6));
        assert(map@ == held);
    }
    let pairs = vec![(IMMEDIATE_X_FLAG, 0xA0), (IMMEDIATE_NO_X_FLAG, 0xA0), (ZP, 0xA4), (ZP_X, 0xB4), (ABSOLUTE, 0xAC), (ABSOLUTE_X, 0xBC)];
    assert(pairs@ =~= seq![(IMMEDIATE_X_FLAG, 0xA0u8), (IMMEDIATE_NO_X_FLAG, 0xA0u8), (ZP, 0xA4u8), (ZP_X, 0xB4u8), (ABSOLUTE, 0xACu8), (ABSOLUTE_X, 0xBCu8)]);
    map.insert(("ldy", mode_map(pairs)));
    proof {
        held = held.insert("ldy"@, crate::arch::tables::pairs_map(seq![(IMMEDIATE_X_FLAG, 0xA0u8), (IMMEDIATE_NO_X_FLAG, 0xA0u8), (ZP, 0xA4u8), (ZP_X, 0xB4u8), (ABSOLUTE, 0xACu8), (ABSOLUTE_X, 0xBCu8)], 6));
        assert(map@ == held);
    }
    map.insert(accumulator_instruction_map("lsr", 0x4A, 0x46, 0x56, 0x4E, 0x5E));
    proof {
        held = held.insert("lsr"@, accumulator_modes(0x4A, 0x46, 0x56, 0x4E, 0x5E));
        assert(map@ == held);
    }
    map.insert(implied_instruction_map("nop", 0xEA));
    proof {
        held = held.insert("nop"@, implied_modes(0xEA));
        assert(map@ == held);
    }
    map.insert(default_instruction_map("ora", 0x09, 0x05, 0x15, 0x0D, 0x1D, 0x19, 0x01, 0x11));
    proof {
        held = held.insert("ora"@, default_modes(0x09, 0x05, 0x15, 0x0D, 0x1D, 0x19, 0x01, 0x11));
        assert(map@ == held);
    }
    map.insert(implied_instruction_map("tax", 0xAA));
    proof {
        held = held.insert("tax"@, implied_modes(0xAA));
        assert(map@ == held);
    }
    map.insert(implied_instruction_map("txa", 0xBA));
    proof {
        held = held.insert("txa"@, implied_modes(0xBA));
        assert(map@ == held);
    }
    map.insert(implied_instruction_map("dex", 0xCA));
    proof {
        held = held.insert("dex"@, implied_modes(0xCA));
        assert(map@ == held);
    }
    map.insert(implied_instruction_map("inx", 0xE8));
    proof {
        held = held.insert("inx"@, implied_modes(0xE8));
        assert(map@ == held);
    }
    map.insert(implied_instruction_map("tay", 0xA8));
    proof {
        held = held.insert("tay"@, implied_modes(0xA8));
        assert(map@ == held);
    }
    map.insert(implied_instruction_map("tya", 0x98));
    proof {
        held = held.insert("tya"@, implied_modes(0x98));
        assert(map@ == held);
    }
    map.insert(implied_instruction_map("dey", 0x88));
    proof {
        held = held.insert("dey"@, implied_modes(0x88));
        assert(map@ == held);
    }
    map.insert(implied_instruction_map("iny", 0xC8));
    proof {
        held = held.insert("iny"@, implied_modes(0xC8));
        assert(map@ == held);
    }
    map.insert(accumulator_instruction_map("rol", 0x2A, 0x26, 0x36, 0x2E, 0x3E));
    proof {
        held = held.insert("rol"@, accumulator_modes(0x2A, 0x26, 0x36, 0x2E, 0x3E));
        assert(map@ == held);
    }
    map.insert(accumulator_instruction_map("ror", 0x6A, 0x66, 0x76, 0x6E, 0x7E));
    proof {
        held = held.insert("ror"@, accumulator_modes(0x6A, 0x66, 0x76, 0x6E, 0x7E));
        assert(map@ == held);
    }
    map.insert(implied_instruction_map("rti", 0x40));
    proof {
        held = held.insert("rti"@, implied_modes(0x40));
        assert(map@ == held);
    }
    map.insert(implied_instruction_map("rts", 0x60));
    proof {
        held = held.insert("rts"@, implied_modes(0x60));
        assert(map@ == held);
    }
    map.insert(default_instruction_map("sbc", 0xE9, 0xE5, 0xF5, 0xED, 0xFD, 0xF9, 0xE1, 0xF1));
    proof {
        held = held.insert("sbc"@, default_modes(0xE9, 0xE5, 0xF5, 0xED, 0xFD, 0xF9, 0xE1, 0xF1));
        assert(map@ == held);
    }
    let pairs = vec![(ZP, 0x85), (ZP_X, 0x95), (ABSOLUTE, 0x8D), (ABSOLUTE_X, 0x9D), (ABSOLUTE_Y, 0x99), (INDIRECT_X, 0x81), (INDIRECT_Y, 0x91)];
    assert(pairs@ =~= seq![(ZP, 0x85u8), (ZP_X, 0x95u8), (ABSOLUTE, 0x8Du8), (ABSOLUTE_X, 0x9Du8), (ABSOLUTE_Y, 0x99u8), (INDIRECT_X, 0x81u8), (INDIRECT_Y, 0x91u8)]);
    map.insert(("sta", mode_map(pairs)));
    proof {
        held = held.insert("sta"@, crate::arch::tables::pairs_map(seq![(ZP, 0x85u8), (ZP_X, 0x95u8), (ABSOLUTE, 0x8Du8), (ABSOLUTE_X, 0x9Du8), (ABSOLUTE_Y, 0x99u8), (INDIRECT_X, 0x81u8), (INDIRECT_Y, 0x91u8)], 7));
        assert(map@ == held);
    }
    map.insert(implied_instruction_map("txs", 0x9A));
    proof {
        held = held.insert("txs"@, implied_modes(0x9A));
        assert(map@ == held);
    }
    map.insert(implied_instruction_map("tsx", 0xBA));
    proof {
        held = held.insert("tsx"@, implied_modes(0xBA));
        assert(map@ == held);
    }
    map.insert(implied_instruction_map("pha", 0x48));
    proof {
        held = held.insert("pha"@, implied_modes(0x48));
        assert(map@ == held);
    }
    map.insert(implied_instruction_map("pla", 0x68));
    proof {
        held = held.insert("pla"@, implied_modes(0x68));
        assert(map@ == held);
    }
    map.insert(implied_instruction_map("php", 0x08));
    proof {
        held = held.insert("php"@, implied_modes(0x08));
        assert(map@ == held);
    }
    map.insert(implied_instruction_map("plp", 0x28));
    proof {
        held = held.insert("plp"@, implied_modes(0x28));
        assert(map@ == held);
    }
    let pairs = vec![(ZP, 0x86), (ZP_Y, 0x96), (ABSOLUTE, 0x8E)];
    assert(pairs@ =~= seq![(ZP, 0x86u8), (ZP_Y, 0x96u8), (ABSOLUTE, 0x8Eu8)]);
    map.insert(("stx", mode_map(pairs)));
    proof {
        held = held.insert("stx"@, crate::arch::tables::pairs_map(seq![(ZP, 0x86u8), (ZP_Y, 0x96u8), (ABSOLUTE, 0x8Eu8)], 3));
        assert(map@ == held);
    }
    let pairs = vec![(ZP, 0x84), (ZP_X, 0x94), (ABSOLUTE, 0x8C)];
    assert(pairs@ =~= seq![(ZP, 0x84u8), (ZP_X, 0x94u8), (ABSOLUTE, 0x8Cu8)]);
    map.insert(("sty", mode_map(pairs)));
    proof {
        held = held.insert("sty"@, crate::arch::tables::pairs_map(seq![(ZP, 0x84u8), (ZP_X, 0x94u8), (ABSOLUTE, 0x8Cu8)], 3));
        assert(map@ == held);
    }
    map
}

/// The instructions of the baseline architecture: for each mnemonic the
/// opcode of each of its modes. A mnemonic entered twice has what was
/// entered last.
pub open spec fn table_6502() -> Map<Seq<char>, Map<Seq<char>, u8>> {
    Map::<Seq<char>, Map<Seq<char>, u8>>::empty()
        .insert("adc"@, default_modes(0x69, 0x65, 0x75, 0x6D, 0x7D, 0x79, 0x61, 0x71))
        .insert("and"@, default_modes(0x29, 0x25, 0x35, 0x2D, 0x3D, 0x39, 0x21, 0x31))
        .insert("asl"@, accumulator_modes(0x0A, 0x06, 0x16, 0x0E, 0x1E))
        .insert("bit"@, crate::arch::tables::pairs_map(seq![(ABSOLUTE, 0x24u8), (ZP, 0x2Cu8)], 2))
        .insert("bpl"@, relative_modes(0x10))
        .insert("bmi"@, relative_modes(0x30))
        .insert("bvc"@, relative_modes(0x50))
        .insert("bvs"@, relative_modes(0x70))
        .insert("bcc"@, relative_modes(0x90))
        .insert("bcs"@, relative_modes(0xB0))
        .insert("bne"@, relative_modes(0xD0))
        .insert("beq"@, relative_modes(0xF0))
        .insert("brk"@, implied_modes(0x00))
        .insert("cmd"@, default_modes(0xC9, 0xC5, 0xD5, 0xCD, 0xDD, 0xD9, 0xC1, 0xD1))
        .insert("cpx"@, compare_index_modes(0xE0, 0xE4, 0xEC))
        .insert("cpy"@, compare_index_modes(0xC0, 0xC4, 0xCC))
        .insert("dec"@, inc_dec_modes(0xC6, 0xD6, 0xCE, 0xDE))
        .insert("eor"@, default_modes(0x49, 0x45, 0x55, 0x4D, 0x5D, 0x59, 0x41, 0x51))
        .insert("clc"@, implied_modes(0x18))
        .insert("sec"@, implied_modes(0x38))
        .insert("cli"@, implied_modes(0x58))
        .insert("sei"@, implied_modes(0x78))
        .insert("clv"@, implied_modes(0xB8))
        .insert("cld"@, implied_modes(0xD8))
        .insert("sed"@, implied_modes(0xF8))
        .insert("inc"@, inc_dec_modes(0xE6, 0xF6, 0xEE, 0xFE))
        .insert("jmp"@, crate::arch::tables::pairs_map(seq![(ABSOLUTE, 0x4Cu8), (INDIRECT_JMP, 0x6Cu8)], 2))
        .insert("jsr"@, crate::arch::tables::pairs_map(seq![(ABSOLUTE, 0x4Cu8)], 1))
        .insert("lda"@, default_modes(0xA9, 0xA5, 0xB5, 0xAD, 0xBD, 0xB9, 0xA1, 0xB1))
        .insert("ldx"@, crate::arch::tables::pairs_map(seq![(IMMEDIATE_X_FLAG, 0xA2u8), (IMMEDIATE_NO_X_FLAG, 0xA2u8), (ZP, 0xA6u8), (ZP_Y, 0xB6u8), (ABSOLUTE, 0xAEu8), (ABSOLUTE_Y, 0xBEu8)], 6))
        .insert("ldy"@, crate::arch::tables::pairs_map(seq![(IMMEDIATE_X_FLAG, 0xA0u8), (IMMEDIATE_NO_X_FLAG, 0xA0u8), (ZP, 0xA4u8), (ZP_X, 0xB4u8), (ABSOLUTE, 0xACu8), (ABSOLUTE_X, 0xBCu8)], 6))
        .insert("lsr"@, accumulator_modes(0x4A, 0x46, 0x56, 0x4E, 0x5E))
        .insert("nop"@, implied_modes(0xEA))
        .insert("ora"@, default_modes(0x09, 0x05, 0x15, 0x0D, 0x1D, 0x19, 0x01, 0x11))
        .insert("tax"@, implied_modes(0xAA))
        .insert("txa"@, implied_modes(0xBA))
        .insert("dex"@, implied_modes(0xCA))
        .insert("inx"@, implied_modes(0xE8))
        .insert("tay"@, implied_modes(0xA8))
        .insert("tya"@, implied_modes(0x98))
        .insert("dey"@, implied_modes(0x88))
        .insert("iny"@, implied_modes(0xC8))
        .insert("rol"@, accumulator_modes(0x2A, 0x26, 0x36, 0x2E, 0x3E))
        .insert("ror"@, accumulator_modes(0x6A, 0x66, 0x76, 0x6E, 0x7E))
        .insert("rti"@, implied_modes(0x40))
        .insert("rts"@, implied_modes(0x60))
        .insert("sbc"@, default_modes(0xE9, 0xE5, 0xF5, 0xED, 0xFD, 0xF9, 0xE1, 0xF1))
        .insert("sta"@, crate::arch::tables::pairs_map(seq![(ZP, 0x85u8), (ZP_X, 0x95u8), (ABSOLUTE, 0x8Du8), (ABSOLUTE_X, 0x9Du8), (ABSOLUTE_Y, 0x99u8), (INDIRECT_X, 0x81u8), (INDIRECT_Y, 0x91u8)], 7))
        .insert("txs"@, implied_modes(0x9A))
        .insert("tsx"@, implied_modes(0xBA))
        .insert("pha"@, implied_modes(0x48))
        .insert("pla"@, implied_modes(0x68))
        .insert("php"@, implied_modes(0x08))
        .insert("plp"@, implied_modes(0x28))
        .insert("stx"@, crate::arch::tables::pairs_map(seq![(ZP, 0x86u8), (ZP_Y, 0x96u8), (ABSOLUTE, 0x8Eu8)], 3))
        .insert("sty"@, crate::arch::tables::pairs_map(seq![(ZP, 0x84u8), (ZP_X, 0x94u8), (ABSOLUTE, 0x8Cu8)], 3))
}

/// The opcodes of an instruction with the eight common operand modes.
pub open spec fn default_modes(immediate: u8, zp: u8, zp_x: u8, abs: u8, abs_x: u8, abs_y: u8, ind_x: u8, ind_y: u8) -> Map<Seq<char>, u8> {
    Map::<Seq<char>, u8>::empty().insert(IMMEDIATE_M_FLAG@, immediate).insert(
            IMMEDIATE_NO_M_FLAG@,
            immediate,
        ).insert(ZP@, zp).insert(ZP_X@, zp_x).insert(ABSOLUTE@, abs).insert(ABSOLUTE_X@, abs_x).insert(
            ABSOLUTE_Y@,
            abs_y,
        ).insert(INDIRECT_X@, ind_x).insert(INDIRECT_Y@, ind_y)
}

/// The opcode of a branch instruction.
pub open spec fn relative_modes(opcode: u8) -> Map<Seq<char>, u8> {
    Map::<Seq<char>, u8>::empty().insert(RELATIVE@, opcode)
}

/// The opcodes of an instruction that compares an index register.
pub open spec fn compare_index_modes(immediate: u8, zp: u8, abs: u8) -> Map<Seq<char>, u8> {
    Map::<Seq<char>, u8>::empty().insert(IMMEDIATE_NO_X_FLAG@, immediate).insert(
            IMMEDIATE_X_FLAG@,
            immediate,
        ).insert(ZP@, zp).insert(ABSOLUTE@, abs)
}

/// The opcodes of an instruction that works on the accumulator or on memory.
pub open spec fn accumulator_modes(accumulator: u8, zp: u8, zp_x: u8, abs: u8, abs_x: u8) -> Map<Seq<char>, u8> {
    Map::<Seq<char>, u8>::empty().insert(ACCUMULATOR@, accumulator).insert(ZP@, zp).insert(
            ZP_X@,
            zp_x,
        ).insert(ABSOLUTE@, abs).insert(ABSOLUTE_X@, abs_x)
}

/// The opcodes of an instruction that counts a memory cell up or down.
pub open spec fn inc_dec_modes(zp: u8, zp_x: u8, abs: u8, abs_x: u8) -> Map<Seq<char>, u8> {
    Map::<Seq<char>, u8>::empty().insert(ZP@, zp).insert(ZP_X@, zp_x).insert(
            ABSOLUTE@,
            abs,
        ).insert(ABSOLUTE_X@, abs_x)
}

/// The opcode of an instruction without operand.
pub open spec fn implied_modes(op: u8) -> Map<Seq<char>, u8> {
    Map::<Seq<char>, u8>::empty().insert(IMPLIED@, op)
}

/// The rules that one row of the table gives, in the order of their priority.
pub open spec fn rules_6502(name: Seq<char>, modes: Map<Seq<char>, u8>) -> Seq<RuleSpec> {
    Seq::<RuleSpec>::empty()
        + opt(modes, IMMEDIATE@, name, Some(1usize), None)
        + opt(modes, IMMEDIATE_NO_M_FLAG@, name, Some(1usize), Some((FLAG_M@, false)))
        + opt(modes, IMMEDIATE_M_FLAG@, name, Some(2usize), Some((FLAG_M@, true)))
        + opt(modes, IMMEDIATE_X_FLAG@, name, Some(2usize), Some((FLAG_X@, true)))
        + opt(modes, IMMEDIATE_NO_X_FLAG@, name, Some(1usize), Some((FLAG_X@, false)))
        + opt(modes, ZP@, name, Some(1usize), None)
        + opt(modes, ZP_X@, name, Some(1usize), None)
        + opt(modes, ZP_Y@, name, Some(1usize), None)
        + opt(modes, ABSOLUTE@, name, Some(2usize), None)
        + opt(modes, ABSOLUTE_X@, name, Some(2usize), None)
        + opt(modes, ABSOLUTE_Y@, name, Some(2usize), None)
        + opt(modes, INDIRECT_X@, name, Some(1usize), None)
        + opt(modes, INDIRECT_Y@, name, Some(1usize), None)
        + opt(modes, ACCUMULATOR@, name, None, None)
        + opt(modes, RELATIVE@, name, Some(1usize), None)
        + opt(modes, IMPLIED@, name, None, None)
        + opt(modes, INDIRECT_JMP@, name, Some(2usize), None)
        + opt(modes, IMMEDIATE16@, name, Some(1usize), None)
}

/// The rules of one row, as a function of the row.
pub open spec fn per_row_6502() -> spec_fn(Seq<char>, Map<Seq<char>, u8>) -> Seq<RuleSpec> {
    |name: Seq<char>, modes: Map<Seq<char>, u8>| rules_6502(name, modes)
}

/// Every rule of a row belongs to a mode of the baseline architecture.
pub proof fn lemma_rules_6502_known(name: Seq<char>, modes: Map<Seq<char>, u8>)
    ensures
        rules_known(rules_6502(name, modes), modes_6502()),
{
    let known = modes_6502();
    let mut added = Seq::<RuleSpec>::empty();
    lemma_known_none(known);
    let part = opt(modes, IMMEDIATE@, name, Some(1usize), None);
    lemma_opt_known(modes, IMMEDIATE@, name, Some(1usize), None, known);
    lemma_known_join(added, part, known);
    added = added + part;
    let part = opt(modes, IMMEDIATE_NO_M_FLAG@, name, Some(1usize), Some((FLAG_M@, false)));
    lemma_opt_known(modes, IMMEDIATE_NO_M_FLAG@, name, Some(1usize), Some((FLAG_M@, false)), known);
    lemma_known_join(added, part, known);
    added = added + part;
    let part = opt(modes, IMMEDIATE_M_FLAG@, name, Some(2usize), Some((FLAG_M@, true)));
    lemma_opt_known(modes, IMMEDIATE_M_FLAG@, name, Some(2usize), Some((FLAG_M@, true)), known);
    lemma_known_join(added, part, known);
    added = added + part;
    let part = opt(modes, IMMEDIATE_X_FLAG@, name, Some(2usize), Some((FLAG_X@, true)));
    lemma_opt_known(modes, IMMEDIATE_X_FLAG@, name, Some(2usize), Some((FLAG_X@, true)), known);
    lemma_known_join(added, part, known);
    added = added + part;
    let part = opt(modes, IMMEDIATE_NO_X_FLAG@, name, Some(1usize), Some((FLAG_X@, false)));
    lemma_opt_known(modes, IMMEDIATE_NO_X_FLAG@, name, Some(1usize), Some((FLAG_X@, false)), known);
    lemma_known_join(added, part, known);
    added = added + part;
    let part = opt(modes, ZP@, name, Some(1usize), None);
    lemma_opt_known(modes, ZP@, name, Some(1usize), None, known);
    lemma_known_join(added, part, known);
    added = added + part;
    let part = opt(modes, ZP_X@, name, Some(1usize), None);
    lemma_opt_known(modes, ZP_X@, name, Some(1usize), None, known);
    lemma_known_join(added, part, known);
    added = added + part;
    let part = opt(modes, ZP_Y@, name, Some(1usize), None);
    lemma_opt_known(modes, ZP_Y@, name, Some(1usize), None, known);
    lemma_known_join(added, part, known);
    added = added + part;
    let part = opt(modes, ABSOLUTE@, name, Some(2usize), None);
    lemma_opt_known(modes, ABSOLUTE@, name, Some(2usize), None, known);
    lemma_known_join(added, part, known);
    added = added + part;
    let part = opt(modes, ABSOLUTE_X@, name, Some(2usize), None);
    lemma_opt_known(modes, ABSOLUTE_X@, name, Some(2usize), None, known);
    lemma_known_join(added, part, known);
    added = added + part;
    let part = opt(modes, ABSOLUTE_Y@, name, Some(2usize), None);
    lemma_opt_known(modes, ABSOLUTE_Y@, name, Some(2usize), None, known);
    lemma_known_join(added, part, known);
    added = added + part;
    let part = opt(modes, INDIRECT_X@, name, Some(1usize), None);
    lemma_opt_known(modes, INDIRECT_X@, name, Some(1usize), None, known);
    lemma_known_join(added, part, known);
    added = added + part;
    let part = opt(modes, INDIRECT_Y@, name, Some(1usize), None);
    lemma_opt_known(modes, INDIRECT_Y@, name, Some(1usize), None, known);
    lemma_known_join(added, part, known);
    added = added + part;
    let part = opt(modes, ACCUMULATOR@, name, None, None);
    lemma_opt_known(modes, ACCUMULATOR@, name, None, None, known);
    lemma_known_join(added, part, known);
    added = added + part;
    let part = opt(modes, RELATIVE@, name, Some(1usize), None);
    lemma_opt_known(modes, RELATIVE@, name, Some(1usize), None, known);
    lemma_known_join(added, part, known);
    added = added + part;
    let part = opt(modes, IMPLIED@, name, None, None);
    lemma_opt_known(modes, IMPLIED@, name, None, None, known);
    lemma_known_join(added, part, known);
    added = added + part;
    let part = opt(modes, INDIRECT_JMP@, name, Some(2usize), None);
    lemma_opt_known(modes, INDIRECT_JMP@, name, Some(2usize), None, known);
    lemma_known_join(added, part, known);
    added = added + part;
    let part = opt(modes, IMMEDIATE16@, name, Some(1usize), None);
    lemma_opt_known(modes, IMMEDIATE16@, name, Some(1usize), None, known);
    lemma_known_join(added, part, known);
    added = added + part;
}

/// Every rule of a table belongs to a mode of the baseline architecture.
pub proof fn lemma_table_known(rows: Seq<(String, ModeMap)>, upto: int)
    ensures
        rules_known(expand(rows, upto, per_row_6502()), modes_6502()),
{
    assert forall|name: Seq<char>, modes: Map<Seq<char>, u8>|
        rules_known(#[trigger] per_row_6502()(name, modes), modes_6502()) by {
        lemma_rules_6502_known(name, modes);
    }
    lemma_expand_known(rows, upto, per_row_6502(), modes_6502());
}

/// Adds the rules of one row of the table.
fn row_matchers(matchers: &mut MatcherList, name: &str, modes: &ModeMap)
    ensures
        grows(old(matchers)@, final(matchers)@, rules_6502(name@, modes@)),
{
    let ghost mut added = Seq::<RuleSpec>::empty();
    let ghost mut mid = matchers@;
    proof {
        lemma_grows_none(matchers@);
    }
    matcher_immediate(matchers, modes, name);
    proof {
        let part = opt(modes@, IMMEDIATE@, name@, Some(1usize), None);
        lemma_grows_then(old(matchers)@, mid, matchers@, added, part);
        added = added + part;
        mid = matchers@;
    }
    matcher_immediate_no_m_flag(matchers, modes, name);
    proof {
        let part = opt(modes@, IMMEDIATE_NO_M_FLAG@, name@, Some(1usize), Some((FLAG_M@, false)));
        lemma_grows_then(old(matchers)@, mid, matchers@, added, part);
        added = added + part;
        mid = matchers@;
    }
    matcher_immediate_m_flag(matchers, modes, name);
    proof {
        let part = opt(modes@, IMMEDIATE_M_FLAG@, name@, Some(2usize), Some((FLAG_M@, true)));
        lemma_grows_then(old(matchers)@, mid, matchers@, added, part);
        added = added + part;
        mid = matchers@;
    }
    matcher_immediate_x_flag(matchers, modes, name);
    proof {
        let part = opt(modes@, IMMEDIATE_X_FLAG@, name@, Some(2usize), Some((FLAG_X@, true)));
        lemma_grows_then(old(matchers)@, mid, matchers@, added, part);
        added = added + part;
        mid = matchers@;
    }
    matcher_immediate_no_x_flag(matchers, modes, name);
    proof {
        let part = opt(modes@, IMMEDIATE_NO_X_FLAG@, name@, Some(1usize), Some((FLAG_X@, false)));
        lemma_grows_then(old(matchers)@, mid, matchers@, added, part);
        added = added + part;
        mid = matchers@;
    }
    matcher_zp(matchers, modes, name);
    proof {
        let part = opt(modes@, ZP@, name@, Some(1usize), None);
        lemma_grows_then(old(matchers)@, mid, matchers@, added, part);
        added = added + part;
        mid = matchers@;
    }
    matcher_zp_x(matchers, modes, name);
    proof {
        let part = opt(modes@, ZP_X@, name@, Some(1usize), None);
        lemma_grows_then(old(matchers)@, mid, matchers@, added, part);
        added = added + part;
        mid = matchers@;
    }
    matcher_zp_y(matchers, modes, name);
    proof {
        let part = opt(modes@, ZP_Y@, name@, Some(1usize), None);
        lemma_grows_then(old(matchers)@, mid, matchers@, added, part);
        added = added + part;
        mid = matchers@;
    }
    matcher_absolute(matchers, modes, name);
    proof {
        let part = opt(modes@, ABSOLUTE@, name@, Some(2usize), None);
        lemma_grows_then(old(matchers)@, mid, matchers@, added, part);
        added = added + part;
        mid = matchers@;
    }
    matcher_absolute_x(matchers, modes, name);
    proof {
        let part = opt(modes@, ABSOLUTE_X@, name@, Some(2usize), None);
        lemma_grows_then(old(matchers)@, mid, matchers@, added, part);
        added = added + part;
        mid = matchers@;
    }
    matcher_absolute_y(matchers, modes, name);
    proof {
        let part = opt(modes@, ABSOLUTE_Y@, name@, Some(2usize), None);
        lemma_grows_then(old(matchers)@, mid, matchers@, added, part);
        added = added + part;
        mid = matchers@;
    }
    matcher_indirect_x(matchers, modes, name);
    proof {
        let part = opt(modes@, INDIRECT_X@, name@, Some(1usize), None);
        lemma_grows_then(old(matchers)@, mid, matchers@, added, part);
        added = added + part;
        mid = matchers@;
    }
    matcher_indirect_y(matchers, modes, name);
    proof {
        let part = opt(modes@, INDIRECT_Y@, name@, Some(1usize), None);
        lemma_grows_then(old(matchers)@, mid, matchers@, added, part);
        added = added + part;
        mid = matchers@;
    }
    matcher_accumulator(matchers, modes, name);
    proof {
        let part = opt(modes@, ACCUMULATOR@, name@, None, None);
        lemma_grows_then(old(matchers)@, mid, matchers@, added, part);
        added = added + part;
        mid = matchers@;
    }
    matcher_relative(matchers, modes, name);
    proof {
        let part = opt(modes@, RELATIVE@, name@, Some(1usize), None);
        lemma_grows_then(old(matchers)@, mid, matchers@, added, part);
        added = added + part;
        mid = matchers@;
    }
    matcher_implied(matchers, modes, name);
    proof {
        let part = opt(modes@, IMPLIED@, name@, None, None);
        lemma_grows_then(old(matchers)@, mid, matchers@, added, part);
        added = added + part;
        mid = matchers@;
    }
    matcher_indirect_jmp(matchers, modes, name);
    proof {
        let part = opt(modes@, INDIRECT_JMP@, name@, Some(2usize), None);
        lemma_grows_then(old(matchers)@, mid, matchers@, added, part);
        added = added + part;
        mid = matchers@;
    }
    matcher_immediate16(matchers, modes, name);
    proof {
        let part = opt(modes@, IMMEDIATE16@, name@, Some(1usize), None);
        lemma_grows_then(old(matchers)@, mid, matchers@, added, part);
        added = added + part;
        mid = matchers@;
    }
}

/// Adds the rules of every row of the table, row after row.
pub fn matchers_from(matchers: &mut MatcherList, instrs: InstructionMap)
    ensures
        grows(
            old(matchers)@,
            final(matchers)@,
            expand(instrs.rows@, instrs.rows@.len() as int, per_row_6502()),
        ),
{
    let ghost mut added = Seq::<RuleSpec>::empty();
    let mut i: usize = 0;
    proof {
        lemma_grows_none(matchers@);
    }
    while i < instrs.rows.len()
        invariant
            i <= instrs.rows.len(),
            added == expand(instrs.rows@, i as int, per_row_6502()),
            grows(old(matchers)@, matchers@, added),
        decreases instrs.rows.len() - i,
    {
        let ghost mid = matchers@;
        let row = &instrs.rows[i];
        row_matchers(matchers, row.0.as_str(), &row.1);
        proof {
            let part = rules_6502(row.0@, row.1@);
            lemma_grows_then(old(matchers)@, mid, matchers@, added, part);
            added = added + part;
        }
        i += 1;
    }
}

/// The rules that the rows of a table give for the baseline's modes, row
/// after row.
pub open spec fn rules_of_6502(rows: Seq<(String, ModeMap)>) -> Seq<RuleSpec> {
    expand(rows, rows.len() as int, per_row_6502())
}

/// Whether `list` holds the rules of the baseline architecture's
/// instructions: those that the rows of its table give, in the order of the
/// mnemonics and, for one mnemonic, in the order of the modes.
pub open spec fn built_6502(list: Seq<Matcher>) -> bool {
    exists|rows: Seq<(String, ModeMap)>|
        crate::arch::tables::is_table(rows, table_6502()) && grows(
            Seq::empty(),
            list,
            #[trigger] rules_of_6502(rows),
        )
}

/// The rules of the baseline architecture's instructions.
pub fn patterns() -> (list: MatcherList)
    ensures
        resolved(list@, modes_6502()),
        built_6502(list@),
{
    let mut list: MatcherList = Vec::new();
    let map = instruction_map();
    let ghost rows = map.rows@;
    let ghost rules = rules_of_6502(rows);
    proof {
        lemma_table_known(rows, rows.len() as int);
    }
    matchers_from(&mut list, map);
    proof {
        lemma_grows_resolved(Seq::empty(), list@, rules, modes_6502());
        assert(crate::arch::tables::is_table(rows, table_6502()));
    }
    list
}

/// Whether `m` is the rule that renders any byte as data.
pub open spec fn is_define_byte(m: Matcher) -> bool {
    is_catch_all(m) && m.transforms@ == DEFINE_BYTE@
}

/// Adds, behind all other rules, the rule that renders any byte as data.
pub fn add_patterns_default(list: MatcherList) -> (r: MatcherList)
    ensures
        r@.len() == list@.len() + 1,
        forall|i: int| 0 <= i < list@.len() ==> r@[i] == list@[i],
        is_define_byte(r@.last()),
        r@.last().name@ == plain(".db"@),
{
    let mut list = list;
    let mut patterns: Vec<PatternAt> = Vec::new();
    patterns.push(PatternAt::new(Pattern::Any, 0));
    list.push(Matcher { patterns, transforms: DEFINE_BYTE.to_owned(), name: Node::text(".db") });
    list
}

/// Whether every rule of `arch` names a transform that `arch` defines, and
/// `arch` has a rule that matches every byte.
pub open spec fn well_formed(arch: &Arch) -> bool {
    has_catch_all(arch) && resolves(arch)
}

/// A rule that always matches and runs the transform `transform`.
pub fn framing_rule(transform: &str) -> (r: Vec<Matcher>)
    ensures
        r@.len() == 1,
        is_framing_rule(r@[0], transform@),
{
    let mut patterns: Vec<PatternAt> = Vec::new();
    patterns.push(PatternAt::new(Pattern::Always, 0));
    let mut rules: Vec<Matcher> = Vec::new();
    rules.push(Matcher { patterns, transforms: transform.to_owned(), name: Node::text(transform) });
    rules
}

/// The prefixes of numbers: a dollar sign before hexadecimal ones.
pub fn node_map() -> (r: NameMap<Node>)
    ensures
        r@.dom() =~= set![ValueTypeFmt::LowerHex(0).spec_pre(), ValueTypeFmt::UpperHex(0).spec_pre()],
        r@[ValueTypeFmt::LowerHex(0).spec_pre()]@ == plain("$"@),
        r@[ValueTypeFmt::UpperHex(0).spec_pre()]@ == plain("$"@),
{
    let mut map: NameMap<Node> = NameMap::new();
    map.insert(ValueTypeFmt::LowerHex(0).pre().to_owned(), Node::text("$"));
    map.insert(ValueTypeFmt::UpperHex(0).pre().to_owned(), Node::text("$"));
    proof {
        reveal_strlit("fmt_hex_pre");
        reveal_strlit("fmt_HEX_pre");
        assert("fmt_hex_pre"@[4] != "fmt_HEX_pre"@[4]);
    }
    map
}

/// An architecture of this family: the given rules and transforms, framed
/// by an address in front of every instruction and a line break behind it.
pub fn family_arch(patterns: MatcherList, transforms: TransformMap, addr_type: DataType) -> (r: Arch)
    requires
        framing_shaped(transforms@),
        patterns@.len() >= 1,
        is_define_byte(patterns@.last()),
        patterns@.last().name@ == plain(".db"@),
    ensures
        r.patterns == patterns,
        r.transforms == transforms,
        r.addr_type == addr_type,
        family(&r),
{
    Arch {
        patterns,
        transforms,
        pre_patterns: framing_rule(ADDRESS),
        post_patterns: framing_rule(NEW_LINE),
        node_map: node_map(),
        addr_type,
        endianess: Endianess::Little,
    }
}

/// What the architectures of this family have in common: little-endian
/// values, the framing rules and transforms, and a dollar sign before
/// hexadecimal numbers.
pub open spec fn family(arch: &Arch) -> bool {
    &&& arch.endianess == Endianess::Little
    &&& framing_shaped(arch.transforms@)
    &&& arch.pre_patterns@.len() == 1
    &&& is_framing_rule(arch.pre_patterns@[0], ADDRESS@)
    &&& arch.post_patterns@.len() == 1
    &&& is_framing_rule(arch.post_patterns@[0], NEW_LINE@)
    &&& arch.node_map@.dom() =~= set![ValueTypeFmt::LowerHex(0).spec_pre(), ValueTypeFmt::UpperHex(0).spec_pre()]
    &&& arch.node_map@[ValueTypeFmt::LowerHex(0).spec_pre()]@ == plain("$"@)
    &&& arch.node_map@[ValueTypeFmt::UpperHex(0).spec_pre()]@ == plain("$"@)
    &&& arch.patterns@.len() >= 1
    &&& is_define_byte(arch.patterns@.last())
    &&& arch.patterns@.last().name@ == plain(".db"@)
}

/// Whether `m` always matches and runs the transform `transform`.
pub open spec fn is_framing_rule(m: Matcher, transform: Seq<char>) -> bool {
    &&& m.transforms@ == transform
    &&& m.name@ == plain(transform)
    &&& m.patterns@.len() == 1
    &&& m.patterns@[0] == (PatternAt { offset: 0, pattern: Pattern::Always })
}

/// The baseline architecture under the default key.
fn archs() -> (map: NameMap<Arch>)
    ensures
        map@.dom() =~= set![""@],
        well_formed(&map@[""@]),
        family(&map@[""@]),
        shaped_6502(map@[""@].transforms@),
        resolved(map@[""@].patterns@.drop_last(), modes_6502()),
        built_6502(map@[""@].patterns@.drop_last()),
        map@[""@].addr_type == DataType::U16,
{
    let mut map: NameMap<Arch> = NameMap::new();
    let transforms = transforms();
    let base = patterns();
    let ghost listed = base@;
    let rules = add_patterns_default(base);
    let arch = family_arch(rules, transforms, DataType::U16);
    proof {
        assert(arch.patterns@.drop_last() =~= listed);
        lemma_well_formed(&arch, modes_6502());
    }
    map.insert("".to_owned(), arch);
    map
}

/// An architecture whose rules, but for the last, belong to modes that it
/// defines, and whose last rule renders any byte as data, is well formed.
pub proof fn lemma_well_formed(arch: &Arch, known: spec_fn(Seq<char>) -> bool)
    requires
        arch.patterns@.len() >= 1,
        resolved(arch.patterns@.drop_last(), known),
        is_define_byte(arch.patterns@.last()),
        forall|mode: Seq<char>| known(mode) ==> #[trigger] arch.transforms@.contains_key(mode),
        arch.transforms@.contains_key(DEFINE_BYTE@),
        arch.pre_patterns@.len() == 1,
        arch.transforms@.contains_key(arch.pre_patterns@[0].transforms@),
        arch.post_patterns@.len() == 1,
        arch.transforms@.contains_key(arch.post_patterns@[0].transforms@),
    ensures
        well_formed(arch),
{
    let last = arch.patterns@.len() - 1;
    assert(is_catch_all(arch.patterns@[last]));
    assert forall|i: int| 0 <= i < arch.patterns@.len() implies arch.transforms@.contains_key(
        (#[trigger] arch.patterns@[i]).transforms@,
    ) by {
        if i < last {
            assert(arch.patterns@.drop_last()[i] == arch.patterns@[i]);
        }
    }
}

/// The registry of the baseline architecture. Its one architecture, under
/// the default key, is well formed; a fresh context starts at address zero
/// and knows no symbol.
pub fn arch() -> (r: Archs)
    ensures
        r.archs@.dom() =~= set![""@],
        well_formed(&r.archs@[""@]),
        family(&r.archs@[""@]),
        shaped_6502(r.archs@[""@].transforms@),
        resolved(r.archs@[""@].patterns@.drop_last(), modes_6502()),
        built_6502(r.archs@[""@].patterns@.drop_last()),
        r.archs@[""@].addr_type == DataType::U16,
        r.org == 0,
        r.syms@ == Seq::<crate::symbols::SymbolView>::empty(),
{
    Archs { archs: archs(), org: 0, syms: SymbolList::default() }
}

} // verus!
