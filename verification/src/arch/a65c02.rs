//! The extended 8-bit architecture: the baseline with further addressing
//! modes and instructions.
use vstd::prelude::*;
use crate::arch::a6502::{
    add_patterns_default, family, family_arch, framing_shaped, implied_instruction_map,
    is_mode_6502, lemma_well_formed, matcher2, matcher3, modes_6502, per_row_6502,
    relative_instruction_map, shaped_6502, spelled, well_formed, ABSOLUTE, ABSOLUTE_X, ACCUMULATOR,
    IMMEDIATE, ZP, ZP_X,
};
use crate::arch::a6502::operand_of;
use crate::arch::a6502::operand;
use crate::arch::tables::{
    expand, grows, lemma_expand_known, lemma_grows_none, lemma_grows_resolved, lemma_grows_then,
    lemma_known_join, lemma_known_none, lemma_opt_known, mode_map, opt, operand_mode, operand_shape,
    resolved, rules_known, InstructionMap, MatcherList, ModeMap, RuleSpec, TransformMap,
};
use crate::arch::{Arch, Archs};
use crate::name_map::NameMap;
use crate::symbols::SymbolList;
use crate::value::DataType;

verus! {

/// Zero page indirect.
pub const INDIRECT: &'static str = "indirect";

/// Absolute indexed indirect.
pub const ABS_INDIRECT_X: &'static str = "abs_indirect_x";

fn transform_indirect(map: &mut TransformMap)
    ensures
        final(map)@ == old(map)@.insert(INDIRECT@, final(map)@[INDIRECT@]),
        operand_shape(final(map)@[INDIRECT@]@, " ("@, operand(2, DataType::U8), Some(")"@)),
{
    map.insert(INDIRECT.to_owned(), operand_mode(" (", operand_of(2, DataType::U8), Some(")")));
}

fn transform_absolute_indirect_x(map: &mut TransformMap)
    ensures
        final(map)@ == old(map)@.insert(ABS_INDIRECT_X@, final(map)@[ABS_INDIRECT_X@]),
        operand_shape(final(map)@[ABS_INDIRECT_X@]@, " ("@, operand(4, DataType::U16), Some(", x)"@)),
{
    map.insert(ABS_INDIRECT_X.to_owned(), operand_mode(" (", operand_of(4, DataType::U16), Some(", x)")));
}

/// Whether `mode` is an addressing mode that this architecture adds.
pub open spec fn is_own_mode(mode: Seq<char>) -> bool {
    ||| mode == INDIRECT@
    ||| mode == ABS_INDIRECT_X@
}

/// Whether `mode` is an addressing mode of this architecture.
pub open spec fn is_mode_65c02(mode: Seq<char>) -> bool {
    is_mode_6502(mode) || is_own_mode(mode)
}

/// The addressing modes of this architecture, as a predicate.
pub open spec fn modes_65c02() -> spec_fn(Seq<char>) -> bool {
    |mode: Seq<char>| is_mode_65c02(mode)
}

/// Whether `map` defines every addressing mode of this architecture.
pub open spec fn defines_65c02(map: Map<Seq<char>, crate::arch::tables::TransformList>) -> bool {
    forall|mode: Seq<char>| is_mode_65c02(mode) ==> #[trigger] map.contains_key(mode)
}

/// How the names of the transforms that this architecture adds are spelled,
/// as far as it takes to tell them apart from each other and from the
/// baseline's.
pub proof fn lemma_names()
    ensures
        spelled(INDIRECT@, 8, 'i', 7, 't'),
        spelled(ABS_INDIRECT_X@, 14, 'a', 13, 'x'),
{
    reveal_strlit("indirect");
    reveal_strlit("abs_indirect_x");
}

/// Whether `map` holds, for every addressing mode that this architecture
/// adds, the transform of that mode.
pub open spec fn shaped_own(map: Map<Seq<char>, crate::arch::tables::TransformList>) -> bool {
    &&& operand_shape(map[INDIRECT@]@, " ("@, operand(2, DataType::U8), Some(")"@))
    &&& operand_shape(map[ABS_INDIRECT_X@]@, " ("@, operand(4, DataType::U16), Some(", x)"@))
}

/// The transforms of this architecture: those of the baseline and one for
/// each mode that it adds.
pub fn transforms() -> (map: TransformMap)
    ensures
        defines_65c02(map@),
        shaped_6502(map@),
        shaped_own(map@),
        framing_shaped(map@),
{
    proof {
        crate::arch::a6502::lemma_names();
        lemma_names();
    }
    let mut map = crate::arch::a6502::transforms();
    transform_indirect(&mut map);
    transform_absolute_indirect_x(&mut map);
    map
}

/// The row of an instruction with the indirect mode alone.
fn indirect_instruction_map(name: &'static str, op: u8) -> (r: (&'static str, ModeMap))
    ensures
        r.0 == name,
        r.1@ == Map::<Seq<char>, u8>::empty().insert(INDIRECT@, op),
{
    let mut modes: ModeMap = NameMap::new();
    modes.insert(INDIRECT.to_owned(), op);
    (name, modes)
}

/// The row of an instruction that tests bits in memory.
fn test_instruction_map(name: &'static str, zp: u8, abs: u8) -> (r: (&'static str, ModeMap))
    ensures
        r.0 == name,
        r.1@ == Map::<Seq<char>, u8>::empty().insert(ZP@, zp).insert(ABSOLUTE@, abs),
{
    let mut modes: ModeMap = NameMap::new();
    modes.insert(ZP.to_owned(), zp);
    modes.insert(ABSOLUTE.to_owned(), abs);
    (name, modes)
}

/// The instructions that this architecture adds to the baseline, in the
/// order of the mnemonics.
fn instruction_map() -> (map: InstructionMap)
    ensures
        map.sorted(),
        map@ == table_65c02(),
{
    let mut map = InstructionMap::new();
    let ghost mut held = Map::<Seq<char>, Map<Seq<char>, u8>>::empty();
    map.insert(indirect_instruction_map("ora", 0x12));
    proof {
        held = held.insert("ora"@, indirect_modes(0x12));
        assert(map@ == held);
    }
    map.insert(indirect_instruction_map("and", 0x32));
    proof {
        held = held.insert("and"@, indirect_modes(0x32));
        assert(map@ == held);
    }
    map.insert(indirect_instruction_map("eor", 0x52));
    proof {
        held = held.insert("eor"@, indirect_modes(0x52));
        assert(map@ == held);
    }
    map.insert(indirect_instruction_map("adc", 0x72));
    proof {
        held = held.insert("adc"@, indirect_modes(0x72));
        assert(map@ == held);
    }
    map.insert(indirect_instruction_map("sta", 0x92));
    proof {
        held = held.insert("sta"@, indirect_modes(0x92));
        assert(map@ == held);
    }
    map.insert(indirect_instruction_map("lda", 0xB2));
    proof {
        held = held.insert("lda"@, indirect_modes(0xB2));
        assert(map@ == held);
    }
    map.insert(indirect_instruction_map("cmp", 0xD2));
    proof {
        held = held.insert("cmp"@, indirect_modes(0xD2));
        assert(map@ == held);
    }
    map.insert(indirect_instruction_map("sbc", 0xF2));
    proof {
        held = held.insert("sbc"@, indirect_modes(0xF2));
        assert(map@ == held);
    }
    let pairs = vec![(IMMEDIATE, 0x89), (ZP_X, 0x34), (ABSOLUTE_X, 0x3C)];
    assert(pairs@ =~= seq![(IMMEDIATE, 0x89u8), (ZP_X, 0x34u8), (ABSOLUTE_X, 0x3Cu8)]);
    map.insert(("bit", mode_map(pairs)));
    proof {
        held = held.insert("bit"@, crate::arch::tables::pairs_map(seq![(IMMEDIATE, 0x89u8), (ZP_X, 0x34u8), (ABSOLUTE_X, 0x3Cu8)], 3));
        assert(map@ == held);
    }
    let pairs = vec![(ACCUMULATOR, 0x3A)];
    assert(pairs@ =~= seq![(ACCUMULATOR, 0x3Au8)]);
    map.insert(("dec", mode_map(pairs)));
    proof {
        held = held.insert("dec"@, crate::arch::tables::pairs_map(seq![(ACCUMULATOR, 0x3Au8)], 1));
        assert(map@ == held);
    }
    let pairs = vec![(ACCUMULATOR, 0x1A)];
    assert(pairs@ =~= seq![(ACCUMULATOR, 0x1Au8)]);
    map.insert(("inc", mode_map(pairs)));
    proof {
        held = held.insert("inc"@, crate::arch::tables::pairs_map(seq![(ACCUMULATOR, 0x1Au8)], 1));
        assert(map@ == held);
    }
    let pairs = vec![(ABS_INDIRECT_X, 0x7C)];
    assert(pairs@ =~= seq![(ABS_INDIRECT_X, 0x7Cu8)]);
    map.insert(("jmp", mode_map(pairs)));
    proof {
        held = held.insert("jmp"@, crate::arch::tables::pairs_map(seq![(ABS_INDIRECT_X, 0x7Cu8)], 1));
        assert(map@ == held);
    }
    map.insert(relative_instruction_map("bra", 0x80));
    proof {
        held = held.insert("bra"@, crate::arch::a6502::relative_modes(0x80));
        assert(map@ == held);
    }
    map.insert(implied_instruction_map("phx", 0xDA));
    proof {
        held = held.insert("phx"@, crate::arch::a6502::implied_modes(0xDA));
        assert(map@ == held);
    }
    map.insert(implied_instruction_map("phy", 0x5A));
    proof {
        held = held.insert("phy"@, crate::arch::a6502::implied_modes(0x5A));
        assert(map@ == held);
    }
    map.insert(implied_instruction_map("plx", 0xFA));
    proof {
        held = held.insert("plx"@, crate::arch::a6502::implied_modes(0xFA));
        assert(map@ == held);
    }
    map.insert(implied_instruction_map("plx", 0xFA));
    proof {
        held = held.insert("plx"@, crate::arch::a6502::implied_modes(0xFA));
        assert(map@ == held);
    }
    map.insert(implied_instruction_map("ply", 0x7A));
    proof {
        held = held.insert("ply"@, crate::arch::a6502::implied_modes(0x7A));
        assert(map@ == held);
    }
    let pairs = vec![(ZP, 0x64), (ZP_X, 0x74), (ABSOLUTE, 0x9C), (ABSOLUTE_X, 0x9E)];
    assert(pairs@ =~= seq![(ZP, 0x64u8), (ZP_X, 0x74u8), (ABSOLUTE, 0x9Cu8), (ABSOLUTE_X, 0x9Eu8)]);
    map.insert(("stz", mode_map(pairs)));
    proof {
        held = held.insert("stz"@, crate::arch::tables::pairs_map(seq![(ZP, 0x64u8), (ZP_X, 0x74u8), (ABSOLUTE, 0x9Cu8), (ABSOLUTE_X, 0x9Eu8)], 4));
        assert(map@ == held);
    }
    map.insert(test_instruction_map("trb", 0x14, 0x1C));
    proof {
        held = held.insert("trb"@, test_modes(0x14, 0x1C));
        assert(map@ == held);
    }
    map.insert(test_instruction_map("tsb", 0x04, 0x0C));
    proof {
        held = held.insert("tsb"@, test_modes(0x04, 0x0C));
        assert(map@ == held);
    }
    map
}

/// The instructions that this architecture adds: for each mnemonic the
/// opcode of each of its modes. A mnemonic entered twice has what was
/// entered last.
pub open spec fn table_65c02() -> Map<Seq<char>, Map<Seq<char>, u8>> {
    Map::<Seq<char>, Map<Seq<char>, u8>>::empty()
        .insert("ora"@, indirect_modes(0x12))
        .insert("and"@, indirect_modes(0x32))
        .insert("eor"@, indirect_modes(0x52))
        .insert("adc"@, indirect_modes(0x72))
        .insert("sta"@, indirect_modes(0x92))
        .insert("lda"@, indirect_modes(0xB2))
        .insert("cmp"@, indirect_modes(0xD2))
        .insert("sbc"@, indirect_modes(0xF2))
        .insert("bit"@, crate::arch::tables::pairs_map(seq![(IMMEDIATE, 0x89u8), (ZP_X, 0x34u8), (ABSOLUTE_X, 0x3Cu8)], 3))
        .insert("dec"@, crate::arch::tables::pairs_map(seq![(ACCUMULATOR, 0x3Au8)], 1))
        .insert("inc"@, crate::arch::tables::pairs_map(seq![(ACCUMULATOR, 0x1Au8)], 1))
        .insert("jmp"@, crate::arch::tables::pairs_map(seq![(ABS_INDIRECT_X, 0x7Cu8)], 1))
        .insert("bra"@, crate::arch::a6502::relative_modes(0x80))
        .insert("phx"@, crate::arch::a6502::implied_modes(0xDA))
        .insert("phy"@, crate::arch::a6502::implied_modes(0x5A))
        .insert("plx"@, crate::arch::a6502::implied_modes(0xFA))
        .insert("plx"@, crate::arch::a6502::implied_modes(0xFA))
        .insert("ply"@, crate::arch::a6502::implied_modes(0x7A))
        .insert("stz"@, crate::arch::tables::pairs_map(seq![(ZP, 0x64u8), (ZP_X, 0x74u8), (ABSOLUTE, 0x9Cu8), (ABSOLUTE_X, 0x9Eu8)], 4))
        .insert("trb"@, test_modes(0x14, 0x1C))
        .insert("tsb"@, test_modes(0x04, 0x0C))
}

/// The opcode of an instruction with the indirect mode alone.
pub open spec fn indirect_modes(op: u8) -> Map<Seq<char>, u8> {
    Map::<Seq<char>, u8>::empty().insert(INDIRECT@, op)
}

/// The opcodes of an instruction that tests bits in memory.
pub open spec fn test_modes(zp: u8, abs: u8) -> Map<Seq<char>, u8> {
    Map::<Seq<char>, u8>::empty().insert(ZP@, zp).insert(ABSOLUTE@, abs)
}

fn matcher_indirect(matchers: &mut MatcherList, modes: &ModeMap, name: &str)
    ensures
        grows(old(matchers)@, final(matchers)@, opt(modes@, INDIRECT@, name@, Some(1usize), None)),
{
    match modes.get(INDIRECT) {
        Some(op) => {
            matcher2(matchers, *op, name, INDIRECT);
        },
        None => {
            proof {
                lemma_grows_none(matchers@);
            }
        },
    }
}

fn matcher_absolute_indirect_x(matchers: &mut MatcherList, modes: &ModeMap, name: &str)
    ensures
        grows(old(matchers)@, final(matchers)@, opt(modes@, ABS_INDIRECT_X@, name@, Some(2usize), None)),
{
    match modes.get(ABS_INDIRECT_X) {
        Some(op) => {
            matcher3(matchers, *op, name, ABS_INDIRECT_X);
        },
        None => {
            proof {
                lemma_grows_none(matchers@);
            }
        },
    }
}

/// The rules that one row gives for the modes that this architecture adds.
pub open spec fn rules_own(name: Seq<char>, modes: Map<Seq<char>, u8>) -> Seq<RuleSpec> {
    Seq::<RuleSpec>::empty()
        + opt(modes, INDIRECT@, name, Some(1usize), None)
        + opt(modes, ABS_INDIRECT_X@, name, Some(2usize), None)
}

/// The rules of one row, as a function of the row.
pub open spec fn per_row_own() -> spec_fn(Seq<char>, Map<Seq<char>, u8>) -> Seq<RuleSpec> {
    |name: Seq<char>, modes: Map<Seq<char>, u8>| rules_own(name, modes)
}

/// Every rule of a row belongs to a mode of this architecture.
pub proof fn lemma_rules_own_known(name: Seq<char>, modes: Map<Seq<char>, u8>)
    ensures
        rules_known(rules_own(name, modes), modes_65c02()),
{
    let known = modes_65c02();
    let mut added = Seq::<RuleSpec>::empty();
    lemma_known_none(known);
    let part = opt(modes, INDIRECT@, name, Some(1usize), None);
    lemma_opt_known(modes, INDIRECT@, name, Some(1usize), None, known);
    lemma_known_join(added, part, known);
    added = added + part;
    let part = opt(modes, ABS_INDIRECT_X@, name, Some(2usize), None);
    lemma_opt_known(modes, ABS_INDIRECT_X@, name, Some(2usize), None, known);
    lemma_known_join(added, part, known);
    added = added + part;
}

/// Every rule of a table belongs to a mode of this architecture.
pub proof fn lemma_table_known(rows: Seq<(String, ModeMap)>, upto: int)
    ensures
        rules_known(expand(rows, upto, per_row_own()), modes_65c02()),
        rules_known(expand(rows, upto, per_row_6502()), modes_65c02()),
{
    assert forall|name: Seq<char>, modes: Map<Seq<char>, u8>|
        rules_known(#[trigger] per_row_own()(name, modes), modes_65c02()) by {
        lemma_rules_own_known(name, modes);
    }
    lemma_expand_known(rows, upto, per_row_own(), modes_65c02());
    crate::arch::a6502::lemma_table_known(rows, upto);
    let inner = expand(rows, upto, per_row_6502());
    assert forall|i: int| 0 <= i < inner.len() implies modes_65c02()((#[trigger] inner[i]).mode) by {
        assert(modes_6502()(inner[i].mode));
    }
}

/// Adds the rules of one row for the modes that this architecture adds.
fn row_matchers(matchers: &mut MatcherList, name: &str, modes: &ModeMap)
    ensures
        grows(old(matchers)@, final(matchers)@, rules_own(name@, modes@)),
{
    let ghost mut added = Seq::<RuleSpec>::empty();
    let ghost mut mid = matchers@;
    proof {
        lemma_grows_none(matchers@);
    }
    matcher_indirect(matchers, modes, name);
    proof {
        let part = opt(modes@, INDIRECT@, name@, Some(1usize), None);
        lemma_grows_then(old(matchers)@, mid, matchers@, added, part);
        added = added + part;
        mid = matchers@;
    }
    matcher_absolute_indirect_x(matchers, modes, name);
    proof {
        let part = opt(modes@, ABS_INDIRECT_X@, name@, Some(2usize), None);
        lemma_grows_then(old(matchers)@, mid, matchers@, added, part);
        added = added + part;
        mid = matchers@;
    }
}

/// Adds the rules of every row of the table: first, row after row, those of
/// the modes that this architecture adds, then those of the baseline's modes.
pub fn matchers_from(matchers: &mut MatcherList, instrs: InstructionMap)
    ensures
        grows(
            old(matchers)@,
            final(matchers)@,
            expand(instrs.rows@, instrs.rows@.len() as int, per_row_own()) + expand(
                instrs.rows@,
                instrs.rows@.len() as int,
                per_row_6502(),
            ),
        ),
{
    let ghost mut added = Seq::<RuleSpec>::empty();
    let mut i: usize = 0;
    proof {
        lemma_grows_none(matchers@);
    }
    while i < instrs.rows.len()
        invariant
            i <= instrs.rows.len(),
            added == expand(instrs.rows@, i as int, per_row_own()),
            grows(old(matchers)@, matchers@, added),
        decreases instrs.rows.len() - i,
    {
        let ghost mid = matchers@;
        let row = &instrs.rows[i];
        row_matchers(matchers, row.0.as_str(), &row.1);
        proof {
            let part = rules_own(row.0@, row.1@);
            lemma_grows_then(old(matchers)@, mid, matchers@, added, part);
            added = added + part;
        }
        i += 1;
    }
    let ghost mid = matchers@;
    let ghost inner = expand(instrs.rows@, instrs.rows@.len() as int, per_row_6502());
    crate::arch::a6502::matchers_from(matchers, instrs);
    proof {
        lemma_grows_then(old(matchers)@, mid, matchers@, added, inner);
    }
}

/// Rules that name modes of the baseline name modes of this architecture.
pub proof fn lemma_resolved_wider(list: Seq<crate::arch::matcher::Matcher>)
    requires
        resolved(list, modes_6502()),
    ensures
        resolved(list, modes_65c02()),
{
    assert forall|i: int| 0 <= i < list.len() implies modes_65c02()((#[trigger] list[i]).transforms@) by {
        assert(modes_6502()(list[i].transforms@));
    }
}

/// The rules of this architecture: those that the rows of the baseline's
/// table give, then those that the rows of its own table give, first for the
/// modes that it adds, then for the baseline's modes.
pub open spec fn rules_of_65c02(base: Seq<(String, ModeMap)>, own: Seq<(String, ModeMap)>) -> Seq<RuleSpec> {
    crate::arch::a6502::rules_of_6502(base) + (expand(own, own.len() as int, per_row_own()) + expand(
        own,
        own.len() as int,
        per_row_6502(),
    ))
}

/// Whether `list` holds the rules of this architecture's instructions.
pub open spec fn built_65c02(list: Seq<crate::arch::matcher::Matcher>) -> bool {
    exists|base: Seq<(String, ModeMap)>, own: Seq<(String, ModeMap)>|
        crate::arch::tables::is_table(base, crate::arch::a6502::table_6502()) && crate::arch::tables::is_table(
            own,
            table_65c02(),
        ) && grows(Seq::empty(), list, #[trigger] rules_of_65c02(base, own))
}

/// The rules of this architecture's instructions: the baseline's first.
pub fn patterns() -> (list: MatcherList)
    ensures
        resolved(list@, modes_65c02()),
        built_65c02(list@),
{
    let mut list = crate::arch::a6502::patterns();
    let map = instruction_map();
    let ghost before = list@;
    let ghost own = map.rows@;
    let ghost rules = expand(own, own.len() as int, per_row_own()) + expand(
        own,
        own.len() as int,
        per_row_6502(),
    );
    proof {
        lemma_resolved_wider(before);
        lemma_table_known(own, own.len() as int);
        lemma_known_join(
            expand(own, own.len() as int, per_row_own()),
            expand(own, own.len() as int, per_row_6502()),
            modes_65c02(),
        );
    }
    matchers_from(&mut list, map);
    proof {
        lemma_grows_resolved(before, list@, rules, modes_65c02());
        let base = choose|base: Seq<(String, ModeMap)>|
            crate::arch::tables::is_table(base, crate::arch::a6502::table_6502()) && grows(
                Seq::empty(),
                before,
                #[trigger] crate::arch::a6502::rules_of_6502(base),
            );
        lemma_grows_then(Seq::empty(), before, list@, crate::arch::a6502::rules_of_6502(base), rules);
        assert(crate::arch::tables::is_table(own, table_65c02()));
        assert(grows(Seq::empty(), list@, rules_of_65c02(base, own)));
    }
    list
}

/// This architecture under the default key.
pub fn archs() -> (map: NameMap<Arch>)
    ensures
        map@.dom() =~= set![""@],
        well_formed(&map@[""@]),
        family(&map@[""@]),
        shaped_6502(map@[""@].transforms@),
        shaped_own(map@[""@].transforms@),
        resolved(map@[""@].patterns@.drop_last(), modes_65c02()),
        built_65c02(map@[""@].patterns@.drop_last()),
        map@[""@].addr_type == DataType::U16,
{
    let mut map: NameMap<Arch> = NameMap::new();
    let transforms = transforms();
    let base = patterns();
    let ghost listed = base@;
    let rules = add_patterns_default(base);
    let arch = family_arch(rules, transforms, DataType::U16);
    proof {
        assert(arch.patterns@.drop_last() =~= listed);
        lemma_well_formed(&arch, modes_65c02());
    }
    map.insert("".to_owned(), arch);
    map
}

/// The registry of this architecture. Its one architecture, under the
/// default key, is well formed; a fresh context starts at address zero and
/// knows no symbol.
pub fn arch() -> (r: Archs)
    ensures
        r.archs@.dom() =~= set![""@],
        well_formed(&r.archs@[""@]),
        family(&r.archs@[""@]),
        shaped_6502(r.archs@[""@].transforms@),
        shaped_own(r.archs@[""@].transforms@),
        resolved(r.archs@[""@].patterns@.drop_last(), modes_65c02()),
        built_65c02(r.archs@[""@].patterns@.drop_last()),
        r.archs@[""@].addr_type == DataType::U16,
        r.org == 0,
        r.syms@ == Seq::<crate::symbols::SymbolView>::empty(),
{
    Archs { archs: archs(), org: 0, syms: SymbolList::default() }
}

} // verus!
