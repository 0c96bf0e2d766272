//! What the built-in architectures are made with: instruction tables kept in
//! the order of the mnemonics, and the shapes of rules and transforms.
use vstd::prelude::*;
use crate::arch::matcher::Matcher;
use crate::arch::node::Node;
use crate::arch::pattern::{Pattern, PatternAt};
use crate::arch::transform::{plain, Transform, ValOut};
use crate::name_map::NameMap;
use crate::text::{lemma_text_trichotomy, str_eq, str_less, text_less};

verus! {

/// The operations of one transform.
pub type TransformList = Vec<Transform>;

/// The transforms of an architecture by name.
pub type TransformMap = NameMap<TransformList>;

/// Rules in the order of their priority.
pub type MatcherList = Vec<Matcher>;

/// The opcode of each addressing mode of one instruction.
pub type ModeMap = NameMap<u8>;

/// The instructions of an architecture. The rows are kept in the order of
/// their mnemonics, each mnemonic once: the order in which rules are made
/// from the table, and so their priority, does not depend on the order in
/// which the rows were entered.
#[derive(Debug)]
pub struct InstructionMap {
    pub rows: Vec<(String, ModeMap)>,
}

/// Whether the name of the row at `i` comes before the next name.
pub open spec fn step_ascends(rows: Seq<(String, ModeMap)>, i: int) -> bool {
    text_less(rows[i].0@, rows[i + 1].0@)
}

/// Whether each name of `rows` comes before the next one.
pub open spec fn ascending(rows: Seq<(String, ModeMap)>) -> bool {
    forall|i: int| 0 <= i < rows.len() - 1 ==> #[trigger] step_ascends(rows, i)
}

/// The table that the rows stand for: the opcodes of each mnemonic by mode.
pub open spec fn rows_map(rows: Seq<(String, ModeMap)>) -> Map<Seq<char>, Map<Seq<char>, u8>>
    decreases rows.len(),
{
    if rows.len() == 0 {
        Map::empty()
    } else {
        rows_map(rows.drop_last()).insert(rows.last().0@, rows.last().1@)
    }
}

/// Whether `rows` are the rows of `table`: in the order of the mnemonics,
/// none twice, and holding for each mnemonic what the table holds.
pub open spec fn is_table(rows: Seq<(String, ModeMap)>, table: Map<Seq<char>, Map<Seq<char>, u8>>) -> bool {
    ascending(rows) && rows_map(rows) == table
}

/// In ascending rows every name comes before every later name.
pub proof fn lemma_ascending_pairs(rows: Seq<(String, ModeMap)>, i: int, j: int)
    requires
        ascending(rows),
        0 <= i < j < rows.len(),
    ensures
        text_less(rows[i].0@, rows[j].0@),
        rows[i].0@ != rows[j].0@,
    decreases j - i,
{
    assert(step_ascends(rows, j - 1));
    if i < j - 1 {
        lemma_ascending_pairs(rows, i, j - 1);
        crate::text::lemma_text_transitive(rows[i].0@, rows[j - 1].0@, rows[j].0@);
    }
    lemma_text_trichotomy(rows[i].0@, rows[j].0@);
}

/// A row entered at the place of its name adds its name to the table.
pub proof fn lemma_rows_map_insert(rows: Seq<(String, ModeMap)>, at: int, row: (String, ModeMap))
    requires
        ascending(rows),
        0 <= at <= rows.len(),
        at < rows.len() ==> text_less(row.0@, rows[at].0@),
    ensures
        rows_map(rows.insert(at, row)) == rows_map(rows).insert(row.0@, row.1@),
    decreases rows.len() - at,
{
    let entered = rows.insert(at, row);
    if at == rows.len() {
        assert(entered.drop_last() =~= rows);
        assert(entered.last() == row);
    } else {
        let shorter = rows.drop_last();
        let last = rows.last();
        assert(entered.drop_last() =~= shorter.insert(at, row));
        assert(entered.last() == last);
        assert(ascending(shorter)) by {
            assert forall|i: int| 0 <= i < shorter.len() - 1 implies #[trigger] step_ascends(shorter, i) by {
                assert(step_ascends(rows, i));
            }
        }
        if at < shorter.len() {
            assert(shorter[at] == rows[at]);
        }
        lemma_rows_map_insert(shorter, at, row);
        if at < rows.len() - 1 {
            lemma_ascending_pairs(rows, at, rows.len() - 1);
            crate::text::lemma_text_transitive(row.0@, rows[at].0@, last.0@);
        }
        lemma_text_trichotomy(row.0@, last.0@);
        assert(rows_map(entered) =~= rows_map(rows).insert(row.0@, row.1@));
    }
}

/// A row that replaces the row of its name replaces what the table holds
/// for that name.
pub proof fn lemma_rows_map_update(rows: Seq<(String, ModeMap)>, at: int, row: (String, ModeMap))
    requires
        ascending(rows),
        0 <= at < rows.len(),
        rows[at].0@ == row.0@,
    ensures
        rows_map(rows.update(at, row)) == rows_map(rows).insert(row.0@, row.1@),
    decreases rows.len() - at,
{
    let replaced = rows.update(at, row);
    let shorter = rows.drop_last();
    if at == rows.len() - 1 {
        assert(replaced.drop_last() =~= shorter);
        assert(replaced.last() == row);
        assert(rows_map(replaced) =~= rows_map(rows).insert(row.0@, row.1@));
    } else {
        let last = rows.last();
        assert(replaced.drop_last() =~= shorter.update(at, row));
        assert(replaced.last() == last);
        assert(ascending(shorter)) by {
            assert forall|i: int| 0 <= i < shorter.len() - 1 implies #[trigger] step_ascends(shorter, i) by {
                assert(step_ascends(rows, i));
            }
        }
        assert(shorter[at] == rows[at]);
        lemma_rows_map_update(shorter, at, row);
        lemma_ascending_pairs(rows, at, rows.len() - 1);
        assert(rows_map(replaced) =~= rows_map(rows).insert(row.0@, row.1@));
    }
}

/// Whether `after` is `before` with `row` at the place of its name: in place
/// of the row of that name, or else between the rows around it; every other
/// row is as it was.
#[verifier::opaque]
pub open spec fn placed(before: Seq<(String, ModeMap)>, after: Seq<(String, ModeMap)>, row: (&'static str, ModeMap)) -> bool {
    exists|at: int|
        {
            &&& 0 <= at < after.len()
            &&& #[trigger] after[at].0@ == row.0@
            &&& after[at].1 == row.1
            &&& forall|i: int| 0 <= i < at ==> after[i] == before[i]
            &&& if at < before.len() && before[at].0@ == row.0@ {
                after == before.update(at, after[at])
            } else {
                after == before.insert(at, after[at])
            }
        }
}

impl View for InstructionMap {
    type V = Map<Seq<char>, Map<Seq<char>, u8>>;

    open spec fn view(&self) -> Map<Seq<char>, Map<Seq<char>, u8>> {
        rows_map(self.rows@)
    }
}

impl InstructionMap {
    /// Whether the rows are in the order of their mnemonics, none twice.
    pub open spec fn sorted(&self) -> bool {
        ascending(self.rows@)
    }

    /// The empty table.
    pub fn new() -> (r: InstructionMap)
        ensures
            r.rows@.len() == 0,
            r.sorted(),
            r@ == Map::<Seq<char>, Map<Seq<char>, u8>>::empty(),
    {
        InstructionMap { rows: Vec::new() }
    }

    /// Enters a row at the place of its mnemonic; a row of the same mnemonic
    /// is replaced.
    pub fn insert(&mut self, row: (&'static str, ModeMap))
        requires
            old(self).sorted(),
        ensures
            final(self).sorted(),
            final(self)@ == old(self)@.insert(row.0@, row.1@),
            placed(old(self).rows@, final(self).rows@, row),
    {
        let mut at: usize = 0;
        while at < self.rows.len() && str_less(self.rows[at].0.as_str(), row.0)
            invariant
                at <= self.rows.len(),
                *self == *old(self),
                forall|i: int| 0 <= i < at ==> text_less((#[trigger] self.rows@[i]).0@, row.0@),
            decreases self.rows.len() - at,
        {
            at += 1;
        }
        let name = row.0.to_owned();
        proof {
            if at < self.rows.len() {
                lemma_text_trichotomy(self.rows@[at as int].0@, row.0@);
            }
        }
        if at < self.rows.len() && str_eq(self.rows[at].0.as_str(), row.0) {
            proof {
                lemma_rows_map_update(self.rows@, at as int, (name, row.1));
            }
            self.rows[at] = (name, row.1);
            proof {
                assert forall|i: int| 0 <= i < self.rows@.len() - 1 implies #[trigger] step_ascends(
                    self.rows@,
                    i,
                ) by {
                    assert(step_ascends(old(self).rows@, i));
                }
                assert(self.rows@[at as int].0@ == row.0@);
                reveal(placed);
            }
        } else {
            proof {
                lemma_rows_map_insert(self.rows@, at as int, (name, row.1));
            }
            self.rows.insert(at, (name, row.1));
            proof {
                assert forall|i: int| 0 <= i < self.rows@.len() - 1 implies #[trigger] step_ascends(
                    self.rows@,
                    i,
                ) by {
                    if i + 1 < at {
                        assert(step_ascends(old(self).rows@, i));
                    } else if i + 1 == at {
                        assert(text_less(old(self).rows@[i].0@, row.0@));
                    } else if i == at {
                    } else {
                        assert(step_ascends(old(self).rows@, i - 1));
                    }
                }
                assert(self.rows@[at as int].0@ == row.0@);
                reveal(placed);
            }
        }
    }
}

/// The map that the first `upto` pairs make, a later pair overriding an
/// earlier one of the same mode.
pub open spec fn pairs_map(pairs: Seq<(&'static str, u8)>, upto: int) -> Map<Seq<char>, u8>
    decreases upto,
{
    if upto <= 0 {
        Map::empty()
    } else {
        pairs_map(pairs, upto - 1).insert(pairs[upto - 1].0@, pairs[upto - 1].1)
    }
}

/// The opcodes of an instruction, from pairs of mode and opcode.
pub fn mode_map(pairs: Vec<(&'static str, u8)>) -> (r: ModeMap)
    ensures
        r@ == pairs_map(pairs@, pairs@.len() as int),
{
    let mut map: ModeMap = NameMap::new();
    let mut i: usize = 0;
    while i < pairs.len()
        invariant
            i <= pairs.len(),
            map@ == pairs_map(pairs@, i as int),
        decreases pairs.len() - i,
    {
        map.insert(pairs[i].0.to_owned(), pairs[i].1);
        i += 1;
    }
    map
}

/// A rule of an instruction: the opcode, where the rule asks for a further
/// byte, which flag it asks to be set or not set, the transform it names and
/// the mnemonic it renders.
pub struct RuleSpec {
    pub op: u8,
    pub any_at: Option<usize>,
    pub flag: Option<(Seq<char>, bool)>,
    pub mode: Seq<char>,
    pub name: Seq<char>,
}

/// Whether the rule `m` is the one that `r` describes: the opcode at the
/// start of the window, then, if asked for, any byte at the given offset,
/// then, if asked for, the state of the flag.
pub open spec fn describes(m: Matcher, r: RuleSpec) -> bool {
    &&& m.transforms@ == r.mode
    &&& m.name@ == plain(r.name)
    &&& m.patterns@.len() == 1 + (if r.any_at is Some { 1int } else { 0 }) + (if r.flag is Some { 1int } else { 0 })
    &&& m.patterns@[0] == (PatternAt { offset: 0, pattern: Pattern::Exact(r.op) })
    &&& r.any_at matches Some(at) ==> m.patterns@[1] == (PatternAt { offset: at, pattern: Pattern::Any })
    &&& r.flag matches Some((key, set)) ==> {
        &&& r.any_at is Some
        &&& m.patterns@[2].offset == 0
        &&& m.patterns@[2].pattern matches Pattern::Flag(k, v)
        &&& k@ == key
        &&& if set {
            v matches Some(s) && s@ == Seq::<char>::empty()
        } else {
            v is None
        }
    }
}

/// Whether `after` is `before` with the rules that `rules` describes added
/// behind, in order.
#[verifier::opaque]
pub open spec fn grows(before: Seq<Matcher>, after: Seq<Matcher>, rules: Seq<RuleSpec>) -> bool {
    &&& after.len() == before.len() + rules.len()
    &&& forall|i: int| 0 <= i < before.len() ==> after[i] == before[i]
    &&& forall|i: int| 0 <= i < rules.len() ==> describes(#[trigger] after[before.len() + i], rules[i])
}

/// A list to which one rule was pushed has grown by that rule.
pub proof fn lemma_grows_one(before: Seq<Matcher>, m: Matcher, r: RuleSpec)
    requires
        describes(m, r),
    ensures
        grows(before, before.push(m), seq![r]),
{
    reveal(grows);
}

/// A list grows by no rules to itself.
pub proof fn lemma_grows_none(list: Seq<Matcher>)
    ensures
        grows(list, list, Seq::empty()),
{
    reveal(grows);
}

/// Growing twice is growing by both runs of rules.
pub proof fn lemma_grows_then(
    a: Seq<Matcher>,
    b: Seq<Matcher>,
    c: Seq<Matcher>,
    first: Seq<RuleSpec>,
    second: Seq<RuleSpec>,
)
    requires
        grows(a, b, first),
        grows(b, c, second),
    ensures
        grows(a, c, first + second),
{
    reveal(grows);
    assert forall|i: int| 0 <= i < (first + second).len() implies describes(
        #[trigger] c[a.len() + i],
        (first + second)[i],
    ) by {
        if i < first.len() {
            assert(c[a.len() + i] == b[a.len() + i]);
        } else {
            assert(c[b.len() + (i - first.len())] == c[a.len() + i]);
        }
    }
}

/// The rule of the mode `mode`, if the instruction has that mode.
pub open spec fn opt(
    modes: Map<Seq<char>, u8>,
    mode: Seq<char>,
    name: Seq<char>,
    any_at: Option<usize>,
    flag: Option<(Seq<char>, bool)>,
) -> Seq<RuleSpec> {
    if modes.contains_key(mode) {
        seq![RuleSpec { op: modes[mode], any_at, flag, mode, name }]
    } else {
        Seq::empty()
    }
}

/// The rules of the first `upto` rows, row after row.
pub open spec fn expand(
    rows: Seq<(String, ModeMap)>,
    upto: int,
    per_row: spec_fn(Seq<char>, Map<Seq<char>, u8>) -> Seq<RuleSpec>,
) -> Seq<RuleSpec>
    decreases upto,
{
    if upto <= 0 {
        Seq::empty()
    } else {
        expand(rows, upto - 1, per_row) + per_row(rows[upto - 1].0@, rows[upto - 1].1@)
    }
}

/// Whether every rule of `rules` names a mode of `known`.
pub open spec fn rules_known(rules: Seq<RuleSpec>, known: spec_fn(Seq<char>) -> bool) -> bool {
    forall|i: int| 0 <= i < rules.len() ==> known((#[trigger] rules[i]).mode)
}

/// Whether every rule of `list` names a transform of `known`.
pub open spec fn resolved(list: Seq<Matcher>, known: spec_fn(Seq<char>) -> bool) -> bool {
    forall|i: int| 0 <= i < list.len() ==> known((#[trigger] list[i]).transforms@)
}

/// No rules name only known modes.
pub proof fn lemma_known_none(known: spec_fn(Seq<char>) -> bool)
    ensures
        rules_known(Seq::empty(), known),
{
}

/// Two runs of rules that name known modes do so together.
pub proof fn lemma_known_join(a: Seq<RuleSpec>, b: Seq<RuleSpec>, known: spec_fn(Seq<char>) -> bool)
    requires
        rules_known(a, known),
        rules_known(b, known),
    ensures
        rules_known(a + b, known),
{
    assert forall|i: int| 0 <= i < (a + b).len() implies known((#[trigger] (a + b)[i]).mode) by {
        if i < a.len() {
            assert((a + b)[i] == a[i]);
        } else {
            assert((a + b)[i] == b[i - a.len()]);
        }
    }
}

/// The rule of a known mode names a known mode.
pub proof fn lemma_opt_known(
    modes: Map<Seq<char>, u8>,
    mode: Seq<char>,
    name: Seq<char>,
    any_at: Option<usize>,
    flag: Option<(Seq<char>, bool)>,
    known: spec_fn(Seq<char>) -> bool,
)
    requires
        known(mode),
    ensures
        rules_known(opt(modes, mode, name, any_at, flag), known),
{
}

/// Where the rules of every row name known modes, so do the rules of a table.
pub proof fn lemma_expand_known(
    rows: Seq<(String, ModeMap)>,
    upto: int,
    per_row: spec_fn(Seq<char>, Map<Seq<char>, u8>) -> Seq<RuleSpec>,
    known: spec_fn(Seq<char>) -> bool,
)
    requires
        forall|name: Seq<char>, modes: Map<Seq<char>, u8>| rules_known(#[trigger] per_row(name, modes), known),
    ensures
        rules_known(expand(rows, upto, per_row), known),
    decreases upto,
{
    if upto > 0 {
        lemma_expand_known(rows, upto - 1, per_row, known);
        lemma_known_join(
            expand(rows, upto - 1, per_row),
            per_row(rows[upto - 1].0@, rows[upto - 1].1@),
            known,
        );
    }
}

/// Rules that were added to resolved rules and name known modes leave the
/// list resolved.
pub proof fn lemma_grows_resolved(
    before: Seq<Matcher>,
    after: Seq<Matcher>,
    rules: Seq<RuleSpec>,
    known: spec_fn(Seq<char>) -> bool,
)
    requires
        grows(before, after, rules),
        resolved(before, known),
        rules_known(rules, known),
    ensures
        resolved(after, known),
{
    reveal(grows);
    assert forall|i: int| 0 <= i < after.len() implies known((#[trigger] after[i]).transforms@) by {
        if i < before.len() {
            assert(after[i] == before[i]);
        } else {
            assert(describes(after[before.len() + (i - before.len())], rules[i - before.len()]));
        }
    }
}

/// Whether `t` renders the fixed text `text`.
pub open spec fn is_static(t: Transform, text: Seq<char>) -> bool {
    t matches Transform::Static(n) && n@ == plain(text)
}

/// The view of an optional text.
pub open spec fn text_view(t: Option<&str>) -> Option<Seq<char>> {
    match t {
        Some(s) => Some(s@),
        None => None,
    }
}

/// The transform of a mode with one operand behind the opcode: the mnemonic,
/// the opcode consumed, the text `lead`, the operand, and, where there is
/// one, the text `tail`.
pub open spec fn operand_shape(tl: Seq<Transform>, lead: Seq<char>, val: ValOut, tail: Option<Seq<char>>) -> bool {
    &&& tl.len() == (if tail is Some { 5int } else { 4 })
    &&& tl[0] is MatcherName
    &&& tl[1] == Transform::Consume(1)
    &&& is_static(tl[2], lead)
    &&& tl[3] == Transform::Val(val)
    &&& tail matches Some(t) ==> is_static(tl[4], t)
}

/// The transform of a branch: the mnemonic and a space; then, with the
/// address moved behind the instruction by `shift`, the target; then the
/// address moved back and the opcode consumed.
pub open spec fn relative_shape(tl: Seq<Transform>, shift: i64, val: ValOut) -> bool {
    &&& tl.len() == 6
    &&& tl[0] is MatcherName
    &&& is_static(tl[1], " "@)
    &&& tl[2] == Transform::OffsetAddress(shift)
    &&& tl[3] == Transform::Val(val)
    &&& tl[4] == Transform::OffsetAddress((-shift) as i64)
    &&& tl[5] == Transform::Consume(1)
}

/// Makes the transform of a mode with one operand behind the opcode.
pub fn operand_mode(lead: &str, val: ValOut, tail: Option<&str>) -> (r: TransformList)
    ensures
        operand_shape(r@, lead@, val, text_view(tail)),
{
    let mut list: Vec<Transform> = Vec::new();
    list.push(Transform::MatcherName);
    list.push(Transform::Consume(1));
    list.push(Transform::Static(Node::text(lead)));
    list.push(Transform::Val(val));
    match tail {
        Some(t) => {
            list.push(Transform::Static(Node::text(t)));
        },
        None => {},
    }
    list
}

/// Makes the transform of a branch.
pub fn relative_mode(shift: i64, val: ValOut) -> (r: TransformList)
    requires
        shift > i64::MIN,
    ensures
        relative_shape(r@, shift, val),
{
    let mut list: Vec<Transform> = Vec::new();
    list.push(Transform::MatcherName);
    list.push(Transform::Static(Node::text(" ")));
    list.push(Transform::OffsetAddress(shift));
    list.push(Transform::Val(val));
    list.push(Transform::OffsetAddress(-shift));
    list.push(Transform::Consume(1));
    list
}

} // verus!
