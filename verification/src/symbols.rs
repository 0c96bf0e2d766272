//! Named values with an address scope, and their insertion-ordered table.
use vstd::prelude::*;
use crate::{Address, ValueType};
use crate::search::{first_index, lemma_first_index_found, lemma_first_index_least, views};
use crate::text::str_eq;

verus! {

/// Whether a symbol names a constant or a place in the code.
#[derive(Copy, Clone, PartialEq, Eq, Debug, Structural)]
pub enum SymbolKind {
    Const,
    Label,
}

impl Default for SymbolKind {
    fn default() -> (r: SymbolKind)
        ensures
            r == SymbolKind::Label,
    {
        SymbolKind::Label
    }
}

/// The addresses at which a symbol is visible.
#[derive(Copy, Clone, PartialEq, Eq, Debug, Structural)]
pub enum Scope {
    Global,
    /// The half-open interval from the first address up to the second.
    Range(Address, Address),
}

impl Default for Scope {
    fn default() -> (r: Scope)
        ensures
            r == Scope::Global,
    {
        Scope::Global
    }
}

impl Scope {
    /// Whether the scope holds `address`.
    pub open spec fn spec_is_in_scope(self, address: Address) -> bool {
        match self {
            Scope::Global => true,
            Scope::Range(start, end) => start <= address < end,
        }
    }

    /// Whether the scope holds `address`.
    pub fn is_in_scope(&self, address: Address) -> (r: bool)
        ensures
            r == self.spec_is_in_scope(address),
    {
        match self {
            Scope::Global => true,
            Scope::Range(start, end) => address >= *start && address < *end,
        }
    }
}

/// A named range of values.
#[derive(Debug)]
pub struct Symbol {
    pub name: String,
    pub kind: SymbolKind,
    pub scope: Scope,
    pub value: ValueType,
    /// Further values around which the symbol matches as it does around `value`.
    pub additional_values: Vec<ValueType>,
    pub len: usize,
}

/// The mathematical value of a [`Symbol`].
pub struct SymbolView {
    pub name: Seq<char>,
    pub kind: SymbolKind,
    pub scope: Scope,
    pub value: ValueType,
    pub additional_values: Seq<ValueType>,
    pub len: usize,
}

impl View for Symbol {
    type V = SymbolView;

    open spec fn view(&self) -> SymbolView {
        SymbolView {
            name: self.name@,
            kind: self.kind,
            scope: self.scope,
            value: self.value,
            additional_values: self.additional_values@,
            len: self.len,
        }
    }
}

impl SymbolView {
    /// `v` lies in the range of `self.len` values that starts at `base`.
    pub open spec fn covers(self, base: ValueType, v: ValueType) -> bool {
        base <= v < base + self.len
    }

    /// `v` lies in the range around the symbol's value or around one of its
    /// additional values, and `address`, where one is given, is in scope.
    pub open spec fn matches(self, v: ValueType, address: Option<Address>) -> bool {
        &&& match address {
            Some(a) => self.scope.spec_is_in_scope(a),
            None => true,
        }
        &&& (self.covers(self.value, v) || exists|i: int|
            0 <= i < self.additional_values.len() && self.covers(
                #[trigger] self.additional_values[i],
                v,
            ))
    }
}

/// The symbols that match `v`, seen from `address`.
pub open spec fn matching(v: ValueType, address: Option<Address>) -> spec_fn(SymbolView) -> bool {
    |s: SymbolView| s.matches(v, address)
}

/// The symbols called `name`.
pub open spec fn named(name: Seq<char>) -> spec_fn(SymbolView) -> bool {
    |s: SymbolView| s.name == name
}

impl Clone for Symbol {
    fn clone(&self) -> (r: Symbol)
        ensures
            r@ == self@,
    {
        let additional_values = self.additional_values.clone();
        assert(additional_values@ =~= self.additional_values@);
        Symbol {
            name: self.name.clone(),
            kind: self.kind,
            scope: self.scope,
            value: self.value,
            additional_values,
            len: self.len,
        }
    }
}

impl Default for Symbol {
    fn default() -> (r: Symbol)
        ensures
            r@ == (SymbolView {
                name: Seq::empty(),
                kind: SymbolKind::Label,
                scope: Scope::Global,
                value: 0,
                additional_values: Seq::empty(),
                len: 0,
            }),
    {
        Symbol {
            name: String::new(),
            kind: SymbolKind::Label,
            scope: Scope::Global,
            value: 0,
            additional_values: Vec::new(),
            len: 0,
        }
    }
}

impl Symbol {
    /// A symbol for the `len` values from `value` on, without additional values.
    pub fn new(name: String, kind: SymbolKind, scope: Scope, value: ValueType, len: usize) -> (r:
        Symbol)
        ensures
            r@ == (SymbolView {
                name: name@,
                kind,
                scope,
                value,
                additional_values: Seq::empty(),
                len,
            }),
    {
        Symbol { name, kind, scope, value, len, additional_values: Vec::new() }
    }

    /// Whether the symbol matches `value`, seen from `address` where one is given.
    pub fn is_match(&self, value: ValueType, address: Option<Address>) -> (r: bool)
        ensures
            r == self@.matches(value, address),
    {
        if self.is_match_with(value, address, self.value) {
            return true;
        }
        let mut i: usize = 0;
        while i < self.additional_values.len()
            invariant
                i <= self.additional_values.len(),
                !(self@.covers(self.value, value) && (address is Some
                    ==> self.scope.spec_is_in_scope(address->0))),
                forall|k: int|
                    0 <= k < i ==> !(self@.covers(#[trigger] self.additional_values@[k], value) && (
                    address is Some ==> self.scope.spec_is_in_scope(address->0))),
            decreases self.additional_values.len() - i,
        {
            if self.is_match_with(value, address, self.additional_values[i]) {
                assert(self@.covers(self@.additional_values[i as int], value));
                return true;
            }
            i += 1;
        }
        false
    }

    /// Whether `value` lies in the range around `check_value` and `address`,
    /// where one is given, is in scope.
    fn is_match_with(&self, value: ValueType, address: Option<Address>, check_value: ValueType) -> (r:
        bool)
        ensures
            r == (self@.covers(check_value, value) && (address is Some
                ==> self.scope.spec_is_in_scope(address->0))),
    {
        let in_scope = match address {
            Some(a) => self.scope.is_in_scope(a),
            None => true,
        };
        value >= check_value && (value as i128) < (check_value as i128) + (self.len as i128)
            && in_scope
    }
}

/// Symbols in the order of their definition. The first symbol that matches
/// is the one that a lookup finds.
#[derive(Debug)]
pub struct SymbolList {
    pub map: Vec<Symbol>,
}

impl View for SymbolList {
    type V = Seq<SymbolView>;

    open spec fn view(&self) -> Seq<SymbolView> {
        views(self.map@)
    }
}

impl Default for SymbolList {
    fn default() -> (r: SymbolList)
        ensures
            r@ == Seq::<SymbolView>::empty(),
    {
        let r = SymbolList { map: Vec::new() };
        assert(r@ =~= Seq::<SymbolView>::empty());
        r
    }
}

impl Clone for SymbolList {
    fn clone(&self) -> (r: SymbolList)
        ensures
            r@ == self@,
    {
        let mut map: Vec<Symbol> = Vec::new();
        let mut i: usize = 0;
        while i < self.map.len()
            invariant
                i <= self.map.len(),
                views(map@) == views(self.map@).take(i as int),
            decreases self.map.len() - i,
        {
            let ghost before = map@;
            assert(before.len() == views(before).len());
            let copy = self.map[i].clone();
            map.push(copy);
            i += 1;
            assert forall|k: int| 0 <= k < i implies views(map@)[k] == views(self.map@).take(
                i as int,
            )[k] by {
                if k < i - 1 {
                    assert(views(before)[k] == views(self.map@).take(i - 1)[k]);
                }
            }
            assert(views(map@) =~= views(self.map@).take(i as int));
        }
        assert(views(self.map@).take(i as int) =~= views(self.map@));
        SymbolList { map }
    }
}

impl SymbolList {
    /// Defines `sym` after every symbol defined so far.
    pub fn def_symbol(&mut self, sym: Symbol)
        ensures
            final(self)@ == old(self)@.push(sym@),
    {
        self.map.push(sym);
        assert(self@ =~= old(self)@.push(sym@));
    }

    /// Every symbol that matches `value`, whatever its scope, in the order of
    /// definition.
    pub fn get_symbols(&self, value: ValueType) -> (r: Vec<Symbol>)
        ensures
            views(r@) == self@.filter(matching(value, None)),
    {
        let mut out: Vec<Symbol> = Vec::new();
        let mut i: usize = 0;
        proof {
            reveal(Seq::filter);
            assert(views(out@) =~= self@.take(0).filter(matching(value, None)));
        }
        while i < self.map.len()
            invariant
                i <= self.map.len(),
                views(out@) == self@.take(i as int).filter(matching(value, None)),
            decreases self.map.len() - i,
        {
            proof {
                reveal(Seq::filter);
                assert(self@.take(i + 1).drop_last() =~= self@.take(i as int));
                assert(self@.take(i + 1).last() == self.map@[i as int]@);
            }
            if self.map[i].is_match(value, None) {
                out.push(self.map[i].clone());
            }
            i += 1;
            assert(views(out@) =~= self@.take(i as int).filter(matching(value, None)));
        }
        assert(self@.take(i as int) =~= self@);
        out
    }

    /// The position of the first symbol that matches, a helper of the lookups.
    fn position(&self, value: ValueType, address: Address) -> (r: Option<usize>)
        ensures
            match r {
                Some(i) => first_index(self@, matching(value, Some(address)), 0) == Some(i as int)
                    && i < self.map.len(),
                None => first_index(self@, matching(value, Some(address)), 0) is None,
            },
    {
        let mut i: usize = 0;
        while i < self.map.len()
            invariant
                i <= self.map.len(),
                first_index(self@, matching(value, Some(address)), 0) == first_index(
                    self@,
                    matching(value, Some(address)),
                    i as int,
                ),
            decreases self.map.len() - i,
        {
            assert(self@[i as int] == self.map@[i as int]@);
            if self.map[i].is_match(value, Some(address)) {
                return Some(i);
            }
            i += 1;
        }
        None
    }

    /// The first symbol, in the order of definition, that matches `value` and
    /// whose scope holds `address`.
    pub fn get_first_symbol(&self, value: ValueType, address: Address) -> (r: Option<&Symbol>)
        ensures
            match first_index(self@, matching(value, Some(address)), 0) {
                Some(i) => 0 <= i < self.map.len() && r == Some(&self.map[i]),
                None => r is None,
            },
    {
        match self.position(value, address) {
            Some(i) => Some(&self.map[i]),
            None => None,
        }
    }

    /// Whether any symbol matches `value` with `address` in its scope.
    pub fn has_symbols(&self, value: ValueType, address: Address) -> (r: bool)
        ensures
            r == first_index(self@, matching(value, Some(address)), 0).is_some(),
            r == exists|i: int| 0 <= i < self@.len() && (#[trigger] self@[i]).matches(value, Some(address)),
    {
        proof {
            lemma_first_index_least(self@, matching(value, Some(address)), 0);
        }
        self.position(value, address).is_some()
    }

    /// The first symbol, in the order of definition, that is called `name`.
    pub fn get_first_by_name(&self, name: &str) -> (r: Option<&Symbol>)
        ensures
            match first_index(self@, named(name@), 0) {
                Some(i) => 0 <= i < self.map.len() && r == Some(&self.map[i]),
                None => r is None,
            },
    {
        let mut i: usize = 0;
        while i < self.map.len()
            invariant
                i <= self.map.len(),
                first_index(self@, named(name@), 0) == first_index(self@, named(name@), i as int),
            decreases self.map.len() - i,
        {
            assert(self@[i as int] == self.map@[i as int]@);
            if str_eq(self.map[i].name.as_str(), name) {
                return Some(&self.map[i]);
            }
            i += 1;
        }
        None
    }
}

/// Of two symbols that both match a value at an address, a lookup never
/// returns the one defined later: it returns the earlier one, or one defined
/// before both.
pub proof fn lemma_first_defined_wins(
    list: Seq<SymbolView>,
    earlier: int,
    later: int,
    value: ValueType,
    address: Address,
)
    requires
        0 <= earlier < later < list.len(),
        list[earlier].matches(value, Some(address)),
        list[later].matches(value, Some(address)),
    ensures
        first_index(list, matching(value, Some(address)), 0) is Some,
        first_index(list, matching(value, Some(address)), 0)->0 <= earlier,
        first_index(list, matching(value, Some(address)), 0) != Some(later),
{
    lemma_first_index_found(list, matching(value, Some(address)), 0, earlier);
}

} // verus!
