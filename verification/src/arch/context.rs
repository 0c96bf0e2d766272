//! The mutable state of a disassembly: the cursor, the flags, the symbols.
use vstd::prelude::*;
use std::sync::Arc;
use crate::{Address, ValueType};
use crate::arch::statics::StaticOp;
use crate::error::{Error, ErrorView};
use crate::name_map::NameMap;
use crate::patch::{apply_all, patched, Patch};
use crate::search::first_index;
use crate::symbols::{matching, named, Symbol, SymbolList, SymbolView};
use crate::text::byte_len;

verus! {

/// What is known about the line that is being rendered.
#[derive(Clone, Copy, Debug, PartialEq, Eq, Structural)]
pub struct TransformContext {
    /// The length, in bytes, of the text emitted for the current line.
    pub line_len: usize,
}

impl Default for TransformContext {
    fn default() -> (r: TransformContext)
        ensures
            r.line_len == 0,
    {
        TransformContext { line_len: 0 }
    }
}

/// The state that a pass reads and changes.
#[derive(Clone, Debug)]
pub struct Context {
    /// The key of the architecture that decodes the next instruction.
    pub arch_key: String,
    pub flags: NameMap<String>,
    pub org: Address,
    pub offset: Address,
    pub static_offset: Address,
    /// Where in the input the window starts.
    pub start_read: usize,
    /// The length of the window; without one it runs to the end of the input.
    pub len_read: Option<usize>,
    pub syms: SymbolList,
    /// Whether raw byte dumps are rendered.
    pub allow_raw: bool,
    pub patches: Vec<Patch>,
    /// Directives that run before every instruction. The list may be shared
    /// with other contexts; a pass only reads it.
    pub static_ops_pre: Arc<Vec<StaticOp>>,
    /// Directives that run after every instruction.
    pub static_ops_post: Arc<Vec<StaticOp>>,
    /// Whether the pass discovers symbols instead of rendering.
    pub analyze: bool,
    pub tr_ctx: TransformContext,
}

/// The mathematical value of a [`Context`].
pub struct ContextView {
    pub arch_key: Seq<char>,
    pub flags: Map<Seq<char>, Seq<char>>,
    pub org: Address,
    pub offset: Address,
    pub static_offset: Address,
    pub start_read: usize,
    pub len_read: Option<usize>,
    pub syms: Seq<SymbolView>,
    pub allow_raw: bool,
    pub patches: Seq<Patch>,
    pub static_ops_pre: Seq<StaticOp>,
    pub static_ops_post: Seq<StaticOp>,
    pub analyze: bool,
    pub line_len: usize,
}

/// The text of a string.
pub open spec fn text_of() -> spec_fn(String) -> Seq<char> {
    |s: String| s@
}

impl View for Context {
    type V = ContextView;

    open spec fn view(&self) -> ContextView {
        ContextView {
            arch_key: self.arch_key@,
            flags: self.flags@.map_values(text_of()),
            org: self.org,
            offset: self.offset,
            static_offset: self.static_offset,
            start_read: self.start_read,
            len_read: self.len_read,
            syms: self.syms@,
            allow_raw: self.allow_raw,
            patches: self.patches@,
            static_ops_pre: self.static_ops_pre@,
            static_ops_post: self.static_ops_post@,
            analyze: self.analyze,
            line_len: self.tr_ctx.line_len,
        }
    }
}

impl ContextView {
    /// The state that a fresh context starts in.
    pub open spec fn fresh(org: Address, syms: Seq<SymbolView>) -> ContextView {
        ContextView {
            arch_key: Seq::empty(),
            flags: Map::empty(),
            org,
            offset: 0,
            static_offset: 0,
            start_read: 0,
            len_read: None,
            syms,
            allow_raw: false,
            patches: Seq::empty(),
            static_ops_pre: Seq::empty(),
            static_ops_post: Seq::empty(),
            analyze: false,
            line_len: 0,
        }
    }

    /// The current address: origin, offset and static offset added up,
    /// wrapping at the width of an address.
    pub open spec fn address(self) -> Address {
        self.org.wrapping_add(self.offset).wrapping_add(self.static_offset)
    }

    /// The first symbol, in the order of definition, that matches `value` at
    /// the current address.
    pub open spec fn first_symbol(self, value: ValueType) -> Option<SymbolView> {
        match first_index(self.syms, matching(value, Some(self.address())), 0) {
            Some(i) => Some(self.syms[i]),
            None => None,
        }
    }

    /// The state after `text` was added to the current line.
    pub open spec fn bumped(self, text: Seq<char>) -> ContextView {
        ContextView { line_len: self.line_len.wrapping_add(byte_len(text) as usize), ..self }
    }

    /// The state after the cursor moved on by `n` bytes.
    pub open spec fn advanced(self, n: usize) -> ContextView {
        ContextView { offset: self.offset.wrapping_add(n as u64), ..self }
    }

    /// The state after `restart`.
    pub open spec fn restarted(self) -> ContextView {
        ContextView { offset: 0, ..self }
    }

    /// The state after `sym` was defined.
    pub open spec fn defining(self, sym: SymbolView) -> ContextView {
        ContextView { syms: self.syms.push(sym), ..self }
    }

    /// The state after the window's start was set.
    pub open spec fn starting_at(self, start: usize) -> ContextView {
        ContextView { start_read: start, static_offset: start as Address, ..self }
    }
}

impl Default for Context {
    fn default() -> (r: Context)
        ensures
            r@ == ContextView::fresh(0, Seq::empty()),
    {
        Context::new(0, SymbolList::default())
    }
}

impl Context {
    /// A context at the origin `org` that knows the symbols `syms`.
    pub fn new(org: Address, syms: SymbolList) -> (r: Context)
        ensures
            r@ == ContextView::fresh(org, syms@),
    {
        let r = Context {
            arch_key: String::new(),
            flags: NameMap::new(),
            org,
            syms,
            offset: 0,
            analyze: false,
            start_read: 0,
            len_read: None,
            patches: Vec::new(),
            allow_raw: false,
            tr_ctx: TransformContext { line_len: 0 },
            static_ops_pre: Arc::new(Vec::new()),
            static_ops_post: Arc::new(Vec::new()),
            static_offset: 0,
        };
        assert(r@.static_ops_pre =~= Seq::empty());
        assert(r@.static_ops_post =~= Seq::empty());
        assert(r@.flags =~= Map::empty());
        assert(r@.patches =~= Seq::empty());
        r
    }

    /// A copy of `data` with every patch of the context applied in order.
    pub fn patch(&self, data: &[u8]) -> (r: Result<Vec<u8>, Error>)
        ensures
            match patched(self@.patches, 0, data@) {
                Ok(bytes) => r is Ok && r->Ok_0@ == bytes,
                Err(e) => r is Err && r->Err_0@ == e,
            },
    {
        apply_all(&self.patches, data)
    }

    /// Puts the cursor back to the origin; everything else stays.
    pub fn restart(&mut self)
        ensures
            final(self)@ == old(self)@.restarted(),
    {
        self.offset = 0;
    }

    /// The current address.
    pub fn address(&self) -> (r: Address)
        ensures
            r == self@.address(),
    {
        self.org.wrapping_add(self.offset).wrapping_add(self.static_offset)
    }

    /// Defines `sym` after every symbol known so far.
    pub fn def_symbol(&mut self, sym: Symbol)
        ensures
            final(self)@ == old(self)@.defining(sym@),
    {
        self.syms.def_symbol(sym);
    }

    /// The first symbol, in the order of definition, that matches `value` at
    /// the current address.
    pub fn get_first_symbol(&self, value: ValueType) -> (r: Option<&Symbol>)
        ensures
            match self@.first_symbol(value) {
                Some(s) => r is Some && r->0@ == s,
                None => r is None,
            },
    {
        self.syms.get_first_symbol(value, self.address())
    }

    /// Sets `flag` to `value`.
    pub fn def_flag(&mut self, flag: &str, value: &str)
        ensures
            final(self)@ == (ContextView { flags: old(self)@.flags.insert(flag@, value@), ..old(self)@ }),
    {
        let v = value.to_owned();
        self.flags.insert(flag.to_owned(), v);
        assert(self@.flags =~= old(self)@.flags.insert(flag@, value@));
    }

    /// Clears `flag`.
    pub fn undef_flag(&mut self, flag: &str)
        ensures
            final(self)@ == (ContextView { flags: old(self)@.flags.remove(flag@), ..old(self)@ }),
    {
        self.flags.remove(flag);
        assert(self@.flags =~= old(self)@.flags.remove(flag@));
    }

    /// The value of `flag`, if it is set.
    pub fn get_flag(&self, flag: &str) -> (r: Option<&String>)
        ensures
            match r {
                Some(v) => self@.flags.contains_key(flag@) && self@.flags[flag@] == v@,
                None => !self@.flags.contains_key(flag@),
            },
    {
        self.flags.get(flag)
    }

    /// Starts the window at `addr`, shown as that many bytes past the origin;
    /// without an address it starts at the beginning of the input.
    pub fn set_start(&mut self, addr: Option<usize>)
        ensures
            final(self)@ == old(self)@.starting_at(
                match addr {
                    Some(a) => a,
                    None => 0,
                },
            ),
    {
        let start = match addr {
            Some(a) => a,
            None => 0,
        };
        self.start_read = start;
        self.static_offset = start as Address;
    }

    /// Starts the window at the value of the first symbol called `label`,
    /// taken relative to the origin.
    pub fn set_start_to_symbol(&mut self, label: &str) -> (r: Result<(), Error>)
        ensures
            match first_index(old(self)@.syms, named(label@), 0) {
                Some(i) => r is Ok && final(self)@ == old(self)@.starting_at(
                    symbol_start(old(self)@.syms[i].value, old(self)@.org),
                ),
                None => r is Err && r->Err_0@ == ErrorView::LabelNotFound(label@) && final(self)@
                    == old(self)@,
            },
    {
        let value = match self.syms.get_first_by_name(label) {
            Some(s) => s.value,
            None => {
                return Err(Error::LabelNotFound(label.to_owned()));
            },
        };
        let start = (value as usize).wrapping_sub(self.org as usize);
        self.start_read = start;
        self.static_offset = start as Address;
        Ok(())
    }

    /// Sets the origin.
    pub fn set_org(&mut self, org: Address)
        ensures
            final(self)@ == (ContextView { org, ..old(self)@ }),
    {
        self.org = org;
    }

    /// Sets the length of the window; without one it runs to the end of the input.
    pub fn set_len(&mut self, len: Option<usize>)
        ensures
            final(self)@ == (ContextView { len_read: len, ..old(self)@ }),
    {
        self.len_read = len;
    }
}

/// Another handle on a shared list: `Arc::clone` of std. The new handle
/// points to the same list as `ops`.
#[verifier::external_body]
pub(crate) fn share(ops: &Arc<Vec<StaticOp>>) -> (r: Arc<Vec<StaticOp>>)
    ensures
        r == *ops,
{
    Arc::clone(ops)
}

/// Where in the input a symbol's value lies, given the origin: both narrowed
/// to the width of an index, then subtracted, wrapping.
pub open spec fn symbol_start(value: ValueType, org: Address) -> usize {
    (value as usize).wrapping_sub(org as usize)
}

} // verus!
