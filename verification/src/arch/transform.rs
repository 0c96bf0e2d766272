//! The operations of a transform pipeline: what each renders, what it changes
//! in the context, and by how many bytes it moves the cursor.
use vstd::prelude::*;
use vstd::slice::slice_to_vec;
use vstd::string::StringExecFns;
use crate::{Address, ValueType};
use crate::arch::context::{Context, ContextView};
use crate::arch::endian::{signed, Endianess};
use crate::arch::node::{CallbackKind, Node, NodeKind, NodeView};
use crate::arch::trace::{
    deliver, emit_from, faithful, lemma_accepted_none, lemma_emit_from, lemma_faithful_abort,
    lemma_faithful_ok, lemma_met, sink_total, Outcome, Piece, PieceView,
};
use crate::arch::Arch;
use crate::error::{Error, ErrorView};
use crate::search::{lemma_views_push, views};
use crate::symbols::{Scope, Symbol, SymbolKind, SymbolView};
use crate::text::{decimal_text, digits, push_decimal, push_radix, push_repeated, repeated, zero_pad};
use crate::value::{DataType, ValueTypeFmt};

verus! {

/// A symbol that a transform defines from bytes of the window.
#[derive(Clone, Debug)]
pub struct DefSym {
    pub name: String,
    pub offset: usize,
    pub scope: Scope,
    pub data_type: DataType,
    pub symbol_kind: SymbolKind,
    pub len: usize,
}

impl Default for DefSym {
    fn default() -> (r: DefSym)
        ensures
            r.name@ == Seq::<char>::empty(),
            r.offset == 0,
            r.scope == Scope::Global,
            r.data_type == DataType::NoData,
            r.symbol_kind == SymbolKind::Label,
            r.len == 0,
    {
        DefSym {
            name: String::new(),
            offset: 0,
            scope: Scope::Global,
            data_type: DataType::NoData,
            symbol_kind: SymbolKind::Label,
            len: 0,
        }
    }
}

/// How a transform reads and renders a value.
#[derive(Clone, Copy, Debug, PartialEq, Eq, Structural)]
pub struct ValOut {
    pub offset: usize,
    pub fmt: ValueTypeFmt,
    pub data_type: DataType,
    /// The value is relative to the current address.
    pub rel: bool,
    /// During analysis, define a label where no symbol covers the value.
    pub auto_def_sym: bool,
}

impl Default for ValOut {
    fn default() -> (r: ValOut)
        ensures
            r == (ValOut {
                offset: 0,
                fmt: ValueTypeFmt::LowerHex(0),
                data_type: DataType::NoData,
                rel: false,
                auto_def_sym: false,
            }),
    {
        ValOut {
            offset: 0,
            fmt: ValueTypeFmt::LowerHex(0),
            data_type: DataType::NoData,
            rel: false,
            auto_def_sym: false,
        }
    }
}

/// One operation of a transform pipeline.
#[derive(Clone, Debug)]
pub enum Transform {
    /// Decodes a value and renders it, as a symbol where one covers it.
    Val(ValOut),
    /// Renders the bytes of the window as a dump.
    Raw,
    /// Renders the labels at the current address.
    Label,
    /// Renders a fixed node.
    Static(Node),
    /// Renders the display name of the rule that matched.
    MatcherName,
    /// During analysis, defines a symbol whose value is decoded at the given width.
    DefSym(DefSym),
    /// During analysis, defines a symbol whose value is decoded at the
    /// architecture's address width.
    DefSymAddress(DefSym),
    /// Moves the cursor on by the given number of bytes.
    Consume(usize),
    /// Renders the current address in hexadecimal, zero-padded to the given width.
    Address(usize),
    /// Adds the signed amount to the offset, wrapping.
    OffsetAddress(i64),
    /// Sets the origin to the given address and the offset to zero.
    SetAddress(Address),
    SetFlag(String, String),
    UnsetFlag(String),
    /// Selects the architecture that decodes the next instruction.
    ChangeArch(String),
    /// Renders spaces up to the given column of the current line.
    Pad(usize),
    Skip,
}

impl Default for Transform {
    fn default() -> (r: Transform)
        ensures
            r is Skip,
    {
        Transform::Skip
    }
}

/// The text that an architecture puts before or after a number, filed under `key`.
pub open spec fn affix(arch: &Arch, key: Seq<char>) -> Seq<char> {
    if arch.node_map@.contains_key(key) {
        arch.node_map@[key]@.text
    } else {
        Seq::empty()
    }
}

/// The node for the number `v` in the format `fmt`, framed by the
/// architecture's prefix and suffix for that format.
pub open spec fn value_node(v: ValueType, fmt: ValueTypeFmt, arch: &Arch) -> NodeView {
    NodeView {
        text: affix(arch, fmt.spec_pre()) + fmt.spec_render(v) + affix(arch, fmt.spec_post()),
        kind: NodeKind::Value(v),
    }
}

/// A static node with the given text.
pub open spec fn plain(text: Seq<char>) -> NodeView {
    NodeView { text, kind: NodeKind::Static }
}

/// The value that is looked up for a decoded `value`: for a relative one the
/// current address plus the value, wrapped to the width's mask.
pub open spec fn lookup_value(ao: ValOut, value: ValueType, address: Address) -> ValueType {
    if ao.rel {
        signed(address as nat).wrapping_add(value) & ao.data_type.spec_mask()
    } else {
        value
    }
}

/// How a symbol stands for `v`: by its name where `v` is its value, else by
/// its name, a plus sign and the distance of `v` from its value.
pub open spec fn symbol_text(s: SymbolView, v: ValueType) -> Seq<char> {
    if s.value == v {
        s.name
    } else {
        s.name + "+"@ + decimal_text(v - s.value, 0)
    }
}

/// Whether `s` is a label at `address`: its range covers the address, its
/// scope holds it, and it names a place in the code.
pub open spec fn is_label_at(s: SymbolView, address: Address) -> bool {
    s.matches(signed(address as nat), None) && s.scope.spec_is_in_scope(address) && s.kind
        == SymbolKind::Label
}

/// A line `name:` for each label at `address` among the symbols from `from`
/// on, in the order of definition.
pub open spec fn label_text(syms: Seq<SymbolView>, from: int, address: Address) -> Seq<char>
    decreases syms.len() - from,
{
    if from < 0 || from >= syms.len() {
        Seq::empty()
    } else {
        (if is_label_at(syms[from], address) {
            syms[from].name + ":\n"@
        } else {
            Seq::empty()
        }) + label_text(syms, from + 1, address)
    }
}

/// The pieces of a dump for the bytes of `slice` from `from` on: a space
/// before every byte but the first, and each byte as two hexadecimal digits.
pub open spec fn raw_body(slice: Seq<u8>, arch: &Arch, from: int) -> Seq<PieceView>
    decreases slice.len() - from,
{
    if from < 0 || from >= slice.len() {
        Seq::empty()
    } else {
        (if from > 0 {
            seq![PieceView { node: plain(" "@), kind: CallbackKind::Raw, raw: Seq::empty() }]
        } else {
            Seq::empty()
        }) + seq![
            PieceView {
                node: value_node(slice[from] as ValueType, ValueTypeFmt::LowerHex(2), arch),
                kind: CallbackKind::Raw,
                raw: seq![slice[from]],
            },
        ] + raw_body(slice, arch, from + 1)
    }
}

/// The node for a decoded value: the symbol that covers it at the current
/// address, or else the number itself.
pub open spec fn value_pieces(ao: ValOut, slice: Seq<u8>, arch: &Arch, ctx: ContextView) -> Seq<PieceView> {
    let value = arch.endianess.spec_decode(slice)->0;
    let wanted = lookup_value(ao, value, ctx.address());
    match ctx.first_symbol(wanted) {
        Some(s) => seq![
            PieceView { node: plain(symbol_text(s, wanted)), kind: CallbackKind::Symbol, raw: slice },
        ],
        None => seq![
            PieceView { node: value_node(value, ao.fmt, arch), kind: CallbackKind::Val, raw: slice },
        ],
    }
}

/// The nodes of a bracketed dump of `slice`; none where dumps are switched
/// off or there are no bytes.
pub open spec fn raw_pieces(slice: Seq<u8>, arch: &Arch, allow_raw: bool) -> Seq<PieceView> {
    if !allow_raw || slice.len() == 0 {
        Seq::empty()
    } else {
        seq![PieceView { node: plain(" ["@), kind: CallbackKind::Static, raw: Seq::empty() }]
            + raw_body(slice, arch, 0) + seq![
            PieceView { node: plain("]"@), kind: CallbackKind::Static, raw: Seq::empty() },
        ]
    }
}

/// The name of the label that analysis defines at `address`.
pub open spec fn auto_name(address: Address) -> Seq<char> {
    "auto_"@ + digits(address as nat, 10, false)
}

impl Transform {
    /// The width of the field that the operation reads.
    pub open spec fn spec_data_type(&self, addr_type: DataType) -> DataType {
        match self {
            Transform::Val(ao) => ao.data_type,
            Transform::DefSym(ds) => ds.data_type,
            Transform::DefSymAddress(_) => addr_type,
            _ => DataType::NoData,
        }
    }

    /// The number of bytes by which the operation moves the cursor.
    pub open spec fn spec_data_len(&self) -> usize {
        match self {
            Transform::Val(ao) => ao.data_type.spec_data_len(),
            Transform::Consume(skip) => *skip,
            _ => 0,
        }
    }

    /// The number of bytes that the operation reads, of a window of `available` bytes.
    pub open spec fn spec_read_len(&self, addr_type: DataType, available: nat) -> nat {
        match self {
            Transform::Val(_) => self.spec_data_len() as nat,
            Transform::Raw => available,
            _ => self.spec_data_type(addr_type).spec_data_len() as nat,
        }
    }

    /// Where in the window the bytes that the operation reads begin.
    pub open spec fn spec_offset(&self) -> usize {
        match self {
            Transform::Val(ao) => ao.offset,
            Transform::DefSym(ds) => ds.offset,
            Transform::DefSymAddress(ds) => ds.offset,
            _ => 0,
        }
    }

    /// The bytes that the operation reads from `window`; `None` where the
    /// window does not hold them.
    pub open spec fn spec_slice(&self, window: Seq<u8>, addr_type: DataType) -> Option<Seq<u8>> {
        let len = self.spec_read_len(addr_type, window.len());
        let offset = self.spec_offset() as int;
        if len == 0 {
            Some(Seq::empty())
        } else if offset + len <= window.len() {
            Some(window.subrange(offset, offset + len))
        } else {
            None
        }
    }

    /// The nodes that the operation renders, given the bytes it read.
    pub open spec fn spec_pieces(&self, slice: Seq<u8>, arch: &Arch, ctx: ContextView, name: NodeView) -> Seq<
        PieceView,
    > {
        match self {
            Transform::Val(ao) => value_pieces(*ao, slice, arch, ctx),
            Transform::Raw => raw_pieces(slice, arch, ctx.allow_raw),
            Transform::Label => seq![
                PieceView {
                    node: plain(label_text(ctx.syms, 0, ctx.address())),
                    kind: CallbackKind::Label,
                    raw: slice,
                },
            ],
            Transform::Static(s) => seq![PieceView { node: s@, kind: CallbackKind::Static, raw: slice }],
            Transform::MatcherName => seq![
                PieceView { node: name, kind: CallbackKind::MatcherName, raw: slice },
            ],
            Transform::Address(width) => seq![
                PieceView {
                    node: plain(zero_pad(digits(ctx.address() as nat, 16, false), *width as nat)),
                    kind: CallbackKind::Address,
                    raw: slice,
                },
            ],
            Transform::Pad(column) => {
                if *column > ctx.line_len {
                    seq![
                        PieceView {
                            node: plain(repeated(' ', (*column - ctx.line_len) as nat)),
                            kind: CallbackKind::Pad(*column),
                            raw: slice,
                        },
                    ]
                } else {
                    Seq::empty()
                }
            },
            _ => Seq::empty(),
        }
    }

    /// What rendering the operation does: its nodes go to the sink, and a
    /// label leaves the current line empty.
    pub open spec fn spec_render(&self, slice: Seq<u8>, arch: &Arch, ctx: ContextView, name: NodeView) -> Outcome<
        (),
    > {
        let out = emit_from(ctx, self.spec_pieces(slice, arch, ctx, name), 0, arch);
        if self is Label {
            Outcome { ctx: ContextView { line_len: 0, ..out.ctx }, ..out }
        } else {
            out
        }
    }

    /// The state after the operation took part in an analysis pass.
    pub open spec fn spec_analyze(&self, slice: Seq<u8>, arch: &Arch, ctx: ContextView) -> ContextView {
        match self {
            Transform::DefSym(ds) | Transform::DefSymAddress(ds) => ctx.defining(
                SymbolView {
                    name: ds.name@,
                    kind: ds.symbol_kind,
                    scope: ds.scope,
                    value: arch.endianess.spec_decode(slice)->0,
                    additional_values: Seq::empty(),
                    len: ds.len,
                },
            ),
            Transform::Val(ao) => {
                let value = arch.endianess.spec_decode(slice)->0;
                let wanted = lookup_value(*ao, value, ctx.address());
                if ao.auto_def_sym && ctx.first_symbol(wanted) is None {
                    ctx.defining(
                        SymbolView {
                            name: auto_name(ctx.address()),
                            kind: SymbolKind::Label,
                            scope: Scope::Global,
                            value: wanted,
                            additional_values: Seq::empty(),
                            len: 1,
                        },
                    )
                } else {
                    ctx
                }
            },
            _ => ctx,
        }
    }

    /// The state after the part of the operation that runs in every pass.
    pub open spec fn spec_control(&self, ctx: ContextView) -> ContextView {
        match self {
            Transform::OffsetAddress(change) => ContextView {
                offset: ctx.offset.wrapping_add_signed(*change),
                ..ctx
            },
            Transform::SetAddress(a) => ContextView { org: *a, offset: 0, ..ctx },
            Transform::SetFlag(key, value) => ContextView {
                flags: ctx.flags.insert(key@, value@),
                ..ctx
            },
            Transform::UnsetFlag(key) => ContextView { flags: ctx.flags.remove(key@), ..ctx },
            Transform::ChangeArch(key) => ContextView { arch_key: key@, ..ctx },
            _ => ctx,
        }
    }

    /// What the operation does on `window`: it fails where the window does
    /// not hold the bytes it reads; else it renders or analyses, according to
    /// the pass, then changes the state, and gives the number of bytes by
    /// which the cursor moves.
    pub open spec fn spec_apply(&self, window: Seq<u8>, arch: &Arch, ctx: ContextView, name: NodeView) -> Outcome<
        usize,
    > {
        match self.spec_slice(window, arch.addr_type) {
            None => Outcome::quiet(ctx, Err(ErrorView::TransformOutOfData(ctx.address()))),
            Some(slice) => {
                let first = if ctx.analyze {
                    Outcome::quiet(self.spec_analyze(slice, arch, ctx), Ok(()))
                } else {
                    self.spec_render(slice, arch, ctx, name)
                };
                Outcome {
                    ctx: self.spec_control(first.ctx),
                    trace: first.trace,
                    res: Ok(self.spec_data_len()),
                }
            },
        }
    }
}

/// The node for the number `v` in the format `fmt`, framed by the prefix and
/// suffix that `arch` files for that format.
pub fn try_to_node(v: ValueType, fmt: ValueTypeFmt, arch: &Arch) -> (r: Result<Node, Error>)
    ensures
        r is Ok,
        r->Ok_0@ == value_node(v, fmt, arch),
{
    let mut text = String::new();
    match arch.node_map.get(fmt.pre()) {
        Some(pre) => text.append(pre.string.as_str()),
        None => {},
    }
    let ghost head = text@;
    assert(head =~= affix(arch, fmt.spec_pre()));
    fmt.render_into(&mut text, v);
    match arch.node_map.get(fmt.post()) {
        Some(post) => text.append(post.string.as_str()),
        None => {},
    }
    assert(text@ =~= value_node(v, fmt, arch).text);
    Ok(Node { string: text, kind: NodeKind::Value(v) })
}

/// A list that holds the one piece.
fn single(node: Node, kind: CallbackKind, raw: &[u8]) -> (r: Vec<Piece>)
    ensures
        views(r@) == seq![PieceView { node: node@, kind, raw: raw@ }],
{
    let mut out: Vec<Piece> = Vec::new();
    out.push(Piece { node, kind, raw: slice_to_vec(raw) });
    assert(views(out@) =~= seq![PieceView { node: node@, kind, raw: raw@ }]);
    out
}

impl Transform {
    /// The operation that ends a line.
    pub fn new_line() -> (r: Transform)
        ensures
            r matches Transform::Static(n) && n@ == plain("\n"@),
    {
        Transform::Static(Node::text("\n"))
    }

    /// The operation that renders a tabulator.
    pub fn tab() -> (r: Transform)
        ensures
            r matches Transform::Static(n) && n@ == plain("\t"@),
    {
        Transform::Static(Node::text("\t"))
    }

    /// The operation that renders `n` spaces.
    pub fn space(n: usize) -> (r: Transform)
        ensures
            r matches Transform::Static(node) && node@ == plain(repeated(' ', n as nat)),
    {
        let mut text = String::new();
        proof {
            reveal_strlit(" ");
        }
        push_repeated(&mut text, " ", n);
        assert(text@ =~= repeated(' ', n as nat));
        Transform::Static(Node::new(text))
    }

    fn data_type(&self, addr_type: DataType) -> (r: DataType)
        ensures
            r == self.spec_data_type(addr_type),
    {
        match self {
            Transform::Val(ao) => ao.data_type,
            Transform::DefSym(ds) => ds.data_type,
            Transform::DefSymAddress(_) => addr_type,
            _ => DataType::NoData,
        }
    }

    /// The number of bytes that are read, but not consumed.
    fn read_len(&self, addr_type: DataType, data: &[u8]) -> (r: usize)
        ensures
            r == self.spec_read_len(addr_type, data@.len()),
    {
        match self {
            Transform::Val(_) => self.data_len(),
            Transform::Raw => data.len(),
            _ => self.data_type(addr_type).data_len(),
        }
    }

    fn offset(&self) -> (r: usize)
        ensures
            r == self.spec_offset(),
    {
        match self {
            Transform::Val(ao) => ao.offset,
            Transform::DefSym(ds) => ds.offset,
            Transform::DefSymAddress(ds) => ds.offset,
            _ => 0,
        }
    }

    /// The number of bytes that are consumed.
    fn data_len(&self) -> (r: usize)
        ensures
            r == self.spec_data_len(),
    {
        match self {
            Transform::Val(dt) => dt.data_type.data_len(),
            Transform::Consume(skip) => *skip,
            _ => 0,
        }
    }

    /// The `len` bytes of `data` from `offset` on, if `data` holds them.
    fn get_data(data: &[u8], offset: usize, len: usize) -> (r: Option<&[u8]>)
        ensures
            match r {
                Some(s) => (len == 0 && s@ == Seq::<u8>::empty()) || (len > 0 && offset + len
                    <= data@.len() && s@ == data@.subrange(offset as int, offset + len)),
                None => len > 0 && offset + len > data@.len(),
            },
    {
        if len == 0 {
            let s = vstd::slice::slice_subrange(data, 0, 0);
            assert(s@ =~= Seq::<u8>::empty());
            Some(s)
        } else if offset <= data.len() && len <= data.len() - offset {
            Some(vstd::slice::slice_subrange(data, offset, offset + len))
        } else {
            None
        }
    }

    /// The value of a field of up to eight bytes.
    fn to_value(data: &[u8], arch: &Arch) -> (r: Result<ValueType, Error>)
        ensures
            match arch.endianess.spec_decode(data@) {
                Some(v) => r == Ok::<ValueType, Error>(v),
                None => r is Err && r->Err_0@ == ErrorView::TransformOutOfData(0),
            },
            data@.len() <= 8 ==> r is Ok,
    {
        match arch.endianess.decode(data) {
            Some(v) => Ok(v),
            None => Err(Error::TransformOutOfData(0)),
        }
    }

    /// The address that a field of up to eight bytes holds.
    fn to_addr(data: &[u8], arch: &Arch) -> (r: Result<ValueType, Error>)
        ensures
            match arch.endianess.spec_decode(data@) {
                Some(v) => r == Ok::<ValueType, Error>(v),
                None => r is Err && r->Err_0@ == ErrorView::TransformOutOfData(0),
            },
            data@.len() <= 8 ==> r is Ok,
    {
        Self::to_value(data, arch)
    }

    /// The node for a decoded value.
    fn output_value(data: &[u8], arch: &Arch, ctx: &Context, ao: &ValOut) -> (r: Vec<Piece>)
        requires
            data@.len() <= 8,
        ensures
            views(r@) == value_pieces(*ao, data@, arch, ctx@),
    {
        let value = match Self::to_value(data, arch) {
            Ok(v) => v,
            Err(_) => 0,
        };
        let wanted = Self::lookup(ao, value, ctx.address());
        match ctx.get_first_symbol(wanted) {
            Some(sym) => {
                let mut name = sym.name.clone();
                if sym.value != wanted {
                    proof {
                        reveal_strlit("+");
                    }
                    name.append("+");
                    push_decimal(&mut name, (wanted as i128) - (sym.value as i128), 0);
                }
                assert(name@ =~= symbol_text(sym@, wanted));
                single(Node::new(name), CallbackKind::Symbol, data)
            },
            None => {
                let node = match try_to_node(value, ao.fmt, arch) {
                    Ok(n) => n,
                    Err(_) => Node::default(),
                };
                single(node, CallbackKind::Val, data)
            },
        }
    }

    /// The value under which a decoded value is looked up.
    fn lookup(ao: &ValOut, value: ValueType, address: Address) -> (r: ValueType)
        ensures
            r == lookup_value(*ao, value, address),
    {
        if ao.rel {
            Endianess::to_signed(address).wrapping_add(value) & ao.data_type.mask()
        } else {
            value
        }
    }

    /// The nodes of a dump of `data`.
    fn output_raw(data: &[u8], arch: &Arch, ctx: &Context) -> (r: Vec<Piece>)
        ensures
            views(r@) == raw_pieces(data@, arch, ctx@.allow_raw),
    {
        let mut out: Vec<Piece> = Vec::new();
        if !ctx.allow_raw || data.len() == 0 {
            assert(views(out@) =~= Seq::<PieceView>::empty());
            return out;
        }
        let none = vstd::slice::slice_subrange(data, 0, 0);
        assert(none@ =~= Seq::<u8>::empty());
        let open = Piece { node: Node::text(" ["), kind: CallbackKind::Static, raw: slice_to_vec(none) };
        let ghost head = seq![open@];
        proof {
            lemma_views_push(out@, open);
        }
        out.push(open);
        assert(views(out@) =~= head);
        let mut i: usize = 0;
        while i < data.len()
            invariant
                i <= data.len(),
                none@ == Seq::<u8>::empty(),
                head + raw_body(data@, arch, 0) == views(out@) + raw_body(data@, arch, i as int),
            decreases data.len() - i,
        {
            let ghost before = views(out@);
            let ghost rest = raw_body(data@, arch, i + 1);
            if i > 0 {
                let gap = Piece { node: Node::text(" "), kind: CallbackKind::Raw, raw: slice_to_vec(none) };
                proof {
                    lemma_views_push(out@, gap);
                }
                out.push(gap);
            }
            let node = match try_to_node(data[i] as ValueType, ValueTypeFmt::LowerHex(2), arch) {
                Ok(n) => n,
                Err(_) => Node::default(),
            };
            let mut one: Vec<u8> = Vec::new();
            one.push(data[i]);
            assert(one@ =~= seq![data@[i as int]]);
            let byte = Piece { node, kind: CallbackKind::Raw, raw: one };
            proof {
                lemma_views_push(out@, byte);
            }
            out.push(byte);
            proof {
                let gap = seq![PieceView { node: plain(" "@), kind: CallbackKind::Raw, raw: Seq::empty() }];
                let shown = seq![byte@];
                if i > 0 {
                    assert(views(out@) =~= before + gap + shown);
                    assert(before + (gap + shown + rest) =~= (before + gap + shown) + rest);
                } else {
                    assert(views(out@) =~= before + shown);
                    assert(before + (Seq::<PieceView>::empty() + shown + rest) =~= (before + shown) + rest);
                }
            }
            i += 1;
        }
        let close = Piece { node: Node::text("]"), kind: CallbackKind::Static, raw: slice_to_vec(none) };
        proof {
            lemma_views_push(out@, close);
            assert(views(out@) + raw_body(data@, arch, i as int) =~= views(out@));
        }
        out.push(close);
        out
    }

    /// A line `name:` for every label at the current address.
    fn output_label(data: &[u8], ctx: &Context) -> (r: Vec<Piece>)
        ensures
            views(r@) == seq![
                PieceView {
                    node: plain(label_text(ctx@.syms, 0, ctx@.address())),
                    kind: CallbackKind::Label,
                    raw: data@,
                },
            ],
    {
        let address = ctx.address();
        let value = Endianess::to_signed(address);
        let mut result = String::new();
        let mut i: usize = 0;
        assert(result@ + label_text(ctx@.syms, 0, address) =~= label_text(ctx@.syms, 0, address));
        while i < ctx.syms.map.len()
            invariant
                i <= ctx.syms.map.len(),
                address == ctx@.address(),
                value == signed(address as nat),
                label_text(ctx@.syms, 0, address) == result@ + label_text(ctx@.syms, i as int, address),
            decreases ctx.syms.map.len() - i,
        {
            let label = &ctx.syms.map[i];
            let ghost before = result@;
            let ghost rest = label_text(ctx@.syms, i + 1, address);
            assert(ctx@.syms[i as int] == label@);
            if label.is_match(value, None) && label.scope.is_in_scope(address) && label.kind
                == SymbolKind::Label {
                result.append(label.name.as_str());
                result.append(":\n");
                assert(before + (label@.name + ":\n"@ + rest) =~= result@ + rest);
            } else {
                assert(before + (Seq::<char>::empty() + rest) =~= result@ + rest);
            }
            i += 1;
        }
        assert(result@ + label_text(ctx@.syms, i as int, address) =~= result@);
        single(Node::new(result), CallbackKind::Label, data)
    }

    /// The nodes that the operation renders.
    fn pieces(&self, data: &[u8], arch: &Arch, ctx: &Context, matcher_name: &Node) -> (r: Vec<Piece>)
        requires
            self is Val ==> data@.len() <= 8,
        ensures
            views(r@) == self.spec_pieces(data@, arch, ctx@, matcher_name@),
    {
        match self {
            Transform::Val(ao) => Self::output_value(data, arch, ctx, ao),
            Transform::Raw => Self::output_raw(data, arch, ctx),
            Transform::Label => Self::output_label(data, ctx),
            Transform::Static(s) => single(s.clone(), CallbackKind::Static, data),
            Transform::MatcherName => single(matcher_name.clone(), CallbackKind::MatcherName, data),
            Transform::Address(width) => {
                let mut text = String::new();
                push_radix(&mut text, ctx.address(), 16, false, *width);
                assert(text@ =~= zero_pad(digits(ctx@.address() as nat, 16, false), *width as nat));
                single(Node::new(text), CallbackKind::Address, data)
            },
            Transform::Pad(column) => {
                if *column > ctx.tr_ctx.line_len {
                    let mut text = String::new();
                    proof {
                        reveal_strlit(" ");
                    }
                    push_repeated(&mut text, " ", *column - ctx.tr_ctx.line_len);
                    assert(text@ =~= repeated(' ', (*column - ctx@.line_len) as nat));
                    single(Node::new(text), CallbackKind::Pad(*column), data)
                } else {
                    let out: Vec<Piece> = Vec::new();
                    assert(views(out@) =~= Seq::<PieceView>::empty());
                    out
                }
            },
            _ => {
                let out: Vec<Piece> = Vec::new();
                assert(views(out@) =~= Seq::<PieceView>::empty());
                out
            },
        }
    }

    /// The part of the operation that runs in a rendering pass.
    fn no_analyze<F: FnMut(&Node, CallbackKind, &[u8], &Arch, &Context) -> Result<(), Error>>(
        &self,
        f: &mut F,
        data: &[u8],
        arch: &Arch,
        ctx: &mut Context,
        matcher_name: &Node,
    ) -> (r: Result<(), Error>)
        requires
            sink_total(*old(f)),
            self is Val ==> data@.len() <= 8,
        ensures
            *final(f) == *old(f),
            faithful(*old(f), self.spec_render(data@, arch, old(ctx)@, matcher_name@), r, final(ctx)@),
    {
        let pieces = self.pieces(data, arch, ctx, matcher_name);
        let ghost sent = emit_from(old(ctx)@, views(pieces@), 0, arch);
        let ghost whole = self.spec_render(data@, arch, old(ctx)@, matcher_name@);
        proof {
            lemma_emit_from(old(ctx)@, views(pieces@), 0, arch);
        }
        match deliver(f, &pieces, arch, ctx) {
            Ok(u) => {
                proof {
                    lemma_faithful_ok(*f, sent, Ok::<(), Error>(u), ctx@);
                }
            },
            Err(e) => {
                proof {
                    assert(whole.trace.take(sent.trace.len() as int) =~= sent.trace);
                    lemma_faithful_abort(*f, sent, Err::<(), Error>(e), ctx@, whole, e);
                }
                return Err(e);
            },
        }
        if let Transform::Label = self {
            ctx.tr_ctx.line_len = 0;
        }
        proof {
            assert(whole.res->Ok_0 == ());
            lemma_met(*f, whole, Ok::<(), Error>(()), ctx@);
        }
        Ok(())
    }

    /// The part of the operation that runs in an analysis pass.
    fn analyze(&self, data: &[u8], arch: &Arch, ctx: &mut Context)
        requires
            self is Val || self is DefSym || self is DefSymAddress ==> data@.len() <= 8,
        ensures
            final(ctx)@ == self.spec_analyze(data@, arch, old(ctx)@),
    {
        match self {
            Transform::DefSym(ds) => {
                let value = match Self::to_value(data, arch) {
                    Ok(v) => v,
                    Err(_) => 0,
                };
                ctx.def_symbol(Symbol::new(ds.name.clone(), ds.symbol_kind, ds.scope, value, ds.len));
            },
            Transform::DefSymAddress(ds) => {
                let value = match Self::to_addr(data, arch) {
                    Ok(v) => v,
                    Err(_) => 0,
                };
                ctx.def_symbol(Symbol::new(ds.name.clone(), ds.symbol_kind, ds.scope, value, ds.len));
            },
            Transform::Val(ao) => {
                let value = match Self::to_value(data, arch) {
                    Ok(v) => v,
                    Err(_) => 0,
                };
                let address = ctx.address();
                let wanted = Self::lookup(ao, value, address);
                if ao.auto_def_sym && ctx.get_first_symbol(wanted).is_none() {
                    let mut name = String::from_str("auto_");
                    push_radix(&mut name, address, 10, false, 0);
                    ctx.def_symbol(Symbol::new(name, SymbolKind::Label, Scope::Global, wanted, 1));
                }
            },
            _ => {},
        }
    }

    /// The part of the operation that runs in every pass.
    fn analyze_and_no_analyze(&self, ctx: &mut Context)
        ensures
            final(ctx)@ == self.spec_control(old(ctx)@),
    {
        match self {
            Transform::OffsetAddress(change) => {
                ctx.offset = ctx.offset.wrapping_add_signed(*change);
            },
            Transform::SetAddress(change) => {
                ctx.org = *change;
                ctx.offset = 0;
            },
            Transform::SetFlag(key, value) => {
                ctx.def_flag(key.as_str(), value.as_str());
            },
            Transform::UnsetFlag(key) => {
                ctx.undef_flag(key.as_str());
            },
            Transform::ChangeArch(val) => {
                ctx.arch_key = val.clone();
            },
            _ => {},
        }
    }

    /// Runs the operation on the window `data`: renders through `f` or
    /// analyses, changes the context, and gives the number of bytes by which
    /// the cursor is to move.
    pub fn apply<F: FnMut(&Node, CallbackKind, &[u8], &Arch, &Context) -> Result<(), Error>>(
        &self,
        f: &mut F,
        data: &[u8],
        arch: &Arch,
        ctx: &mut Context,
        matcher_name: &Node,
    ) -> (r: Result<usize, Error>)
        requires
            sink_total(*old(f)),
        ensures
            *final(f) == *old(f),
            faithful(*old(f), self.spec_apply(data@, arch, old(ctx)@, matcher_name@), r, final(ctx)@),
    {
        let ghost whole = self.spec_apply(data@, arch, old(ctx)@, matcher_name@);
        let slice = match Self::get_data(data, self.offset(), self.read_len(arch.addr_type, data)) {
            Some(s) => s,
            None => {
                proof {
                    lemma_accepted_none(*f, whole.trace);
                    lemma_met(*f, whole, Err::<usize, Error>(Error::TransformOutOfData(ctx@.address())), ctx@);
                }
                return Err(Error::TransformOutOfData(ctx.address()));
            },
        };
        if ctx.analyze {
            self.analyze(slice, arch, ctx);
            proof {
                lemma_accepted_none(*f, whole.trace);
            }
        } else {
            let ghost part = self.spec_render(slice@, arch, old(ctx)@, matcher_name@);
            proof {
                lemma_emit_from(old(ctx)@, self.spec_pieces(slice@, arch, old(ctx)@, matcher_name@), 0, arch);
            }
            match self.no_analyze(f, slice, arch, ctx, matcher_name) {
                Ok(u) => {
                    proof {
                        lemma_faithful_ok(*f, part, Ok::<(), Error>(u), ctx@);
                    }
                },
                Err(e) => {
                    proof {
                        assert(whole.trace.take(part.trace.len() as int) =~= part.trace);
                        lemma_faithful_abort(*f, part, Err::<(), Error>(e), ctx@, whole, e);
                    }
                    return Err(e);
                },
            }
        }
        self.analyze_and_no_analyze(ctx);
        proof {
            lemma_met(*f, whole, Ok::<usize, Error>(self.spec_data_len()), ctx@);
        }
        Ok(self.data_len())
    }
}

} // verus!
