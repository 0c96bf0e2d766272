//! What a caller configures before a disassembly: the architecture, symbols
//! to define, the window, and the commands of the batch front end.
use vstd::prelude::*;
use crate::arch::context::{Context, ContextView};
use crate::arch::{a6502, a65c02, a65c816, Archs};
use crate::error::{Error, ErrorView};
use crate::search::first_index;
use crate::symbols::{named, Scope, Symbol, SymbolKind, SymbolView};
use crate::{Address, ValueType};

verus! {

/// Where a disassembly reads from and writes to; without a path the
/// standard streams are used.
#[derive(Clone, Debug)]
pub struct DisasCommand {
    pub input: Option<String>,
    pub output: Option<String>,
    /// Whether an analysis pass precedes the rendering pass.
    pub pre_analyze: bool,
}

impl Default for DisasCommand {
    fn default() -> (r: DisasCommand)
        ensures
            r.input is None,
            r.output is None,
            !r.pre_analyze,
    {
        DisasCommand { input: None, output: None, pre_analyze: false }
    }
}

/// A symbol as a caller describes it.
#[derive(Clone, Debug)]
pub struct DefSym {
    /// The first address of the scope.
    pub from: Option<Address>,
    /// The address behind the scope.
    pub to: Option<Address>,
    pub len: Option<usize>,
    /// Whether the symbol names a constant instead of a label.
    pub const_value: bool,
    pub name: String,
    pub value: ValueType,
}

impl DefSym {
    /// The scope that the two bounds give: global without any; with one
    /// bound, that bound stands for both.
    pub open spec fn spec_scope(from: Option<Address>, to: Option<Address>) -> Scope {
        match (from, to) {
            (None, None) => Scope::Global,
            (Some(f), Some(t)) => Scope::Range(f, t),
            (Some(f), None) => Scope::Range(f, f),
            (None, Some(t)) => Scope::Range(t, t),
        }
    }

    /// The symbol that is described: a label unless marked as a constant, of
    /// length one unless a length is given.
    pub fn into_symbol(self) -> (r: Symbol)
        ensures
            r@ == (SymbolView {
                name: self.name@,
                kind: if self.const_value {
                    SymbolKind::Const
                } else {
                    SymbolKind::Label
                },
                scope: Self::spec_scope(self.from, self.to),
                value: self.value,
                additional_values: Seq::empty(),
                len: match self.len {
                    Some(l) => l,
                    None => 1,
                },
            }),
    {
        let kind = if self.const_value {
            SymbolKind::Const
        } else {
            SymbolKind::Label
        };
        let scope = match (self.from, self.to) {
            (None, None) => Scope::Global,
            (Some(f), Some(t)) => Scope::Range(f, t),
            (Some(f), None) => Scope::Range(f, f),
            (None, Some(t)) => Scope::Range(t, t),
        };
        let len = match self.len {
            Some(l) => l,
            None => 1,
        };
        Symbol::new(self.name, kind, scope, self.value, len)
    }
}

/// The commands of the batch front end.
#[derive(Clone, Debug)]
pub enum Commands {
    Org { address: Address },
    DefSym(DefSym),
    Disas(DisasCommand),
    Patch(DisasCommand),
    DumpArch,
    DumpCtx,
}

impl Default for Commands {
    fn default() -> (r: Commands)
        ensures
            r is Disas,
    {
        Commands::Disas(DisasCommand::default())
    }
}

/// The architectures that can be selected by name.
#[derive(Clone, Copy, Debug, PartialEq, Eq, Structural)]
pub enum ArchKind {
    Arch6502,
    Arch65c02,
    Arch65c816,
    /// An architecture that the caller loads from a description.
    ArchCustom,
}

impl Default for ArchKind {
    fn default() -> (r: ArchKind)
        ensures
            r == ArchKind::Arch6502,
    {
        ArchKind::Arch6502
    }
}

impl ArchKind {
    /// The built-in registry of this kind; `None` for a custom architecture.
    pub fn to_arch(&self) -> (r: Option<Archs>)
        ensures
            r is None <==> *self == ArchKind::ArchCustom,
            r is Some ==> a6502::well_formed(&r->0.archs@[""@]) && a6502::family(&r->0.archs@[""@])
                && r->0.archs@.dom() =~= set![""@] && r->0.org == 0 && r->0.syms@ == Seq::<SymbolView>::empty(),
            *self == ArchKind::Arch6502 ==> r->0.archs@[""@].addr_type == crate::value::DataType::U16
                && a6502::shaped_6502(r->0.archs@[""@].transforms@) && a6502::built_6502(
                r->0.archs@[""@].patterns@.drop_last(),
            ),
            *self == ArchKind::Arch65c02 ==> r->0.archs@[""@].addr_type == crate::value::DataType::U16
                && a6502::shaped_6502(r->0.archs@[""@].transforms@) && a65c02::shaped_own(
                r->0.archs@[""@].transforms@,
            ) && a65c02::built_65c02(r->0.archs@[""@].patterns@.drop_last()),
            *self == ArchKind::Arch65c816 ==> r->0.archs@[""@].addr_type == crate::value::DataType::U32
                && a6502::shaped_6502(r->0.archs@[""@].transforms@) && a65c02::shaped_own(
                r->0.archs@[""@].transforms@,
            ) && a65c816::shaped_own(r->0.archs@[""@].transforms@) && a65c816::built_65c816(
                r->0.archs@[""@].patterns@.drop_last(),
            ),
    {
        match self {
            ArchKind::Arch6502 => Some(a6502::arch()),
            ArchKind::Arch65c02 => Some(a65c02::arch()),
            ArchKind::Arch65c816 => Some(a65c816::arch()),
            ArchKind::ArchCustom => None,
        }
    }

    /// The name under which the kind is selected.
    pub fn name(&self) -> (r: &'static str)
        ensures
            r@ == match self {
                ArchKind::Arch6502 => "arch6502"@,
                ArchKind::ArchCustom => "archCustom"@,
                ArchKind::Arch65c02 => "arch65c02"@,
                ArchKind::Arch65c816 => "arch65c816"@,
            },
    {
        match self {
            ArchKind::Arch6502 => "arch6502",
            ArchKind::ArchCustom => "archCustom",
            ArchKind::Arch65c02 => "arch65c02",
            ArchKind::Arch65c816 => "arch65c816",
        }
    }
}

/// How much a run reports of what it does.
#[derive(Clone, Copy, Debug, PartialEq, Eq, Structural)]
pub enum LevelFilter {
    Off,
    Error,
    Warn,
    Info,
    Debug,
    Trace,
}

/// The level of reporting for a count of `verbose` switches.
pub fn verbose_to_level_filter(v: u8) -> (r: LevelFilter)
    ensures
        r == match v {
            0 => LevelFilter::Off,
            1 => LevelFilter::Error,
            2 => LevelFilter::Warn,
            3 => LevelFilter::Info,
            4 => LevelFilter::Debug,
            _ => LevelFilter::Trace,
        },
{
    match v {
        0 => LevelFilter::Off,
        1 => LevelFilter::Error,
        2 => LevelFilter::Warn,
        3 => LevelFilter::Info,
        4 => LevelFilter::Debug,
        _ => LevelFilter::Trace,
    }
}

/// The state after the settings of a run were applied: the origin, where one
/// is given; the start of the window; and the length of the window.
pub open spec fn spec_settings(ctx: ContextView, org: Option<Address>, start_read: Option<usize>, read_len: Option<
    usize,
>) -> ContextView {
    let with_org = match org {
        Some(o) => ContextView { org: o, ..ctx },
        None => ctx,
    };
    ContextView {
        len_read: read_len,
        ..with_org.starting_at(
            match start_read {
                Some(s) => s,
                None => 0,
            },
        )
    }
}

/// Applies the settings of a run to `ctx`: the origin, the start of the
/// window, and its length. Where a label is given, the window starts at the
/// label instead; an unknown label is a failure, and then the length is not
/// set.
pub fn read_ctx(
    ctx: &mut Context,
    org: Option<Address>,
    start_read: Option<usize>,
    start_at_label: Option<&str>,
    read_len: Option<usize>,
) -> (r: Result<(), Error>)
    ensures
        match start_at_label {
            None => r is Ok && final(ctx)@ == spec_settings(old(ctx)@, org, start_read, read_len),
            Some(label) => match first_index(old(ctx)@.syms, named(label@), 0) {
                Some(i) => r is Ok && final(ctx)@ == (ContextView {
                    len_read: read_len,
                    ..spec_settings(old(ctx)@, org, start_read, read_len).starting_at(
                        crate::arch::context::symbol_start(
                            old(ctx)@.syms[i].value,
                            spec_settings(old(ctx)@, org, start_read, read_len).org,
                        ),
                    )
                }),
                None => r is Err && r->Err_0@ == ErrorView::LabelNotFound(label@) && final(ctx)@ == (
                ContextView {
                    len_read: old(ctx)@.len_read,
                    ..spec_settings(old(ctx)@, org, start_read, read_len)
                }),
            },
        },
{
    match org {
        Some(o) => {
            ctx.org = o;
        },
        None => {},
    }
    ctx.set_start(start_read);
    match start_at_label {
        Some(label) => {
            match ctx.set_start_to_symbol(label) {
                Ok(u) => {},
                Err(e) => {
                    return Err(e);
                },
            }
        },
        None => {},
    }
    ctx.set_len(read_len);
    Ok(())
}

} // verus!
