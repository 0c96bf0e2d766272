use std::sync::Arc;

use litedasm::arch::a6502;
use litedasm::arch::{
    Arch, Archs, CallbackKind, Context, DefSym, Endianess, Matcher, Node, NodeKind, Pattern,
    PatternAt, StaticOp, Transform, ValOut,
};
use litedasm::error::Error;
use litedasm::name_map::NameMap;
use litedasm::symbols::{Scope, Symbol, SymbolKind, SymbolList};
use litedasm::value::{DataType, ValueTypeFmt};

fn hex8(offset: usize) -> ValOut {
    ValOut {
        offset,
        fmt: ValueTypeFmt::LowerHex(2),
        data_type: DataType::U8,
        rel: false,
        auto_def_sym: false,
    }
}

fn rule(patterns: Vec<PatternAt>, transform: &str, name: &str) -> Matcher {
    Matcher {
        patterns,
        transforms: transform.to_string(),
        name: Node::new(name.to_string()),
    }
}

fn catch_all() -> Matcher {
    rule(vec![PatternAt::new(Pattern::Any, 0)], "byte", ".db")
}

fn plain_arch(patterns: Vec<Matcher>, transforms: Vec<(&str, Vec<Transform>)>) -> Arch {
    let mut map: NameMap<Vec<Transform>> = NameMap::new();
    map.insert(
        "byte".to_string(),
        vec![
            Transform::MatcherName,
            Transform::Static(Node::new(" ".to_string())),
            Transform::Val(hex8(0)),
            Transform::new_line(),
        ],
    );
    for (name, list) in transforms {
        map.insert(name.to_string(), list);
    }
    Arch {
        patterns,
        transforms: map,
        pre_patterns: vec![],
        post_patterns: vec![],
        endianess: Endianess::Little,
        addr_type: DataType::U16,
        node_map: NameMap::new(),
    }
}

fn registry(archs: Vec<(&str, Arch)>) -> Archs {
    let mut map: NameMap<Arch> = NameMap::new();
    for (key, arch) in archs {
        map.insert(key.to_string(), arch);
    }
    Archs {
        archs: map,
        org: 0,
        syms: SymbolList::default(),
    }
}

fn render(archs: &Archs, ctx: &mut Context, data: &[u8]) -> Result<String, Error> {
    let mut out = String::new();
    archs.disas_ctx(
        |n, _kind, _raw, _arch, _ctx| {
            out.push_str(&n.string);
            Ok(())
        },
        data,
        ctx,
    )?;
    Ok(out)
}

#[test]
fn catch_all_covers_every_byte() {
    let arch = a6502::arch();
    for byte in 0..=255u8 {
        let mut ctx = Context::default();
        let r = render(&arch, &mut ctx, &[byte]);
        assert!(!matches!(r, Err(Error::NoMatch)));
        assert!(r.is_ok());
        assert_eq!(1, ctx.address());
    }
}

#[test]
fn no_rule_is_no_match() {
    let archs = registry(vec![(
        "",
        plain_arch(
            vec![rule(vec![PatternAt::new(Pattern::Exact(1), 0)], "byte", "one")],
            vec![],
        ),
    )]);
    let mut ctx = Context::default();
    assert!(matches!(
        render(&archs, &mut ctx, &[1, 2]),
        Err(Error::NoMatch)
    ));
    assert_eq!(1, ctx.address());
}

#[test]
fn window_is_clamped_to_the_input() {
    let archs = registry(vec![("", plain_arch(vec![catch_all()], vec![]))]);

    let mut ctx = Context::default();
    ctx.set_start(Some(1));
    ctx.set_len(Some(2));
    assert_eq!(
        ".db 02\n.db 03\n",
        render(&archs, &mut ctx, &[1, 2, 3, 4]).unwrap()
    );
    assert_eq!(3, ctx.address());

    let mut ctx = Context::default();
    ctx.set_start(Some(2));
    assert_eq!(
        ".db 03\n.db 04\n",
        render(&archs, &mut ctx, &[1, 2, 3, 4]).unwrap()
    );

    let mut ctx = Context::default();
    ctx.set_start(Some(3));
    ctx.set_len(Some(100));
    assert_eq!(".db 04\n", render(&archs, &mut ctx, &[1, 2, 3, 4]).unwrap());

    let mut ctx = Context::default();
    ctx.set_start(Some(9));
    assert_eq!("", render(&archs, &mut ctx, &[1, 2, 3, 4]).unwrap());
    assert_eq!(9, ctx.address());
}

#[test]
fn instruction_across_the_window_edge_is_out_of_data() {
    let wide = rule(vec![PatternAt::new(Pattern::Exact(0xAA), 0)], "wide", "wide");
    let archs = registry(vec![(
        "",
        plain_arch(
            vec![wide, catch_all()],
            vec![(
                "wide",
                vec![
                    Transform::MatcherName,
                    Transform::Consume(1),
                    Transform::Val(ValOut {
                        offset: 0,
                        fmt: ValueTypeFmt::LowerHex(4),
                        data_type: DataType::U16,
                        rel: false,
                        auto_def_sym: false,
                    }),
                ],
            )],
        ),
    )]);
    let mut ctx = Context::default();
    ctx.set_org(0x40);
    ctx.set_len(Some(2));
    // the opcode is consumed when the operand is found missing
    assert!(matches!(
        render(&archs, &mut ctx, &[0xAA, 0x34, 0x12]),
        Err(Error::TransformOutOfData(0x41))
    ));

    let mut ctx = Context::default();
    assert_eq!("wide1234", render(&archs, &mut ctx, &[0xAA, 0x34, 0x12]).unwrap());
}

#[test]
fn out_of_data_names_the_current_address() {
    let wide = rule(vec![PatternAt::new(Pattern::Exact(0xAA), 0)], "wide", "wide");
    let archs = registry(vec![(
        "",
        plain_arch(
            vec![wide, catch_all()],
            vec![(
                "wide",
                vec![
                    Transform::Consume(1),
                    Transform::Val(ValOut {
                        offset: 0,
                        fmt: ValueTypeFmt::LowerHex(4),
                        data_type: DataType::U16,
                        rel: false,
                        auto_def_sym: false,
                    }),
                ],
            )],
        ),
    )]);
    // two bytes are rendered, then the wide instruction lacks a byte: the
    // opcode is consumed, so the address stands behind it
    let mut ctx = Context::default();
    ctx.set_org(0x100);
    ctx.set_start(Some(1));
    assert!(matches!(
        render(&archs, &mut ctx, &[0, 1, 2, 0xAA, 0x34]),
        Err(Error::TransformOutOfData(0x104))
    ));
    assert_eq!(0x104, ctx.address());

    let skip = rule(vec![PatternAt::new(Pattern::Exact(7), 0)], "skip", "skip");
    let archs = registry(vec![(
        "",
        plain_arch(vec![skip, catch_all()], vec![("skip", vec![Transform::Consume(3)])]),
    )]);
    let mut ctx = Context::default();
    ctx.set_org(0x20);
    assert!(matches!(
        render(&archs, &mut ctx, &[1, 7, 0]),
        Err(Error::TransformOutOfData(0x21))
    ));
}

#[test]
fn advance_past_the_window_is_out_of_data() {
    let skip = rule(vec![PatternAt::new(Pattern::Exact(7), 0)], "skip", "skip");
    let archs = registry(vec![(
        "",
        plain_arch(vec![skip], vec![("skip", vec![Transform::Consume(3)])]),
    )]);
    let mut ctx = Context::default();
    assert!(matches!(
        render(&archs, &mut ctx, &[7, 0]),
        Err(Error::TransformOutOfData(0))
    ));
    let mut ctx = Context::default();
    assert_eq!("", render(&archs, &mut ctx, &[7, 0, 0]).unwrap());
    assert_eq!(3, ctx.address());
}

#[test]
fn unknown_transform_is_reported() {
    let archs = registry(vec![(
        "",
        plain_arch(
            vec![rule(vec![PatternAt::new(Pattern::Any, 0)], "missing", "x")],
            vec![],
        ),
    )]);
    let mut ctx = Context::default();
    match render(&archs, &mut ctx, &[1]) {
        Err(Error::TransformNotFound(name)) => assert_eq!("missing", name),
        _ => panic!("expected a missing transform"),
    }
}

#[test]
fn unknown_architecture_is_reported() {
    let archs = registry(vec![("", plain_arch(vec![catch_all()], vec![]))]);
    let mut ctx = Context::default();
    ctx.arch_key = "other".to_string();
    match render(&archs, &mut ctx, &[1]) {
        Err(Error::ArchNotFound(key)) => assert_eq!("other", key),
        _ => panic!("expected a missing architecture"),
    }
    let mut ctx = Context::default();
    ctx.arch_key = "other".to_string();
    assert_eq!("", render(&archs, &mut ctx, &[]).unwrap());
}

#[test]
fn instruction_without_progress_ends_the_pass() {
    let archs = registry(vec![(
        "",
        plain_arch(
            vec![rule(vec![PatternAt::new(Pattern::Any, 0)], "idle", "idle")],
            vec![("idle", vec![Transform::MatcherName])],
        ),
    )]);
    let mut ctx = Context::default();
    let mut out = String::new();
    let r = archs.disas_ctx(
        |n, _kind, _raw, _arch, _ctx| {
            out.push_str(&n.string);
            Ok(())
        },
        &[1, 2],
        &mut ctx,
    );
    assert!(matches!(r, Err(Error::Unknown)));
    assert_eq!("idle", out);
}

#[test]
fn architecture_switch_takes_effect_with_the_next_instruction() {
    let to_b = rule(vec![PatternAt::new(Pattern::Exact(0xB0), 0)], "to_b", "switch");
    let a = plain_arch(
        vec![to_b, catch_all()],
        vec![(
            "to_b",
            vec![
                Transform::MatcherName,
                Transform::ChangeArch("b".to_string()),
                Transform::Consume(1),
                Transform::new_line(),
            ],
        )],
    );
    let b = plain_arch(
        vec![rule(vec![PatternAt::new(Pattern::Any, 0)], "byte", ".word")],
        vec![],
    );
    let archs = registry(vec![("", a), ("b", b)]);
    let mut ctx = Context::default();
    assert_eq!(
        ".db 01\nswitch\n.word 02\n",
        render(&archs, &mut ctx, &[1, 0xB0, 2]).unwrap()
    );
    assert_eq!("b", ctx.arch_key);
}

#[test]
fn flags_select_among_rules() {
    let wide = rule(
        vec![
            PatternAt::new(Pattern::Exact(1), 0),
            PatternAt::new(Pattern::Flag("w".to_string(), Some("on".to_string())), 0),
        ],
        "set",
        "wide",
    );
    let narrow = rule(
        vec![
            PatternAt::new(Pattern::Exact(1), 0),
            PatternAt::new(Pattern::Flag("w".to_string(), None), 0),
        ],
        "set",
        "narrow",
    );
    let clear = rule(vec![PatternAt::new(Pattern::Exact(2), 0)], "clear", "clear");
    let archs = registry(vec![(
        "",
        plain_arch(
            vec![wide, narrow, clear, catch_all()],
            vec![
                (
                    "set",
                    vec![
                        Transform::MatcherName,
                        Transform::SetFlag("w".to_string(), "on".to_string()),
                        Transform::Consume(1),
                        Transform::new_line(),
                    ],
                ),
                (
                    "clear",
                    vec![
                        Transform::MatcherName,
                        Transform::UnsetFlag("w".to_string()),
                        Transform::Consume(1),
                        Transform::new_line(),
                    ],
                ),
            ],
        ),
    )]);
    let mut ctx = Context::default();
    assert_eq!(
        "narrow\nwide\nclear\nnarrow\n",
        render(&archs, &mut ctx, &[1, 1, 2, 1]).unwrap()
    );
    assert_eq!(Some(&"on".to_string()), ctx.get_flag("w"));
    ctx.undef_flag("w");
    assert_eq!(None, ctx.get_flag("w"));
}

#[test]
fn patterns_of_every_kind() {
    let arch = plain_arch(vec![], vec![]);
    let mut ctx = Context::default();
    ctx.set_org(0x10);
    assert!(Pattern::Exact(3).is_match(&arch, &ctx, 3));
    assert!(!Pattern::Exact(3).is_match(&arch, &ctx, 4));
    assert!(Pattern::And(0x0F).is_match(&arch, &ctx, 0x18));
    assert!(!Pattern::And(0x0F).is_match(&arch, &ctx, 0x10));
    assert!(Pattern::Any.is_match(&arch, &ctx, 0));
    assert!(Pattern::Always.is_match(&arch, &ctx, 0));
    assert!(Pattern::Always.always());
    assert!(!Pattern::Any.always());
    assert!(!Pattern::Never.is_match(&arch, &ctx, 0));
    assert!(Pattern::Address(0x10, 0x11).is_match(&arch, &ctx, 0));
    assert!(!Pattern::Address(0x11, 0x20).is_match(&arch, &ctx, 0));
    assert!(!Pattern::Address(0x00, 0x10).is_match(&arch, &ctx, 0));
    assert!(Pattern::List(vec![Pattern::And(1), Pattern::And(2)]).is_match(&arch, &ctx, 3));
    assert!(!Pattern::List(vec![Pattern::And(1), Pattern::And(2)]).is_match(&arch, &ctx, 1));
    assert!(Pattern::List(vec![]).is_match(&arch, &ctx, 1));
    assert!(Pattern::Flag("f".to_string(), None).is_match(&arch, &ctx, 0));
    ctx.def_flag("f", "1");
    assert!(Pattern::Flag("f".to_string(), Some("1".to_string())).is_match(&arch, &ctx, 0));
    assert!(!Pattern::Flag("f".to_string(), Some("2".to_string())).is_match(&arch, &ctx, 0));
    assert!(!Pattern::Flag("f".to_string(), None).is_match(&arch, &ctx, 0));
}

#[test]
fn rule_needs_every_pattern_and_a_byte_for_each() {
    let arch = plain_arch(vec![], vec![]);
    let ctx = Context::default();
    let m = rule(
        vec![
            PatternAt::new(Pattern::Always, 5),
            PatternAt::new(Pattern::Exact(1), 0),
            PatternAt::new(Pattern::Any, 1),
        ],
        "byte",
        "m",
    );
    assert!(m.is_match(&arch, &ctx, &[1, 9]));
    assert!(!m.is_match(&arch, &ctx, &[1]));
    assert!(!m.is_match(&arch, &ctx, &[2, 9]));
    assert!(!m.is_match(&arch, &ctx, &[]));
    let empty = rule(vec![], "byte", "e");
    assert!(empty.is_match(&arch, &ctx, &[]));
    assert!(Matcher::is_match_with(
        &arch,
        &ctx,
        &[],
        &[PatternAt::new(Pattern::Always, 0)]
    ));
}

#[test]
fn first_symbol_defined_is_the_one_rendered() {
    let archs = registry(vec![("", plain_arch(vec![catch_all()], vec![]))]);
    let mut ctx = Context::default();
    ctx.def_symbol(Symbol::new(
        "first".into(),
        SymbolKind::Const,
        Scope::Global,
        0x10,
        4,
    ));
    ctx.def_symbol(Symbol::new(
        "second".into(),
        SymbolKind::Const,
        Scope::Global,
        0x12,
        1,
    ));
    assert_eq!(
        ".db first+2\n.db first\n.db 14\n",
        render(&archs, &mut ctx, &[0x12, 0x10, 0x14]).unwrap()
    );

    let mut ctx = Context::default();
    ctx.def_symbol(Symbol::new(
        "second".into(),
        SymbolKind::Const,
        Scope::Global,
        0x12,
        1,
    ));
    ctx.def_symbol(Symbol::new(
        "first".into(),
        SymbolKind::Const,
        Scope::Global,
        0x10,
        4,
    ));
    assert_eq!(
        ".db second\n",
        render(&archs, &mut ctx, &[0x12]).unwrap()
    );
}

#[test]
fn restart_renders_the_same_again() {
    let archs = a6502::arch();
    let data = [0xA9, 0x01, 0x10, 0xFC, 0x6C, 0x34, 0x12, 0xFF];
    let mut ctx = Context::default();
    ctx.def_symbol(Symbol::new(
        "here".into(),
        SymbolKind::Label,
        Scope::Global,
        0,
        1,
    ));
    let first = render(&archs, &mut ctx, &data).unwrap();
    assert_eq!(8, ctx.address());
    ctx.restart();
    assert_eq!(0, ctx.address());
    let second = render(&archs, &mut ctx, &data).unwrap();
    assert_eq!(first, second);
    assert_eq!(
        "here:\n00000000 lda #$01\n00000002 bpl here\n00000004 jmp ($1234)\n00000007 .db $ff\n",
        first
    );
}

fn branching_arch() -> Archs {
    let branch = rule(
        vec![
            PatternAt::new(Pattern::Exact(0x10), 0),
            PatternAt::new(Pattern::Any, 1),
        ],
        "branch",
        "bpl",
    );
    let arch = Arch {
        pre_patterns: vec![rule(
            vec![PatternAt::new(Pattern::Always, 0)],
            "label",
            "label",
        )],
        ..plain_arch(
            vec![branch, catch_all()],
            vec![
                ("label", vec![Transform::Label]),
                (
                    "branch",
                    vec![
                        Transform::MatcherName,
                        Transform::Static(Node::new(" ".to_string())),
                        Transform::OffsetAddress(2),
                        Transform::Val(ValOut {
                            offset: 1,
                            fmt: ValueTypeFmt::LowerHex(2),
                            data_type: DataType::I8,
                            rel: true,
                            auto_def_sym: true,
                        }),
                        Transform::OffsetAddress(-2),
                        Transform::Consume(1),
                        Transform::new_line(),
                    ],
                ),
            ],
        )
    };
    registry(vec![("", arch)])
}

#[test]
fn two_passes_render_a_forward_branch_by_name() {
    let archs = branching_arch();
    let data = [0x10, 0x01, 0xEA, 0xEB];

    let mut ctx = Context::default();
    let mut out = String::new();
    archs
        .disas_passes(
            |n, _kind, _raw, _arch, _ctx| {
                out.push_str(&n.string);
                Ok(())
            },
            &data,
            &mut ctx,
            true,
        )
        .unwrap();
    assert_eq!("bpl auto_2\n.db ea\nauto_2:\n.db eb\n", out);
    assert!(!ctx.analyze);
    assert_eq!(4, ctx.address());
    assert_eq!(1, ctx.syms.map.len());
    assert_eq!(3, ctx.syms.map[0].value);

    let mut ctx = Context::default();
    let mut out = String::new();
    archs
        .disas_passes(
            |n, _kind, _raw, _arch, _ctx| {
                out.push_str(&n.string);
                Ok(())
            },
            &data,
            &mut ctx,
            false,
        )
        .unwrap();
    assert_eq!("bpl 01\n.db ea\n.db eb\n", out);
    assert_eq!(0, ctx.syms.map.len());
}

#[test]
fn analysis_never_calls_the_sink() {
    let archs = branching_arch();
    let mut ctx = Context::default();
    ctx.analyze = true;
    let mut calls = 0;
    archs
        .disas_ctx(
            |_n, _kind, _raw, _arch, _ctx| {
                calls += 1;
                Ok(())
            },
            &[0x10, 0x01, 0xEA, 0xEB],
            &mut ctx,
        )
        .unwrap();
    assert_eq!(0, calls);
    assert_eq!(4, ctx.address());
    assert_eq!("auto_2", ctx.syms.map[0].name);
}

#[test]
fn analysis_defines_symbols_from_the_window() {
    let def = rule(vec![PatternAt::new(Pattern::Exact(0xD0), 0)], "def", "def");
    let big = Arch {
        endianess: Endianess::Big,
        ..plain_arch(
            vec![def, catch_all()],
            vec![(
                "def",
                vec![
                    Transform::DefSym(DefSym {
                        name: "entry".to_string(),
                        offset: 1,
                        scope: Scope::Range(0, 0x100),
                        data_type: DataType::U16,
                        symbol_kind: SymbolKind::Const,
                        len: 2,
                    }),
                    Transform::DefSymAddress(DefSym {
                        name: "vector".to_string(),
                        offset: 1,
                        scope: Scope::Global,
                        data_type: DataType::NoData,
                        symbol_kind: SymbolKind::Label,
                        len: 1,
                    }),
                    Transform::Consume(3),
                ],
            )],
        )
    };
    let archs = registry(vec![("", big)]);
    let mut ctx = Context::default();
    ctx.analyze = true;
    render(&archs, &mut ctx, &[0xD0, 0x12, 0x34]).unwrap();
    assert_eq!(2, ctx.syms.map.len());
    assert_eq!("entry", ctx.syms.map[0].name);
    assert_eq!(0x1234, ctx.syms.map[0].value);
    assert_eq!(SymbolKind::Const, ctx.syms.map[0].kind);
    assert_eq!(2, ctx.syms.map[0].len);
    assert_eq!("vector", ctx.syms.map[1].name);
    assert_eq!(0x1234, ctx.syms.map[1].value);

    let mut ctx = Context::default();
    render(&archs, &mut ctx, &[0xD0, 0x12, 0x34]).unwrap();
    assert_eq!(0, ctx.syms.map.len());

    let mut ctx = Context::default();
    ctx.analyze = true;
    assert!(matches!(
        render(&archs, &mut ctx, &[0xD0, 0x12]),
        Err(Error::TransformOutOfData(0))
    ));
}

#[test]
fn sink_error_ends_the_pass_at_once() {
    let archs = a6502::arch();
    let mut ctx = Context::default();
    let mut seen: Vec<String> = vec![];
    let r = archs.disas_ctx(
        |n, _kind, _raw, _arch, _ctx| {
            if n.string == "lda" {
                return Err(Error::Other("full".to_string()));
            }
            seen.push(n.string.clone());
            Ok(())
        },
        &[0xEA, 0xA9, 0x01, 0xEA],
        &mut ctx,
    );
    match r {
        Err(Error::Other(m)) => assert_eq!("full", m),
        _ => panic!("expected the error of the sink"),
    }
    assert_eq!(vec!["", "00000000", " ", "nop", "\n", "", "00000001", " "], seen);
    assert_eq!(1, ctx.address());
    assert_eq!(12, ctx.tr_ctx.line_len);
}

#[test]
fn sink_sees_kinds_bytes_and_line_length() {
    let archs = a6502::arch();
    let mut ctx = Context::default();
    let mut seen: Vec<(String, CallbackKind, Vec<u8>, usize)> = vec![];
    archs
        .disas_ctx(
            |n, kind, raw, _arch, c| {
                seen.push((n.string.clone(), kind, raw.to_vec(), c.tr_ctx.line_len));
                Ok(())
            },
            &[0x6D, 0x34, 0x12],
            &mut ctx,
        )
        .unwrap();
    assert_eq!(
        vec![
            ("".to_string(), CallbackKind::Label, vec![], 0),
            ("00000000".to_string(), CallbackKind::Address, vec![], 8),
            (" ".to_string(), CallbackKind::Static, vec![], 9),
            ("adc".to_string(), CallbackKind::MatcherName, vec![], 12),
            (" ".to_string(), CallbackKind::Static, vec![], 13),
            ("$1234".to_string(), CallbackKind::Val, vec![0x34, 0x12], 18),
            ("\n".to_string(), CallbackKind::Static, vec![], 19),
        ],
        seen
    );
}

#[test]
fn value_nodes_carry_their_value() {
    let archs = a6502::arch();
    let mut ctx = Context::default();
    let mut kinds: Vec<NodeKind> = vec![];
    archs
        .disas_ctx(
            |n, kind, _raw, _arch, _c| {
                if kind == CallbackKind::Val {
                    kinds.push(n.kind);
                }
                Ok(())
            },
            &[0xA9, 0x7F],
            &mut ctx,
        )
        .unwrap();
    assert_eq!(vec![NodeKind::Value(0x7F)], kinds);
}

#[test]
fn raw_dump_padding_and_address_operations() {
    let all = rule(vec![PatternAt::new(Pattern::Any, 0)], "all", "x");
    let arch = Arch {
        post_patterns: vec![rule(vec![PatternAt::new(Pattern::Always, 0)], "dump", "dump")],
        ..plain_arch(
            vec![all],
            vec![
                (
                    "all",
                    vec![
                        Transform::Address(4),
                        Transform::Pad(6),
                        Transform::MatcherName,
                        Transform::Pad(3),
                        Transform::Consume(2),
                        Transform::tab(),
                        Transform::space(2),
                        Transform::Skip,
                    ],
                ),
                ("dump", vec![Transform::Raw, Transform::new_line()]),
            ],
        )
    };
    let archs = registry(vec![("", arch)]);
    let mut ctx = Context::default();
    ctx.set_org(0xAB);
    assert_eq!("00ab  x\t  \n", render(&archs, &mut ctx, &[1, 2]).unwrap());
    assert_eq!(0xAD, ctx.address());

    let mut ctx = Context::default();
    ctx.allow_raw = true;
    assert_eq!(
        "0000  x\t   [01 ff]\n",
        render(&archs, &mut ctx, &[1, 0xFF]).unwrap()
    );
}

#[test]
fn set_address_moves_the_origin() {
    let jump = rule(vec![PatternAt::new(Pattern::Exact(0x4C), 0)], "org", "org");
    let archs = registry(vec![(
        "",
        plain_arch(
            vec![jump, catch_all()],
            vec![(
                "org",
                vec![Transform::Consume(1), Transform::SetAddress(0x8000)],
            )],
        ),
    )]);
    let mut ctx = Context::default();
    ctx.set_org(0x10);
    render(&archs, &mut ctx, &[0, 0x4C, 0]).unwrap();
    assert_eq!(0x8000, ctx.org);
    assert_eq!(1, ctx.offset);
    assert_eq!(0x8001, ctx.address());
}

#[test]
fn static_ops_run_around_every_instruction() {
    let archs = registry(vec![("", plain_arch(vec![catch_all()], vec![]))]);
    let mut ctx = Context::default();
    ctx.static_ops_pre = Arc::new(vec![
        StaticOp::Address(
            1,
            vec![
                StaticOp::StringLn("; second".to_string()),
                StaticOp::SetFlag("seen".to_string(), "yes".to_string()),
            ],
        ),
        StaticOp::Match(
            vec![PatternAt::new(Pattern::Exact(9), 0)],
            vec![StaticOp::StringLn("; nine".to_string())],
        ),
    ]);
    ctx.static_ops_post = Arc::new(vec![StaticOp::Address(
        3,
        vec![
            StaticOp::UnsetFlag("seen".to_string()),
            StaticOp::StringLn("; end".to_string()),
        ],
    )]);
    assert_eq!(
        ".db 01\n; second\n.db 02\n; nine\n.db 09\n; end\n",
        render(&archs, &mut ctx, &[1, 2, 9]).unwrap()
    );
    assert_eq!(None, ctx.get_flag("seen"));

    ctx.restart();
    ctx.analyze = true;
    assert_eq!("", render(&archs, &mut ctx, &[1, 2]).unwrap());
    assert_eq!(Some(&"yes".to_string()), ctx.get_flag("seen"));
}

#[test]
fn transform_applies_to_a_window() {
    let arch = plain_arch(vec![], vec![]);
    let mut ctx = Context::default();
    let name = Node::new("op".to_string());
    let mut out = String::new();
    let mut sink = |n: &Node, _k: CallbackKind, _r: &[u8], _a: &Arch, _c: &Context| {
        out.push_str(&n.string);
        Ok(())
    };
    assert_eq!(
        1,
        Transform::Val(hex8(1))
            .apply(&mut sink, &[1, 0xAB], &arch, &mut ctx, &name)
            .unwrap()
    );
    assert_eq!(
        0,
        Transform::MatcherName
            .apply(&mut sink, &[], &arch, &mut ctx, &name)
            .unwrap()
    );
    assert_eq!(
        5,
        Transform::Consume(5)
            .apply(&mut sink, &[], &arch, &mut ctx, &name)
            .unwrap()
    );
    assert!(matches!(
        Transform::Val(hex8(2)).apply(&mut sink, &[1, 2], &arch, &mut ctx, &name),
        Err(Error::TransformOutOfData(0))
    ));
    assert_eq!("abop", out);
    assert_eq!(4, ctx.tr_ctx.line_len);
}

#[test]
fn built_in_rules_name_defined_transforms() {
    for archs in [
        litedasm::arch::a6502::arch(),
        litedasm::arch::a65c02::arch(),
        litedasm::arch::a65c816::arch(),
    ] {
        let arch = archs.archs.get("").unwrap();
        for m in arch
            .patterns
            .iter()
            .chain(arch.pre_patterns.iter())
            .chain(arch.post_patterns.iter())
        {
            assert!(arch.get_transform(&m.transforms).is_some());
        }
        let last = arch.patterns.last().unwrap();
        assert_eq!("define_byte", last.transforms);
    }
}

#[test]
fn rules_follow_the_order_of_the_mnemonics() {
    let archs = litedasm::arch::a6502::arch();
    let arch = archs.archs.get("").unwrap();
    let names: Vec<&str> = arch.patterns.iter().map(|m| m.name.string.as_str()).collect();
    assert_eq!("adc", names[0]);
    let mut sorted = names[..names.len() - 1].to_vec();
    sorted.sort();
    assert_eq!(sorted, names[..names.len() - 1].to_vec());
    assert_eq!(".db", names[names.len() - 1]);
    // two mnemonics share an opcode: the one that comes first in the order wins
    let mut ctx = Context::default();
    assert_eq!(
        "00000000 tsx\n",
        render(&archs, &mut ctx, &[0xBA]).unwrap()
    );
}

#[test]
fn validation_names_the_missing_transform() {
    for archs in [
        litedasm::arch::a6502::arch(),
        litedasm::arch::a65c02::arch(),
        litedasm::arch::a65c816::arch(),
    ] {
        assert!(archs.validate().is_ok());
    }
    let good = plain_arch(vec![catch_all()], vec![]);
    assert!(good.validate().is_ok());
    let bad = plain_arch(
        vec![catch_all(), rule(vec![], "nowhere", "x")],
        vec![],
    );
    match bad.validate() {
        Err(Error::TransformNotFound(name)) => assert_eq!("nowhere", name),
        _ => panic!("expected a missing transform"),
    }
    let framed = Arch {
        post_patterns: vec![rule(vec![], "tail", "t")],
        ..plain_arch(vec![catch_all()], vec![])
    };
    match framed.validate() {
        Err(Error::TransformNotFound(name)) => assert_eq!("tail", name),
        _ => panic!("expected a missing transform"),
    }
    let archs = registry(vec![("", good), ("other", bad)]);
    assert!(matches!(archs.validate(), Err(Error::TransformNotFound(_))));
    assert!(Archs::default().validate().is_ok());
    assert!(Arch::default().validate().is_ok());
}
