use litedasm::arch::{Context, Endianess, Node, NodeKind};
use litedasm::command::{
    default_actions, get_optional_arg, has_too_many_args, try_get_arg, Action, ActionList,
    CommandContext, Commands, Effect, Param, Parser,
};
use litedasm::config::{verbose_to_level_filter, ArchKind, DefSym, LevelFilter};
use litedasm::error::Error;
use litedasm::name_map::NameMap;
use litedasm::number::{auto_radix_address, auto_radix_usize, auto_radix_value};
use litedasm::patch::Patch;
use litedasm::symbols::{Scope, Symbol, SymbolKind, SymbolList};
use litedasm::value::{DataType, ValueTypeFmt};

#[test]
fn widths_and_masks() {
    let all = [
        (DataType::U8, 1, 0xFF),
        (DataType::I8, 1, 0xFF),
        (DataType::U16, 2, 0xFFFF),
        (DataType::I16, 2, 0xFFFF),
        (DataType::U24, 3, 0xFF_FFFF),
        (DataType::U32, 4, 0xFFFF_FFFF),
        (DataType::I32, 4, 0xFFFF_FFFF),
        (DataType::U64, 8, -1),
        (DataType::I64, 8, -1),
        (DataType::NoData, 0, 0),
    ];
    for (t, len, mask) in all {
        assert_eq!(len, t.data_len());
        assert_eq!(mask, t.mask());
    }
    assert_eq!(DataType::NoData, DataType::default());
}

fn shown(fmt: ValueTypeFmt, v: i64) -> String {
    let mut s = String::from(">");
    fmt.render_into(&mut s, v);
    s
}

#[test]
fn numbers_in_every_radix() {
    assert_eq!(">ff", shown(ValueTypeFmt::LowerHex(0), 255));
    assert_eq!(">00ff", shown(ValueTypeFmt::LowerHex(4), 255));
    assert_eq!(">1234", shown(ValueTypeFmt::LowerHex(2), 0x1234));
    assert_eq!(">0", shown(ValueTypeFmt::LowerHex(0), 0));
    assert_eq!(">0AB", shown(ValueTypeFmt::UpperHex(3), 0xAB));
    assert_eq!(">ffffffffffffffff", shown(ValueTypeFmt::LowerHex(2), -1));
    assert_eq!(">00000101", shown(ValueTypeFmt::Binary(8), 5));
    assert_eq!(">017", shown(ValueTypeFmt::Octal(3), 15));
    assert_eq!(
        ">1777777777777777777776",
        shown(ValueTypeFmt::Octal(0), -2)
    );
    assert_eq!(">0042", shown(ValueTypeFmt::Decimal(4), 42));
    assert_eq!(">-042", shown(ValueTypeFmt::Decimal(4), -42));
    assert_eq!(">-42", shown(ValueTypeFmt::Decimal(0), -42));
    assert_eq!(
        ">-9223372036854775808",
        shown(ValueTypeFmt::Decimal(3), i64::MIN)
    );
    assert_eq!(
        ">9223372036854775807",
        shown(ValueTypeFmt::Decimal(0), i64::MAX)
    );
    assert_eq!(format!(">{:07x}", 0xBEEF), shown(ValueTypeFmt::LowerHex(7), 0xBEEF));
    assert_eq!(format!(">{:05}", -7), shown(ValueTypeFmt::Decimal(5), -7));
    assert_eq!(format!(">{:012b}", -3i64), shown(ValueTypeFmt::Binary(12), -3));
}

#[test]
fn format_keys() {
    assert_eq!("fmt_hex_pre", ValueTypeFmt::LowerHex(1).pre());
    assert_eq!("fmt_hex_post", ValueTypeFmt::LowerHex(1).post());
    assert_eq!("fmt_HEX_pre", ValueTypeFmt::UpperHex(1).pre());
    assert_eq!("fmt_HEX_post", ValueTypeFmt::UpperHex(1).post());
    assert_eq!("fmt_bin_pre", ValueTypeFmt::Binary(1).pre());
    assert_eq!("fmt_bin_post", ValueTypeFmt::Binary(1).post());
    assert_eq!("fmt_dec_pre", ValueTypeFmt::Decimal(1).pre());
    assert_eq!("fmt_dec_post", ValueTypeFmt::Decimal(1).post());
    assert_eq!("fmt_oct_pre", ValueTypeFmt::Octal(1).pre());
    assert_eq!("fmt_oct_post", ValueTypeFmt::Octal(1).post());
    assert_eq!("oct", ValueTypeFmt::Octal(1).name());
    assert_eq!(ValueTypeFmt::LowerHex(0), ValueTypeFmt::default());
}

#[test]
fn value_node_is_framed_by_the_architecture() {
    let archs = litedasm::arch::a6502::arch();
    let arch = archs.archs.get("").unwrap();
    let n = litedasm::arch::transform::try_to_node(0x2A, ValueTypeFmt::LowerHex(4), arch).unwrap();
    assert_eq!("$002a", n.string);
    assert_eq!(NodeKind::Value(0x2A), n.kind);
    let n = litedasm::arch::transform::try_to_node(10, ValueTypeFmt::Decimal(0), arch).unwrap();
    assert_eq!("10", n.string);
    assert_eq!("$", arch.node_map.get("fmt_HEX_pre").unwrap().string);
    assert_eq!(NodeKind::Static, Node::new("x".to_string()).kind);
    assert_eq!("x", Node::new("x".to_string()).to_text());
}

#[test]
fn bytes_become_values_and_back() {
    let le = Endianess::Little;
    let be = Endianess::Big;
    assert_eq!(Some(0x1234), le.decode(&[0x34, 0x12]));
    assert_eq!(Some(0x1234), be.decode(&[0x12, 0x34]));
    assert_eq!(Some(0x0807060504030201), le.transform(&[1, 2, 3, 4, 5, 6, 7, 8]));
    assert_eq!(Some(0x0102030405060708), be.transform(&[1, 2, 3, 4, 5, 6, 7, 8]));
    assert_eq!(Some(-1), le.transform(&[0xFF; 8]));
    assert_eq!(Some(i64::MIN), be.transform(&[0x80, 0, 0, 0, 0, 0, 0, 0]));
    assert_eq!(None, le.transform(&[1, 2]));
    assert_eq!(None, le.decode(&[0; 9]));
    assert_eq!(Some(0), le.decode(&[]));
    assert_eq!(vec![1, 2, 0, 0], le.pad(&[1, 2], 4));
    assert_eq!(vec![0, 0, 1, 2], be.pad(&[1, 2], 4));
    assert_eq!(vec![1, 2, 3], be.pad(&[1, 2, 3], 2));
    assert_eq!(Endianess::Little, Endianess::default());

    let samples: [&[u8]; 6] = [
        &[],
        &[0x80],
        &[0x12, 0x34],
        &[0xFF, 0x00, 0x01],
        &[1, 2, 3, 4, 5],
        &[0xFE, 0xDC, 0xBA, 0x98, 0x76, 0x54, 0x32, 0x10],
    ];
    for order in [le, be] {
        for bytes in samples {
            let value = order.decode(bytes).unwrap();
            assert_eq!(bytes.to_vec(), order.encode(value, bytes.len()));
        }
    }
    assert_eq!(vec![0x34, 0x12], le.encode(0x1234, 2));
    assert_eq!(vec![0x12, 0x34], be.encode(0x1234, 2));
    assert_eq!(vec![0xFF, 0xFF, 0xFF], le.encode(-1, 3));
    assert_eq!(vec![0, 0, 0, 0, 0, 0, 0, 0, 1], be.encode(1, 9));
}

#[test]
fn symbols_match_by_range_and_scope() {
    let mut s = Symbol::new("s".into(), SymbolKind::Label, Scope::Range(4, 8), 10, 2);
    assert!(s.is_match(10, None));
    assert!(s.is_match(11, Some(4)));
    assert!(!s.is_match(12, None));
    assert!(!s.is_match(9, None));
    assert!(!s.is_match(10, Some(8)));
    assert!(!s.is_match(10, Some(3)));
    s.additional_values.push(100);
    assert!(s.is_match(101, Some(7)));
    assert!(!s.is_match(102, Some(7)));
    let edge = Symbol::new("e".into(), SymbolKind::Const, Scope::Global, i64::MAX, 5);
    assert!(edge.is_match(i64::MAX, None));
    assert!(!edge.is_match(i64::MIN, None));
    let empty = Symbol::new("z".into(), SymbolKind::Const, Scope::Global, 3, 0);
    assert!(!empty.is_match(3, None));
    assert!(Scope::Global.is_in_scope(u64::MAX));
    assert!(Scope::Range(1, 2).is_in_scope(1));
    assert!(!Scope::Range(1, 2).is_in_scope(2));
    assert_eq!(SymbolKind::Label, SymbolKind::default());
    assert_eq!(Scope::Global, Scope::default());
}

#[test]
fn symbol_list_keeps_the_order_of_definition() {
    let mut list = SymbolList::default();
    list.def_symbol(Symbol::new("a".into(), SymbolKind::Label, Scope::Range(0, 4), 1, 4));
    list.def_symbol(Symbol::new("b".into(), SymbolKind::Label, Scope::Global, 2, 1));
    list.def_symbol(Symbol::new("a".into(), SymbolKind::Const, Scope::Global, 2, 1));
    assert_eq!("a", list.get_first_symbol(2, 0).unwrap().name);
    assert_eq!("b", list.get_first_symbol(2, 4).unwrap().name);
    assert!(list.get_first_symbol(9, 0).is_none());
    assert!(list.has_symbols(4, 3));
    assert!(!list.has_symbols(4, 4));
    let all: Vec<String> = list.get_symbols(2).iter().map(|s| s.name.clone()).collect();
    assert_eq!(vec!["a", "b", "a"], all);
    assert_eq!(0, list.get_symbols(7).len());
    assert_eq!(SymbolKind::Label, list.get_first_by_name("a").unwrap().kind);
    assert!(list.get_first_by_name("c").is_none());
    let copy = list.clone();
    assert_eq!(3, copy.map.len());
    assert_eq!("b", copy.map[1].name);
}

#[test]
fn context_settings() {
    let mut ctx = Context::new(0x100, SymbolList::default());
    ctx.offset = 3;
    ctx.set_start(Some(0x20));
    assert_eq!(0x123, ctx.address());
    assert_eq!(0x20, ctx.start_read);
    ctx.restart();
    assert_eq!(0x120, ctx.address());
    ctx.set_start(None);
    assert_eq!(0x100, ctx.address());
    ctx.set_org(u64::MAX);
    ctx.offset = 2;
    assert_eq!(1, ctx.address());
    ctx.set_len(Some(5));
    assert_eq!(Some(5), ctx.len_read);

    let mut ctx = Context::new(0x100, SymbolList::default());
    ctx.def_symbol(Symbol::new("main".into(), SymbolKind::Label, Scope::Global, 0x130, 1));
    ctx.def_symbol(Symbol::new("main".into(), SymbolKind::Label, Scope::Global, 0x999, 1));
    ctx.set_start_to_symbol("main").unwrap();
    assert_eq!(0x30, ctx.start_read);
    assert_eq!(0x130, ctx.address());
    match ctx.set_start_to_symbol("none") {
        Err(Error::LabelNotFound(l)) => assert_eq!("none", l),
        _ => panic!("expected a missing label"),
    }
    assert_eq!(0x30, ctx.start_read);
    assert_eq!("main", ctx.get_first_symbol(0x130).unwrap().name);
}

#[test]
fn settings_of_a_run() {
    let mut ctx = Context::default();
    ctx.def_symbol(Symbol::new("l".into(), SymbolKind::Label, Scope::Global, 0x18, 1));
    litedasm::config::read_ctx(&mut ctx, Some(0x10), Some(2), None, Some(9)).unwrap();
    assert_eq!((0x10, 2, 2, Some(9)), (ctx.org, ctx.start_read, ctx.static_offset, ctx.len_read));
    litedasm::config::read_ctx(&mut ctx, None, None, Some("l"), None).unwrap();
    assert_eq!((0x10, 8, 8, None), (ctx.org, ctx.start_read, ctx.static_offset, ctx.len_read));
    assert!(matches!(
        litedasm::config::read_ctx(&mut ctx, None, Some(1), Some("m"), Some(4)),
        Err(Error::LabelNotFound(_))
    ));
    assert_eq!((1, None), (ctx.start_read, ctx.len_read));
}

#[test]
fn patches_overwrite_and_extend() {
    let mut d = vec![1, 2, 3];
    Patch::Data { offset: 5, data: vec![7, 8] }.apply(&mut d).unwrap();
    assert_eq!(vec![1, 2, 3, 0, 0, 7, 8], d);
    let mut d = vec![0, 1, 2, 3];
    Patch::Data { offset: 6, data: vec![9] }.apply(&mut d).unwrap();
    assert_eq!(vec![0, 1, 2, 3, 0, 0, 9], d);
    let mut d = vec![1, 2, 3];
    Patch::Data { offset: 3, data: vec![7] }.apply(&mut d).unwrap();
    assert_eq!(vec![1, 2, 3, 7], d);
    let mut d = vec![1, 2, 3];
    Patch::Data { offset: 0, data: vec![7, 8] }.apply(&mut d).unwrap();
    assert_eq!(vec![7, 8, 3], d);
    let mut d = vec![1, 2, 3];
    Patch::Data { offset: 2, data: vec![7, 8, 9] }.apply(&mut d).unwrap();
    assert_eq!(vec![1, 2, 7, 8, 9], d);
    let mut d = vec![1, 2, 3];
    Patch::Data { offset: 9, data: vec![] }.apply(&mut d).unwrap();
    assert_eq!(vec![1, 2, 3], d);
    let mut d = vec![1, 2, 3];
    Patch::Rep { offset: 2, byte: 9, len: 3 }.apply(&mut d).unwrap();
    assert_eq!(vec![1, 2, 9, 9, 9], d);
    let mut d: Vec<u8> = vec![];
    Patch::Rep { offset: 2, byte: 9, len: 1 }.apply(&mut d).unwrap();
    assert_eq!(vec![0, 0, 9], d);
    let mut d = vec![1, 2, 3];
    assert!(matches!(
        Patch::Rep { offset: usize::MAX, byte: 9, len: 2 }.apply(&mut d),
        Err(Error::PatchOffsetOutOfRange(usize::MAX))
    ));
    assert_eq!(vec![1, 2, 3], d);
    let mut d = vec![1, 2, 3];
    assert!(matches!(
        Patch::Data { offset: usize::MAX, data: vec![1] }.apply(&mut d),
        Err(Error::PatchOffsetOutOfRange(usize::MAX))
    ));
    assert_eq!(vec![1, 2, 3], d);
    let mut d = vec![1];
    Patch::Rep { offset: 0, byte: 9, len: 0 }.apply(&mut d).unwrap();
    assert_eq!(vec![1], d);
    let mut d = vec![1];
    match (Patch::File { offset: 0, path: "rom.bin".to_string() }).apply(&mut d) {
        Err(Error::Io(p)) => assert_eq!("rom.bin", p),
        _ => panic!("expected the unread file"),
    }
    assert_eq!(vec![1], d);

    let mut ctx = Context::default();
    ctx.patches.push(Patch::Rep { offset: 1, byte: 0, len: 1 });
    ctx.patches.push(Patch::Data { offset: 0, data: vec![5] });
    assert_eq!(vec![5, 0, 3], ctx.patch(&[1, 2, 3]).unwrap());
    ctx.patches.push(Patch::File { offset: 0, path: "x".to_string() });
    assert!(matches!(ctx.patch(&[1]), Err(Error::Io(_))));
    let mut ctx = Context::default();
    ctx.patches.push(Patch::Data { offset: 4, data: vec![7] });
    assert_eq!(vec![1, 0, 0, 0, 7], ctx.patch(&[1]).unwrap());
}

#[test]
fn name_map_binds_names() {
    let mut m: NameMap<u8> = NameMap::new();
    assert!(m.get("a").is_none());
    m.insert("a".to_string(), 1);
    m.insert("b".to_string(), 2);
    m.insert("a".to_string(), 3);
    assert_eq!(Some(&3), m.get("a"));
    assert_eq!(Some(&2), m.get("b"));
    assert_eq!(2, m.len());
    assert!(m.contains_key("b"));
    m.remove("a");
    assert!(m.get("a").is_none());
    assert_eq!(Some(&2), m.get("b"));
    m.remove("zz");
    assert_eq!(1, m.len());
}

#[test]
fn numbers_with_a_radix_prefix() {
    assert_eq!(0x1F, auto_radix_value("0x1F").unwrap());
    assert_eq!(0x1f, auto_radix_value("0x1f").unwrap());
    assert_eq!(5, auto_radix_value("0b101").unwrap());
    assert_eq!(8, auto_radix_value("0o10").unwrap());
    assert_eq!(-12, auto_radix_value("-12").unwrap());
    assert_eq!(12, auto_radix_value("+12").unwrap());
    assert_eq!(-16, auto_radix_value("0x-10").unwrap());
    assert_eq!(i64::MIN, auto_radix_value("-9223372036854775808").unwrap());
    assert_eq!(i64::MAX, auto_radix_value("0x7fffffffffffffff").unwrap());
    for bad in ["", "-", "+", "0x", "12a", "0b2", "9223372036854775808", "-0x5", " 1", "1_0"] {
        match auto_radix_value(bad) {
            Err(Error::ParseIntError(t)) => assert_eq!(bad, t),
            _ => panic!("expected no number"),
        }
        assert_eq!(
            i64::from_str_radix(bad, 10).is_ok() && !bad.starts_with("0"),
            auto_radix_value(bad).is_ok()
        );
    }
    assert_eq!(u64::MAX, auto_radix_address("0xffffffffffffffff").unwrap());
    assert_eq!(u64::MAX, auto_radix_address("18446744073709551615").unwrap());
    assert!(auto_radix_address("18446744073709551616").is_err());
    assert!(auto_radix_address("-1").is_err());
    assert_eq!(7, auto_radix_address("+7").unwrap());
    assert_eq!(64, auto_radix_usize("0o100").unwrap());
    assert!(auto_radix_usize("0xg").is_err());
    for text in ["0", "007", "123456789", "zz", "-0", "+0", "ffff"] {
        assert_eq!(u64::from_str_radix(text, 10).ok(), auto_radix_address(text).ok());
        assert_eq!(i64::from_str_radix(text, 10).ok(), auto_radix_value(text).ok());
    }
}

#[test]
fn described_symbols() {
    let s = DefSym {
        from: None,
        to: None,
        len: None,
        const_value: false,
        name: "a".to_string(),
        value: 7,
    }
    .into_symbol();
    assert_eq!(("a", SymbolKind::Label, Scope::Global, 7, 1), (s.name.as_str(), s.kind, s.scope, s.value, s.len));
    let s = DefSym {
        from: Some(3),
        to: None,
        len: Some(4),
        const_value: true,
        name: "b".to_string(),
        value: -1,
    }
    .into_symbol();
    assert_eq!((SymbolKind::Const, Scope::Range(3, 3), 4), (s.kind, s.scope, s.len));
    let s = DefSym {
        from: None,
        to: Some(9),
        len: None,
        const_value: false,
        name: "c".to_string(),
        value: 0,
    }
    .into_symbol();
    assert_eq!(Scope::Range(9, 9), s.scope);
    let s = DefSym {
        from: Some(1),
        to: Some(9),
        len: None,
        const_value: false,
        name: "d".to_string(),
        value: 0,
    }
    .into_symbol();
    assert_eq!(Scope::Range(1, 9), s.scope);
}

#[test]
fn kinds_of_architecture_and_levels() {
    assert!(ArchKind::ArchCustom.to_arch().is_none());
    assert!(ArchKind::Arch6502.to_arch().is_some());
    assert!(ArchKind::Arch65c02.to_arch().is_some());
    assert!(ArchKind::Arch65c816.to_arch().is_some());
    assert_eq!("arch65c816", ArchKind::Arch65c816.name());
    assert_eq!("archCustom", ArchKind::ArchCustom.name());
    assert_eq!(ArchKind::Arch6502, ArchKind::default());
    assert_eq!(LevelFilter::Off, verbose_to_level_filter(0));
    assert_eq!(LevelFilter::Error, verbose_to_level_filter(1));
    assert_eq!(LevelFilter::Warn, verbose_to_level_filter(2));
    assert_eq!(LevelFilter::Info, verbose_to_level_filter(3));
    assert_eq!(LevelFilter::Debug, verbose_to_level_filter(4));
    assert_eq!(LevelFilter::Trace, verbose_to_level_filter(5));
    assert_eq!(LevelFilter::Trace, verbose_to_level_filter(255));
}

fn words(list: &[&str]) -> Vec<String> {
    list.iter().map(|s| s.to_string()).collect()
}

#[test]
fn arguments_and_defaults() {
    let params = vec![Param::new("a"), Param::with_default("b", "dflt")];
    assert_eq!("x", try_get_arg(&words(&["x", "y"]), &params, 0).unwrap());
    assert_eq!("y", try_get_arg(&words(&["x", "y"]), &params, 1).unwrap());
    assert_eq!("dflt", try_get_arg(&words(&["x"]), &params, 1).unwrap());
    assert!(matches!(
        try_get_arg(&words(&[]), &params, 0),
        Err(Error::InsufficientArguments)
    ));
    assert!(matches!(
        try_get_arg(&words(&["x", "y", "z"]), &params, 2),
        Err(Error::InsufficientArguments)
    ));
    assert_eq!(None, get_optional_arg(&words(&[]), &params, 0));
    assert_eq!(Some("dflt".to_string()), get_optional_arg(&words(&[]), &params, 1));
    assert!(has_too_many_args(&words(&["x", "y"]), &params).is_ok());
    assert!(matches!(
        has_too_many_args(&words(&["x", "y", "z"]), &params),
        Err(Error::TooManyArguments)
    ));
}

#[test]
fn lines_become_commands() {
    let actions = default_actions();
    let names: Vec<&str> = actions.actions.iter().map(|a| a.name.as_str()).collect();
    assert_eq!(
        vec!["?", "dc", "dca", "dcl", "dcr", "la", "lab", "lc", "lf", "q", "sa", "sc"],
        names
    );
    assert!(matches!(actions.eval("q").unwrap(), Commands::Exit));
    assert!(matches!(actions.eval("  dc  ").unwrap(), Commands::DisasCode));
    assert!(matches!(actions.eval("dcr 0x10").unwrap(), Commands::SetReadLen(16)));
    assert!(matches!(actions.eval("dca '0b11'").unwrap(), Commands::SetStartAddress(3)));
    match actions.eval("dcl \"my label\"").unwrap() {
        Commands::SetStartLabel(l) => assert_eq!("my label", l),
        _ => panic!("expected a start label"),
    }
    match actions.eval("? d").unwrap() {
        Commands::Help(c) => assert_eq!("d", c),
        _ => panic!("expected help"),
    }
    match actions.eval("?").unwrap() {
        Commands::Help(c) => assert_eq!("", c),
        _ => panic!("expected help"),
    }
    match actions.eval("lab 65c02").unwrap() {
        Commands::UseArch(n) => assert_eq!("65c02", n),
        _ => panic!("expected an architecture"),
    }
    match actions.eval("lf a\\ b").unwrap() {
        Commands::ReadFile(Some(p)) => assert_eq!("a b", p),
        _ => panic!("expected a file to read"),
    }
    assert!(matches!(actions.eval("lf").unwrap(), Commands::ReadFile(None)));
    assert!(matches!(actions.eval("sc").unwrap(), Commands::SaveContext(None)));
    assert!(matches!(actions.eval("sa p").unwrap(), Commands::SaveArch(Some(_))));
    assert!(matches!(actions.eval("lc p").unwrap(), Commands::ReadContext(Some(_))));
    assert!(matches!(actions.eval("la").unwrap(), Commands::ReadArch(None)));

    assert!(matches!(actions.eval(""), Err(Error::Unknown)));
    assert!(matches!(actions.eval("# nothing"), Err(Error::Unknown)));
    match actions.eval("nope 1") {
        Err(Error::UnknownCommand(c)) => assert_eq!("nope", c),
        _ => panic!("expected an unknown command"),
    }
    assert!(matches!(actions.eval("q now"), Err(Error::TooManyArguments)));
    assert!(matches!(actions.eval("dcr"), Err(Error::InsufficientArguments)));
    assert!(matches!(actions.eval("dcr ten"), Err(Error::ParseIntError(_))));
    assert!(matches!(actions.eval("dcl 'open"), Err(Error::Other(_))));
    assert!(matches!(
        actions.eval_words(&words(&["dca", "1", "2"])),
        Err(Error::TooManyArguments)
    ));
    assert!(matches!(actions.eval_words(&[]), Err(Error::Unknown)));
}

#[test]
fn help_lists_the_commands() {
    let actions = default_actions();
    assert_eq!(
        "dc Disassemble code\ndca [address] Set disas starting point to an address\ndcl [label] Set disas starting point to a label\ndcr [len] Set disas read length\n",
        actions.help("dc").unwrap()
    );
    assert_eq!("? [command=''] Display help\n", actions.help("?").unwrap());
    assert_eq!(
        "lab [name] Load built-in arch (possible values: 6502 65816 65c02)\n",
        actions.help("lab").unwrap()
    );
    assert_eq!(12, actions.help("").unwrap().lines().count());
    match actions.help("x") {
        Err(Error::UnknownCommand(c)) => assert_eq!("x", c),
        _ => panic!("expected an unknown command"),
    }
    let mut line = String::from("> ");
    Action::new("go", vec![], Parser::Exit, "Go").help(&mut line);
    assert_eq!("> go Go\n", line);
    let mut list = ActionList::default();
    list.insert(Action::new("b", vec![], Parser::Exit, "second"));
    list.insert(Action::new("a", vec![], Parser::Exit, "first"));
    list.insert(Action::new("b", vec![], Parser::Exit, "third"));
    assert_eq!("a first\nb second\nb third\n", list.help("").unwrap());
}

fn quiet(
    _n: &Node,
    _k: litedasm::arch::CallbackKind,
    _r: &[u8],
    _a: &litedasm::arch::Arch,
    _c: &Context,
) -> Result<(), Error> {
    Ok(())
}

#[test]
fn commands_change_the_state() {
    let mut arch = litedasm::arch::a6502::arch();
    let mut ctx = Context::default();
    let cmd_ctx = CommandContext::from_reader(default_actions(), vec![0x12, 0x34]);

    assert!(matches!(cmd_ctx.execute(quiet, "dca 0x10", &mut arch, &mut ctx), Ok(Effect::Done)));
    assert_eq!(0x10, ctx.start_read);
    assert!(matches!(cmd_ctx.execute(quiet, "dcr 4", &mut arch, &mut ctx), Ok(Effect::Done)));
    assert_eq!(Some(4), ctx.len_read);
    assert!(matches!(cmd_ctx.execute(quiet, "q", &mut arch, &mut ctx), Ok(Effect::Exit)));
    match cmd_ctx.execute(quiet, "? q", &mut arch, &mut ctx) {
        Ok(Effect::Print(t)) => assert_eq!("q Quit the program\n", t),
        _ => panic!("expected text to print"),
    }
    assert!(matches!(
        cmd_ctx.execute(quiet, "? zz", &mut arch, &mut ctx),
        Err(Error::UnknownCommand(_))
    ));
    match cmd_ctx.execute(quiet, "lf in.bin", &mut arch, &mut ctx) {
        Ok(Effect::ReadFile(Some(p))) => assert_eq!("in.bin", p),
        _ => panic!("expected a file to read"),
    }
    assert!(matches!(cmd_ctx.execute(quiet, "sc", &mut arch, &mut ctx), Ok(Effect::SaveContext(None))));
    assert!(matches!(cmd_ctx.execute(quiet, "sa", &mut arch, &mut ctx), Ok(Effect::SaveArch(None))));
    assert!(matches!(cmd_ctx.execute(quiet, "lc", &mut arch, &mut ctx), Ok(Effect::ReadContext(None))));
    assert!(matches!(cmd_ctx.execute(quiet, "la", &mut arch, &mut ctx), Ok(Effect::ReadArch(None))));
    assert!(matches!(
        cmd_ctx.execute(quiet, "dcl start", &mut arch, &mut ctx),
        Err(Error::LabelNotFound(_))
    ));
    assert!(matches!(
        cmd_ctx.execute(quiet, "lab z80", &mut arch, &mut ctx),
        Err(Error::ArchNotFound(_))
    ));
    assert!(matches!(cmd_ctx.execute(quiet, "'", &mut arch, &mut ctx), Err(Error::Other(_))));

    let sym = Symbol::new("start".into(), SymbolKind::Label, Scope::Global, 1, 1);
    assert!(matches!(
        cmd_ctx.execute_cmd(quiet, &Commands::NewSymbol(sym), &mut arch, &mut ctx),
        Ok(Effect::Done)
    ));
    assert!(matches!(cmd_ctx.execute(quiet, "dcl start", &mut arch, &mut ctx), Ok(Effect::Done)));
    assert_eq!(1, ctx.start_read);
    cmd_ctx.execute_cmd(quiet, &Commands::SetOrg(0x200), &mut arch, &mut ctx).unwrap();
    assert_eq!(0x200, ctx.org);
    cmd_ctx
        .execute_cmd(quiet, &Commands::DefFlag("m".into(), "".into()), &mut arch, &mut ctx)
        .unwrap();
    assert_eq!(Some(&"".to_string()), ctx.get_flag("m"));
    cmd_ctx.execute_cmd(quiet, &Commands::UndefFlag("m".into()), &mut arch, &mut ctx).unwrap();
    assert_eq!(None, ctx.get_flag("m"));
}

#[test]
fn disassemble_command_renders_the_input() {
    let mut arch = litedasm::arch::a6502::arch();
    let mut ctx = Context::default();
    let cmd_ctx = CommandContext::from_reader(default_actions(), vec![0x12, 0x12]);
    let mut out = String::new();
    cmd_ctx
        .execute(
            |n, _k, _r, _a, _c| {
                out.push_str(&n.string);
                Ok(())
            },
            "dc",
            &mut arch,
            &mut ctx,
        )
        .unwrap();
    assert_eq!("00000000 .db $12\n00000001 .db $12\n", out);

    assert!(matches!(cmd_ctx.execute(quiet, "lab 65c02", &mut arch, &mut ctx), Ok(Effect::Done)));
    let mut out = String::new();
    cmd_ctx
        .execute(
            |n, _k, _r, _a, _c| {
                out.push_str(&n.string);
                Ok(())
            },
            "dc",
            &mut arch,
            &mut ctx,
        )
        .unwrap();
    assert_eq!("00000000 ora ($12)\n", out);
    assert!(matches!(cmd_ctx.execute(quiet, "lab 65816", &mut arch, &mut ctx), Ok(Effect::Done)));
    assert!(matches!(cmd_ctx.execute(quiet, "lab 6502", &mut arch, &mut ctx), Ok(Effect::Done)));
}

#[test]
fn copies_are_alike() {
    let p = litedasm::arch::Pattern::List(vec![
        litedasm::arch::Pattern::Exact(3),
        litedasm::arch::Pattern::Flag("m".to_string(), Some("on".to_string())),
        litedasm::arch::Pattern::List(vec![litedasm::arch::Pattern::Address(1, 2)]),
    ]);
    assert_eq!(format!("{:?}", p), format!("{:?}", p.clone()));
    let at = litedasm::arch::PatternAt::new(p, 4);
    assert_eq!(format!("{:?}", at), format!("{:?}", at.clone()));
    let op = litedasm::arch::StaticOp::Match(
        vec![at],
        vec![litedasm::arch::StaticOp::Address(
            9,
            vec![
                litedasm::arch::StaticOp::StringLn("; here".to_string()),
                litedasm::arch::StaticOp::SetFlag("a".to_string(), "b".to_string()),
                litedasm::arch::StaticOp::UnsetFlag("c".to_string()),
            ],
        )],
    );
    assert_eq!(format!("{:?}", op), format!("{:?}", op.clone()));
    let mut ctx = Context::default();
    ctx.def_flag("f", "1");
    ctx.set_org(7);
    ctx.patches.push(Patch::Rep { offset: 1, byte: 2, len: 3 });
    let copy = ctx.clone();
    assert_eq!(format!("{:?}", ctx), format!("{:?}", copy));
    let arch = litedasm::arch::a6502::arch();
    assert_eq!(format!("{:?}", arch), format!("{:?}", arch.clone()));
}

#[test]
fn every_default_action_is_there() {
    let actions = default_actions();
    let find = |name: &str| actions.actions.iter().find(|a| a.name == name).unwrap();
    assert_eq!(Parser::Help, find("?").parser);
    assert_eq!(Some("".to_string()), find("?").params[0].default_value);
    assert_eq!("command", find("?").params[0].name);
    assert_eq!(Parser::Exit, find("q").parser);
    assert_eq!(0, find("q").params.len());
    assert_eq!(Parser::DisasCode, find("dc").parser);
    assert_eq!(Parser::FileReadPath, find("lf").parser);
    assert_eq!(Parser::StartLabel, find("dcl").parser);
    assert_eq!(Parser::ReadLen, find("dcr").parser);
    assert_eq!(Parser::StartAddress, find("dca").parser);
    assert_eq!(Parser::CtxWritePath, find("sc").parser);
    assert_eq!(Parser::ArchWritePath, find("sa").parser);
    assert_eq!(Parser::CtxReadPath, find("lc").parser);
    assert_eq!(Parser::ArchReadPath, find("la").parser);
    assert_eq!(Parser::BuiltInArch, find("lab").parser);
    assert_eq!("name", find("lab").params[0].name);
    assert_eq!(None, find("lab").params[0].default_value);
    assert_eq!("Read arch from file", find("la").help);
    match actions.eval("dcl 'open") {
        Err(Error::Other(text)) => assert_eq!("missing closing quote", text),
        _ => panic!("expected the failure of the split"),
    }
}

#[test]
fn relative_value_wraps_at_three_bytes() {
    assert_eq!(0xFF_FFFF, DataType::U24.mask());
    assert_eq!(0x12_3456, 0x7712_3456 & DataType::U24.mask());
}
