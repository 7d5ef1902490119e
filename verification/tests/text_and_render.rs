use adi_fe_iced::ea::{SegId, EA};
use adi_fe_iced::print_output::UIRenderOutput;
use adi_fe_iced::render::{
    basic_block_item, code_line_data, data_item, func_differs_from_previous, func_header,
    inst_bytes_text, render_span, unknown_item, SpanContent,
};
use adi_fe_iced::style::PrintStyle;
use adi_fe_iced::text::{decimal, hex_bytes, join, pad_right_to};
use adi_fe_iced::ui::{CodeOpData, CodeViewItem, FuncDataKind, SegmentData, TextEA};

fn s(x: &str) -> String {
    x.to_string()
}

#[test]
fn hex_bytes_are_upper_case_pairs_separated_by_spaces() {
    assert_eq!(hex_bytes(&[0x00, 0xAB, 0x7F]), "00 AB 7F");
    assert_eq!(hex_bytes(&[0x0f]), "0F");
    assert_eq!(hex_bytes(&[]), "");
    assert_eq!(inst_bytes_text(&[0xA9, 0x10]), "A9 10");
}

#[test]
fn decimal_has_no_leading_zeros() {
    assert_eq!(decimal(0), "0");
    assert_eq!(decimal(7), "7");
    assert_eq!(decimal(1234), "1234");
    assert_eq!(decimal(100), "100");
    assert_eq!(decimal(usize::MAX), usize::MAX.to_string());
}

#[test]
fn padding_matches_width_format() {
    assert_eq!(pad_right_to("A9 10", 8), format!("{:8}", "A9 10"));
    assert_eq!(pad_right_to("A9 10 20 30", 8), "A9 10 20 30");
    assert_eq!(pad_right_to("", 3), "   ");
}

#[test]
fn join_puts_separator_between() {
    assert_eq!(join(&vec![s("a"), s("b"), s("c")], ", "), "a, b, c");
    assert_eq!(join(&vec![s("only")], ", "), "only");
    assert_eq!(join(&vec![], ", "), "");
}

#[test]
fn text_ea_and_op_data_constructors() {
    let t = TextEA::new(s("ROM"), s("8000"));
    assert_eq!(t.seg, "ROM");
    assert_eq!(t.offs, "8000");
    let op = CodeOpData::new_plain(s(", "));
    assert_eq!(op.text, ", ");
    assert_eq!(op.style, None);
    assert_eq!(op.opn, None);
    let op = CodeOpData::new(s("$10"), Some(PrintStyle::Number), Some(1));
    assert_eq!(op.style, Some(PrintStyle::Number));
    assert_eq!(op.opn, Some(1));
    let sd = SegmentData { segid: SegId(2), name: s("RAM"), is_image: false };
    assert_eq!(sd.display_text(), "RAM");
}

#[test]
fn render_output_collects_mnemonic_and_operands() {
    // lda #$10, x  as a printer emits it
    let mut out = UIRenderOutput::new();
    out.begin(PrintStyle::Mnemonic);
    out.write_str("lda");
    out.end(PrintStyle::Mnemonic);
    out.write_str(" ");
    out.begin(PrintStyle::Operand(0));
    out.write_str("#");
    out.begin(PrintStyle::Number);
    out.write_str("$10");
    out.end(PrintStyle::Number);
    out.end(PrintStyle::Operand(0));
    out.write_str(", ");
    out.begin(PrintStyle::Register);
    out.write_str("x");
    out.end(PrintStyle::Register);
    let (mnemonic, ops) = out.finish();
    assert_eq!(mnemonic, "lda");
    let texts: Vec<&str> = ops.iter().map(|o| o.text.as_str()).collect();
    assert_eq!(texts, vec![" ", "#", "$10", ", ", "x"]);
    assert_eq!(ops[0].style, None);
    assert_eq!(ops[0].opn, None);
    // text cut off by an opening bracket is plain, even inside an operand
    assert_eq!(ops[1].style, None);
    assert_eq!(ops[1].opn, None);
    assert_eq!(ops[2].style, Some(PrintStyle::Number));
    assert_eq!(ops[2].opn, Some(0));
    assert_eq!(ops[3].style, None);
    assert_eq!(ops[3].opn, None);
    // the last text style stays in force for later pieces
    assert_eq!(ops[4].style, Some(PrintStyle::Register));
    assert_eq!(ops[4].opn, None);
}

#[test]
fn render_output_without_mnemonic_and_with_trailing_text() {
    let mut out = UIRenderOutput::new();
    out.write_str("rts ; done");
    let (mnemonic, ops) = out.finish();
    assert_eq!(mnemonic, "???");
    assert_eq!(ops.len(), 1);
    assert_eq!(ops[0].text, "rts ; done");
    assert_eq!(ops[0].style, None);
}

#[test]
fn render_output_empty_operand_bracket_adds_nothing() {
    let mut out = UIRenderOutput::new();
    out.begin(PrintStyle::Operand(3));
    out.end(PrintStyle::Operand(3));
    let (_, ops) = out.finish();
    assert!(ops.is_empty());
}

#[test]
fn code_line_data_formats_bytes() {
    let ea = EA::new(SegId(1), 0x10);
    let d = code_line_data(ea, &s("ROM"), s("8010"), &[0x4C, 0x00, 0x80], s("jmp"), vec![]);
    assert_eq!(d.bytes, "4C 00 80");
    assert_eq!(d.text_ea.seg, "ROM");
    assert_eq!(d.text_ea.offs, "8010");
    assert_eq!(d.mnemonic, "jmp");
    assert_eq!(d.ea, ea);
}

#[test]
fn function_header_only_when_function_changes() {
    assert!(func_differs_from_previous(Some(1), 2));
    assert!(!func_differs_from_previous(Some(2), 2));
    // no function owns the previous span (unexplored bytes, data, or none at all)
    assert!(func_differs_from_previous(None, 2));
    assert!(func_header(false, s("f"), true, None, None).is_none());
    let h = func_header(true, s("main"), true, Some(s("NORETURN")), Some(vec![s("a"), s("b")])).unwrap();
    assert_eq!(h.name, "main");
    match h.kind {
        FuncDataKind::Head { attrs, entrypoints } => {
            assert_eq!(attrs.as_deref(), Some("NORETURN"));
            assert_eq!(entrypoints.as_deref(), Some("a, b"));
        }
        FuncDataKind::Piece => panic!("expected a head"),
    }
    let p = func_header(true, s("main"), false, None, None).unwrap();
    assert!(matches!(p.kind, FuncDataKind::Piece));
}

#[test]
fn basic_block_label_only_with_inrefs() {
    let ea = EA::new(SegId(1), 4);
    match basic_block_item(ea, None, true, s("loop"), vec![]) {
        CodeViewItem::BasicBlock(bb) => {
            assert_eq!(bb.label, "loop");
            assert_eq!(bb.ea, ea);
        }
        _ => panic!(),
    }
    match basic_block_item(ea, None, false, s("loop"), vec![]) {
        CodeViewItem::BasicBlock(bb) => assert_eq!(bb.label, ""),
        _ => panic!(),
    }
    match data_item(ea, &s("ROM"), s("8004")) {
        CodeViewItem::DataItem(e, t) => {
            assert_eq!(e, ea);
            assert_eq!(t.seg, "ROM");
            assert_eq!(t.offs, "8004");
        }
        _ => panic!(),
    }
}

#[test]
fn unknown_run_short_real() {
    let ea = EA::new(SegId(3), 0x20);
    let data: Vec<u8> = (0u8..20).collect();
    let addrs = vec![s("8020"), s("8030")];
    match unknown_item(ea, &s("ROM"), 20, s("8020"), true, &data, &addrs) {
        CodeViewItem::Unknown(u) => {
            assert_eq!(u.lines.len(), 3);
            assert_eq!(u.lines[0].bytes, "[20 unexplored byte(s)]");
            assert_eq!(u.lines[0].text_ea.offs, "8020");
            assert_eq!(u.lines[1].bytes, "00 01 02 03 04 05 06 07 08 09 0A 0B 0C 0D 0E 0F");
            assert_eq!(u.lines[1].ea, ea);
            assert_eq!(u.lines[2].bytes, "10 11 12 13");
            assert_eq!(u.lines[2].ea, EA::new(SegId(3), 0x30));
            assert_eq!(u.lines[2].text_ea.offs, "8030");
        }
        _ => panic!(),
    }
}

#[test]
fn unknown_run_long_real_is_cut_off() {
    let ea = EA::new(SegId(3), 0);
    let data: Vec<u8> = vec![0xEA; 128];
    let addrs: Vec<String> = (0..8).map(|i| format!("{:04X}", 0x8000 + 16 * i)).collect();
    match unknown_item(ea, &s("ROM"), 1000, s("8000"), true, &data, &addrs) {
        CodeViewItem::Unknown(u) => {
            assert_eq!(u.lines.len(), 10);
            assert_eq!(u.lines[0].bytes, "[1000 unexplored byte(s)]");
            assert_eq!(u.lines[9].bytes, "...");
            assert_eq!(u.lines[9].text_ea.offs, "8070");
            assert_eq!(u.lines[9].ea, u.lines[8].ea);
        }
        _ => panic!(),
    }
}

#[test]
fn unknown_run_not_real_has_one_line() {
    let ea = EA::new(SegId(0), 0);
    match unknown_item(ea, &s("BSS"), 300, s("0000"), false, &[], &vec![]) {
        CodeViewItem::Unknown(u) => {
            assert_eq!(u.lines.len(), 1);
            assert_eq!(u.lines[0].bytes, "[300 unexplored byte(s)]");
        }
        _ => panic!(),
    }
}

#[test]
fn render_span_dispatches_on_kind() {
    let ea = EA::new(SegId(1), 8);
    let item = render_span(SpanContent::Data { ea, seg_name: s("ROM"), addr: s("8008") });
    assert!(matches!(item, CodeViewItem::DataItem(_, _)));
    let item = render_span(SpanContent::Code { ea, func: None, has_inrefs: false, name: s("x"), lines: vec![] });
    assert!(matches!(item, CodeViewItem::BasicBlock(_)));
    let item = render_span(SpanContent::Unk {
        ea,
        seg_name: s("ROM"),
        len: 2,
        base_addr: s("8008"),
        is_real: true,
        data: vec![1, 2],
        chunk_addrs: vec![s("8008")],
    });
    match item {
        CodeViewItem::Unknown(u) => assert_eq!(u.lines[1].bytes, "01 02"),
        _ => panic!(),
    }
}
