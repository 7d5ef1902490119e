use adi_fe_iced::backend::{analysis_status_events, segment_changed_event, BackendEvent, SegmentChangedEvent};
use adi_fe_iced::code_line::{ChildIdx, CodeLine, LineInput, LineKind, LineState, PlainKey};
use adi_fe_iced::code_pane::{segment_choices, sort_segments};
use adi_fe_iced::code_view::{CodeView, CodeViewMessage, OperandLocation, RowPiece};
use adi_fe_iced::ea::{SegId, EA};
use adi_fe_iced::frontend::{event_action, EventAction, FrontAction, FrontState, Report};
use adi_fe_iced::line_style::{color_of, PrintStyleEx};
use adi_fe_iced::sparse_list::{
    elements_need_to_be_recreated, first_visible_at_or_after, initial_index, is_between_visible,
    is_right_after_visible, is_visible, item_added_action, item_index, AddedAction, Change, JumpTarget,
};
use adi_fe_iced::style::PrintStyle;
use adi_fe_iced::ui::{
    BasicBlockData, CodeLineData, CodeOpData, CodeViewItem, FuncData, FuncDataKind, SegmentData, TextEA,
    UnknownData, UnknownLineData,
};

fn s(x: &str) -> String {
    x.to_string()
}

fn tea(seg: &str, offs: &str) -> TextEA {
    TextEA::new(s(seg), s(offs))
}

fn texts(row: &[RowPiece]) -> Vec<String> {
    row.iter().map(|p| p.text.clone()).collect()
}

#[test]
fn colors_of_styles() {
    assert_eq!(color_of(PrintStyleEx::Plain), 0xFFFFFF);
    assert_eq!(color_of(PrintStyleEx::SegName), 0xFFFF00);
    assert_eq!(color_of(PrintStyleEx::CodeBytes), 0x8080FF);
    assert_eq!(color_of(PrintStyleEx::Unknown), 0xFF7F00);
    assert_eq!(color_of(PrintStyleEx::Error), 0xFF4040);
    assert_eq!(color_of(PrintStyleEx::Adi(PrintStyle::Mnemonic)), 0xFF0000);
    assert_eq!(color_of(PrintStyleEx::Adi(PrintStyle::Number)), 0x00FF00);
    assert_eq!(color_of(PrintStyleEx::Adi(PrintStyle::Comment)), 0x00AF00);
    assert_eq!(color_of(PrintStyleEx::Adi(PrintStyle::Refname)), 0xFFFFB0);
    assert_eq!(color_of(PrintStyleEx::Adi(PrintStyle::Label)), 0xA06000);
    assert_eq!(PrintStyleEx::from_opt_style(None), PrintStyleEx::Plain);
    assert_eq!(PrintStyleEx::from_opt_style(Some(PrintStyle::String)), PrintStyleEx::Adi(PrintStyle::String));
}

#[test]
fn sparse_list_index_decisions() {
    assert_eq!(initial_index(JumpTarget::Top, Some(3), Some(9)), 3);
    assert_eq!(initial_index(JumpTarget::Bottom, Some(3), Some(9)), 9);
    assert_eq!(initial_index(JumpTarget::Item { idx: 5 }, None, None), 5);
    assert!(elements_need_to_be_recreated(0, 4));
    assert!(!elements_need_to_be_recreated(4, 4));
    assert!(!elements_need_to_be_recreated(0, 0));
    assert!(is_between_visible(5, 2, 9));
    assert!(!is_between_visible(2, 2, 9));
    assert!(!is_between_visible(9, 2, 9));
    assert!(is_right_after_visible(10, Some(10)));
    assert!(!is_right_after_visible(10, None));
    let visible = [2usize, 4, 8, 16];
    assert!(is_visible(&visible, 8));
    assert!(!is_visible(&visible, 7));
    assert_eq!(first_visible_at_or_after(&visible, 5), 8);
    assert_eq!(first_visible_at_or_after(&visible, 4), 4);
    assert_eq!(item_added_action(&[], 7, None), AddedAction::AddOnly);
    assert_eq!(item_added_action(&visible, 5, None), AddedAction::InsertBefore { next: 8 });
    assert_eq!(item_added_action(&visible, 20, Some(20)), AddedAction::Refresh);
    assert_eq!(item_added_action(&visible, 1, Some(20)), AddedAction::Nothing);
    assert_eq!(item_index(0x1234), 0x1234);
}

#[test]
fn backend_events() {
    let ev = segment_changed_event(SegId(2), 0x40, SegmentChangedEvent::Remove);
    assert_eq!(ev, BackendEvent::SegmentChanged { ea: EA::new(SegId(2), 0x40), ev: SegmentChangedEvent::Remove });
    let (a, b) = analysis_status_events();
    assert_eq!(a, BackendEvent::AutoAnalysisStatus { running: true });
    assert_eq!(b, BackendEvent::AutoAnalysisStatus { running: false });
}

#[test]
fn code_view_queues_changes_of_its_segment() {
    let mut cv = CodeView::new(SegId(3));
    assert_eq!(cv.segid(), SegId(3));
    cv.dispatch_event(EA::new(SegId(3), 10), SegmentChangedEvent::Add);
    cv.dispatch_event(EA::new(SegId(1), 11), SegmentChangedEvent::Add);
    cv.dispatch_event(EA::new(SegId(3), 12), SegmentChangedEvent::Change);
    cv.dispatch_event(EA::new(SegId(3), 13), SegmentChangedEvent::Remove);
    assert_eq!(
        cv.changes(),
        vec![Change::Added { idx: 10 }, Change::Changed { idx: 12 }, Change::Removed { idx: 13 }]
    );
    assert!(cv.changes().is_empty());
    cv.dispatch_event(EA::new(SegId(3), 1), SegmentChangedEvent::Add);
    let same = cv.set_segment(SegId(3));
    let mut other = same.set_segment(SegId(4));
    assert_eq!(other.segid(), SegId(4));
    assert!(other.changes().is_empty());
}

fn op(t: &str, style: Option<PrintStyle>, opn: Option<u8>) -> CodeOpData {
    CodeOpData::new(s(t), style, opn)
}

#[test]
fn basic_block_rows() {
    let bb_ea = EA::new(SegId(1), 0x100);
    let bb = BasicBlockData {
        ea: bb_ea,
        label: s("start"),
        lines: vec![
            CodeLineData {
                ea: bb_ea,
                text_ea: tea("ROM", "8100"),
                bytes: s("A9 10"),
                mnemonic: s("lda"),
                operands: vec![op(" ", None, None), op("#$10", Some(PrintStyle::Number), Some(0))],
            },
            CodeLineData {
                ea: EA::new(SegId(1), 0x102),
                text_ea: tea("ROM", "8102"),
                bytes: s("60"),
                mnemonic: s("rts"),
                operands: vec![],
            },
        ],
        func: Some(FuncData {
            name: s("reset"),
            kind: FuncDataKind::Head { attrs: None, entrypoints: Some(s("a, b")) },
        }),
    };
    let rows = CodeViewItem::BasicBlock(bb).render();
    assert_eq!(rows.len(), 7);
    assert_eq!(texts(&rows[0]), vec![format!("; ; {}", "-".repeat(78))]);
    assert_eq!(texts(&rows[1]), vec![s("; ; Function reset")]);
    assert_eq!(texts(&rows[2]), vec![s("; ; Entry points: a, b")]);
    assert_eq!(texts(&rows[3]), vec![format!("{}start", " ".repeat(19)), s(":")]);
    assert_eq!(
        texts(&rows[4]),
        vec![s("ROM"), s(":8100 "), s(" A9 10        "), s("lda"), s(" "), s("#$10")]
    );
    assert_eq!(rows[4][5].operand, Some(OperandLocation { bb_ea, instn: 0, opn: 0 }));
    assert_eq!(rows[4][4].operand, None);
    assert_eq!(rows[4][5].style, PrintStyleEx::Adi(PrintStyle::Number));
    assert_eq!(rows[4][3].style, PrintStyleEx::Adi(PrintStyle::Mnemonic));
    assert_eq!(texts(&rows[5]), vec![s("ROM"), s(":8102 "), s(" 60           "), s("rts")]);
    assert_eq!(texts(&rows[6]), vec![s("")]);
}

#[test]
fn piece_header_and_no_label() {
    let bb_ea = EA::new(SegId(1), 0);
    let bb = BasicBlockData {
        ea: bb_ea,
        label: s(""),
        lines: vec![CodeLineData {
            ea: bb_ea,
            text_ea: tea("ROM", "8000"),
            bytes: s("EA"),
            mnemonic: s("nop"),
            operands: vec![],
        }],
        func: Some(FuncData { name: s("f"), kind: FuncDataKind::Piece }),
    };
    let rows = bb.render();
    assert_eq!(rows.len(), 4);
    assert_eq!(texts(&rows[1]), vec![s("; ; (Piece of function f)")]);
}

#[test]
fn unknown_and_data_rows() {
    let u = UnknownData {
        lines: vec![
            UnknownLineData { ea: EA::new(SegId(2), 0), text_ea: tea("RAM", "0000"), bytes: s("[4 unexplored byte(s)]") },
            UnknownLineData { ea: EA::new(SegId(2), 0), text_ea: tea("RAM", "0000"), bytes: s("00 01 02 03") },
        ],
    };
    let rows = u.render();
    assert_eq!(rows.len(), 3);
    assert_eq!(texts(&rows[0]), vec![s("RAM"), s(":0000"), s(" [4 unexplored byte(s)]")]);
    assert_eq!(rows[1][2].style, PrintStyleEx::Unknown);
    assert_eq!(texts(&rows[2]), vec![s("")]);
    let rows = CodeViewItem::DataItem(EA::new(SegId(2), 4), tea("RAM", "0004")).render();
    assert_eq!(rows.len(), 1);
    assert_eq!(texts(&rows[0]), vec![s("RAM"), s(":0004 "), s("DATA UNIMPLEMENTED")]);
    assert_eq!(rows[0][2].style, PrintStyleEx::Error);
}

fn sample_code_line() -> CodeLine {
    CodeLine::new_code(
        EA::new(SegId(1), 0x10),
        tea("ROM", "8010"),
        EA::new(SegId(1), 0),
        2,
        s("BD 00 02"),
        s("lda"),
        vec![
            op(" ", None, None),
            op("$0200", Some(PrintStyle::Number), Some(0)),
            op(", ", None, None),
            op("x", Some(PrintStyle::Register), Some(1)),
        ],
    )
}

#[test]
fn code_line_pieces_and_spans() {
    let line = sample_code_line();
    let t: Vec<String> = line.children().iter().map(|p| p.text.clone()).collect();
    assert_eq!(t, vec![s("ROM"), s(":8010 "), s("BD 00 02     "), s("lda"), s(" "), s("$0200"), s(", "), s("x")]);
    let starts: Vec<usize> = line.spans().iter().map(|sp| sp.start).collect();
    assert_eq!(starts, vec![0, 3, 9, 22, 25, 26, 31, 33]);
    assert_eq!(line.total_len(), 34);
    assert_eq!(line.text_ea(), Some((ChildIdx(0), ChildIdx(1))));
    match line.kind() {
        LineKind::Code { instn, code_bytes, mnemonic, operands, .. } => {
            assert_eq!(*instn, 2);
            assert_eq!(*code_bytes, ChildIdx(2));
            assert_eq!(*mnemonic, ChildIdx(3));
            let idxs: Vec<ChildIdx> = operands.iter().map(|(_, c)| *c).collect();
            assert_eq!(idxs, vec![ChildIdx(4), ChildIdx(5), ChildIdx(6), ChildIdx(7)]);
        }
        _ => panic!(),
    }
    assert_eq!(line.child_at_char_index(0), Some(ChildIdx(0)));
    assert_eq!(line.child_at_char_index(27), Some(ChildIdx(5)));
    assert_eq!(line.child_at_char_index(26), Some(ChildIdx(5)));
    // after the last character there is no piece
    assert_eq!(line.child_at_char_index(33), Some(ChildIdx(7)));
    assert_eq!(line.child_at_char_index(34), None);
    assert_eq!(line.child_at_char_index(1000), None);
    assert_eq!(line.cursor_after_move(0, -1), 0);
    assert_eq!(line.cursor_after_move(34, 1), 34);
    assert_eq!(line.cursor_after_move(5, 1), 6);
    assert_eq!(
        line.get_operand_loc(ChildIdx(7)),
        OperandLocation { bb_ea: EA::new(SegId(1), 0), instn: 2, opn: 1 }
    );
    assert_eq!(line.operand_child(Some(ChildIdx(4))), None);
    assert_eq!(line.operand_child(Some(ChildIdx(5))), Some(ChildIdx(5)));
}

#[test]
fn other_code_line_kinds() {
    let ea = EA::new(SegId(1), 0);
    let b = CodeLine::new_blank(ea);
    assert_eq!(b.children().len(), 1);
    assert_eq!(b.total_len(), 0);
    assert_eq!(b.child_at_char_index(0), None);
    let e = CodeLine::new_error(ea, tea("ROM", "8000"), s("bad"));
    let t: Vec<String> = e.children().iter().map(|p| p.text.clone()).collect();
    assert_eq!(t, vec![s("ROM"), s(":8000 "), s("bad")]);
    assert_eq!(e.children()[2].style, PrintStyleEx::Error);
    let c = CodeLine::new_comment(ea, s("hi"));
    assert_eq!(c.children()[0].text, "; hi");
    let l = CodeLine::new_label(ea, s("loop"));
    let t: Vec<String> = l.children().iter().map(|p| p.text.clone()).collect();
    assert_eq!(t, vec![s("loop"), s(":")]);
    let u = CodeLine::new_unknown(ea, tea("ROM", "8000"), s("00 11"));
    assert_eq!(u.children()[2].text, "00 11");
    assert_eq!(u.total_len(), 3 + 6 + 5);
}

#[test]
fn code_line_hover_click_and_focus() {
    let line = sample_code_line();
    let loc0 = OperandLocation { bb_ea: EA::new(SegId(1), 0), instn: 2, opn: 0 };
    let loc1 = OperandLocation { bb_ea: EA::new(SegId(1), 0), instn: 2, opn: 1 };
    let mut st = LineState::new();

    // mouse moves over a plain piece: nothing
    let u = line.update(&mut st, true, Some(ChildIdx(4)), LineInput::Other);
    assert!(!u.redraw);
    assert!(u.messages.is_empty());

    // over operand 0
    let u = line.update(&mut st, true, Some(ChildIdx(5)), LineInput::Other);
    assert!(u.redraw);
    assert_eq!(u.messages, vec![CodeViewMessage::OperandHovered { loc: loc0, over: true }]);

    // press on it
    let u = line.update(&mut st, true, Some(ChildIdx(5)), LineInput::LeftPressed);
    assert!(u.capture);
    assert_eq!(st.pressed_child, Some(ChildIdx(5)));

    // release on it: click, cursor placed
    let u = line.update(
        &mut st,
        true,
        Some(ChildIdx(5)),
        LineInput::LeftReleased { cursor_known: true, cursor_idx: 27, double: false },
    );
    assert!(u.clicked);
    assert_eq!(u.messages, vec![CodeViewMessage::OperandClicked { loc: loc0, double: false }]);
    assert_eq!(st.line_cursor, Some(27));
    assert_eq!(st.pressed_child, None);

    // move to operand 1: leave then enter
    let u = line.update(&mut st, true, Some(ChildIdx(7)), LineInput::Other);
    assert_eq!(
        u.messages,
        vec![
            CodeViewMessage::OperandHovered { loc: loc0, over: false },
            CodeViewMessage::OperandHovered { loc: loc1, over: true },
        ]
    );

    // leave the line
    let u = line.update(&mut st, false, None, LineInput::Other);
    assert_eq!(u.messages, vec![CodeViewMessage::OperandHovered { loc: loc1, over: false }]);

    // a key press focuses the operand under the text cursor
    let u = line.update(&mut st, false, None, LineInput::KeyPressed { key: PlainKey::Other });
    assert_eq!(u.messages, vec![CodeViewMessage::OperandFocused { loc: loc0, over: true }]);
    assert_eq!(st.focused_child, Some(ChildIdx(5)));

    // move the cursor left out of the operand: focus leaves
    for _ in 0..1 {
        let u = line.update(&mut st, false, None, LineInput::KeyPressed { key: PlainKey::ArrowLeft });
        assert_eq!(st.line_cursor, Some(26));
        assert!(u.messages.is_empty());
    }
    let u = line.update(&mut st, false, None, LineInput::KeyPressed { key: PlainKey::ArrowLeft });
    assert_eq!(st.line_cursor, Some(25));
    assert!(u.redraw);
    assert_eq!(u.messages, vec![CodeViewMessage::OperandFocused { loc: loc0, over: false }]);
    assert_eq!(st.focused_child, None);
}

#[test]
fn cursor_after_the_last_character_focuses_nothing() {
    let line = sample_code_line();
    let loc1 = OperandLocation { bb_ea: EA::new(SegId(1), 0), instn: 2, opn: 1 };
    let mut st = LineState::new();
    // place the cursor on the last character, which belongs to operand 1
    line.update(&mut st, true, None, LineInput::LeftReleased { cursor_known: true, cursor_idx: 33, double: false });
    let u = line.update(&mut st, false, None, LineInput::KeyPressed { key: PlainKey::Other });
    assert_eq!(u.messages, vec![CodeViewMessage::OperandFocused { loc: loc1, over: true }]);
    // one step right puts it after the last character: nothing is focused there
    let u = line.update(&mut st, false, None, LineInput::KeyPressed { key: PlainKey::ArrowRight });
    assert_eq!(st.line_cursor, Some(34));
    assert_eq!(st.focused_child, None);
    assert_eq!(u.messages, vec![CodeViewMessage::OperandFocused { loc: loc1, over: false }]);
}

#[test]
fn release_elsewhere_is_no_click() {
    let line = sample_code_line();
    let mut st = LineState::new();
    line.update(&mut st, true, Some(ChildIdx(5)), LineInput::LeftPressed);
    let u = line.update(
        &mut st,
        true,
        Some(ChildIdx(7)),
        LineInput::LeftReleased { cursor_known: true, cursor_idx: 33, double: false },
    );
    assert!(!u.clicked);
    assert_eq!(st.pressed_child, None);
}

#[test]
fn front_state_tracks_current_operand() {
    let loc = OperandLocation { bb_ea: EA::new(SegId(1), 0), instn: 0, opn: 0 };
    let other = OperandLocation { bb_ea: EA::new(SegId(1), 0), instn: 1, opn: 0 };
    let mut fs = FrontState::new();
    let r = fs.handle_code_view_message(CodeViewMessage::OperandHovered { loc, over: true });
    assert_eq!(r, (Some(Report::HoverStarted { loc }), FrontAction::Nothing));
    assert_eq!(fs.cur_operand, Some(loc));
    let r = fs.handle_code_view_message(CodeViewMessage::OperandHovered { loc: other, over: false });
    assert_eq!(r.0, None);
    assert_eq!(fs.cur_operand, Some(loc));
    let r = fs.handle_code_view_message(CodeViewMessage::OperandFocused { loc, over: false });
    assert_eq!(r.0, Some(Report::FocusEnded));
    assert_eq!(fs.cur_operand, None);
    let r = fs.handle_code_view_message(CodeViewMessage::OperandClicked { loc, double: true });
    assert_eq!(r.0, Some(Report::Clicked { loc, double: true }));
    let r = fs.handle_code_view_message(CodeViewMessage::JumpTo { ea: EA::new(SegId(5), 0x1234) });
    assert_eq!(r.1, FrontAction::ShowAndScrollTo { seg: SegId(5), item: 0x1234, offset: 80 });
    let r = fs.handle_code_view_message(CodeViewMessage::SwitchSegment { id: SegId(2) });
    assert_eq!(r.1, FrontAction::ShowAndScrollTo { seg: SegId(2), item: 0, offset: 0 });
    assert_eq!(fs.handle_code_view_message(CodeViewMessage::JumpToTop).1, FrontAction::SnapToTop);
    assert_eq!(fs.handle_code_view_message(CodeViewMessage::JumpToBottom).1, FrontAction::SnapToBottom);
    assert_eq!(fs.handle_code_view_message(CodeViewMessage::Scroll { up: true }).1, FrontAction::ScrollBy { dy: -20 });
    assert_eq!(fs.handle_code_view_message(CodeViewMessage::Scroll { up: false }).1, FrontAction::ScrollBy { dy: 20 });
}

#[test]
fn back_end_event_actions() {
    let ea = EA::new(SegId(1), 2);
    assert_eq!(
        event_action(BackendEvent::SegmentChanged { ea, ev: SegmentChangedEvent::Change }),
        EventAction::DispatchToCodePane { ea, ev: SegmentChangedEvent::Change }
    );
    assert_eq!(
        event_action(BackendEvent::AutoAnalysisStatus { running: false }),
        EventAction::AnalysisStatus { running: false }
    );
    assert_eq!(event_action(BackendEvent::ImageLoaded { start_ea: ea }), EventAction::Nothing);
}

#[test]
fn segment_selector_is_sorted() {
    let all = vec![
        SegmentData { segid: SegId(3), name: s("ROM"), is_image: true },
        SegmentData { segid: SegId(1), name: s("ZP"), is_image: false },
        SegmentData { segid: SegId(2), name: s("RAM"), is_image: false },
    ];
    let sorted = sort_segments(all.clone());
    let ids: Vec<u16> = sorted.iter().map(|d| d.segid.0).collect();
    assert_eq!(ids, vec![1, 2, 3]);
    let (choices, this) = segment_choices(all, SegId(2));
    assert_eq!(choices.len(), 3);
    assert_eq!(this.name, "RAM");
    assert_eq!(this.segid, SegId(2));
}

#[test]
fn code_line_layout_of_one_operand() {
    let ea = EA::new(SegId(1), 0x10);
    let line = CodeLine::new_code(
        ea,
        tea("ROM", "8010"),
        ea,
        0,
        s("A9 00"),
        s("lda"),
        vec![op("#$00", Some(PrintStyle::Number), Some(0))],
    );
    assert_eq!(line.total_len(), 29);
    assert_eq!(line.children().len(), 5);
    let spans: Vec<(usize, usize, Option<u8>)> = line.spans().iter().map(|sp| (sp.start, sp.len, sp.opn)).collect();
    assert_eq!(spans, vec![(0, 3, None), (3, 6, None), (9, 13, None), (22, 3, None), (25, 4, Some(0))]);
}
