use adi_fe_iced::backend::SegmentChangedEvent;
use adi_fe_iced::code_line::CodeLine;
use adi_fe_iced::code_view::{CodeView, CodeViewMessage, OperandLocation};
use adi_fe_iced::ea::{SegId, EA};
use adi_fe_iced::frontend::{FrontAction, FrontState};
use adi_fe_iced::print_output::UIRenderOutput;
use adi_fe_iced::render::unknown_item;
use adi_fe_iced::sparse_list::{item_index, Change, IContent};
use adi_fe_iced::style::PrintStyle;
use adi_fe_iced::text::{decimal, hex_bytes};
use adi_fe_iced::ui::{CodeOpData, CodeViewItem, TextEA};

#[test]
fn hex_text_reads_back() {
    let bytes: Vec<u8> = (0u8..=255).step_by(7).collect();
    let text = hex_bytes(&bytes);
    assert_eq!(text.len(), 3 * bytes.len() - 1);
    let back: Vec<u8> = text.split(' ').map(|h| u8::from_str_radix(h, 16).unwrap()).collect();
    assert_eq!(back, bytes);
}

#[test]
fn decimal_text_reads_back() {
    for n in [0usize, 1, 9, 10, 99, 100, 65535, 123456789] {
        let t = decimal(n);
        assert_eq!(t.parse::<usize>().unwrap(), n);
        assert!(n == 0 || !t.starts_with('0'));
    }
}

#[test]
fn printed_text_is_all_kept() {
    let mut out = UIRenderOutput::new();
    let pieces = ["ld", "a", ", ", "(", "hl", ")", " ; x"];
    out.write_str(pieces[0]);
    out.begin(PrintStyle::Mnemonic);
    out.write_str(pieces[1]);
    out.end(PrintStyle::Mnemonic);
    out.write_str(pieces[2]);
    out.begin(PrintStyle::Operand(1));
    out.write_str(pieces[3]);
    out.begin(PrintStyle::Register);
    out.write_str(pieces[4]);
    out.end(PrintStyle::Register);
    out.write_str(pieces[5]);
    out.end(PrintStyle::Operand(1));
    out.write_str(pieces[6]);
    let (mnemonic, ops) = out.finish();
    let held: usize = mnemonic.len() + ops.iter().map(|o| o.text.len()).sum::<usize>();
    let written: usize = pieces.iter().map(|p| p.len()).sum();
    assert_eq!(held, written);
    assert_eq!(mnemonic, "a");
    let text: String = ops.iter().map(|o| o.text.as_str()).collect();
    assert_eq!(text, "ld, (hl) ; x");
}

#[test]
fn every_character_lies_in_the_piece_found_for_it() {
    let line = CodeLine::new_code(
        EA::new(SegId(1), 0),
        TextEA::new("ROM".to_string(), "8000".to_string()),
        EA::new(SegId(1), 0),
        0,
        "4C 00 80".to_string(),
        "jmp".to_string(),
        vec![
            CodeOpData::new(" ".to_string(), None, None),
            CodeOpData::new(String::new(), None, Some(0)),
            CodeOpData::new("$8000".to_string(), Some(PrintStyle::Number), Some(0)),
        ],
    );
    for idx in 0..line.total_len() {
        let c = line.child_at_char_index(idx).unwrap();
        let span = line.spans()[c.0];
        assert!(span.start <= idx && idx < span.start + span.len, "index {} in piece {}", idx, c.0);
    }
}

#[test]
fn changes_are_handed_over_once_in_order() {
    let mut cv = CodeView::new(SegId(7));
    let evs = [
        (EA::new(SegId(7), 1), SegmentChangedEvent::Change),
        (EA::new(SegId(2), 1), SegmentChangedEvent::Change),
        (EA::new(SegId(7), 9), SegmentChangedEvent::Add),
        (EA::new(SegId(7), 1), SegmentChangedEvent::Remove),
    ];
    for (ea, ev) in evs {
        cv.dispatch_event(ea, ev);
    }
    assert_eq!(cv.changes(), vec![Change::Changed { idx: 1 }, Change::Added { idx: 9 }, Change::Removed { idx: 1 }]);
    assert_eq!(cv.changes(), vec![]);
}

#[test]
fn enter_then_leave_clears_the_operand() {
    let loc = OperandLocation { bb_ea: EA::new(SegId(1), 0), instn: 3, opn: 1 };
    let other = OperandLocation { bb_ea: EA::new(SegId(1), 0), instn: 4, opn: 1 };
    let mut fs = FrontState::new();
    fs.handle_code_view_message(CodeViewMessage::OperandHovered { loc, over: true });
    fs.handle_code_view_message(CodeViewMessage::OperandHovered { loc: other, over: false });
    assert_eq!(fs.cur_operand, Some(loc));
    fs.handle_code_view_message(CodeViewMessage::OperandHovered { loc, over: false });
    assert_eq!(fs.cur_operand, None);
}

#[test]
fn a_jump_reaches_its_offset() {
    let mut fs = FrontState::new();
    for offs in [0usize, 1, 0xFFFF, 0xFFFF_FFFF] {
        match fs.handle_code_view_message(CodeViewMessage::JumpTo { ea: EA::new(SegId(1), offs) }).1 {
            FrontAction::ShowAndScrollTo { item, .. } => {
                // the item index travels through the bits of an f32
                assert_eq!(item_index(f32::from_bits(item).to_bits()), offs);
            }
            _ => panic!(),
        }
    }
}

#[test]
fn unexplored_runs_take_at_most_ten_lines() {
    let ea = EA::new(SegId(1), 0);
    for len in [1usize, 15, 16, 17, 127, 128, 129, 100000] {
        let shown = len.min(128);
        let data = vec![0u8; shown];
        let addrs: Vec<String> = (0..shown.div_ceil(16)).map(|i| format!("{:04X}", i * 16)).collect();
        match unknown_item(ea, &"ROM".to_string(), len, "0000".to_string(), true, &data, &addrs) {
            CodeViewItem::Unknown(u) => {
                let expected = 1 + shown.div_ceil(16) + usize::from(len > 128);
                assert_eq!(u.lines.len(), expected);
                assert!(u.lines.len() <= 10);
            }
            _ => panic!(),
        }
    }
}

struct Items(Vec<u32>);

impl IContent<u32> for Items {
    fn item_count(&self) -> usize {
        self.0.len()
    }
    fn len(&self) -> usize {
        self.0.len()
    }
    fn first(&self) -> Option<usize> {
        if self.0.is_empty() { None } else { Some(0) }
    }
    fn last(&self) -> Option<usize> {
        self.0.len().checked_sub(1)
    }
    fn get(&self, idx: usize) -> Option<u32> {
        self.0.get(idx).copied()
    }
    fn index_before(&self, idx: usize) -> Option<usize> {
        idx.checked_sub(1)
    }
    fn index_after(&self, idx: usize) -> Option<usize> {
        (idx + 1 < self.0.len()).then_some(idx + 1)
    }
    fn changes(&self) -> std::collections::VecDeque<Change> {
        std::collections::VecDeque::new()
    }
}

#[test]
fn content_is_empty_exactly_when_it_has_no_items() {
    assert!(Items(vec![]).is_empty());
    assert!(!Items(vec![4, 5]).is_empty());
}
