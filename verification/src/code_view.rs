//! The code view: the messages it sends, the lines each listed item is made of,
//! and the queue of span changes it hands to the sparse list.

use vstd::prelude::*;

use crate::backend::SegmentChangedEvent;
use crate::ea::{EA, SegId};
use crate::line_style::{opt_style_ex, PrintStyleEx};
use crate::sparse_list::Change;
use crate::style::PrintStyle;
use crate::text::{pad_right, pad_right_to, spaces};
use crate::ui::{BasicBlockData, CodeOpData, CodeViewItem, FuncData, FuncDataKind, TextEA, UnknownData};
use vstd::string::*;

verus! {

/// Where an operand is: the basic block, the instruction in it and the operand of
/// that instruction.
#[derive(Debug, Clone, Copy, PartialEq, Eq, Structural)]
pub struct OperandLocation {
    pub bb_ea: EA,
    pub instn: usize,
    pub opn: u8,
}

/// Messages that the code view sends.
#[derive(Debug, Clone, Copy, PartialEq, Eq, Structural)]
pub enum CodeViewMessage {
    OperandHovered { loc: OperandLocation, over: bool },
    OperandClicked { loc: OperandLocation, double: bool },
    OperandFocused { loc: OperandLocation, over: bool },
    JumpTo { ea: EA },
    SwitchSegment { id: SegId },
    JumpToTop,
    JumpToBottom,
    Scroll { up: bool },
}

/// The list change that a span change at `ea` means for a view of segment `seg`:
/// none for another segment; otherwise the item at the span's offset was added,
/// removed or changed.
pub open spec fn change_for(seg: SegId, ea: EA, ev: SegmentChangedEvent) -> Option<Change> {
    if ea.seg != seg {
        None
    } else {
        Some(
            match ev {
                SegmentChangedEvent::Add => Change::Added { idx: ea.offs },
                SegmentChangedEvent::Remove => Change::Removed { idx: ea.offs },
                SegmentChangedEvent::Change => Change::Changed { idx: ea.offs },
            },
        )
    }
}

/// The spans of one segment, as seen by the sparse list: an item per span, indexed
/// by the span's offset, and the changes not yet handed over.
pub struct CodeView {
    id: SegId,
    changes: Vec<Change>,
}

impl CodeView {
    /// The segment shown.
    pub closed spec fn seg(&self) -> SegId {
        self.id
    }

    /// The changes not yet handed over, oldest first.
    pub closed spec fn pending(&self) -> Seq<Change> {
        self.changes@
    }

    pub fn new(id: SegId) -> (r: CodeView)
        ensures
            r.seg() == id,
            r.pending() == Seq::<Change>::empty(),
    {
        CodeView { id, changes: Vec::new() }
    }

    pub fn segid(&self) -> (r: SegId)
        ensures
            r == self.seg(),
    {
        self.id
    }

    /// Records a change of the span at `ea`, if it lies in this view's segment.
    pub fn dispatch_event(&mut self, ea: EA, ev: SegmentChangedEvent)
        ensures
            final(self).seg() == old(self).seg(),
            final(self).pending() == pending_after(old(self).pending(), old(self).seg(), ea, ev),
    {
        if ea.seg() == self.id {
            let c = match ev {
                SegmentChangedEvent::Add => Change::Added { idx: ea.offs() },
                SegmentChangedEvent::Remove => Change::Removed { idx: ea.offs() },
                SegmentChangedEvent::Change => Change::Changed { idx: ea.offs() },
            };
            self.changes.push(c);
        }
    }

    /// Hands over the recorded changes, oldest first, and forgets them.
    pub fn changes(&mut self) -> (r: Vec<Change>)
        ensures
            r@ == old(self).pending(),
            final(self).seg() == old(self).seg(),
            final(self).pending() == Seq::<Change>::empty(),
    {
        let mut taken = Vec::new();
        core::mem::swap(&mut taken, &mut self.changes);
        taken
    }

    /// The view to show segment `segid`: this one if it already shows it, and a
    /// fresh one (with no recorded changes) otherwise.
    pub fn set_segment(self, segid: SegId) -> (r: CodeView)
        ensures
            r.seg() == segid,
            segid == self.seg() ==> r.pending() == self.pending(),
            segid != self.seg() ==> r.pending() == Seq::<Change>::empty(),
    {
        if self.id != segid {
            CodeView::new(segid)
        } else {
            self
        }
    }
}

/// The changes left pending by one dispatch.
pub open spec fn pending_after(pending: Seq<Change>, seg: SegId, ea: EA, ev: SegmentChangedEvent) -> Seq<Change> {
    match change_for(seg, ea, ev) {
        Some(c) => pending.push(c),
        None => pending,
    }
}

/// The changes left pending by dispatching the span changes `evs` in order.
pub open spec fn pending_after_all(
    pending: Seq<Change>,
    seg: SegId,
    evs: Seq<(EA, SegmentChangedEvent)>,
) -> Seq<Change>
    decreases evs.len(),
{
    if evs.len() == 0 {
        pending
    } else {
        pending_after_all(pending_after(pending, seg, evs[0].0, evs[0].1), seg, evs.drop_first())
    }
}

/// The list changes that the span changes `evs` mean for segment `seg`, in order.
pub open spec fn changes_of(seg: SegId, evs: Seq<(EA, SegmentChangedEvent)>) -> Seq<Change>
    decreases evs.len(),
{
    if evs.len() == 0 {
        Seq::empty()
    } else {
        (match change_for(seg, evs[0].0, evs[0].1) {
            Some(c) => seq![c],
            None => Seq::empty(),
        }) + changes_of(seg, evs.drop_first())
    }
}

/// Law: every change to a span of the shown segment is handed to the list exactly
/// once and in the order it came, with the span's offset as the item index; changes
/// to other segments are never handed over.
pub proof fn lemma_changes_kept_in_order(pending: Seq<Change>, seg: SegId, evs: Seq<(EA, SegmentChangedEvent)>)
    ensures
        pending_after_all(pending, seg, evs) == pending + changes_of(seg, evs),
    decreases evs.len(),
{
    if evs.len() == 0 {
        assert(pending + Seq::<Change>::empty() =~= pending);
    } else {
        let next = pending_after(pending, seg, evs[0].0, evs[0].1);
        lemma_changes_kept_in_order(next, seg, evs.drop_first());
        match change_for(seg, evs[0].0, evs[0].1) {
            Some(c) => {
                assert(pending.push(c) + changes_of(seg, evs.drop_first()) =~= pending + (seq![c]
                    + changes_of(seg, evs.drop_first())));
            },
            None => {
                assert(Seq::<Change>::empty() + changes_of(seg, evs.drop_first()) =~= changes_of(
                    seg,
                    evs.drop_first(),
                ));
            },
        }
    }
}

/// One piece of a row of the listing: its text, its style, and the operand it
/// shows (pieces that show an operand react to the mouse).
#[derive(Debug, Clone)]
pub struct RowPiece {
    pub text: String,
    pub style: PrintStyleEx,
    pub operand: Option<OperandLocation>,
}

/// The abstract content of a row piece.
pub struct PieceView {
    pub text: Seq<char>,
    pub style: PrintStyleEx,
    pub operand: Option<OperandLocation>,
}

pub open spec fn piece_view(p: RowPiece) -> PieceView {
    PieceView { text: p.text@, style: p.style, operand: p.operand }
}

pub open spec fn row_view(r: Seq<RowPiece>) -> Seq<PieceView> {
    r.map_values(|p: RowPiece| piece_view(p))
}

pub open spec fn rows_view(rs: Seq<Vec<RowPiece>>) -> Seq<Seq<PieceView>> {
    rs.map_values(|r: Vec<RowPiece>| row_view(r@))
}

pub open spec fn pv(text: Seq<char>, style: PrintStyleEx) -> PieceView {
    PieceView { text, style, operand: None }
}

/// The pieces that show an address: the segment name, then ":offset ".
pub open spec fn textea_row(seg: Seq<char>, offs: Seq<char>) -> Seq<PieceView> {
    seq![pv(seg, PrintStyleEx::SegName), pv(seq![':'] + offs + seq![' '], PrintStyleEx::Plain)]
}

pub open spec fn blank_row() -> Seq<PieceView> {
    seq![pv(Seq::empty(), PrintStyleEx::Plain)]
}

pub open spec fn error_row(seg: Seq<char>, offs: Seq<char>, message: Seq<char>) -> Seq<PieceView> {
    textea_row(seg, offs).push(pv(message, PrintStyleEx::Error))
}

pub open spec fn comment_row(comment: Seq<char>) -> Seq<PieceView> {
    seq![pv(seq![';', ' '] + comment, PrintStyleEx::Adi(PrintStyle::Comment))]
}

/// Labels are indented by this many spaces.
pub open spec fn label_indent() -> nat {
    19
}

pub open spec fn label_row(label: Seq<char>) -> Seq<PieceView> {
    seq![
        pv(spaces(label_indent()) + label, PrintStyleEx::Adi(PrintStyle::Label)),
        pv(seq![':'], PrintStyleEx::Plain),
    ]
}

/// The code bytes column: a space, the bytes padded to eight characters, five spaces.
pub open spec fn code_bytes_text(code_bytes: Seq<char>) -> Seq<char> {
    seq![' '] + pad_right(code_bytes, 8) + spaces(5)
}

pub open spec fn operand_piece(op: CodeOpData, bb_ea: EA, instn: usize) -> PieceView {
    PieceView {
        text: op.text@,
        style: opt_style_ex(op.style),
        operand: match op.opn {
            Some(opn) => Some(OperandLocation { bb_ea, instn, opn }),
            None => None,
        },
    }
}

pub open spec fn code_row(
    seg: Seq<char>,
    offs: Seq<char>,
    bb_ea: EA,
    instn: usize,
    code_bytes: Seq<char>,
    mnemonic: Seq<char>,
    operands: Seq<CodeOpData>,
) -> Seq<PieceView> {
    textea_row(seg, offs) + seq![
        pv(code_bytes_text(code_bytes), PrintStyleEx::CodeBytes),
        pv(mnemonic, PrintStyleEx::Adi(PrintStyle::Mnemonic)),
    ] + operands.map_values(|op: CodeOpData| operand_piece(op, bb_ea, instn))
}

pub open spec fn unknown_row(seg: Seq<char>, offs: Seq<char>, bytes: Seq<char>) -> Seq<PieceView> {
    seq![
        pv(seg, PrintStyleEx::SegName),
        pv(seq![':'] + offs, PrintStyleEx::Plain),
        pv(bytes, PrintStyleEx::Unknown),
    ]
}

/// No operand of the list is an operand bracket used as a style.
pub open spec fn styles_ok(operands: Seq<CodeOpData>) -> bool {
    forall|i: int| 0 <= i < operands.len() ==> !(#[trigger] operands[i].style matches Some(PrintStyle::Operand(_)))
}

fn piece(text: String, style: PrintStyleEx) -> (r: RowPiece)
    ensures
        piece_view(r) == pv(text@, style),
{
    RowPiece { text, style, operand: None }
}

fn concat(a: &str, b: &str) -> (r: String)
    ensures
        r@ == a@ + b@,
{
    let mut s = String::from_str(a);
    s.append(b);
    s
}

fn textea(ea: TextEA) -> (r: Vec<RowPiece>)
    ensures
        row_view(r@) == textea_row(ea.seg@, ea.offs@),
{
    let mut offs = String::from_str(":");
    offs.append(ea.offs.as_str());
    offs.append(" ");
    proof {
        reveal_strlit(":");
        reveal_strlit(" ");
        assert(offs@ =~= seq![':'] + ea.offs@ + seq![' ']);
    }
    let ghost seg = ea.seg@;
    let ghost o = ea.offs@;
    let mut v = Vec::new();
    v.push(piece(ea.seg, PrintStyleEx::SegName));
    v.push(piece(offs, PrintStyleEx::Plain));
    assert(row_view(v@) =~= textea_row(seg, o));
    v
}

fn blank_line() -> (r: Vec<RowPiece>)
    ensures
        row_view(r@) == blank_row(),
{
    let mut v = Vec::new();
    v.push(piece(String::new(), PrintStyleEx::Plain));
    assert(row_view(v@) =~= blank_row());
    v
}

fn error_line(ea: TextEA, message: String) -> (r: Vec<RowPiece>)
    ensures
        row_view(r@) == error_row(ea.seg@, ea.offs@, message@),
{
    let mut v = textea(ea);
    v.push(piece(message, PrintStyleEx::Error));
    assert(row_view(v@) =~= error_row(ea.seg@, ea.offs@, message@));
    v
}

fn comment_line(comment: String) -> (r: Vec<RowPiece>)
    ensures
        row_view(r@) == comment_row(comment@),
{
    let t = concat("; ", comment.as_str());
    proof {
        reveal_strlit("; ");
        assert(t@ =~= seq![';', ' '] + comment@);
    }
    let mut v = Vec::new();
    v.push(piece(t, PrintStyleEx::Adi(PrintStyle::Comment)));
    assert(row_view(v@) =~= comment_row(comment@));
    v
}

fn label_line(label: String) -> (r: Vec<RowPiece>)
    ensures
        row_view(r@) == label_row(label@),
{
    let t = concat("                   ", label.as_str());
    let c = String::from_str(":");
    proof {
        reveal_strlit("                   ");
        reveal_strlit(":");
        assert(t@ =~= spaces(label_indent()) + label@);
        assert(c@ =~= seq![':']);
    }
    let mut v = Vec::new();
    v.push(piece(t, PrintStyleEx::Adi(PrintStyle::Label)));
    v.push(piece(c, PrintStyleEx::Plain));
    assert(row_view(v@) =~= label_row(label@));
    v
}

fn code_line(
    ea: TextEA,
    bb_ea: EA,
    instn: usize,
    code_bytes: String,
    mnemonic: String,
    operands: Vec<CodeOpData>,
) -> (r: Vec<RowPiece>)
    requires
        styles_ok(operands@),
    ensures
        row_view(r@) == code_row(ea.seg@, ea.offs@, bb_ea, instn, code_bytes@, mnemonic@, operands@),
{
    let ghost seg = ea.seg@;
    let ghost offs = ea.offs@;
    let mut cb = String::from_str(" ");
    let padded = pad_right_to(code_bytes.as_str(), 8);
    cb.append(padded.as_str());
    cb.append("     ");
    proof {
        reveal_strlit(" ");
        reveal_strlit("     ");
        assert(cb@ =~= code_bytes_text(code_bytes@));
    }
    let mut v = textea(ea);
    assert(row_view(v@).len() == 2);
    assert(v@.len() == 2);
    v.push(piece(cb, PrintStyleEx::CodeBytes));
    v.push(piece(mnemonic, PrintStyleEx::Adi(PrintStyle::Mnemonic)));
    let ghost head = row_view(v@);
    assert(operands@.take(0) =~= Seq::<CodeOpData>::empty());
    assert(row_view(v@) =~= head + operands@.take(0).map_values(
        |op: CodeOpData| operand_piece(op, bb_ea, instn),
    ));
    let mut i: usize = 0;
    while i < operands.len()
        invariant
            i <= operands@.len(),
            styles_ok(operands@),
            v@.len() == 4 + i,
            row_view(v@) == head + operands@.take(i as int).map_values(
                |op: CodeOpData| operand_piece(op, bb_ea, instn),
            ),
        decreases operands.len() - i,
    {
        let op = &operands[i];
        assert(!(operands@[i as int].style matches Some(PrintStyle::Operand(_))));
        let style = PrintStyleEx::from_opt_style(op.style);
        let operand = match op.opn {
            Some(opn) => Some(OperandLocation { bb_ea, instn, opn }),
            None => None,
        };
        let ghost before = v@;
        let p = RowPiece { text: op.text.clone(), style, operand };
        assert(piece_view(p) == operand_piece(operands@[i as int], bb_ea, instn));
        v.push(p);
        assert(row_view(v@) =~= row_view(before).push(piece_view(p)));
        assert(operands@.take(i as int + 1) =~= operands@.take(i as int).push(operands@[i as int]));
        assert(row_view(v@) =~= head + operands@.take(i as int + 1).map_values(
            |op: CodeOpData| operand_piece(op, bb_ea, instn),
        ));
        i = i + 1;
    }
    assert(operands@.take(operands@.len() as int) =~= operands@);
    assert(row_view(v@) =~= code_row(seg, offs, bb_ea, instn, code_bytes@, mnemonic@, operands@));
    v
}

fn unknown_line(ea: TextEA, bytes: String) -> (r: Vec<RowPiece>)
    ensures
        row_view(r@) == unknown_row(ea.seg@, ea.offs@, bytes@),
{
    let offs = concat(":", ea.offs.as_str());
    proof {
        reveal_strlit(":");
        assert(offs@ =~= seq![':'] + ea.offs@);
    }
    let ghost seg = ea.seg@;
    let ghost o = ea.offs@;
    let mut v = Vec::new();
    v.push(piece(ea.seg, PrintStyleEx::SegName));
    v.push(piece(offs, PrintStyleEx::Plain));
    v.push(piece(bytes, PrintStyleEx::Unknown));
    assert(row_view(v@) =~= unknown_row(seg, o, bytes@));
    v
}


/// The kinds of lines of the listing.
enum LineKind {
    Blank,
    Error { message: String },
    Comment { comment: String },
    Label { label: String },
    Code { bb_ea: EA, instn: usize, code_bytes: String, mnemonic: String, operands: Vec<CodeOpData> },
    Unk { bytes: String },
}

/// One line of the listing, with the address it belongs to.
struct CodeLine {
    ea: TextEA,
    kind: LineKind,
}

spec fn line_ok(line: CodeLine) -> bool {
    line.kind matches LineKind::Code { operands, .. } ==> styles_ok(operands@)
}

spec fn line_row(line: CodeLine) -> Seq<PieceView> {
    match line.kind {
        LineKind::Blank => blank_row(),
        LineKind::Error { message } => error_row(line.ea.seg@, line.ea.offs@, message@),
        LineKind::Comment { comment } => comment_row(comment@),
        LineKind::Label { label } => label_row(label@),
        LineKind::Unk { bytes } => unknown_row(line.ea.seg@, line.ea.offs@, bytes@),
        LineKind::Code { bb_ea, instn, code_bytes, mnemonic, operands } => code_row(
            line.ea.seg@,
            line.ea.offs@,
            bb_ea,
            instn,
            code_bytes@,
            mnemonic@,
            operands@,
        ),
    }
}

/// "; " followed by 78 dashes: the rule above a function header.
pub open spec fn rule_text() -> Seq<char> {
    seq![';', ' '] + Seq::new(78, |i: int| '-')
}

/// "; (Piece of function NAME)"
pub open spec fn piece_text(name: Seq<char>) -> Seq<char> {
    seq![';', ' ', '(', 'P', 'i', 'e', 'c', 'e', ' ', 'o', 'f', ' ', 'f', 'u', 'n', 'c', 't', 'i',
        'o', 'n', ' '] + name + seq![')']
}

/// "; Function NAME"
pub open spec fn function_text(name: Seq<char>) -> Seq<char> {
    seq![';', ' ', 'F', 'u', 'n', 'c', 't', 'i', 'o', 'n', ' '] + name
}

/// "; Attributes: ATTRS"
pub open spec fn attributes_text(attrs: Seq<char>) -> Seq<char> {
    seq![';', ' ', 'A', 't', 't', 'r', 'i', 'b', 'u', 't', 'e', 's', ':', ' '] + attrs
}

/// "; Entry points: NAMES"
pub open spec fn entry_points_text(names: Seq<char>) -> Seq<char> {
    seq![';', ' ', 'E', 'n', 't', 'r', 'y', ' ', 'p', 'o', 'i', 'n', 't', 's', ':', ' '] + names
}

pub open spec fn attrs_rows(attrs: Option<String>) -> Seq<Seq<PieceView>> {
    match attrs {
        Some(a) => seq![comment_row(attributes_text(a@))],
        None => Seq::empty(),
    }
}

pub open spec fn entry_rows(entrypoints: Option<String>) -> Seq<Seq<PieceView>> {
    match entrypoints {
        Some(e) => seq![comment_row(entry_points_text(e@))],
        None => Seq::empty(),
    }
}

/// The comment rows of a function header: a rule, then either the piece note, or
/// the function's name with its attributes and entry points when it has them.
pub open spec fn func_rows(data: Option<FuncData>) -> Seq<Seq<PieceView>> {
    match data {
        None => Seq::empty(),
        Some(d) => seq![comment_row(rule_text())] + match d.kind {
            FuncDataKind::Piece => seq![comment_row(piece_text(d.name@))],
            FuncDataKind::Head { attrs, entrypoints } => seq![comment_row(function_text(d.name@))]
                + attrs_rows(attrs) + entry_rows(entrypoints),
        },
    }
}

/// The rows of a basic block: its function header, its label (when it has one),
/// one row per instruction, numbered from 0, and a blank row.
pub open spec fn bb_rows(bb: BasicBlockData) -> Seq<Seq<PieceView>> {
    func_rows(bb.func) + (if bb.label@.len() == 0 {
        Seq::empty()
    } else {
        seq![label_row(bb.label@)]
    }) + Seq::new(
        bb.lines@.len(),
        |i: int|
            code_row(
                bb.lines@[i].text_ea.seg@,
                bb.lines@[i].text_ea.offs@,
                bb.ea,
                i as usize,
                bb.lines@[i].bytes@,
                bb.lines@[i].mnemonic@,
                bb.lines@[i].operands@,
            ),
    ) + seq![blank_row()]
}

/// The rows of unexplored data: one per line, its bytes shown after a space, and a
/// blank row.
pub open spec fn unknown_rows(u: UnknownData) -> Seq<Seq<PieceView>> {
    Seq::new(
        u.lines@.len(),
        |i: int|
            unknown_row(
                u.lines@[i].text_ea.seg@,
                u.lines@[i].text_ea.offs@,
                seq![' '] + u.lines@[i].bytes@,
            ),
    ) + seq![blank_row()]
}

/// "DATA UNIMPLEMENTED"
pub open spec fn data_unimplemented() -> Seq<char> {
    seq!['D', 'A', 'T', 'A', ' ', 'U', 'N', 'I', 'M', 'P', 'L', 'E', 'M', 'E', 'N', 'T', 'E', 'D']
}

/// The rows of an item of the code view.
pub open spec fn item_rows(item: CodeViewItem) -> Seq<Seq<PieceView>> {
    match item {
        CodeViewItem::BasicBlock(bb) => bb_rows(bb),
        CodeViewItem::DataItem(_, t) => seq![error_row(t.seg@, t.offs@, data_unimplemented())],
        CodeViewItem::Unknown(u) => unknown_rows(u),
    }
}

/// A basic block can be listed: it has instructions, and no operand is styled
/// with an operand bracket.
pub open spec fn bb_ok(bb: BasicBlockData) -> bool {
    &&& bb.lines@.len() > 0
    &&& forall|i: int| 0 <= i < bb.lines@.len() ==> styles_ok(#[trigger] bb.lines@[i].operands@)
}

/// An item can be listed: blocks and unexplored runs are not empty.
pub open spec fn item_ok(item: CodeViewItem) -> bool {
    match item {
        CodeViewItem::BasicBlock(bb) => bb_ok(bb),
        CodeViewItem::DataItem(_, _) => true,
        CodeViewItem::Unknown(u) => u.lines@.len() > 0,
    }
}

/// Collects the rows of one item.
struct CodeViewRenderer {
    lines: Vec<Vec<RowPiece>>,
}

impl CodeViewRenderer {
    fn new() -> (r: CodeViewRenderer)
        ensures
            rows_view(r.lines@) == Seq::<Seq<PieceView>>::empty(),
    {
        let r = CodeViewRenderer { lines: Vec::new() };
        assert(rows_view(r.lines@) =~= Seq::<Seq<PieceView>>::empty());
        r
    }

    fn finish(self) -> (r: Vec<Vec<RowPiece>>)
        ensures
            rows_view(r@) == rows_view(self.lines@),
    {
        self.lines
    }

    fn push_row(&mut self, row: Vec<RowPiece>)
        ensures
            rows_view(final(self).lines@) == rows_view(old(self).lines@).push(row_view(row@)),
    {
        self.lines.push(row);
        assert(rows_view(self.lines@) =~= rows_view(old(self).lines@).push(row_view(row@)));
    }

    fn push_line(&mut self, line: CodeLine)
        requires
            line_ok(line),
        ensures
            rows_view(final(self).lines@) == rows_view(old(self).lines@).push(line_row(line)),
    {
        let CodeLine { ea, kind } = line;
        let row = match kind {
            LineKind::Blank => blank_line(),
            LineKind::Error { message } => error_line(ea, message),
            LineKind::Comment { comment } => comment_line(comment),
            LineKind::Label { label } => label_line(label),
            LineKind::Unk { bytes } => unknown_line(ea, bytes),
            LineKind::Code { bb_ea, instn, code_bytes, mnemonic, operands } => code_line(
                ea,
                bb_ea,
                instn,
                code_bytes,
                mnemonic,
                operands,
            ),
        };
        self.push_row(row);
    }

    fn blank_line(&mut self, ea: TextEA)
        ensures
            rows_view(final(self).lines@) == rows_view(old(self).lines@).push(blank_row()),
    {
        self.push_line(CodeLine { ea, kind: LineKind::Blank });
    }

    fn error_line(&mut self, ea: TextEA, message: String)
        ensures
            rows_view(final(self).lines@) == rows_view(old(self).lines@).push(
                error_row(ea.seg@, ea.offs@, message@),
            ),
    {
        self.push_line(CodeLine { ea, kind: LineKind::Error { message } });
    }

    fn comment_line(&mut self, ea: TextEA, comment: String)
        ensures
            rows_view(final(self).lines@) == rows_view(old(self).lines@).push(comment_row(comment@)),
    {
        self.push_line(CodeLine { ea, kind: LineKind::Comment { comment } });
    }

    /// A label line, only for a label that is not empty.
    fn label_line(&mut self, ea: TextEA, label: String)
        ensures
            rows_view(final(self).lines@) == if label@.len() == 0 {
                rows_view(old(self).lines@)
            } else {
                rows_view(old(self).lines@).push(label_row(label@))
            },
    {
        if !label.as_str().is_empty() {
            self.push_line(CodeLine { ea, kind: LineKind::Label { label } });
        }
    }

    fn code_line(
        &mut self,
        ea: TextEA,
        bb_ea: EA,
        instn: usize,
        code_bytes: String,
        mnemonic: String,
        operands: Vec<CodeOpData>,
    )
        requires
            styles_ok(operands@),
        ensures
            rows_view(final(self).lines@) == rows_view(old(self).lines@).push(
                code_row(ea.seg@, ea.offs@, bb_ea, instn, code_bytes@, mnemonic@, operands@),
            ),
    {
        self.push_line(
            CodeLine { ea, kind: LineKind::Code { bb_ea, instn, code_bytes, mnemonic, operands } },
        );
    }

    fn unknown_line(&mut self, ea: TextEA, bytes: String)
        ensures
            rows_view(final(self).lines@) == rows_view(old(self).lines@).push(
                unknown_row(ea.seg@, ea.offs@, bytes@),
            ),
    {
        self.push_line(CodeLine { ea, kind: LineKind::Unk { bytes } });
    }

    fn func_data(&mut self, ea: TextEA, data: Option<FuncData>)
        ensures
            rows_view(final(self).lines@) == rows_view(old(self).lines@) + func_rows(data),
    {
        let ghost start = rows_view(self.lines@);
        let data = match data {
            None => {
                assert(start + func_rows(data) =~= start);
                return;
            },
            Some(d) => d,
        };
        let rule = String::from_str(
            "; ------------------------------------------------------------------------------",
        );
        proof {
            reveal_strlit(
                "; ------------------------------------------------------------------------------",
            );
            assert(rule@ =~= rule_text());
        }
        self.comment_line(ea.clone(), rule);
        let ghost after_rule = rows_view(self.lines@);
        match data.kind {
            FuncDataKind::Piece => {
                let mut t = String::from_str("; (Piece of function ");
                t.append(data.name.as_str());
                t.append(")");
                proof {
                    reveal_strlit("; (Piece of function ");
                    reveal_strlit(")");
                    assert(t@ =~= piece_text(data.name@));
                }
                self.comment_line(ea.clone(), t);
                assert(rows_view(self.lines@) =~= start + func_rows(Some(data)));
            },
            FuncDataKind::Head { attrs, entrypoints } => {
                let mut t = String::from_str("; Function ");
                t.append(data.name.as_str());
                proof {
                    reveal_strlit("; Function ");
                    assert(t@ =~= function_text(data.name@));
                }
                self.comment_line(ea.clone(), t);
                let ghost after_name = rows_view(self.lines@);
                let ghost a_rows = attrs_rows(attrs);
                let ghost e_rows = entry_rows(entrypoints);
                match attrs {
                    Some(a) => {
                        let mut t2 = String::from_str("; Attributes: ");
                        t2.append(a.as_str());
                        proof {
                            reveal_strlit("; Attributes: ");
                            assert(t2@ =~= attributes_text(a@));
                        }
                        self.comment_line(ea.clone(), t2);
                    },
                    None => {},
                }
                assert(rows_view(self.lines@) =~= after_name + a_rows);
                let ghost after_attrs = rows_view(self.lines@);
                match entrypoints {
                    Some(e) => {
                        let mut t3 = String::from_str("; Entry points: ");
                        t3.append(e.as_str());
                        proof {
                            reveal_strlit("; Entry points: ");
                            assert(t3@ =~= entry_points_text(e@));
                        }
                        self.comment_line(ea.clone(), t3);
                    },
                    None => {},
                }
                assert(rows_view(self.lines@) =~= after_attrs + e_rows);
                assert(rows_view(self.lines@) =~= start + func_rows(Some(data)));
            },
        }
    }
}

/// The row of the `i`-th instruction of a basic block.
pub open spec fn me_code_row(bb: BasicBlockData, i: int) -> Seq<PieceView> {
    code_row(
        bb.lines@[i].text_ea.seg@,
        bb.lines@[i].text_ea.offs@,
        bb.ea,
        i as usize,
        bb.lines@[i].bytes@,
        bb.lines@[i].mnemonic@,
        bb.lines@[i].operands@,
    )
}

impl BasicBlockData {
    /// The rows that list this basic block.
    pub fn render(self) -> (r: Vec<Vec<RowPiece>>)
        requires
            bb_ok(self),
        ensures
            rows_view(r@) == bb_rows(self),
    {
        let ghost me = self;
        let mut r = CodeViewRenderer::new();
        let first_ea = self.lines[0].text_ea.clone();
        let last_ea = self.lines[self.lines.len() - 1].text_ea.clone();
        r.func_data(first_ea.clone(), self.func);
        r.label_line(first_ea, self.label);
        let ghost head = rows_view(r.lines@);
        let bb_ea = self.ea;
        let mut lines = self.lines;
        let n = lines.len();
        let mut instn: usize = 0;
        assert(rows_view(r.lines@) =~= head + Seq::new(0, |i: int| me_code_row(me, i)));
        while instn < n
            invariant
                n == me.lines@.len(),
                bb_ea == me.ea,
                lines@ == me.lines@.skip(instn as int),
                bb_ok(me),
                instn <= n,
                rows_view(r.lines@) == head + Seq::new(instn as nat, |i: int| me_code_row(me, i)),
            decreases n - instn,
        {
            let ghost before = rows_view(r.lines@);
            let line = lines.remove(0);
            assert(line == me.lines@[instn as int]);
            assert(styles_ok(me.lines@[instn as int].operands@));
            r.code_line(line.text_ea, bb_ea, instn, line.bytes, line.mnemonic, line.operands);
            assert(rows_view(r.lines@) == before.push(me_code_row(me, instn as int)));
            assert(lines@ =~= me.lines@.skip(instn as int + 1));
            assert(rows_view(r.lines@) =~= head + Seq::new(instn as nat + 1, |i: int| me_code_row(me, i)));
            instn = instn + 1;
        }
        assert(Seq::new(n as nat, |i: int| me_code_row(me, i)) =~= Seq::new(
            me.lines@.len(),
            |i: int|
                code_row(
                    me.lines@[i].text_ea.seg@,
                    me.lines@[i].text_ea.offs@,
                    me.ea,
                    i as usize,
                    me.lines@[i].bytes@,
                    me.lines@[i].mnemonic@,
                    me.lines@[i].operands@,
                ),
        ));
        r.blank_line(last_ea);
        assert(rows_view(r.lines@) =~= bb_rows(me));
        r.finish()
    }
}


/// The row of the `i`-th line of unexplored data.
pub open spec fn unk_row(u: UnknownData, i: int) -> Seq<PieceView> {
    unknown_row(u.lines@[i].text_ea.seg@, u.lines@[i].text_ea.offs@, seq![' '] + u.lines@[i].bytes@)
}

impl UnknownData {
    /// The rows that list this unexplored data.
    pub fn render(self) -> (r: Vec<Vec<RowPiece>>)
        requires
            self.lines@.len() > 0,
        ensures
            rows_view(r@) == unknown_rows(self),
    {
        let ghost me = self;
        let mut r = CodeViewRenderer::new();
        let last_ea = self.lines[self.lines.len() - 1].text_ea.clone();
        let mut lines = self.lines;
        let n = lines.len();
        let mut k: usize = 0;
        assert(rows_view(r.lines@) =~= Seq::new(0, |i: int| unk_row(me, i)));
        while k < n
            invariant
                n == me.lines@.len(),
                lines@ == me.lines@.skip(k as int),
                k <= n,
                rows_view(r.lines@) == Seq::new(k as nat, |i: int| unk_row(me, i)),
            decreases n - k,
        {
            let ghost before = rows_view(r.lines@);
            let line = lines.remove(0);
            assert(line == me.lines@[k as int]);
            let b = concat(" ", line.bytes.as_str());
            proof {
                reveal_strlit(" ");
                assert(b@ =~= seq![' '] + me.lines@[k as int].bytes@);
            }
            r.unknown_line(line.text_ea, b);
            assert(rows_view(r.lines@) == before.push(unk_row(me, k as int)));
            assert(lines@ =~= me.lines@.skip(k as int + 1));
            assert(rows_view(r.lines@) =~= Seq::new(k as nat + 1, |i: int| unk_row(me, i)));
            k = k + 1;
        }
        r.blank_line(last_ea);
        assert(rows_view(r.lines@) =~= unknown_rows(me));
        r.finish()
    }
}

impl CodeViewItem {
    /// The rows that list this item, top to bottom.
    pub fn render(self) -> (r: Vec<Vec<RowPiece>>)
        requires
            item_ok(self),
        ensures
            rows_view(r@) == item_rows(self),
    {
        match self {
            CodeViewItem::BasicBlock(bb) => bb.render(),
            CodeViewItem::DataItem(_ea, t) => {
                let mut r = CodeViewRenderer::new();
                let m = String::from_str("DATA UNIMPLEMENTED");
                proof {
                    reveal_strlit("DATA UNIMPLEMENTED");
                    assert(m@ =~= data_unimplemented());
                }
                let ghost tv = t;
                r.error_line(t, m);
                assert(rows_view(r.lines@) =~= seq![error_row(tv.seg@, tv.offs@, data_unimplemented())]);
                r.finish()
            },
            CodeViewItem::Unknown(unk) => unk.render(),
        }
    }
}


/// Law: the row of an instruction shows, in order, its segment name, ":offset ",
/// the code bytes column, its mnemonic, and then one piece per operand piece.
/// Operand piece `k` keeps its text, its style (`Adi(s)` for a printed style `s`,
/// plain text only where there was none), and, when it belongs to operand `o`, it
/// names the location of that operand: the given block address `bb_ea`, the
/// instruction number `instn` and `o`. Pieces that belong to no operand name none.
pub proof fn lemma_code_row_pieces(
    seg: Seq<char>,
    offs: Seq<char>,
    bb_ea: EA,
    instn: usize,
    code_bytes: Seq<char>,
    mnemonic: Seq<char>,
    operands: Seq<CodeOpData>,
)
    ensures
        ({
            let row = code_row(seg, offs, bb_ea, instn, code_bytes, mnemonic, operands);
            &&& row.len() == 4 + operands.len()
            &&& row[0] == (PieceView { text: seg, style: PrintStyleEx::SegName, operand: None })
            &&& row[1] == (PieceView { text: seq![':'] + offs + seq![' '], style: PrintStyleEx::Plain, operand: None })
            &&& row[2].style == PrintStyleEx::CodeBytes && row[2].operand is None
            &&& row[2].text == seq![' '] + code_bytes + Seq::new(
                (if code_bytes.len() < 8 { 13 - code_bytes.len() } else { 5 }) as nat,
                |i: int| ' ',
            )
            &&& row[3] == (PieceView { text: mnemonic, style: PrintStyleEx::Adi(PrintStyle::Mnemonic), operand: None })
            &&& forall|k: int|
                #![trigger operands[k]]
                0 <= k < operands.len() ==> {
                    &&& row[4 + k].text == operands[k].text@
                    &&& operands[k].style is None ==> row[4 + k].style == PrintStyleEx::Plain
                    &&& operands[k].style is Some ==> row[4 + k].style == PrintStyleEx::Adi(operands[k].style->0)
                    &&& operands[k].opn is None ==> row[4 + k].operand is None
                    &&& operands[k].opn is Some ==> row[4 + k].operand == Some(
                        OperandLocation { bb_ea, instn, opn: operands[k].opn->0 },
                    )
                }
        }),
{
    let row = code_row(seg, offs, bb_ea, instn, code_bytes, mnemonic, operands);
    assert(row[2].text =~= seq![' '] + code_bytes + Seq::new(
        (if code_bytes.len() < 8 { 13 - code_bytes.len() } else { 5 }) as nat,
        |i: int| ' ',
    ));
    assert forall|k: int| #![trigger operands[k]] 0 <= k < operands.len() implies {
        &&& row[4 + k].text == operands[k].text@
        &&& operands[k].style is None ==> row[4 + k].style == PrintStyleEx::Plain
        &&& operands[k].style is Some ==> row[4 + k].style == PrintStyleEx::Adi(operands[k].style->0)
        &&& operands[k].opn is None ==> row[4 + k].operand is None
        &&& operands[k].opn is Some ==> row[4 + k].operand == Some(
            OperandLocation { bb_ea, instn, opn: operands[k].opn->0 },
        )
    } by {
        assert(row[4 + k] == operand_piece(operands[k], bb_ea, instn));
    }
}

/// No piece of the header rows of a function names an operand.
proof fn lemma_func_rows_have_no_operands(data: Option<FuncData>)
    ensures
        forall|k: int, p: int|
            0 <= k < func_rows(data).len() && 0 <= p < func_rows(data)[k].len() ==> (
            #[trigger] func_rows(data)[k][p]).operand is None,
{
    let rows = func_rows(data);
    assert forall|k: int, p: int| 0 <= k < rows.len() && 0 <= p < rows[k].len() implies (
    #[trigger] rows[k][p]).operand is None by {
        match data {
            None => {},
            Some(d) => {
                match d.kind {
                    FuncDataKind::Piece => {},
                    FuncDataKind::Head { attrs, entrypoints } => {
                        let t = seq![comment_row(rule_text())] + seq![comment_row(function_text(d.name@))];
                        let a = attrs_rows(attrs);
                        let e = entry_rows(entrypoints);
                        assert(rows == t + a + e);
                        if k < 2 {
                            assert(rows[k] == t[k]);
                        } else if k < 2 + a.len() {
                            assert(rows[k] == a[k - 2]);
                        } else {
                            assert(rows[k] == e[k - 2 - a.len()]);
                        }
                    },
                }
            },
        }
    }
}

/// Law: the rows of a basic block are its function header rows, its label row
/// (only when it has a label), one row per instruction in order, and a blank row.
/// The row of instruction `i` starts with that instruction's own address and shows
/// its operand pieces from the fifth piece on; each piece that belongs to operand
/// `o` names the location made of the block's address (the same for every row,
/// whatever the instruction's own address), `i` and `o`. No other piece of any row
/// names an operand.
pub proof fn lemma_block_rows_name_their_block(bb: BasicBlockData)
    ensures
        ({
            let rows = bb_rows(bb);
            let f = func_rows(bb.func).len() as int;
            let h = if bb.label@.len() == 0 { f } else { f + 1 };
            let n = bb.lines@.len() as int;
            &&& rows.len() == h + n + 1
            &&& forall|k: int| 0 <= k < f ==> #[trigger] rows[k] == func_rows(bb.func)[k]
            &&& bb.label@.len() != 0 ==> rows[f] == seq![
                PieceView { text: spaces(19) + bb.label@, style: PrintStyleEx::Adi(PrintStyle::Label), operand: None },
                PieceView { text: seq![':'], style: PrintStyleEx::Plain, operand: None },
            ]
            &&& rows[h + n] == seq![PieceView { text: Seq::empty(), style: PrintStyleEx::Plain, operand: None }]
            &&& forall|i: int|
                #![trigger bb.lines@[i]]
                0 <= i < n ==> {
                    &&& rows[h + i].len() == 4 + bb.lines@[i].operands@.len()
                    &&& rows[h + i][0].text == bb.lines@[i].text_ea.seg@
                    &&& rows[h + i][3].text == bb.lines@[i].mnemonic@
                    &&& forall|k: int|
                        #![trigger bb.lines@[i].operands@[k]]
                        0 <= k < bb.lines@[i].operands@.len() ==> {
                            &&& rows[h + i][4 + k].text == bb.lines@[i].operands@[k].text@
                            &&& bb.lines@[i].operands@[k].opn is None ==> rows[h + i][4 + k].operand is None
                            &&& bb.lines@[i].operands@[k].opn is Some ==> rows[h + i][4 + k].operand == Some(
                                OperandLocation { bb_ea: bb.ea, instn: i as usize, opn: bb.lines@[i].operands@[k].opn->0 },
                            )
                        }
                }
            &&& forall|k: int, p: int|
                0 <= k < rows.len() && 0 <= p < rows[k].len() && (#[trigger] rows[k][p]).operand is Some ==> {
                    &&& rows[k][p].operand->0.bb_ea == bb.ea
                    &&& h <= k < h + n
                    &&& rows[k][p].operand->0.instn == k - h
                }
        }),
{
    let rows = bb_rows(bb);
    let fr = func_rows(bb.func);
    let f = fr.len() as int;
    let lr: Seq<Seq<PieceView>> = if bb.label@.len() == 0 { Seq::empty() } else { seq![label_row(bb.label@)] };
    let h = if bb.label@.len() == 0 { f } else { f + 1 };
    let n = bb.lines@.len() as int;
    assert(bb.lines.len() == n);
    let tail: Seq<Seq<PieceView>> = seq![blank_row()];
    assert(rows.len() == h + n + 1);
    assert(rows == fr + lr + rows.subrange(h, h + n) + tail);
    assert(lr.len() == h - f);
    assert forall|k: int| 0 <= k < f implies #[trigger] rows[k] == fr[k] by {}
    assert(rows[h + n] == blank_row());
    assert forall|i: int| #![trigger bb.lines@[i]] 0 <= i < n implies rows[h + i] == me_code_row(bb, i) by {
        assert(rows.subrange(h, h + n)[i] == rows[h + i]);
    }
    assert forall|i: int|
        #![trigger bb.lines@[i]]
        0 <= i < n implies {
            &&& rows[h + i].len() == 4 + bb.lines@[i].operands@.len()
            &&& rows[h + i][0].text == bb.lines@[i].text_ea.seg@
            &&& rows[h + i][3].text == bb.lines@[i].mnemonic@
            &&& forall|k: int|
                #![trigger bb.lines@[i].operands@[k]]
                0 <= k < bb.lines@[i].operands@.len() ==> {
                    &&& rows[h + i][4 + k].text == bb.lines@[i].operands@[k].text@
                    &&& bb.lines@[i].operands@[k].opn is None ==> rows[h + i][4 + k].operand is None
                    &&& bb.lines@[i].operands@[k].opn is Some ==> rows[h + i][4 + k].operand == Some(
                        OperandLocation { bb_ea: bb.ea, instn: i as usize, opn: bb.lines@[i].operands@[k].opn->0 },
                    )
                }
        } by {
        let l = bb.lines@[i];
        lemma_code_row_pieces(l.text_ea.seg@, l.text_ea.offs@, bb.ea, i as usize, l.bytes@, l.mnemonic@, l.operands@);
    }
    lemma_func_rows_have_no_operands(bb.func);
    assert forall|k: int, p: int|
        0 <= k < rows.len() && 0 <= p < rows[k].len() && (#[trigger] rows[k][p]).operand is Some implies {
            &&& rows[k][p].operand->0.bb_ea == bb.ea
            &&& h <= k < h + n
            &&& rows[k][p].operand->0.instn == k - h
        } by {
        if k < f {
            assert(rows[k] == fr[k]);
            assert(fr[k][p].operand is None);
        } else if k < h {
            assert(rows[k] == label_row(bb.label@));
        } else if k < h + n {
            let i = k - h;
            let l = bb.lines@[i];
            assert(rows[k] == me_code_row(bb, i));
            lemma_code_row_pieces(l.text_ea.seg@, l.text_ea.offs@, bb.ea, i as usize, l.bytes@, l.mnemonic@, l.operands@);
            if p >= 4 {
                assert(l.operands@[p - 4] == l.operands@[p - 4]);
            }
        } else {
            assert(rows[k] == blank_row());
        }
    }
}

/// Law: the header of a function head is a rule, "; Function NAME", then
/// "; Attributes: ATTRS" when it has attributes, then "; Entry points: NAMES" when
/// it has entry points; each row is a single comment piece, and each of these
/// texts is written after the "; " that starts every comment row.
pub proof fn lemma_function_head_rows(name: String, attrs: Option<String>, entrypoints: Option<String>)
    ensures
        ({
            let rows = func_rows(Some(FuncData { name, kind: FuncDataKind::Head { attrs, entrypoints } }));
            let na: int = if attrs is Some { 1 } else { 0 };
            let ne: int = if entrypoints is Some { 1 } else { 0 };
            let comment = PrintStyleEx::Adi(PrintStyle::Comment);
            &&& rows.len() == 2 + na + ne
            &&& forall|k: int|
                0 <= k < rows.len() ==> (#[trigger] rows[k]).len() == 1 && rows[k][0].style == comment
                    && rows[k][0].operand is None
            &&& rows[0][0].text == seq![';', ' ', ';', ' '] + Seq::new(78, |i: int| '-')
            &&& rows[1][0].text == seq![';', ' ', ';', ' ', 'F', 'u', 'n', 'c', 't', 'i', 'o', 'n', ' '] + name@
            &&& attrs is Some ==> rows[2][0].text == seq![
                ';', ' ', ';', ' ', 'A', 't', 't', 'r', 'i', 'b', 'u', 't', 'e', 's', ':', ' ',
            ] + attrs->0@
            &&& entrypoints is Some ==> rows[2 + na][0].text == seq![
                ';', ' ', ';', ' ', 'E', 'n', 't', 'r', 'y', ' ', 'p', 'o', 'i', 'n', 't', 's', ':', ' ',
            ] + entrypoints->0@
        }),
{
    let d = FuncData { name, kind: FuncDataKind::Head { attrs, entrypoints } };
    let rows = func_rows(Some(d));
    let t = seq![comment_row(rule_text())] + seq![comment_row(function_text(name@))];
    let a = attrs_rows(attrs);
    let e = entry_rows(entrypoints);
    assert(rows == t + a + e);
    assert(rows[0] == comment_row(rule_text()));
    assert(rows[1] == comment_row(function_text(name@)));
    assert(rows[0][0].text =~= seq![';', ' ', ';', ' '] + Seq::new(78, |i: int| '-'));
    assert(rows[1][0].text =~= seq![';', ' ', ';', ' ', 'F', 'u', 'n', 'c', 't', 'i', 'o', 'n', ' '] + name@);
    if attrs is Some {
        assert(rows[2] == a[0]);
        assert(rows[2][0].text =~= seq![
            ';', ' ', ';', ' ', 'A', 't', 't', 'r', 'i', 'b', 'u', 't', 'e', 's', ':', ' ',
        ] + attrs->0@);
    }
    if entrypoints is Some {
        let na: int = if attrs is Some { 1 } else { 0 };
        assert(rows[2 + na] == e[0]);
        assert(rows[2 + na][0].text =~= seq![
            ';', ' ', ';', ' ', 'E', 'n', 't', 'r', 'y', ' ', 'p', 'o', 'i', 'n', 't', 's', ':', ' ',
        ] + entrypoints->0@);
    }
    assert forall|k: int| 0 <= k < rows.len() implies (#[trigger] rows[k]).len() == 1 && rows[k][0].style
        == PrintStyleEx::Adi(PrintStyle::Comment) && rows[k][0].operand is None by {
        if k < 2 {
            assert(rows[k] == t[k]);
        } else if k < 2 + a.len() {
            assert(rows[k] == a[k - 2]);
        } else {
            assert(rows[k] == e[k - 2 - a.len()]);
        }
    }
}

/// Law: the header of a piece of a function is a rule and "; (Piece of function
/// NAME)", each a single comment piece; a block of no function has no header.
pub proof fn lemma_function_piece_rows(name: String)
    ensures
        ({
            let rows = func_rows(Some(FuncData { name, kind: FuncDataKind::Piece }));
            &&& rows.len() == 2
            &&& rows[0] == seq![PieceView {
                text: seq![';', ' ', ';', ' '] + Seq::new(78, |i: int| '-'),
                style: PrintStyleEx::Adi(PrintStyle::Comment),
                operand: None,
            }]
            &&& rows[1] == seq![PieceView {
                text: seq![
                    ';', ' ', ';', ' ', '(', 'P', 'i', 'e', 'c', 'e', ' ', 'o', 'f', ' ', 'f', 'u', 'n', 'c', 't',
                    'i', 'o', 'n', ' ',
                ] + name@ + seq![')'],
                style: PrintStyleEx::Adi(PrintStyle::Comment),
                operand: None,
            }]
        }),
        func_rows(None) == Seq::<Seq<PieceView>>::empty(),
{
    let rows = func_rows(Some(FuncData { name, kind: FuncDataKind::Piece }));
    assert(rows[0][0].text =~= seq![';', ' ', ';', ' '] + Seq::new(78, |i: int| '-'));
    assert(rows[1][0].text =~= seq![
        ';', ' ', ';', ' ', '(', 'P', 'i', 'e', 'c', 'e', ' ', 'o', 'f', ' ', 'f', 'u', 'n', 'c', 't',
        'i', 'o', 'n', ' ',
    ] + name@ + seq![')']);
    assert(rows[0] =~= seq![PieceView {
        text: seq![';', ' ', ';', ' '] + Seq::new(78, |i: int| '-'),
        style: PrintStyleEx::Adi(PrintStyle::Comment),
        operand: None,
    }]);
    assert(rows[1] =~= seq![PieceView {
        text: seq![
            ';', ' ', ';', ' ', '(', 'P', 'i', 'e', 'c', 'e', ' ', 'o', 'f', ' ', 'f', 'u', 'n', 'c', 't',
            'i', 'o', 'n', ' ',
        ] + name@ + seq![')'],
        style: PrintStyleEx::Adi(PrintStyle::Comment),
        operand: None,
    }]);
}


/// Law: unexplored data is listed as one row per line, in order, and a blank row.
/// The row of line `i` shows that line's segment name, ":" and its offset, then a
/// space and its bytes; no piece of any row names an operand.
pub proof fn lemma_unknown_rows_one_per_line(u: UnknownData)
    ensures
        ({
            let rows = unknown_rows(u);
            let n = u.lines@.len() as int;
            &&& rows.len() == n + 1
            &&& forall|i: int|
                #![trigger u.lines@[i]]
                0 <= i < n ==> rows[i] == seq![
                    PieceView { text: u.lines@[i].text_ea.seg@, style: PrintStyleEx::SegName, operand: None },
                    PieceView { text: seq![':'] + u.lines@[i].text_ea.offs@, style: PrintStyleEx::Plain, operand: None },
                    PieceView { text: seq![' '] + u.lines@[i].bytes@, style: PrintStyleEx::Unknown, operand: None },
                ]
            &&& rows[n] == seq![PieceView { text: Seq::empty(), style: PrintStyleEx::Plain, operand: None }]
        }),
{
    let rows = unknown_rows(u);
    let n = u.lines@.len() as int;
    assert(rows[n] == blank_row());
    assert forall|i: int| #![trigger u.lines@[i]] 0 <= i < n implies rows[i] == seq![
        PieceView { text: u.lines@[i].text_ea.seg@, style: PrintStyleEx::SegName, operand: None },
        PieceView { text: seq![':'] + u.lines@[i].text_ea.offs@, style: PrintStyleEx::Plain, operand: None },
        PieceView { text: seq![' '] + u.lines@[i].bytes@, style: PrintStyleEx::Unknown, operand: None },
    ] by {
        assert(rows[i] == unk_row(u, i));
    }
}

/// Law: a data item is listed as a single row: its address, then the error text
/// "DATA UNIMPLEMENTED".
pub proof fn lemma_data_item_row(ea: EA, t: TextEA)
    ensures
        item_rows(CodeViewItem::DataItem(ea, t)) == seq![
            seq![
                PieceView { text: t.seg@, style: PrintStyleEx::SegName, operand: None },
                PieceView { text: seq![':'] + t.offs@ + seq![' '], style: PrintStyleEx::Plain, operand: None },
                PieceView {
                    text: seq!['D', 'A', 'T', 'A', ' ', 'U', 'N', 'I', 'M', 'P', 'L', 'E', 'M', 'E', 'N', 'T', 'E', 'D'],
                    style: PrintStyleEx::Error,
                    operand: None,
                },
            ],
        ],
{
    assert(error_row(t.seg@, t.offs@, data_unimplemented()) =~= seq![
        PieceView { text: t.seg@, style: PrintStyleEx::SegName, operand: None },
        PieceView { text: seq![':'] + t.offs@ + seq![' '], style: PrintStyleEx::Plain, operand: None },
        PieceView {
            text: seq!['D', 'A', 'T', 'A', ' ', 'U', 'N', 'I', 'M', 'P', 'L', 'E', 'M', 'E', 'N', 'T', 'E', 'D'],
            style: PrintStyleEx::Error,
            operand: None,
        },
    ]);
}

} // verus!
