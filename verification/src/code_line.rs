//! One line of the listing as a row of text pieces: which piece starts at which
//! character, which pieces show operands, where the text cursor may go, and what
//! the line reports as the mouse and the keyboard act on it.

use vstd::prelude::*;
use vstd::string::*;
use vstd::utf8::encode_utf8;

use crate::code_view::{styles_ok, CodeViewMessage, OperandLocation};
use crate::ea::EA;
use crate::line_style::{opt_style_ex, PrintStyleEx};
use crate::style::PrintStyle;
use crate::text::{pad_right, pad_right_to, spaces};
use crate::ui::{CodeOpData, TextEA};

verus! {

/// One piece of a line: its text, its style, and the operand it shows, if any.
#[derive(Debug, Clone)]
pub struct LinePiece {
    pub text: String,
    pub style: PrintStyleEx,
    pub opn: Option<u8>,
}

impl LinePiece {
    pub fn new(text: String, style: PrintStyleEx) -> (r: LinePiece)
        ensures
            r.text@ == text@,
            r.style == style,
            r.opn is None,
    {
        LinePiece { text, style, opn: None }
    }

    pub fn new_op(text: String, style: PrintStyleEx, opn: u8) -> (r: LinePiece)
        ensures
            r.text@ == text@,
            r.style == style,
            r.opn == Some(opn),
    {
        LinePiece { text, style, opn: Some(opn) }
    }
}

/// Where a piece lies in its line, counted in bytes of text.
#[derive(Debug, Clone, Copy, PartialEq, Eq, Structural)]
pub struct LineSpan {
    /// 0-based index of where this span starts, measured from left side of line
    pub start: usize,
    /// how long this span is
    pub len: usize,
    /// if this is an operand, Some(operand_idx)
    pub opn: Option<u8>,
}

/// The length of a text in bytes.
pub open spec fn byte_len(s: Seq<char>) -> nat {
    encode_utf8(s).len()
}

/// The total length of the pieces' texts.
pub open spec fn total_len_of(pieces: Seq<LinePiece>) -> nat
    decreases pieces.len(),
{
    if pieces.len() == 0 {
        0
    } else {
        total_len_of(pieces.drop_last()) + byte_len(pieces.last().text@)
    }
}

/// The span of piece `i`: it starts where the pieces before it end.
pub open spec fn span_of(pieces: Seq<LinePiece>, i: int) -> LineSpan {
    LineSpan {
        start: total_len_of(pieces.take(i)) as usize,
        len: byte_len(pieces[i].text@) as usize,
        opn: pieces[i].opn,
    }
}

/// The pieces of a line, with the span of each and the line's total length.
pub struct LineChildren {
    pub total_len: usize,
    pub children: Vec<LinePiece>,
    pub spans: Vec<LineSpan>,
}

/// The pieces before a given one are no longer, together, than the whole line.
pub proof fn lemma_total_prefix(pieces: Seq<LinePiece>, i: int)
    requires
        0 <= i <= pieces.len(),
    ensures
        total_len_of(pieces.take(i)) <= total_len_of(pieces),
    decreases pieces.len() - i,
{
    if i < pieces.len() {
        lemma_total_prefix(pieces, i + 1);
        assert(pieces.take(i + 1).drop_last() =~= pieces.take(i));
    } else {
        assert(pieces.take(i) =~= pieces);
    }
}

/// Lays the pieces out one after the other: each span starts where the previous
/// one ends, the first at 0.
pub fn build_children(pieces: Vec<LinePiece>) -> (r: LineChildren)
    requires
        total_len_of(pieces@) <= usize::MAX,
    ensures
        r.children@ == pieces@,
        r.total_len == total_len_of(pieces@),
        r.spans@.len() == pieces@.len(),
        forall|i: int| 0 <= i < pieces@.len() ==> #[trigger] r.spans@[i] == span_of(pieces@, i),
{
    let mut spans: Vec<LineSpan> = Vec::new();
    let mut start: usize = 0;
    let mut i: usize = 0;
    while i < pieces.len()
        invariant
            i <= pieces@.len(),
            total_len_of(pieces@) <= usize::MAX,
            start == total_len_of(pieces@.take(i as int)),
            spans@.len() == i,
            forall|j: int| 0 <= j < i ==> #[trigger] spans@[j] == span_of(pieces@, j),
        decreases pieces.len() - i,
    {
        let len = pieces[i].text.as_str().len();
        proof {
            lemma_total_prefix(pieces@, i as int + 1);
            assert(pieces@.take(i as int + 1).drop_last() =~= pieces@.take(i as int));
        }
        spans.push(LineSpan { start, len, opn: pieces[i].opn });
        start = start + len;
        i = i + 1;
    }
    assert(pieces@.take(pieces@.len() as int) =~= pieces@);
    LineChildren { total_len: start, children: pieces, spans }
}

/// Names one piece of a line by its position.
#[derive(Debug, Copy, Clone, PartialEq, Eq, Structural)]
pub struct ChildIdx(pub usize);

/// What a line shows, and which of its pieces holds what.
#[derive(Debug, Clone)]
pub enum LineKind {
    Blank { dummy: ChildIdx },
    Error { message: ChildIdx },
    Comment { comment: ChildIdx },
    Label { label: ChildIdx },
    Code {
        bb_ea: EA,
        instn: usize,
        code_bytes: ChildIdx,
        mnemonic: ChildIdx,
        operands: Vec<(CodeOpData, ChildIdx)>,
    },
    Unknown { bytes: ChildIdx },
}

/// One line of the listing.
pub struct CodeLine {
    children: Vec<LinePiece>,
    spans: Vec<LineSpan>,
    total_len: usize,
    ea: EA,
    text_ea: Option<(ChildIdx, ChildIdx)>,
    kind: LineKind,
}

/// The abstract content of a line piece.
pub struct PieceV {
    pub text: Seq<char>,
    pub style: PrintStyleEx,
    pub opn: Option<u8>,
}

pub open spec fn piece_v(p: LinePiece) -> PieceV {
    PieceV { text: p.text@, style: p.style, opn: p.opn }
}

pub open spec fn pieces_v(ps: Seq<LinePiece>) -> Seq<PieceV> {
    ps.map_values(|p: LinePiece| piece_v(p))
}

pub open spec fn pc(text: Seq<char>, style: PrintStyleEx) -> PieceV {
    PieceV { text, style, opn: None }
}

impl CodeLine {
    /// The line's pieces.
    pub closed spec fn pieces(&self) -> Seq<LinePiece> {
        self.children@
    }

    /// Where each piece lies.
    pub closed spec fn span_seq(&self) -> Seq<LineSpan> {
        self.spans@
    }

    pub closed spec fn total(&self) -> nat {
        self.total_len as nat
    }

    pub closed spec fn address(&self) -> EA {
        self.ea
    }

    pub closed spec fn address_pieces(&self) -> Option<(ChildIdx, ChildIdx)> {
        self.text_ea
    }

    pub closed spec fn line_kind(&self) -> LineKind {
        self.kind
    }

    /// The line's layout: one span per piece, each piece's span starting where the
    /// pieces before it end, and the line's total length that of all its pieces.
    pub open spec fn laid_out(&self) -> bool {
        &&& self.span_seq().len() == self.pieces().len()
        &&& forall|i: int| 0 <= i < self.pieces().len() ==> #[trigger] self.span_seq()[i] == span_of(self.pieces(), i)
        &&& self.total() == total_len_of(self.pieces())
    }

    /// A well-formed line is laid out as [`CodeLine::laid_out`] says.
    pub proof fn lemma_wf_laid_out(&self)
        requires
            self.wf(),
        ensures
            self.laid_out(),
    {
    }

    /// The line's pieces are laid out one after the other, it has at least one,
    /// and only code lines have pieces that show operands.
    pub closed spec fn wf(&self) -> bool {
        &&& self.children@.len() >= 1
        &&& self.spans@.len() == self.children@.len()
        &&& self.total_len == total_len_of(self.children@)
        &&& forall|i: int| 0 <= i < self.spans@.len() ==> #[trigger] self.spans@[i] == span_of(self.children@, i)
        &&& !(self.kind is Code) ==> forall|i: int| 0 <= i < self.spans@.len() ==> (#[trigger] self.spans@[i]).opn is None
    }

    fn new(ea: EA, text_ea: Option<(ChildIdx, ChildIdx)>, pieces: Vec<LinePiece>, kind: LineKind) -> (r: CodeLine)
        requires
            pieces@.len() >= 1,
            total_len_of(pieces@) <= usize::MAX,
            !(kind is Code) ==> forall|i: int| 0 <= i < pieces@.len() ==> (#[trigger] pieces@[i]).opn is None,
        ensures
            r.wf(),
            r.laid_out(),
            r.pieces() == pieces@,
            r.address() == ea,
            r.address_pieces() == text_ea,
            r.line_kind() == kind,
    {
        let children = build_children(pieces);
        let r = CodeLine {
            children: children.children,
            spans: children.spans,
            total_len: children.total_len,
            ea,
            text_ea,
            kind,
        };
        assert forall|i: int| 0 <= i < r.spans@.len() && !(r.kind is Code) implies (#[trigger] r.spans@[i]).opn is None by {
            assert(r.spans@[i] == span_of(pieces@, i));
        }
        r
    }
}


/// The total length in bytes of the texts.
pub open spec fn text_total(texts: Seq<Seq<char>>) -> nat
    decreases texts.len(),
{
    if texts.len() == 0 {
        0
    } else {
        text_total(texts.drop_last()) + byte_len(texts.last())
    }
}

pub open spec fn texts_of(ps: Seq<LinePiece>) -> Seq<Seq<char>> {
    ps.map_values(|p: LinePiece| p.text@)
}

proof fn lemma_total_is_text_total(ps: Seq<LinePiece>)
    ensures
        total_len_of(ps) == text_total(texts_of(ps)),
    decreases ps.len(),
{
    if ps.len() > 0 {
        lemma_total_is_text_total(ps.drop_last());
        assert(texts_of(ps).drop_last() =~= texts_of(ps.drop_last()));
    }
}

/// ":OFFS "
pub open spec fn offs_text(offs: Seq<char>) -> Seq<char> {
    seq![':'] + offs + seq![' ']
}

/// The pieces that show an address: the segment name, then ":offset ".
pub open spec fn textea_pieces(seg: Seq<char>, offs: Seq<char>) -> Seq<PieceV> {
    seq![pc(seg, PrintStyleEx::SegName), pc(offs_text(offs), PrintStyleEx::Plain)]
}

/// The code bytes column: the bytes padded to eight characters, then five spaces.
pub open spec fn code_bytes_column(code_bytes: Seq<char>) -> Seq<char> {
    pad_right(code_bytes, 8) + spaces(5)
}

pub open spec fn op_piece(op: CodeOpData) -> PieceV {
    PieceV { text: op.text@, style: opt_style_ex(op.style), opn: op.opn }
}

pub open spec fn code_pieces(
    seg: Seq<char>,
    offs: Seq<char>,
    code_bytes: Seq<char>,
    mnemonic: Seq<char>,
    operands: Seq<CodeOpData>,
) -> Seq<PieceV> {
    textea_pieces(seg, offs) + seq![
        pc(code_bytes_column(code_bytes), PrintStyleEx::CodeBytes),
        pc(mnemonic, PrintStyleEx::Adi(PrintStyle::Mnemonic)),
    ] + operands.map_values(|op: CodeOpData| op_piece(op))
}

pub open spec fn code_texts(
    seg: Seq<char>,
    offs: Seq<char>,
    code_bytes: Seq<char>,
    mnemonic: Seq<char>,
    operands: Seq<CodeOpData>,
) -> Seq<Seq<char>> {
    code_pieces(seg, offs, code_bytes, mnemonic, operands).map_values(|p: PieceV| p.text)
}

fn text_piece(text: String, style: PrintStyleEx) -> (r: LinePiece)
    ensures
        piece_v(r) == pc(text@, style),
{
    LinePiece::new(text, style)
}

fn textea_line_pieces(text_ea: TextEA) -> (r: Vec<LinePiece>)
    ensures
        pieces_v(r@) == textea_pieces(text_ea.seg@, text_ea.offs@),
{
    let ghost seg = text_ea.seg@;
    let ghost offs = text_ea.offs@;
    let mut o = String::from_str(":");
    o.append(text_ea.offs.as_str());
    o.append(" ");
    proof {
        reveal_strlit(":");
        reveal_strlit(" ");
        assert(o@ =~= offs_text(offs));
    }
    let mut v = Vec::new();
    v.push(text_piece(text_ea.seg, PrintStyleEx::SegName));
    v.push(text_piece(o, PrintStyleEx::Plain));
    assert(pieces_v(v@) =~= textea_pieces(seg, offs));
    v
}

impl CodeLine {
    /// A blank line: one empty plain piece.
    pub fn new_blank(ea: EA) -> (r: CodeLine)
        ensures
            r.wf(),
            r.laid_out(),
            pieces_v(r.pieces()) == seq![pc(Seq::empty(), PrintStyleEx::Plain)],
            r.address() == ea,
            r.address_pieces() is None,
            r.line_kind() matches LineKind::Blank { dummy } && dummy == ChildIdx(0),
    {
        let mut v = Vec::new();
        v.push(text_piece(String::new(), PrintStyleEx::Plain));
        assert(pieces_v(v@) =~= seq![pc(Seq::empty(), PrintStyleEx::Plain)]);
        proof {
            assert(v@.drop_last() =~= Seq::<LinePiece>::empty());
            assert(v@.last().text@ =~= Seq::<char>::empty());
            assert(encode_utf8(Seq::<char>::empty()).len() == 0);
            assert(total_len_of(Seq::<LinePiece>::empty()) == 0);
            assert(total_len_of(v@) == 0);
        }
        Self::new(ea, None, v, LineKind::Blank { dummy: ChildIdx(0) })
    }

    /// A line that shows an error: the address, then the message.
    pub fn new_error(ea: EA, text_ea: TextEA, message: String) -> (r: CodeLine)
        requires
            text_total(seq![text_ea.seg@, offs_text(text_ea.offs@), message@]) <= usize::MAX,
        ensures
            r.wf(),
            r.laid_out(),
            pieces_v(r.pieces()) == textea_pieces(text_ea.seg@, text_ea.offs@).push(
                pc(message@, PrintStyleEx::Error),
            ),
            r.address() == ea,
            r.address_pieces() == Some((ChildIdx(0), ChildIdx(1))),
            r.line_kind() matches LineKind::Error { message } && message == ChildIdx(2),
    {
        let ghost texts = seq![text_ea.seg@, offs_text(text_ea.offs@), message@];
        let ghost want = textea_pieces(text_ea.seg@, text_ea.offs@).push(pc(message@, PrintStyleEx::Error));
        let mut v = textea_line_pieces(text_ea);
        v.push(text_piece(message, PrintStyleEx::Error));
        assert(pieces_v(v@) =~= want);
        proof {
            lemma_total_is_text_total(v@);
            assert(texts_of(v@) =~= texts);
        }
        Self::new(ea, Some((ChildIdx(0), ChildIdx(1))), v, LineKind::Error { message: ChildIdx(2) })
    }

    /// A comment line: "; " and the comment.
    pub fn new_comment(ea: EA, comment: String) -> (r: CodeLine)
        requires
            text_total(seq![seq![';', ' '] + comment@]) <= usize::MAX,
        ensures
            r.wf(),
            r.laid_out(),
            pieces_v(r.pieces()) == seq![pc(seq![';', ' '] + comment@, PrintStyleEx::Adi(PrintStyle::Comment))],
            r.address() == ea,
            r.address_pieces() is None,
            r.line_kind() matches LineKind::Comment { comment } && comment == ChildIdx(0),
    {
        let mut t = String::from_str("; ");
        t.append(comment.as_str());
        proof {
            reveal_strlit("; ");
            assert(t@ =~= seq![';', ' '] + comment@);
        }
        let ghost tv = t@;
        let mut v = Vec::new();
        v.push(text_piece(t, PrintStyleEx::Adi(PrintStyle::Comment)));
        assert(pieces_v(v@) =~= seq![pc(tv, PrintStyleEx::Adi(PrintStyle::Comment))]);
        proof {
            lemma_total_is_text_total(v@);
            assert(texts_of(v@) =~= seq![tv]);
        }
        Self::new(ea, None, v, LineKind::Comment { comment: ChildIdx(0) })
    }

    /// A label line: the label, then ":". Labels are never empty.
    pub fn new_label(ea: EA, label: String) -> (r: CodeLine)
        requires
            label@.len() > 0,
            text_total(seq![label@, seq![':']]) <= usize::MAX,
        ensures
            r.wf(),
            r.laid_out(),
            pieces_v(r.pieces()) == seq![
                pc(label@, PrintStyleEx::Adi(PrintStyle::Label)),
                pc(seq![':'], PrintStyleEx::Plain),
            ],
            r.address() == ea,
            r.address_pieces() is None,
            r.line_kind() matches LineKind::Label { label } && label == ChildIdx(0),
    {
        let ghost lv = label@;
        let c = String::from_str(":");
        proof {
            reveal_strlit(":");
            assert(c@ =~= seq![':']);
        }
        let mut v = Vec::new();
        v.push(text_piece(label, PrintStyleEx::Adi(PrintStyle::Label)));
        v.push(text_piece(c, PrintStyleEx::Plain));
        assert(pieces_v(v@) =~= seq![
            pc(lv, PrintStyleEx::Adi(PrintStyle::Label)),
            pc(seq![':'], PrintStyleEx::Plain),
        ]);
        proof {
            lemma_total_is_text_total(v@);
            assert(texts_of(v@) =~= seq![lv, seq![':']]);
        }
        Self::new(ea, None, v, LineKind::Label { label: ChildIdx(0) })
    }

    /// A line of unexplored bytes: the address, then the bytes.
    pub fn new_unknown(ea: EA, text_ea: TextEA, bytes: String) -> (r: CodeLine)
        requires
            text_total(seq![text_ea.seg@, offs_text(text_ea.offs@), bytes@]) <= usize::MAX,
        ensures
            r.wf(),
            r.laid_out(),
            pieces_v(r.pieces()) == textea_pieces(text_ea.seg@, text_ea.offs@).push(
                pc(bytes@, PrintStyleEx::Unknown),
            ),
            r.address() == ea,
            r.address_pieces() == Some((ChildIdx(0), ChildIdx(1))),
            r.line_kind() matches LineKind::Unknown { bytes } && bytes == ChildIdx(2),
    {
        let ghost texts = seq![text_ea.seg@, offs_text(text_ea.offs@), bytes@];
        let ghost want = textea_pieces(text_ea.seg@, text_ea.offs@).push(pc(bytes@, PrintStyleEx::Unknown));
        let mut v = textea_line_pieces(text_ea);
        v.push(text_piece(bytes, PrintStyleEx::Unknown));
        assert(pieces_v(v@) =~= want);
        proof {
            lemma_total_is_text_total(v@);
            assert(texts_of(v@) =~= texts);
        }
        Self::new(ea, Some((ChildIdx(0), ChildIdx(1))), v, LineKind::Unknown { bytes: ChildIdx(2) })
    }

    /// A line of code: the address, the code bytes column, the mnemonic, then one
    /// piece per operand piece (those that belong to an operand know which). The
    /// operand pieces are pieces 4, 5, ...
    pub fn new_code(
        ea: EA,
        text_ea: TextEA,
        bb_ea: EA,
        instn: usize,
        code_bytes: String,
        mnemonic: String,
        operands: Vec<CodeOpData>,
    ) -> (r: CodeLine)
        requires
            styles_ok(operands@),
            text_total(code_texts(text_ea.seg@, text_ea.offs@, code_bytes@, mnemonic@, operands@))
                <= usize::MAX,
        ensures
            r.wf(),
            r.laid_out(),
            pieces_v(r.pieces()) == code_pieces(text_ea.seg@, text_ea.offs@, code_bytes@, mnemonic@, operands@),
            r.address() == ea,
            r.address_pieces() == Some((ChildIdx(0), ChildIdx(1))),
            r.line_kind() is Code,
            r.line_kind()->bb_ea == bb_ea,
            r.line_kind()->instn == instn,
            r.line_kind()->code_bytes == ChildIdx(2),
            r.line_kind()->mnemonic == ChildIdx(3),
            r.line_kind()->operands@.len() == operands@.len(),
            forall|i: int| 0 <= i < operands@.len() ==> (#[trigger] r.line_kind()->operands@[i]).0 == operands@[i]
                && r.line_kind()->operands@[i].1 == ChildIdx((4 + i) as usize),
    {
        let ghost want = code_pieces(text_ea.seg@, text_ea.offs@, code_bytes@, mnemonic@, operands@);
        let ghost texts = code_texts(text_ea.seg@, text_ea.offs@, code_bytes@, mnemonic@, operands@);
        let mut cb = pad_right_to(code_bytes.as_str(), 8);
        cb.append("     ");
        proof {
            reveal_strlit("     ");
            assert(cb@ =~= code_bytes_column(code_bytes@));
        }
        let mut v = textea_line_pieces(text_ea);
        assert(pieces_v(v@).len() == 2);
        v.push(text_piece(cb, PrintStyleEx::CodeBytes));
        v.push(text_piece(mnemonic, PrintStyleEx::Adi(PrintStyle::Mnemonic)));
        let ghost head = pieces_v(v@);
        assert(head.len() == 4);
        assert(operands@.take(0) =~= Seq::<CodeOpData>::empty());
        assert(pieces_v(v@) =~= head + operands@.take(0).map_values(|op: CodeOpData| op_piece(op)));
        let mut i: usize = 0;
        while i < operands.len()
            invariant
                i <= operands@.len(),
                styles_ok(operands@),
                v@.len() == 4 + i,
                pieces_v(v@) == head + operands@.take(i as int).map_values(|op: CodeOpData| op_piece(op)),
            decreases operands.len() - i,
        {
            let op = &operands[i];
            assert(!(operands@[i as int].style matches Some(PrintStyle::Operand(_))));
            let style = PrintStyleEx::from_opt_style(op.style);
            let p = match op.opn {
                Some(opn) => LinePiece::new_op(op.text.clone(), style, opn),
                None => LinePiece::new(op.text.clone(), style),
            };
            let ghost before = v@;
            assert(piece_v(p) == op_piece(operands@[i as int]));
            v.push(p);
            assert(pieces_v(v@) =~= pieces_v(before).push(piece_v(p)));
            assert(operands@.take(i as int + 1) =~= operands@.take(i as int).push(operands@[i as int]));
            assert(pieces_v(v@) =~= head + operands@.take(i as int + 1).map_values(|op: CodeOpData| op_piece(op)));
            i = i + 1;
        }
        assert(operands@.take(operands@.len() as int) =~= operands@);
        assert(pieces_v(v@) =~= want);
        let ghost ops0 = operands@;
        let mut ops = operands;
        let mut pairs: Vec<(CodeOpData, ChildIdx)> = Vec::new();
        let n = ops.len();
        let vlen = v.len();
        let mut k: usize = 0;
        while k < n
            invariant
                n == ops0.len(),
                vlen == 4 + n,
                k <= n,
                ops@ == ops0.skip(k as int),
                pairs@.len() == k,
                forall|j: int| 0 <= j < k ==> (#[trigger] pairs@[j]).0 == ops0[j] && pairs@[j].1 == ChildIdx((4 + j) as usize),
            decreases n - k,
        {
            let op = ops.remove(0);
            assert(op == ops0[k as int]);
            pairs.push((op, ChildIdx(4 + k)));
            assert(ops@ =~= ops0.skip(k as int + 1));
            k = k + 1;
        }
        proof {
            lemma_total_is_text_total(v@);
            assert(texts_of(v@) =~= pieces_v(v@).map_values(|p: PieceV| p.text));
            assert(texts_of(v@) =~= texts);
        }
        Self::new(
            ea,
            Some((ChildIdx(0), ChildIdx(1))),
            v,
            LineKind::Code { bb_ea, instn, code_bytes: ChildIdx(2), mnemonic: ChildIdx(3), operands: pairs },
        )
    }
}


/// Law: the pieces of a line leave no gaps and do not overlap: the text before piece
/// `i + 1` is the text before piece `i` followed by piece `i`.
pub proof fn lemma_span_step(pieces: Seq<LinePiece>, i: int)
    requires
        0 <= i < pieces.len(),
    ensures
        total_len_of(pieces.take(i + 1)) == total_len_of(pieces.take(i)) + byte_len(pieces[i].text@),
{
    assert(pieces.take(i + 1).drop_last() =~= pieces.take(i));
}

impl CodeLine {
    /// The line's pieces, for drawing.
    pub fn children(&self) -> (r: &Vec<LinePiece>)
        ensures
            r@ == self.pieces(),
    {
        &self.children
    }

    /// Where each piece lies.
    pub fn spans(&self) -> (r: &Vec<LineSpan>)
        ensures
            r@ == self.span_seq(),
    {
        &self.spans
    }

    /// The total length of the line's text.
    pub fn total_len(&self) -> (r: usize)
        ensures
            r == self.total(),
    {
        self.total_len
    }

    pub fn ea(&self) -> (r: EA)
        ensures
            r == self.address(),
    {
        self.ea
    }

    pub fn text_ea(&self) -> (r: Option<(ChildIdx, ChildIdx)>)
        ensures
            r == self.address_pieces(),
    {
        self.text_ea
    }

    pub fn kind(&self) -> (r: &LineKind)
        ensures
            *r == self.line_kind(),
    {
        &self.kind
    }

    /// True when `c` names a piece of this line that shows an operand.
    pub open spec fn is_operand_child(&self, c: ChildIdx) -> bool {
        &&& c.0 < self.span_seq().len()
        &&& self.span_seq()[c.0 as int].opn is Some
    }

    /// The operand shown by piece `c`.
    pub open spec fn loc_of(&self, c: ChildIdx) -> OperandLocation {
        OperandLocation {
            bb_ea: self.line_kind()->bb_ea,
            instn: self.line_kind()->instn,
            opn: self.span_seq()[c.0 as int].opn->0,
        }
    }

    pub open spec fn opt_loc(&self, c: Option<ChildIdx>) -> Option<OperandLocation> {
        match c {
            Some(c) => Some(self.loc_of(c)),
            None => None,
        }
    }

    /// `c`, if it names a piece that shows an operand.
    pub open spec fn operand_only(&self, c: Option<ChildIdx>) -> Option<ChildIdx> {
        match c {
            Some(c) => if self.span_seq()[c.0 as int].opn is Some {
                Some(c)
            } else {
                None
            },
            None => None,
        }
    }

    /// The piece at character index `idx` (inside the line): the last one that starts
    /// at or before it.
    pub open spec fn child_at(&self, idx: nat) -> ChildIdx {
        ChildIdx(choose|k: usize| last_start_at_or_before(self.span_seq(), idx, k))
    }

    /// The operand shown by piece `child`.
    pub fn get_operand_loc(&self, child_idx: ChildIdx) -> (r: OperandLocation)
        requires
            self.wf(),
            self.is_operand_child(child_idx),
        ensures
            r == self.loc_of(child_idx),
    {
        proof {
            self.lemma_operand_child_is_code(child_idx);
        }
        match &self.kind {
            LineKind::Code { bb_ea, instn, .. } => {
                let opn = self.spans[child_idx.0].opn.unwrap();
                OperandLocation { bb_ea: *bb_ea, instn: *instn, opn }
            },
            _ => {
                assert(false);
                OperandLocation { bb_ea: self.ea, instn: 0, opn: 0 }
            },
        }
    }

    proof fn lemma_spans_fit(&self)
        ensures
            self.span_seq().len() <= usize::MAX,
    {
        assert(self.spans@.len() == self.spans.len());
    }

    proof fn lemma_operand_child_is_code(&self, c: ChildIdx)
        requires
            self.wf(),
            self.is_operand_child(c),
        ensures
            self.line_kind() is Code,
    {
        if !(self.kind is Code) {
            assert(self.spans@[c.0 as int].opn is None);
        }
    }

    /// `child`, if it shows an operand.
    pub fn operand_child(&self, child: Option<ChildIdx>) -> (r: Option<ChildIdx>)
        requires
            child matches Some(c) ==> c.0 < self.span_seq().len(),
        ensures
            r == self.operand_only(child),
    {
        match child {
            Some(c) => if self.spans[c.0].opn.is_some() {
                Some(c)
            } else {
                None
            },
            None => None,
        }
    }

    /// The piece at character index `char_idx`: the last piece that starts at or
    /// before it (so for an index past the end, the last piece).
    pub fn child_at_char_index(&self, char_idx: usize) -> (r: Option<ChildIdx>)
        requires
            self.wf(),
        ensures
            char_idx < self.total() ==> r == Some(self.child_at(char_idx as nat)),
            char_idx < self.total() ==> self.child_at(char_idx as nat).0 < self.span_seq().len(),
            char_idx < self.total() ==> self.span_seq()[self.child_at(char_idx as nat).0 as int].start
                <= char_idx < self.span_seq()[self.child_at(char_idx as nat).0 as int].start
                + self.span_seq()[self.child_at(char_idx as nat).0 as int].len,
            char_idx >= self.total() ==> r is None,
    {
        if char_idx >= self.total_len {
            return None;
        }
        proof {
            assert(self.children@.take(0) =~= Seq::<LinePiece>::empty());
            assert(self.spans@[0] == span_of(self.children@, 0));
            lemma_child_at_holds_index(*self, char_idx as nat);
        }
        let mut i: usize = self.spans.len() - 1;
        while self.spans[i].start > char_idx
            invariant
                self.wf(),
                i < self.spans@.len(),
                forall|j: int| i < j < self.spans@.len() ==> self.spans@[j].start > char_idx,
            decreases i,
        {
            assert(i != 0);
            i = i - 1;
        }
        proof {
            assert(last_start_at_or_before(self.span_seq(), char_idx as nat, i));
            lemma_last_start_unique(self.span_seq(), char_idx as nat, i, self.child_at(char_idx as nat).0);
        }
        Some(ChildIdx(i))
    }

    /// The cursor index after moving it by `delta` characters, kept between 0 and
    /// the end of the line.
    pub fn cursor_after_move(&self, idx: usize, delta: isize) -> (r: usize)
        requires
            self.total() <= isize::MAX,
            idx <= isize::MAX,
            isize::MIN <= idx + delta <= isize::MAX,
        ensures
            r == if idx + delta < 0 {
                0
            } else if idx + delta > self.total() {
                self.total() as int
            } else {
                idx + delta
            },
    {
        let moved = (idx as isize) + delta;
        let total = self.total_len as isize;
        if moved < 0 {
            0
        } else if moved > total {
            self.total_len
        } else {
            moved as usize
        }
    }
}

/// What a line remembers between events.
#[derive(Debug, Clone, Copy, PartialEq, Eq, Structural)]
pub struct LineState {
    /// which piece, if any, the mouse is hovering over.
    pub hovered_child: Option<ChildIdx>,
    /// which piece, if any, the user pressed the left mouse button on.
    pub pressed_child: Option<ChildIdx>,
    /// if the text cursor is on this line, its character index.
    pub line_cursor: Option<usize>,
    /// which piece, if any, the text cursor is over.
    pub focused_child: Option<ChildIdx>,
}

impl LineState {
    pub fn new() -> (r: LineState)
        ensures
            r.hovered_child is None,
            r.pressed_child is None,
            r.line_cursor is None,
            r.focused_child is None,
    {
        LineState { hovered_child: None, pressed_child: None, line_cursor: None, focused_child: None }
    }
}

/// A key pressed without modifiers.
#[derive(Debug, Clone, Copy, PartialEq, Eq, Structural)]
pub enum PlainKey {
    ArrowLeft,
    ArrowRight,
    Other,
}

/// What happened to a line, as far as its decisions go. Where the mouse is and
/// which piece lies under it are given separately.
#[derive(Debug, Clone, Copy, PartialEq, Eq, Structural)]
pub enum LineInput {
    LeftPressed,
    /// The left button was released. `cursor_known` tells whether the mouse
    /// position is known at all; `cursor_idx` is the character index under it
    /// (used when it is over the line); `double` tells whether this click
    /// completes a double click.
    LeftReleased { cursor_known: bool, cursor_idx: usize, double: bool },
    KeyPressed { key: PlainKey },
    Other,
}

/// The abstract outcome of an update of a line.
pub struct LineOutcome {
    pub state: LineState,
    pub redraw: bool,
    pub capture: bool,
    pub clicked: bool,
    pub messages: Seq<CodeViewMessage>,
}

/// What a line asks for after an event.
pub struct LineUpdate {
    pub redraw: bool,
    pub capture: bool,
    /// A click on an operand was reported (the click is to be remembered for
    /// double-click detection).
    pub clicked: bool,
    pub messages: Vec<CodeViewMessage>,
}

/// The messages for a change of the operand under the mouse or the text cursor:
/// none when it stays the same operand; otherwise leaving the old one, then
/// entering the new one, each when there is one.
pub open spec fn transition_msgs(
    old: Option<OperandLocation>,
    new: Option<OperandLocation>,
    focus: bool,
) -> Seq<CodeViewMessage> {
    if old == new {
        Seq::empty()
    } else {
        (match old {
            Some(l) => seq![operand_msg(l, false, focus)],
            None => Seq::empty(),
        }) + (match new {
            Some(l) => seq![operand_msg(l, true, focus)],
            None => Seq::empty(),
        })
    }
}

pub open spec fn operand_msg(loc: OperandLocation, over: bool, focus: bool) -> CodeViewMessage {
    if focus {
        CodeViewMessage::OperandFocused { loc, over }
    } else {
        CodeViewMessage::OperandHovered { loc, over }
    }
}

impl CodeLine {
    /// The state is about this line: every piece it names shows an operand, and the
    /// text cursor is within the line.
    pub open spec fn state_ok(&self, st: LineState) -> bool {
        &&& (st.hovered_child matches Some(c) ==> self.is_operand_child(c))
        &&& (st.pressed_child matches Some(c) ==> self.is_operand_child(c))
        &&& (st.focused_child matches Some(c) ==> self.is_operand_child(c))
        &&& (st.line_cursor matches Some(i) ==> i <= self.total())
    }

    /// The piece under the mouse that counts as hovered: only when the mouse is
    /// over the line, and only a piece that shows an operand.
    pub open spec fn hovered_after(&self, over_line: bool, under_mouse: Option<ChildIdx>) -> Option<ChildIdx> {
        if over_line {
            self.operand_only(under_mouse)
        } else {
            None
        }
    }

    /// The cursor index after a key press.
    pub open spec fn cursor_after_key(&self, cursor: Option<usize>, key: PlainKey) -> Option<usize> {
        match cursor {
            None => None,
            Some(i) => Some(
                match key {
                    PlainKey::ArrowLeft => if i == 0 {
                        0
                    } else {
                        (i - 1) as usize
                    },
                    PlainKey::ArrowRight => if i + 1 > self.total() {
                        self.total() as usize
                    } else {
                        (i + 1) as usize
                    },
                    PlainKey::Other => i,
                },
            ),
        }
    }

    /// The piece the text cursor is over: the operand piece at its index, if any (none
    /// when the cursor stands after the last character).
    pub open spec fn focused_after(&self, cursor: Option<usize>) -> Option<ChildIdx> {
        match cursor {
            Some(i) => if i < self.total() {
                self.operand_only(Some(self.child_at(i as nat)))
            } else {
                None
            },
            None => None,
        }
    }

    /// What an update does: the new state, whether to redraw, whether to capture
    /// the event, whether a click was reported, and the messages, in order.
    pub open spec fn update_spec(
        &self,
        old_st: LineState,
        over_line: bool,
        under_mouse: Option<ChildIdx>,
        input: LineInput,
    ) -> LineOutcome {
        let hov = self.hovered_after(over_line, under_mouse);
        let hover_changed = old_st.hovered_child != hov;
        let hover_msgs = if hover_changed {
            transition_msgs(self.opt_loc(old_st.hovered_child), self.opt_loc(hov), false)
        } else {
            Seq::empty()
        };
        match input {
            LineInput::LeftPressed => LineOutcome {
                state: LineState {
                    hovered_child: hov,
                    pressed_child: if hov is Some { hov } else { old_st.pressed_child },
                    ..old_st
                },
                redraw: hover_changed,
                capture: hov is Some,
                clicked: false,
                messages: hover_msgs,
            },
            LineInput::LeftReleased { cursor_known, cursor_idx, double } => {
                let click = cursor_known && old_st.pressed_child is Some && old_st.pressed_child == hov;
                LineOutcome {
                    state: LineState {
                        hovered_child: hov,
                        pressed_child: None,
                        line_cursor: if cursor_known && over_line {
                            Some(cursor_idx)
                        } else {
                            old_st.line_cursor
                        },
                        ..old_st
                    },
                    redraw: hover_changed || (cursor_known && over_line),
                    capture: click,
                    clicked: click,
                    messages: if click {
                        hover_msgs.push(
                            CodeViewMessage::OperandClicked { loc: self.loc_of(old_st.pressed_child->0), double },
                        )
                    } else {
                        hover_msgs
                    },
                }
            },
            LineInput::KeyPressed { key } => {
                let cur = self.cursor_after_key(old_st.line_cursor, key);
                let foc = self.focused_after(cur);
                LineOutcome {
                    state: LineState { hovered_child: hov, line_cursor: cur, focused_child: foc, ..old_st },
                    redraw: hover_changed || cur != old_st.line_cursor,
                    capture: false,
                    clicked: false,
                    messages: hover_msgs + if old_st.focused_child != foc {
                        transition_msgs(self.opt_loc(old_st.focused_child), self.opt_loc(foc), true)
                    } else {
                        Seq::empty()
                    },
                }
            },
            LineInput::Other => LineOutcome {
                state: LineState { hovered_child: hov, ..old_st },
                redraw: hover_changed,
                capture: false,
                clicked: false,
                messages: hover_msgs,
            },
        }
    }

    /// Updates the line's state on an event. First the hovered operand follows the
    /// mouse, reporting a change of operand. Then: pressing the left button over an
    /// operand remembers it; releasing it places the text cursor (when over the
    /// line) and reports a click when released over the operand it was pressed on;
    /// a plain arrow key moves the text cursor one character (within the line), and
    /// any plain key updates the operand under the text cursor, reporting a change.
    pub fn update(
        &self,
        state: &mut LineState,
        over_line: bool,
        under_mouse: Option<ChildIdx>,
        input: LineInput,
    ) -> (r: LineUpdate)
        requires
            self.wf(),
            self.total() < isize::MAX,
            self.state_ok(*old(state)),
            under_mouse matches Some(c) ==> c.0 < self.span_seq().len(),
            input matches LineInput::LeftReleased { cursor_known, cursor_idx, .. } ==> (cursor_known
                && over_line ==> cursor_idx <= self.total()),
        ensures
            self.state_ok(*final(state)),
            self.update_spec(*old(state), over_line, under_mouse, input) == (LineOutcome {
                state: *final(state),
                redraw: r.redraw,
                capture: r.capture,
                clicked: r.clicked,
                messages: r.messages@,
            }),
    {
        let mut messages: Vec<CodeViewMessage> = Vec::new();
        let mut redraw = false;
        let mut capture = false;
        let mut clicked = false;

        // 1. which operand piece, if any, the mouse is over
        let old_hovered = state.hovered_child;
        let new_hovered = if over_line {
            self.operand_child(under_mouse)
        } else {
            None
        };
        state.hovered_child = new_hovered;

        // 2. report a change of hovered operand
        if old_hovered != new_hovered {
            redraw = true;
            self.push_transition(&mut messages, old_hovered, new_hovered, false);
        }
        let ghost after_hover = messages@;

        // 3. the event itself
        match input {
            LineInput::LeftPressed => {
                if new_hovered.is_some() {
                    state.pressed_child = new_hovered;
                    capture = true;
                }
            },
            LineInput::LeftReleased { cursor_known, cursor_idx, double } => {
                if cursor_known {
                    if over_line {
                        state.line_cursor = Some(cursor_idx);
                        redraw = true;
                    }
                    match state.pressed_child {
                        Some(child_idx) => {
                            if Some(child_idx) == new_hovered {
                                let loc = self.get_operand_loc(child_idx);
                                messages.push(CodeViewMessage::OperandClicked { loc, double });
                                clicked = true;
                                capture = true;
                            }
                        },
                        None => {},
                    }
                }
                state.pressed_child = None;
            },
            LineInput::KeyPressed { key } => {
                let old_focused = state.focused_child;
                match state.line_cursor {
                    Some(idx) => {
                        let new_idx = match key {
                            PlainKey::ArrowLeft => self.cursor_after_move(idx, -1),
                            PlainKey::ArrowRight => self.cursor_after_move(idx, 1),
                            PlainKey::Other => idx,
                        };
                        if new_idx != idx {
                            redraw = true;
                        }
                        state.line_cursor = Some(new_idx);
                    },
                    None => {},
                }
                let new_focused = match state.line_cursor {
                    Some(idx) => {
                        let c = self.child_at_char_index(idx);
                        match c {
                            Some(_) => self.operand_child(c),
                            None => None,
                        }
                    },
                    None => None,
                };
                state.focused_child = new_focused;
                if old_focused != new_focused {
                    self.push_transition(&mut messages, old_focused, new_focused, true);
                }
            },
            LineInput::Other => {},
        }
        LineUpdate { redraw, capture, clicked, messages }
    }

    /// Appends the messages for a change of operand from piece `old` to piece `new`.
    fn push_transition(
        &self,
        messages: &mut Vec<CodeViewMessage>,
        from: Option<ChildIdx>,
        to: Option<ChildIdx>,
        focus: bool,
    )
        requires
            self.wf(),
            from matches Some(c) ==> self.is_operand_child(c),
            to matches Some(c) ==> self.is_operand_child(c),
        ensures
            final(messages)@ == old(messages)@ + transition_msgs(self.opt_loc(from), self.opt_loc(to), focus),
    {
        let old_loc = match from {
            Some(c) => Some(self.get_operand_loc(c)),
            None => None,
        };
        let new_loc = match to {
            Some(c) => Some(self.get_operand_loc(c)),
            None => None,
        };
        let ghost start = messages@;
        if old_loc != new_loc {
            match old_loc {
                Some(l) => messages.push(
                    if focus {
                        CodeViewMessage::OperandFocused { loc: l, over: false }
                    } else {
                        CodeViewMessage::OperandHovered { loc: l, over: false }
                    },
                ),
                None => {},
            }
            match new_loc {
                Some(l) => messages.push(
                    if focus {
                        CodeViewMessage::OperandFocused { loc: l, over: true }
                    } else {
                        CodeViewMessage::OperandHovered { loc: l, over: true }
                    },
                ),
                None => {},
            }
        }
        assert(messages@ =~= start + transition_msgs(self.opt_loc(from), self.opt_loc(to), focus));
    }
}

/// Law: pressing the left button on an operand and releasing it on the same
/// operand reports exactly one message: a click on that operand.
pub proof fn lemma_press_release_clicks(
    line: CodeLine,
    st: LineState,
    c: ChildIdx,
    cursor_idx: usize,
    double: bool,
)
    requires
        line.wf(),
        line.is_operand_child(c),
    ensures
        ({
            let pressed = line.update_spec(st, true, Some(c), LineInput::LeftPressed);
            let released = line.update_spec(
                pressed.state,
                true,
                Some(c),
                LineInput::LeftReleased { cursor_known: true, cursor_idx, double },
            );
            &&& released.clicked
            &&& released.messages == seq![CodeViewMessage::OperandClicked { loc: line.loc_of(c), double }]
            &&& released.state.pressed_child is None
            &&& released.state.line_cursor == Some(cursor_idx)
        }),
{
    let pressed = line.update_spec(st, true, Some(c), LineInput::LeftPressed);
    assert(pressed.state.hovered_child == Some(c));
    assert(pressed.state.pressed_child == Some(c));
    let released = line.update_spec(
        pressed.state,
        true,
        Some(c),
        LineInput::LeftReleased { cursor_known: true, cursor_idx, double },
    );
    assert(released.messages =~= seq![CodeViewMessage::OperandClicked { loc: line.loc_of(c), double }]);
}

/// Law: releasing the left button anywhere but over the operand it was pressed on
/// (or with no operand pressed) reports no click.
pub proof fn lemma_release_elsewhere_no_click(
    line: CodeLine,
    st: LineState,
    over_line: bool,
    under_mouse: Option<ChildIdx>,
    cursor_known: bool,
    cursor_idx: usize,
    double: bool,
)
    requires
        !(st.pressed_child is Some && st.pressed_child == line.hovered_after(over_line, under_mouse)),
    ensures
        ({
            let o = line.update_spec(
                st,
                over_line,
                under_mouse,
                LineInput::LeftReleased { cursor_known, cursor_idx, double },
            );
            &&& !o.clicked
            &&& forall|i: int| 0 <= i < o.messages.len() ==> !(#[trigger] o.messages[i] is OperandClicked)
        }),
{
    let hov = line.hovered_after(over_line, under_mouse);
    let o = line.update_spec(st, over_line, under_mouse, LineInput::LeftReleased { cursor_known, cursor_idx, double });
    assert forall|i: int| 0 <= i < o.messages.len() implies !(#[trigger] o.messages[i] is OperandClicked) by {
        if st.hovered_child != hov {
            let a = match line.opt_loc(st.hovered_child) {
                Some(l) => seq![operand_msg(l, false, false)],
                None => Seq::<CodeViewMessage>::empty(),
            };
            let b = match line.opt_loc(hov) {
                Some(l) => seq![operand_msg(l, true, false)],
                None => Seq::<CodeViewMessage>::empty(),
            };
            if line.opt_loc(st.hovered_child) != line.opt_loc(hov) {
                assert(o.messages == a + b);
                if i < a.len() {
                    assert(o.messages[i] == a[i]);
                } else {
                    assert(o.messages[i] == b[i - a.len()]);
                }
            }
        }
    }
}

/// Law: when the mouse leaves the line, nothing stays hovered, and leaving an
/// operand is reported for the operand that was hovered.
pub proof fn lemma_leaving_line_clears_hover(line: CodeLine, st: LineState, under_mouse: Option<ChildIdx>)
    ensures
        ({
            let o = line.update_spec(st, false, under_mouse, LineInput::Other);
            &&& o.state.hovered_child is None
            &&& st.hovered_child matches Some(c) ==> o.messages == seq![
                CodeViewMessage::OperandHovered { loc: line.loc_of(c), over: false },
            ]
            &&& st.hovered_child is None ==> o.messages == Seq::<CodeViewMessage>::empty()
        }),
{
    let o = line.update_spec(st, false, under_mouse, LineInput::Other);
    match st.hovered_child {
        Some(c) => {
            assert(o.messages =~= seq![CodeViewMessage::OperandHovered { loc: line.loc_of(c), over: false }]);
        },
        None => {},
    }
}

/// Law: a plain arrow key moves the text cursor by exactly one character and
/// keeps it within the line. From index `i`, the right arrow gives `i + 1`, or the
/// end of the line when `i` is already there; the left arrow gives `i - 1`, or 0 at
/// the start; any other plain key leaves the cursor where it is. A line without
/// the cursor keeps none, and no key press touches the pressed piece.
pub proof fn lemma_arrow_key_moves_cursor_one_char(
    line: CodeLine,
    st: LineState,
    over_line: bool,
    under_mouse: Option<ChildIdx>,
    key: PlainKey,
)
    ensures
        ({
            let o = line.update_spec(st, over_line, under_mouse, LineInput::KeyPressed { key });
            &&& st.line_cursor is None ==> o.state.line_cursor is None
            &&& st.line_cursor is Some ==> o.state.line_cursor is Some
            &&& st.line_cursor is Some ==> o.state.line_cursor->0 as int == match key {
                PlainKey::ArrowRight => if st.line_cursor->0 + 1 <= line.total() {
                    st.line_cursor->0 + 1
                } else {
                    line.total() as int
                },
                PlainKey::ArrowLeft => if st.line_cursor->0 == 0 {
                    0
                } else {
                    st.line_cursor->0 - 1
                },
                PlainKey::Other => st.line_cursor->0 as int,
            }
            &&& o.state.pressed_child == st.pressed_child
        }),
{
    assert(line.total() <= usize::MAX);
}

/// Law: the right arrow moves a cursor that stands before the end of the line one
/// character to the right, and the left arrow moves it back where it was.
pub proof fn lemma_right_then_left_returns(
    line: CodeLine,
    st: LineState,
    over_line: bool,
    under_mouse: Option<ChildIdx>,
)
    requires
        st.line_cursor is Some,
        st.line_cursor->0 < line.total(),
    ensures
        ({
            let o1 = line.update_spec(st, over_line, under_mouse, LineInput::KeyPressed { key: PlainKey::ArrowRight });
            let o2 = line.update_spec(o1.state, over_line, under_mouse, LineInput::KeyPressed { key: PlainKey::ArrowLeft });
            &&& o1.state.line_cursor == Some((st.line_cursor->0 + 1) as usize)
            &&& o2.state.line_cursor == st.line_cursor
        }),
{
    assert(line.total() <= usize::MAX);
}

/// Law: after a key press the focused piece is the operand piece under the text
/// cursor. When there is one, it shows an operand and its span holds the cursor;
/// when the piece that holds the cursor shows an operand, it is the focused one;
/// with no cursor on the line, or the cursor after the last character, nothing is
/// focused. When the hovered piece stays the same, the messages report exactly the
/// change of focus: leaving the operand focused before, then entering the one
/// focused now, each when there is one, and nothing when the operand stays the same.
pub proof fn lemma_key_press_focuses_operand_under_cursor(
    line: CodeLine,
    st: LineState,
    over_line: bool,
    under_mouse: Option<ChildIdx>,
    key: PlainKey,
)
    requires
        line.wf(),
        st.hovered_child == line.hovered_after(over_line, under_mouse),
    ensures
        ({
            let o = line.update_spec(st, over_line, under_mouse, LineInput::KeyPressed { key });
            let cur = o.state.line_cursor;
            let foc = o.state.focused_child;
            &&& foc is Some ==> {
                let c = (foc->0).0 as int;
                &&& cur is Some && cur->0 < line.total()
                &&& line.is_operand_child(foc->0)
                &&& line.span_seq()[c].start <= cur->0 < line.span_seq()[c].start + line.span_seq()[c].len
            }
            &&& (cur is Some && cur->0 < line.total() && line.span_seq()[line.child_at(
                cur->0 as nat,
            ).0 as int].opn is Some) ==> foc == Some(line.child_at(cur->0 as nat))
            &&& (cur is None || cur->0 >= line.total()) ==> foc is None
            &&& st.focused_child is None && foc is None ==> o.messages == Seq::<CodeViewMessage>::empty()
            &&& st.focused_child is None && foc is Some ==> o.messages == seq![
                CodeViewMessage::OperandFocused { loc: line.loc_of(foc->0), over: true },
            ]
            &&& st.focused_child is Some && foc is None ==> o.messages == seq![
                CodeViewMessage::OperandFocused { loc: line.loc_of(st.focused_child->0), over: false },
            ]
            &&& st.focused_child is Some && foc is Some && line.loc_of(st.focused_child->0) != line.loc_of(
                foc->0,
            ) ==> o.messages == seq![
                CodeViewMessage::OperandFocused { loc: line.loc_of(st.focused_child->0), over: false },
                CodeViewMessage::OperandFocused { loc: line.loc_of(foc->0), over: true },
            ]
            &&& st.focused_child is Some && foc is Some && line.loc_of(st.focused_child->0) == line.loc_of(
                foc->0,
            ) ==> o.messages == Seq::<CodeViewMessage>::empty()
        }),
{
    let o = line.update_spec(st, over_line, under_mouse, LineInput::KeyPressed { key });
    let cur = o.state.line_cursor;
    let foc = o.state.focused_child;
    if cur is Some && cur->0 < line.total() {
        lemma_child_at_holds_index(line, cur->0 as nat);
    }
    let e = Seq::<CodeViewMessage>::empty();
    assert(e + e =~= e);
    if st.focused_child is None && foc is Some {
        assert(o.messages =~= seq![CodeViewMessage::OperandFocused { loc: line.loc_of(foc->0), over: true }]);
    }
    if st.focused_child is Some && foc is None {
        assert(o.messages =~= seq![
            CodeViewMessage::OperandFocused { loc: line.loc_of(st.focused_child->0), over: false },
        ]);
    }
    if st.focused_child is Some && foc is Some && line.loc_of(st.focused_child->0) != line.loc_of(foc->0) {
        assert(o.messages =~= seq![
            CodeViewMessage::OperandFocused { loc: line.loc_of(st.focused_child->0), over: false },
            CodeViewMessage::OperandFocused { loc: line.loc_of(foc->0), over: true },
        ]);
    }
}

/// Law: a code line shows, in order, the segment name, ":offset ", the code bytes
/// column, the mnemonic, and then one piece per operand piece. Operand piece `k`
/// keeps the text and the operand number the printer gave it, and its style: the
/// style `s` it was printed in, as `Adi(s)`, and plain text only where it was
/// printed without one.
pub proof fn lemma_code_line_pieces_keep_printed_styles(
    seg: Seq<char>,
    offs: Seq<char>,
    code_bytes: Seq<char>,
    mnemonic: Seq<char>,
    operands: Seq<CodeOpData>,
)
    ensures
        ({
            let p = code_pieces(seg, offs, code_bytes, mnemonic, operands);
            &&& p.len() == 4 + operands.len()
            &&& p[0] == (PieceV { text: seg, style: PrintStyleEx::SegName, opn: None })
            &&& p[1] == (PieceV { text: seq![':'] + offs + seq![' '], style: PrintStyleEx::Plain, opn: None })
            &&& p[2].style == PrintStyleEx::CodeBytes && p[2].opn is None
            &&& p[2].text == code_bytes + Seq::new(
                (if code_bytes.len() < 8 { 13 - code_bytes.len() } else { 5 }) as nat,
                |i: int| ' ',
            )
            &&& p[3] == (PieceV { text: mnemonic, style: PrintStyleEx::Adi(PrintStyle::Mnemonic), opn: None })
            &&& forall|k: int|
                #![trigger operands[k]]
                0 <= k < operands.len() ==> {
                    &&& p[4 + k].text == operands[k].text@
                    &&& p[4 + k].opn == operands[k].opn
                    &&& operands[k].style is None ==> p[4 + k].style == PrintStyleEx::Plain
                    &&& operands[k].style is Some ==> p[4 + k].style == PrintStyleEx::Adi(operands[k].style->0)
                }
        }),
{
    let p = code_pieces(seg, offs, code_bytes, mnemonic, operands);
    let head = textea_pieces(seg, offs) + seq![
        pc(code_bytes_column(code_bytes), PrintStyleEx::CodeBytes),
        pc(mnemonic, PrintStyleEx::Adi(PrintStyle::Mnemonic)),
    ];
    assert(head.len() == 4);
    assert(p[2].text =~= code_bytes + Seq::new(
        (if code_bytes.len() < 8 { 13 - code_bytes.len() } else { 5 }) as nat,
        |i: int| ' ',
    ));
    assert forall|k: int| #![trigger operands[k]] 0 <= k < operands.len() implies {
        &&& p[4 + k].text == operands[k].text@
        &&& p[4 + k].opn == operands[k].opn
        &&& operands[k].style is None ==> p[4 + k].style == PrintStyleEx::Plain
        &&& operands[k].style is Some ==> p[4 + k].style == PrintStyleEx::Adi(operands[k].style->0)
    } by {
        assert(p[4 + k] == op_piece(operands[k]));
    }
}

/// Law: moving the mouse onto operand piece `k` of a code line (pieces laid out as
/// a code line shows them, piece `4 + k` for operand piece `k`) hovers that piece
/// and reports entering the operand at the line's block address, the line's
/// instruction number and the operand number the printer gave that piece.
pub proof fn lemma_hovering_operand_piece_reports_its_location(
    line: CodeLine,
    st: LineState,
    seg: Seq<char>,
    offs: Seq<char>,
    code_bytes: Seq<char>,
    mnemonic: Seq<char>,
    operands: Seq<CodeOpData>,
    k: int,
)
    requires
        line.wf(),
        pieces_v(line.pieces()) == code_pieces(seg, offs, code_bytes, mnemonic, operands),
        line.line_kind() is Code,
        0 <= k < operands.len(),
        operands[k].opn is Some,
        st.hovered_child is None,
    ensures
        ({
            let c = ChildIdx((4 + k) as usize);
            let o = line.update_spec(st, true, Some(c), LineInput::Other);
            &&& o.state.hovered_child == Some(c)
            &&& o.messages == seq![
                CodeViewMessage::OperandHovered {
                    loc: OperandLocation {
                        bb_ea: line.line_kind()->bb_ea,
                        instn: line.line_kind()->instn,
                        opn: operands[k].opn->0,
                    },
                    over: true,
                },
            ]
        }),
{
    let c = ChildIdx((4 + k) as usize);
    lemma_code_line_pieces_keep_printed_styles(seg, offs, code_bytes, mnemonic, operands);
    line.lemma_spans_fit();
    assert(pieces_v(line.pieces())[4 + k] == piece_v(line.pieces()[4 + k]));
    assert(operands[k] == operands[k]);
    assert(line.span_seq()[4 + k] == span_of(line.pieces(), 4 + k));
    assert(line.span_seq()[c.0 as int].opn == operands[k].opn);
    let o = line.update_spec(st, true, Some(c), LineInput::Other);
    assert(o.messages =~= seq![CodeViewMessage::OperandHovered { loc: line.loc_of(c), over: true }]);
}

/// `k` names the last span that starts at or before `idx`.
pub open spec fn last_start_at_or_before(sp: Seq<LineSpan>, idx: nat, k: usize) -> bool {
    &&& k < sp.len()
    &&& sp[k as int].start <= idx
    &&& forall|j: int| k < j < sp.len() ==> (#[trigger] sp[j]).start > idx
}

proof fn lemma_last_start_unique(sp: Seq<LineSpan>, idx: nat, a: usize, b: usize)
    requires
        last_start_at_or_before(sp, idx, a),
        exists|k: usize| last_start_at_or_before(sp, idx, k),
        b == choose|k: usize| last_start_at_or_before(sp, idx, k),
    ensures
        a == b,
{
    assert(last_start_at_or_before(sp, idx, b));
    if a < b {
        assert(sp[b as int].start > idx);
    }
    if b < a {
        assert(sp[a as int].start > idx);
    }
}

proof fn lemma_last_start_exists(sp: Seq<LineSpan>, idx: nat, i: int)
    requires
        0 <= i < sp.len(),
        sp.len() <= usize::MAX,
        sp[0].start == 0,
        forall|j: int| i < j < sp.len() ==> (#[trigger] sp[j]).start > idx,
    ensures
        exists|k: usize| last_start_at_or_before(sp, idx, k),
    decreases i,
{
    if sp[i].start <= idx {
        assert(last_start_at_or_before(sp, idx, i as usize));
    } else {
        lemma_last_start_exists(sp, idx, i - 1);
    }
}

/// Law: the piece found for a character index inside the line is the piece that
/// holds that character.
pub proof fn lemma_child_at_holds_index(line: CodeLine, idx: nat)
    requires
        line.wf(),
        idx < line.total(),
    ensures
        ({
            let c = line.child_at(idx).0 as int;
            &&& 0 <= c < line.span_seq().len()
            &&& line.span_seq()[c].start <= idx < line.span_seq()[c].start + line.span_seq()[c].len
        }),
{
    let ps = line.pieces();
    let sp = line.span_seq();
    assert(ps.take(0) =~= Seq::<LinePiece>::empty());
    assert(sp[0] == span_of(ps, 0));
    line.lemma_spans_fit();
    lemma_last_start_exists(sp, idx, sp.len() - 1);
    let c = line.child_at(idx).0 as int;
    assert(last_start_at_or_before(sp, idx, c as usize));
    lemma_total_prefix(ps, c + 1);
    lemma_span_step(ps, c);
    assert(sp[c] == span_of(ps, c));
    if c + 1 < sp.len() {
        assert(sp[c + 1] == span_of(ps, c + 1));
        lemma_total_prefix(ps, c + 2);
    } else {
        assert(ps.take(c + 1) =~= ps);
    }
}

} // verus!
