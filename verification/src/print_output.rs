//! Collects the pieces of one printed instruction: the mnemonic and a list of
//! styled operand pieces, as the disassembler's printer emits them.

use vstd::prelude::*;

use crate::style::PrintStyle;
use crate::ui::CodeOpData;

verus! {

/// The abstract content of one collected operand piece.
pub struct OpView {
    pub text: Seq<char>,
    pub style: Option<PrintStyle>,
    pub opn: Option<u8>,
}

/// The abstract state of a [`UIRenderOutput`].
pub struct OutputModel {
    /// The mnemonic, once its bracket has been closed.
    pub mnemonic: Option<Seq<char>>,
    /// The pieces collected so far, in order.
    pub operands: Seq<OpView>,
    /// Text written since the last piece was cut off.
    pub pending: Seq<char>,
    /// The last text style that was opened.
    pub style: Option<PrintStyle>,
    /// The operand whose bracket is open, if any.
    pub opn: Option<u8>,
}

pub open spec fn op_view(op: CodeOpData) -> OpView {
    OpView { text: op.text@, style: op.style, opn: op.opn }
}

pub open spec fn op_views(ops: Seq<CodeOpData>) -> Seq<OpView> {
    ops.map_values(|op: CodeOpData| op_view(op))
}

/// The state before anything is printed.
pub open spec fn empty_model() -> OutputModel {
    OutputModel {
        mnemonic: None,
        operands: Seq::empty(),
        pending: Seq::empty(),
        style: None,
        opn: None,
    }
}

/// `m` with any pending text cut off as a plain piece.
pub open spec fn flushed(m: OutputModel) -> OutputModel {
    if m.pending.len() == 0 {
        m
    } else {
        OutputModel {
            operands: m.operands.push(OpView { text: m.pending, style: None, opn: None }),
            pending: Seq::empty(),
            ..m
        }
    }
}

/// The state after `s` is written.
pub open spec fn after_write(m: OutputModel, s: Seq<char>) -> OutputModel {
    OutputModel { pending: m.pending + s, ..m }
}

/// The state after the bracket of `style` is opened.
pub open spec fn after_begin(m: OutputModel, style: PrintStyle) -> OutputModel {
    let f = flushed(m);
    match style {
        PrintStyle::Mnemonic => f,
        PrintStyle::Operand(n) => OutputModel { opn: Some(n), ..f },
        _ => OutputModel { style: Some(style), ..f },
    }
}

/// The state after the bracket of `style` is closed.
pub open spec fn after_end(m: OutputModel, style: PrintStyle) -> OutputModel {
    match style {
        PrintStyle::Mnemonic => OutputModel { mnemonic: Some(m.pending), pending: Seq::empty(), ..m },
        PrintStyle::Operand(n) => if m.pending.len() == 0 {
            OutputModel { opn: None, ..m }
        } else {
            OutputModel {
                operands: m.operands.push(OpView { text: m.pending, style: m.style, opn: Some(n) }),
                pending: Seq::empty(),
                opn: None,
                ..m
            }
        },
        _ => OutputModel {
            operands: m.operands.push(OpView { text: m.pending, style: m.style, opn: m.opn }),
            pending: Seq::empty(),
            ..m
        },
    }
}

/// The text "???", shown where no mnemonic was printed.
pub open spec fn no_mnemonic() -> Seq<char> {
    seq!['?', '?', '?']
}

/// The mnemonic and pieces that a finished collection hands out.
pub open spec fn finished_mnemonic(m: OutputModel) -> Seq<char> {
    match m.mnemonic {
        Some(t) => t,
        None => no_mnemonic(),
    }
}

pub open spec fn finished_operands(m: OutputModel) -> Seq<OpView> {
    flushed(m).operands
}

/// Collects one printed instruction.
pub struct UIRenderOutput {
    mnemonic: Option<String>,
    operands: Vec<CodeOpData>,
    tmp_str: String,
    tmp_style: Option<PrintStyle>,
    tmp_opn: Option<u8>,
}

impl View for UIRenderOutput {
    type V = OutputModel;

    closed spec fn view(&self) -> OutputModel {
        OutputModel {
            mnemonic: match self.mnemonic {
                Some(s) => Some(s@),
                None => None,
            },
            operands: op_views(self.operands@),
            pending: self.tmp_str@,
            style: self.tmp_style,
            opn: self.tmp_opn,
        }
    }
}

impl UIRenderOutput {
    pub fn new() -> (r: UIRenderOutput)
        ensures
            r@ == empty_model(),
    {
        let r = UIRenderOutput {
            mnemonic: None,
            operands: Vec::new(),
            tmp_str: String::new(),
            tmp_style: None,
            tmp_opn: None,
        };
        assert(op_views(r.operands@) =~= Seq::<OpView>::empty());
        r
    }

    /// Moves the pending text out, leaving it empty.
    fn take_pending(&mut self) -> (r: String)
        ensures
            r@ == old(self)@.pending,
            final(self)@ == (OutputModel { pending: Seq::empty(), ..old(self)@ }),
    {
        let mut taken = String::new();
        core::mem::swap(&mut taken, &mut self.tmp_str);
        taken
    }

    /// Appends a piece.
    fn push_op(&mut self, op: CodeOpData)
        ensures
            final(self)@ == (OutputModel { operands: old(self)@.operands.push(op_view(op)), ..old(self)@ }),
    {
        self.operands.push(op);
        assert(op_views(self.operands@) =~= op_views(old(self).operands@).push(op_view(op)));
    }

    /// Cuts off any pending text as a plain piece.
    fn flush(&mut self)
        ensures
            final(self)@ == flushed(old(self)@),
    {
        if !self.tmp_str.as_str().is_empty() {
            let t = self.take_pending();
            self.push_op(CodeOpData::new_plain(t));
        } else {
            assert(self.tmp_str@ =~= Seq::<char>::empty());
        }
    }

    /// Hands out the mnemonic ("???" if none was printed) and the pieces, with any
    /// text still pending as a last plain piece.
    pub fn finish(self) -> (r: (String, Vec<CodeOpData>))
        ensures
            r.0@ == finished_mnemonic(self@),
            op_views(r.1@) == finished_operands(self@),
    {
        let mut me = self;
        me.flush();
        let m = match me.mnemonic {
            Some(s) => s,
            None => {
                proof {
                    reveal_strlit("???");
                }
                String::from_str("???")
            },
        };
        (m, me.operands)
    }

    /// Whether a mnemonic has been collected.
    pub fn has_mnemonic(&self) -> (r: bool)
        ensures
            r == self@.mnemonic is Some,
    {
        self.mnemonic.is_some()
    }

    /// Appends text to the pending text.
    pub fn write_str(&mut self, s: &str)
        ensures
            final(self)@ == after_write(old(self)@, s@),
    {
        self.tmp_str.append(s);
    }

    /// Opens the bracket of `style`. A mnemonic may be opened only while none has
    /// been collected.
    pub fn begin(&mut self, style: PrintStyle)
        requires
            style is Mnemonic ==> old(self)@.mnemonic is None,
        ensures
            final(self)@ == after_begin(old(self)@, style),
    {
        self.flush();
        match style {
            PrintStyle::Mnemonic => {},
            PrintStyle::Operand(opn) => {
                self.tmp_opn = Some(opn);
            },
            _ => {
                self.tmp_style = Some(style);
            },
        }
    }

    /// Closes the bracket of `style`, cutting off the pending text as the mnemonic or
    /// as a piece.
    pub fn end(&mut self, style: PrintStyle)
        ensures
            final(self)@ == after_end(old(self)@, style),
    {
        match style {
            PrintStyle::Mnemonic => {
                let t = self.take_pending();
                self.mnemonic = Some(t);
            },
            PrintStyle::Operand(opn) => {
                self.tmp_opn = None;
                if !self.tmp_str.as_str().is_empty() {
                    let t = self.take_pending();
                    let st = self.tmp_style;
                    self.push_op(CodeOpData::new(t, st, Some(opn)));
                }
            },
            _ => {
                let t = self.take_pending();
                let st = self.tmp_style;
                let on = self.tmp_opn;
                self.push_op(CodeOpData::new(t, st, on));
            },
        }
    }
}


/// The text of the pieces, concatenated in order.
pub open spec fn ops_text(ops: Seq<OpView>) -> Seq<char>
    decreases ops.len(),
{
    if ops.len() == 0 {
        Seq::empty()
    } else {
        ops_text(ops.drop_last()) + ops.last().text
    }
}

/// How many characters a collection holds: in its mnemonic, its pieces and its
/// pending text.
pub open spec fn held_text_len(m: OutputModel) -> int {
    (match m.mnemonic {
        Some(t) => t.len() as int,
        None => 0,
    }) + ops_text(m.operands).len() + m.pending.len()
}

/// One call that a printer makes on a collection.
pub enum PrintEvent {
    Write(Seq<char>),
    Begin(PrintStyle),
    End(PrintStyle),
}

pub open spec fn step(m: OutputModel, e: PrintEvent) -> OutputModel {
    match e {
        PrintEvent::Write(s) => after_write(m, s),
        PrintEvent::Begin(st) => after_begin(m, st),
        PrintEvent::End(st) => after_end(m, st),
    }
}

/// The state after the calls `evs`, in order, starting from `m`.
pub open spec fn run(m: OutputModel, evs: Seq<PrintEvent>) -> OutputModel
    decreases evs.len(),
{
    if evs.len() == 0 {
        m
    } else {
        run(step(m, evs[0]), evs.drop_first())
    }
}

/// How many characters the calls write.
pub open spec fn written_len(evs: Seq<PrintEvent>) -> int
    decreases evs.len(),
{
    if evs.len() == 0 {
        0
    } else {
        (match evs[0] {
            PrintEvent::Write(s) => s.len() as int,
            _ => 0,
        }) + written_len(evs.drop_first())
    }
}

/// True when, starting from `m`, the calls close a mnemonic bracket while a
/// mnemonic has already been collected (the earlier one is then replaced).
pub open spec fn replaces_mnemonic(m: OutputModel, evs: Seq<PrintEvent>) -> bool
    decreases evs.len(),
{
    if evs.len() == 0 {
        false
    } else {
        (evs[0] == PrintEvent::End(PrintStyle::Mnemonic) && m.mnemonic is Some)
            || replaces_mnemonic(step(m, evs[0]), evs.drop_first())
    }
}

proof fn lemma_ops_text_push(ops: Seq<OpView>, op: OpView)
    ensures
        ops_text(ops.push(op)) == ops_text(ops) + op.text,
{
    assert(ops.push(op).drop_last() =~= ops);
}

proof fn lemma_step_keeps_text(m: OutputModel, e: PrintEvent)
    requires
        !(e == PrintEvent::End(PrintStyle::Mnemonic) && m.mnemonic is Some),
    ensures
        held_text_len(step(m, e)) == held_text_len(m) + match e {
            PrintEvent::Write(s) => s.len() as int,
            _ => 0,
        },
{
    let f = OpView { text: m.pending, style: None, opn: None };
    lemma_ops_text_push(m.operands, f);
    match e {
        PrintEvent::Write(s) => {},
        PrintEvent::Begin(st) => {},
        PrintEvent::End(st) => {
            lemma_ops_text_push(m.operands, OpView { text: m.pending, style: m.style, opn: m.opn });
            match st {
                PrintStyle::Operand(n) => {
                    lemma_ops_text_push(
                        m.operands,
                        OpView { text: m.pending, style: m.style, opn: Some(n) },
                    );
                },
                _ => {},
            }
        },
    }
}

/// The count of held characters grows by exactly the count written: as long as no
/// mnemonic bracket is closed twice, the characters held in the mnemonic, the pieces
/// and the pending text together number those held before plus those written.
pub proof fn lemma_printed_text_count_is_kept(m: OutputModel, evs: Seq<PrintEvent>)
    requires
        !replaces_mnemonic(m, evs),
    ensures
        held_text_len(run(m, evs)) == held_text_len(m) + written_len(evs),
    decreases evs.len(),
{
    if evs.len() > 0 {
        lemma_step_keeps_text(m, evs[0]);
        lemma_printed_text_count_is_kept(step(m, evs[0]), evs.drop_first());
    }
}

/// Finishing hands out every held character: the pieces handed out hold the
/// pieces' and the pending text, in order, and the mnemonic is handed out as it is.
pub proof fn lemma_finish_keeps_text(m: OutputModel)
    ensures
        ops_text(finished_operands(m)) == ops_text(m.operands) + m.pending,
        m.mnemonic is Some ==> finished_mnemonic(m) == m.mnemonic->0,
        m.mnemonic is None ==> finished_mnemonic(m) == no_mnemonic(),
{
    lemma_ops_text_push(m.operands, OpView { text: m.pending, style: None, opn: None });
    if m.pending.len() == 0 {
        assert(ops_text(m.operands) + m.pending =~= ops_text(m.operands));
    }
}


/// The text that the calls write, concatenated in order.
pub open spec fn written_text(evs: Seq<PrintEvent>) -> Seq<char>
    decreases evs.len(),
{
    if evs.len() == 0 {
        Seq::empty()
    } else {
        (match evs[0] {
            PrintEvent::Write(s) => s,
            _ => Seq::empty(),
        }) + written_text(evs.drop_first())
    }
}

/// None of the calls opens or closes a mnemonic bracket.
pub open spec fn no_mnemonic_calls(evs: Seq<PrintEvent>) -> bool {
    forall|i: int|
        0 <= i < evs.len() ==> #[trigger] evs[i] != PrintEvent::Begin(PrintStyle::Mnemonic) && evs[i]
            != PrintEvent::End(PrintStyle::Mnemonic)
}

/// All of the calls write text.
pub open spec fn writes_only(evs: Seq<PrintEvent>) -> bool {
    forall|i: int| 0 <= i < evs.len() ==> #[trigger] evs[i] is Write
}

/// The text a collection has cut off into pieces or still holds pending, in order.
pub open spec fn emitted(m: OutputModel) -> Seq<char> {
    ops_text(m.operands) + m.pending
}

proof fn lemma_run_append(m: OutputModel, a: Seq<PrintEvent>, b: Seq<PrintEvent>)
    ensures
        run(m, a + b) == run(run(m, a), b),
    decreases a.len(),
{
    if a.len() > 0 {
        assert((a + b).drop_first() =~= a.drop_first() + b);
        assert((a + b)[0] == a[0]);
        lemma_run_append(step(m, a[0]), a.drop_first(), b);
    } else {
        assert(a + b =~= b);
    }
}

proof fn lemma_written_text_append(a: Seq<PrintEvent>, b: Seq<PrintEvent>)
    ensures
        written_text(a + b) == written_text(a) + written_text(b),
    decreases a.len(),
{
    if a.len() > 0 {
        assert((a + b).drop_first() =~= a.drop_first() + b);
        assert((a + b)[0] == a[0]);
        lemma_written_text_append(a.drop_first(), b);
        let h = match a[0] {
            PrintEvent::Write(s) => s,
            _ => Seq::<char>::empty(),
        };
        assert(h + (written_text(a.drop_first()) + written_text(b)) =~= (h + written_text(
            a.drop_first(),
        )) + written_text(b));
    } else {
        assert(a + b =~= b);
        assert(Seq::<char>::empty() + written_text(b) =~= written_text(b));
    }
}

proof fn lemma_step_emits_in_order(m: OutputModel, e: PrintEvent)
    requires
        e != PrintEvent::Begin(PrintStyle::Mnemonic),
        e != PrintEvent::End(PrintStyle::Mnemonic),
    ensures
        emitted(step(m, e)) == emitted(m) + match e {
            PrintEvent::Write(s) => s,
            _ => Seq::empty(),
        },
        step(m, e).mnemonic == m.mnemonic,
{
    lemma_ops_text_push(m.operands, OpView { text: m.pending, style: None, opn: None });
    lemma_ops_text_push(m.operands, OpView { text: m.pending, style: m.style, opn: m.opn });
    match e {
        PrintEvent::Write(s) => {
            assert(emitted(step(m, e)) =~= emitted(m) + s);
        },
        PrintEvent::Begin(st) => {
            if m.pending.len() == 0 {
                assert(m.pending =~= Seq::<char>::empty());
            }
            assert(emitted(step(m, e)) =~= emitted(m) + Seq::<char>::empty());
        },
        PrintEvent::End(st) => {
            match st {
                PrintStyle::Operand(n) => {
                    lemma_ops_text_push(m.operands, OpView { text: m.pending, style: m.style, opn: Some(n) });
                    if m.pending.len() == 0 {
                        assert(m.pending =~= Seq::<char>::empty());
                    }
                },
                _ => {},
            }
            assert(emitted(step(m, e)) =~= emitted(m) + Seq::<char>::empty());
        },
    }
}

/// Calls that open or close no mnemonic bracket add exactly the text they write,
/// in order, to the pieces and pending text, and leave the mnemonic alone.
pub proof fn lemma_run_emits_in_order(m: OutputModel, evs: Seq<PrintEvent>)
    requires
        no_mnemonic_calls(evs),
    ensures
        emitted(run(m, evs)) == emitted(m) + written_text(evs),
        run(m, evs).mnemonic == m.mnemonic,
    decreases evs.len(),
{
    if evs.len() == 0 {
        assert(emitted(m) + Seq::<char>::empty() =~= emitted(m));
    } else {
        assert(evs[0] == evs[0]);
        lemma_step_emits_in_order(m, evs[0]);
        let rest = evs.drop_first();
        assert forall|i: int| 0 <= i < rest.len() implies #[trigger] rest[i] != PrintEvent::Begin(
            PrintStyle::Mnemonic,
        ) && rest[i] != PrintEvent::End(PrintStyle::Mnemonic) by {
            assert(rest[i] == evs[i + 1]);
        }
        lemma_run_emits_in_order(step(m, evs[0]), rest);
        let h = match evs[0] {
            PrintEvent::Write(s) => s,
            _ => Seq::<char>::empty(),
        };
        assert(emitted(m) + h + written_text(rest) =~= emitted(m) + (h + written_text(rest)));
    }
}

proof fn lemma_writes_go_to_pending(m: OutputModel, ws: Seq<PrintEvent>)
    requires
        writes_only(ws),
    ensures
        run(m, ws) == (OutputModel { pending: m.pending + written_text(ws), ..m }),
    decreases ws.len(),
{
    if ws.len() == 0 {
        assert(m.pending + Seq::<char>::empty() =~= m.pending);
    } else {
        assert(ws[0] is Write);
        let rest = ws.drop_first();
        assert forall|i: int| 0 <= i < rest.len() implies #[trigger] rest[i] is Write by {
            assert(rest[i] == ws[i + 1]);
        }
        lemma_writes_go_to_pending(step(m, ws[0]), rest);
        let s = ws[0]->Write_0;
        assert(m.pending + s + written_text(rest) =~= m.pending + (s + written_text(rest)));
    }
}

/// Law: every character printed ends up exactly once, in order. When the printer
/// writes text around one mnemonic bracket (`pre`, then the bracket with only
/// writes inside, then `post`, with no other mnemonic bracket), the finished
/// mnemonic is the text written inside the bracket, and the finished pieces,
/// concatenated, are the text written before it followed by the text written
/// after it.
pub proof fn lemma_every_character_kept_in_order(
    pre: Seq<PrintEvent>,
    inside: Seq<PrintEvent>,
    post: Seq<PrintEvent>,
)
    requires
        no_mnemonic_calls(pre),
        writes_only(inside),
        no_mnemonic_calls(post),
    ensures
        ({
            let evs = pre + seq![PrintEvent::Begin(PrintStyle::Mnemonic)] + inside + seq![
                PrintEvent::End(PrintStyle::Mnemonic),
            ] + post;
            let m = run(empty_model(), evs);
            &&& finished_mnemonic(m) == written_text(inside)
            &&& ops_text(finished_operands(m)) == written_text(pre) + written_text(post)
        }),
{
    let open_ = seq![PrintEvent::Begin(PrintStyle::Mnemonic)];
    let close = seq![PrintEvent::End(PrintStyle::Mnemonic)];
    let m0 = empty_model();
    assert(ops_text(m0.operands) == Seq::<char>::empty());
    assert(emitted(m0) =~= Seq::<char>::empty());
    lemma_run_emits_in_order(m0, pre);
    let m1 = run(m0, pre);
    let m2 = run(m1, open_);
    assert(open_.drop_first() =~= Seq::<PrintEvent>::empty());
    assert(open_[0] == PrintEvent::Begin(PrintStyle::Mnemonic));
    assert(run(step(m1, open_[0]), Seq::<PrintEvent>::empty()) == step(m1, open_[0]));
    assert(m2 == step(m1, PrintEvent::Begin(PrintStyle::Mnemonic)));
    lemma_ops_text_push(m1.operands, OpView { text: m1.pending, style: None, opn: None });
    assert(m2.pending =~= Seq::<char>::empty());
    assert(ops_text(m2.operands) =~= emitted(m1));
    lemma_writes_go_to_pending(m2, inside);
    let m3 = run(m2, inside);
    assert(m3.pending =~= written_text(inside));
    let m4 = run(m3, close);
    assert(close.drop_first() =~= Seq::<PrintEvent>::empty());
    assert(close[0] == PrintEvent::End(PrintStyle::Mnemonic));
    assert(run(step(m3, close[0]), Seq::<PrintEvent>::empty()) == step(m3, close[0]));
    assert(m4 == step(m3, PrintEvent::End(PrintStyle::Mnemonic)));
    assert(m4.mnemonic == Some(written_text(inside)));
    assert(emitted(m4) =~= written_text(pre));
    lemma_run_emits_in_order(m4, post);
    let m5 = run(m4, post);
    lemma_run_append(m0, pre, open_);
    lemma_run_append(m0, pre + open_, inside);
    lemma_run_append(m0, pre + open_ + inside, close);
    lemma_run_append(m0, pre + open_ + inside + close, post);
    lemma_finish_keeps_text(m5);
}

/// Law: with no mnemonic bracket at all, the finished mnemonic is "???" and the
/// finished pieces, concatenated, are all the text written, in order.
pub proof fn lemma_text_kept_without_mnemonic(evs: Seq<PrintEvent>)
    requires
        no_mnemonic_calls(evs),
    ensures
        finished_mnemonic(run(empty_model(), evs)) == no_mnemonic(),
        ops_text(finished_operands(run(empty_model(), evs))) == written_text(evs),
{
    let m0 = empty_model();
    assert(ops_text(m0.operands) == Seq::<char>::empty());
    assert(emitted(m0) =~= Seq::<char>::empty());
    lemma_run_emits_in_order(m0, evs);
    lemma_finish_keeps_text(run(m0, evs));
    assert(Seq::<char>::empty() + written_text(evs) =~= written_text(evs));
}


/// Law: closing an operand bracket over pending text `t` appends exactly one piece,
/// `t` in the current text style, belonging to that operand; closing it over no
/// pending text appends nothing. Either way the pending text is then empty, no
/// operand is open, and the text style and mnemonic stay as they were.
pub proof fn lemma_closing_operand_makes_operand_piece(m: OutputModel, n: u8)
    ensures
        ({
            let r = after_end(m, PrintStyle::Operand(n));
            &&& m.pending.len() > 0 ==> r.operands == m.operands.push(
                OpView { text: m.pending, style: m.style, opn: Some(n) },
            )
            &&& m.pending.len() == 0 ==> r.operands == m.operands
            &&& r.pending == Seq::<char>::empty()
            &&& r.opn is None
            &&& r.style == m.style
            &&& r.mnemonic == m.mnemonic
        }),
{
}

/// The state after one call.
proof fn lemma_run_one(m: OutputModel, e: PrintEvent)
    ensures
        run(m, seq![e]) == step(m, e),
{
    let one = seq![e];
    assert(one.drop_first() =~= Seq::<PrintEvent>::empty());
    assert(one[0] == e);
    assert(run(step(m, e), one.drop_first()) == step(m, e));
}

/// Law: text written inside an operand bracket belongs to that operand. Opening
/// the bracket of operand `n`, writing some text `t` (at least one character) and
/// closing the bracket leaves, after the pieces there were (and the text pending
/// before, cut off as a plain piece), exactly one more piece: `t`, in the text
/// style that was current, belonging to operand `n`.
pub proof fn lemma_operand_bracket_text_belongs_to_operand(m: OutputModel, n: u8, ws: Seq<PrintEvent>)
    requires
        writes_only(ws),
        written_text(ws).len() > 0,
    ensures
        ({
            let r = run(
                m,
                seq![PrintEvent::Begin(PrintStyle::Operand(n))] + ws + seq![PrintEvent::End(PrintStyle::Operand(n))],
            );
            let before = if m.pending.len() == 0 {
                m.operands
            } else {
                m.operands.push(OpView { text: m.pending, style: None, opn: None })
            };
            &&& r.operands == before.push(OpView { text: written_text(ws), style: m.style, opn: Some(n) })
            &&& r.pending == Seq::<char>::empty()
            &&& r.opn is None
            &&& r.style == m.style
            &&& r.mnemonic == m.mnemonic
        }),
{
    let open_ = seq![PrintEvent::Begin(PrintStyle::Operand(n))];
    let close = seq![PrintEvent::End(PrintStyle::Operand(n))];
    lemma_run_one(m, open_[0]);
    let m1 = run(m, open_);
    lemma_writes_go_to_pending(m1, ws);
    let m2 = run(m1, ws);
    assert(m1.pending =~= Seq::<char>::empty());
    assert(m2.pending =~= written_text(ws));
    lemma_run_one(m2, close[0]);
    lemma_run_append(m, open_, ws);
    lemma_run_append(m, open_ + ws, close);
}

/// Law: a styled run inside an operand bracket becomes one piece in that style,
/// belonging to the operand. Opening the bracket of operand `n`, then that of text
/// style `s`, writing `t`, and closing both leaves, after the pieces there were
/// (and the text pending before, cut off as a plain piece), exactly one more
/// piece: `t` in style `s`, belonging to operand `n`.
pub proof fn lemma_styled_text_in_operand_bracket(m: OutputModel, n: u8, s: PrintStyle, ws: Seq<PrintEvent>)
    requires
        writes_only(ws),
        !(s is Mnemonic),
        !(s is Operand),
    ensures
        ({
            let r = run(
                m,
                seq![PrintEvent::Begin(PrintStyle::Operand(n)), PrintEvent::Begin(s)] + ws + seq![
                    PrintEvent::End(s),
                    PrintEvent::End(PrintStyle::Operand(n)),
                ],
            );
            let before = if m.pending.len() == 0 {
                m.operands
            } else {
                m.operands.push(OpView { text: m.pending, style: None, opn: None })
            };
            &&& r.operands == before.push(OpView { text: written_text(ws), style: Some(s), opn: Some(n) })
            &&& r.pending == Seq::<char>::empty()
            &&& r.opn is None
            &&& r.style == Some(s)
            &&& r.mnemonic == m.mnemonic
        }),
{
    let open_ = seq![PrintEvent::Begin(PrintStyle::Operand(n)), PrintEvent::Begin(s)];
    let close = seq![PrintEvent::End(s), PrintEvent::End(PrintStyle::Operand(n))];
    let a = seq![PrintEvent::Begin(PrintStyle::Operand(n))];
    let b = seq![PrintEvent::Begin(s)];
    assert(open_ =~= a + b);
    lemma_run_one(m, a[0]);
    let ma = run(m, a);
    lemma_run_one(ma, b[0]);
    lemma_run_append(m, a, b);
    let m1 = run(m, open_);
    assert(m1.pending =~= Seq::<char>::empty());
    assert(m1.opn == Some(n));
    assert(m1.style == Some(s));
    lemma_writes_go_to_pending(m1, ws);
    let m2 = run(m1, ws);
    assert(m2.pending =~= written_text(ws));
    let c = seq![PrintEvent::End(s)];
    let d = seq![PrintEvent::End(PrintStyle::Operand(n))];
    assert(close =~= c + d);
    lemma_run_one(m2, c[0]);
    let m3 = run(m2, c);
    lemma_run_one(m3, d[0]);
    lemma_run_append(m2, c, d);
    lemma_run_append(m, open_, ws);
    lemma_run_append(m, open_ + ws, close);
}


/// Law: closing the bracket of a text style `s` cuts off the pending text as one
/// piece, whatever its length, in the current text style and belonging to the
/// operand that is open, if any; nothing else changes but the pending text, which
/// is then empty.
pub proof fn lemma_closing_text_style_makes_one_piece(m: OutputModel, s: PrintStyle)
    requires
        !(s is Mnemonic),
        !(s is Operand),
    ensures
        ({
            let r = after_end(m, s);
            &&& r.operands == m.operands.push(OpView { text: m.pending, style: m.style, opn: m.opn })
            &&& r.pending == Seq::<char>::empty()
            &&& r.style == m.style
            &&& r.opn == m.opn
            &&& r.mnemonic == m.mnemonic
        }),
{
}

/// Law: opening any bracket first cuts off the pending text, if there is any, as
/// one plain piece that belongs to no operand. Opening an operand bracket then
/// makes that operand the open one, opening a text style makes it the current
/// style, and opening the mnemonic bracket changes nothing more.
pub proof fn lemma_opening_cuts_off_pending_text(m: OutputModel, s: PrintStyle)
    ensures
        ({
            let r = after_begin(m, s);
            &&& m.pending.len() > 0 ==> r.operands == m.operands.push(OpView { text: m.pending, style: None, opn: None })
            &&& m.pending.len() == 0 ==> r.operands == m.operands
            &&& r.pending == Seq::<char>::empty()
            &&& r.mnemonic == m.mnemonic
            &&& s is Mnemonic ==> r.style == m.style && r.opn == m.opn
            &&& s is Operand ==> r.style == m.style && r.opn == Some(s->Operand_0)
            &&& !(s is Mnemonic) && !(s is Operand) ==> r.style == Some(s) && r.opn == m.opn
        }),
{
    if m.pending.len() == 0 {
        assert(m.pending =~= Seq::<char>::empty());
    }
}

} // verus!
