//! Turns what the disassembler knows about a span into the data of one code-view
//! item: basic blocks with their optional function header, data items, and runs
//! of unexplored bytes.

use vstd::prelude::*;
use vstd::string::*;
use vstd::slice::slice_subrange;

use crate::ea::EA;
use crate::text::{decimal, dec_str, hex_bytes, hex_join, join, join_seqs, views};
use crate::ui::{BasicBlockData, CodeLineData, CodeOpData, CodeViewItem, FuncData, FuncDataKind, TextEA, UnknownData, UnknownLineData};

verus! {

/// At most this many bytes of an unexplored run are shown.
pub const UNK_SIZE_CUTOFF: usize = 128;

/// Unexplored bytes are shown this many to a line.
pub const UNK_STRIDE: usize = 16;

/// The text of the bytes of one instruction, as two hexadecimal digits each,
/// separated by spaces. Instructions are one to three bytes long.
pub fn inst_bytes_text(bytes: &[u8]) -> (r: String)
    requires
        1 <= bytes@.len() <= 3,
    ensures
        r@ == hex_join(bytes@),
{
    hex_bytes(bytes)
}

/// The data of one listed instruction.
pub fn code_line_data(
    ea: EA,
    seg_name: &String,
    addr: String,
    inst_bytes: &[u8],
    mnemonic: String,
    operands: Vec<CodeOpData>,
) -> (r: CodeLineData)
    requires
        1 <= inst_bytes@.len() <= 3,
    ensures
        r.ea == ea,
        r.text_ea.seg@ == seg_name@,
        r.text_ea.offs@ == addr@,
        r.bytes@ == hex_join(inst_bytes@),
        r.mnemonic@ == mnemonic@,
        r.operands@ == operands@,
{
    CodeLineData {
        ea,
        text_ea: TextEA::new(seg_name.clone(), addr),
        bytes: inst_bytes_text(inst_bytes),
        mnemonic,
        operands,
    }
}

/// True when the block's own function differs from the function, if any, that owns
/// the span just before it (no such function counts as a different one): the block
/// then opens a new function, or a new piece of one.
pub fn func_differs_from_previous(prev_span_func: Option<usize>, bb_func: usize) -> (r: bool)
    ensures
        r == match prev_span_func {
            Some(f) => f != bb_func,
            None => true,
        },
{
    match prev_span_func {
        Some(f) => f != bb_func,
        None => true,
    }
}

/// The text of an optional string.
pub open spec fn opt_text(o: Option<String>) -> Option<Seq<char>> {
    match o {
        Some(s) => Some(s@),
        None => None,
    }
}

/// The separator between entry-point names.
pub open spec fn comma_space() -> Seq<char> {
    seq![',', ' ']
}

/// The function header shown above a basic block: none unless the block's function
/// differs from the previous span's; otherwise the head of the function (with its
/// attributes text, and the names of its entry points joined by ", " when it has
/// several) or a piece of it.
pub fn func_header(
    differs_from_previous: bool,
    func_name: String,
    is_head: bool,
    attrs: Option<String>,
    entrypoint_names: Option<Vec<String>>,
) -> (r: Option<FuncData>)
    ensures
        !differs_from_previous ==> r is None,
        differs_from_previous ==> r is Some,
        differs_from_previous ==> r->0.name@ == func_name@,
        differs_from_previous && !is_head ==> r->0.kind is Piece,
        differs_from_previous && is_head ==> r->0.kind is Head,
        differs_from_previous && is_head ==> opt_text(r->0.kind->attrs) == opt_text(attrs),
        differs_from_previous && is_head ==> opt_text(r->0.kind->entrypoints) == match entrypoint_names {
            Some(names) => Some(join_seqs(views(names@), comma_space())),
            None => None,
        },
{
    if !differs_from_previous {
        return None;
    }
    let kind = if is_head {
        let entrypoints = match entrypoint_names {
            Some(names) => {
                let sep = ", ";
                proof {
                    reveal_strlit(", ");
                    assert(sep@ =~= comma_space());
                }
                Some(join(&names, sep))
            },
            None => None,
        };
        FuncDataKind::Head { attrs, entrypoints }
    } else {
        FuncDataKind::Piece
    };
    Some(FuncData { name: func_name, kind })
}

/// The code-view item of a basic block: its label is its name when something
/// refers to it, and empty otherwise.
pub fn basic_block_item(
    ea: EA,
    func: Option<FuncData>,
    has_inrefs: bool,
    name: String,
    lines: Vec<CodeLineData>,
) -> (r: CodeViewItem)
    ensures
        r matches CodeViewItem::BasicBlock(bb) && bb.ea == ea && bb.func == func && bb.lines@
            == lines@ && (if has_inrefs {
            bb.label@ == name@
        } else {
            bb.label@ == Seq::<char>::empty()
        }),
{
    let label = if has_inrefs {
        name
    } else {
        String::new()
    };
    CodeViewItem::BasicBlock(BasicBlockData { ea, label, lines, func })
}

/// The code-view item of a data item.
pub fn data_item(ea: EA, seg_name: &String, addr: String) -> (r: CodeViewItem)
    ensures
        r matches CodeViewItem::DataItem(e, t) && e == ea && t.seg@ == seg_name@ && t.offs@
            == addr@,
{
    CodeViewItem::DataItem(ea, TextEA::new(seg_name.clone(), addr))
}

/// "[n unexplored byte(s)]"
pub open spec fn unexplored_text(n: nat) -> Seq<char> {
    seq!['['] + dec_str(n) + seq![
        ' ', 'u', 'n', 'e', 'x', 'p', 'l', 'o', 'r', 'e', 'd', ' ',
        'b', 'y', 't', 'e', '(', 's', ')', ']'
    ]
}

/// "..."
pub open spec fn ellipsis() -> Seq<char> {
    seq!['.', '.', '.']
}

/// How many lines `len` shown bytes take.
pub open spec fn chunk_count(len: nat) -> nat {
    ((len + UNK_STRIDE - 1) / UNK_STRIDE as int) as nat
}

/// The bytes shown on line `i` of the shown bytes `data`.
pub open spec fn chunk(data: Seq<u8>, i: int) -> Seq<u8> {
    let start = i * UNK_STRIDE;
    let end = if start + UNK_STRIDE <= data.len() {
        start + UNK_STRIDE
    } else {
        data.len() as int
    };
    data.subrange(start, end)
}

/// The number of lines that an unexplored run of `span_len` bytes is shown in.
pub open spec fn unknown_line_count(span_len: nat, is_real: bool) -> nat {
    if !is_real {
        1
    } else {
        let shown = if span_len < UNK_SIZE_CUTOFF {
            span_len
        } else {
            UNK_SIZE_CUTOFF as nat
        };
        1 + chunk_count(shown) + if span_len > UNK_SIZE_CUTOFF {
            1nat
        } else {
            0nat
        }
    }
}

/// The code-view item shows an unexplored run as [`unknown_item`] describes.
pub open spec fn unknown_item_result(
    r: CodeViewItem,
    ea: EA,
    seg_name: Seq<char>,
    span_len: usize,
    base_addr: Seq<char>,
    is_real: bool,
    data: Seq<u8>,
    chunk_addrs: Seq<String>,
) -> bool {
    r matches CodeViewItem::Unknown(u) && {
        let ls = u.lines@;
        &&& ls.len() == unknown_line_count(span_len as nat, is_real)
        &&& ls[0].ea == ea
        &&& ls[0].text_ea.seg@ == seg_name
        &&& ls[0].text_ea.offs@ == base_addr
        &&& ls[0].bytes@ == unexplored_text(span_len as nat)
        &&& is_real ==> forall|i: int|
            0 <= i < chunk_addrs.len() ==> {
                &&& (#[trigger] ls[i + 1]).ea.seg == ea.seg
                &&& ls[i + 1].ea.offs == ea.offs + i * UNK_STRIDE
                &&& ls[i + 1].text_ea.seg@ == seg_name
                &&& ls[i + 1].text_ea.offs@ == chunk_addrs[i]@
                &&& ls[i + 1].bytes@ == hex_join(chunk(data, i))
            }
        &&& (is_real && span_len > UNK_SIZE_CUTOFF) ==> {
            let k = chunk_addrs.len() as int;
            &&& ls[k + 1].ea == ls[k].ea
            &&& ls[k + 1].text_ea.seg@ == seg_name
            &&& ls[k + 1].text_ea.offs@ == chunk_addrs[k - 1]@
            &&& ls[k + 1].bytes@ == ellipsis()
        }
    }
}

/// The code-view item of an unexplored run of `span_len` bytes starting at `ea`.
/// The first line gives the run's length. When the segment has bytes in the image
/// (`is_real`), `data` holds the first bytes of the run (at most
/// [`UNK_SIZE_CUTOFF`]) and `chunk_addrs[i]` the address text of the `i`-th line of
/// [`UNK_STRIDE`] of them; they are shown line by line, and a last "..." line,
/// carrying the last line's address, says that the run is longer.
pub fn unknown_item(
    ea: EA,
    seg_name: &String,
    span_len: usize,
    base_addr: String,
    is_real: bool,
    data: &[u8],
    chunk_addrs: &Vec<String>,
) -> (r: CodeViewItem)
    requires
        is_real ==> data@.len() == (if span_len < UNK_SIZE_CUTOFF {
            span_len
        } else {
            UNK_SIZE_CUTOFF
        }),
        is_real ==> chunk_addrs@.len() == chunk_count(data@.len()),
        is_real ==> ea.offs + data@.len() <= usize::MAX,
    ensures
        unknown_item_result(r, ea, seg_name@, span_len, base_addr@, is_real, data@, chunk_addrs@),
{
    let mut head = String::new();
    head.append("[");
    let n = decimal(span_len);
    head.append(n.as_str());
    head.append(" unexplored byte(s)]");
    proof {
        reveal_strlit("[");
        reveal_strlit(" unexplored byte(s)]");
        assert(head@ =~= unexplored_text(span_len as nat));
    }
    let mut lines: Vec<UnknownLineData> = Vec::new();
    lines.push(
        UnknownLineData {
            ea,
            text_ea: TextEA::new(seg_name.clone(), base_addr),
            bytes: head,
        },
    );
    if is_real {
        let len = data.len();
        let count = chunk_addrs.len();
        let mut i: usize = 0;
        while i < count
            invariant
                i <= count,
                count == chunk_addrs@.len() == chunk_count(len as nat),
                len == data@.len(),
                len <= UNK_SIZE_CUTOFF,
                ea.offs + len <= usize::MAX,
                lines@.len() == i + 1,
                lines@[0].ea == ea,
                lines@[0].text_ea.seg@ == seg_name@,
                lines@[0].text_ea.offs@ == base_addr@,
                lines@[0].bytes@ == unexplored_text(span_len as nat),
                forall|j: int|
                    0 <= j < i ==> {
                        &&& (#[trigger] lines@[j + 1]).ea.seg == ea.seg
                        &&& lines@[j + 1].ea.offs == ea.offs + j * UNK_STRIDE
                        &&& lines@[j + 1].text_ea.seg@ == seg_name@
                        &&& lines@[j + 1].text_ea.offs@ == chunk_addrs@[j]@
                        &&& lines@[j + 1].bytes@ == hex_join(chunk(data@, j))
                    },
            decreases count - i,
        {
            let start = i * UNK_STRIDE;
            let end = if start + UNK_STRIDE <= len {
                start + UNK_STRIDE
            } else {
                len
            };
            let piece = slice_subrange(data, start, end);
            let bytes = hex_bytes(piece);
            let line_ea = EA::new(ea.seg, ea.offs + start);
            lines.push(
                UnknownLineData {
                    ea: line_ea,
                    text_ea: TextEA::new(seg_name.clone(), chunk_addrs[i].clone()),
                    bytes,
                },
            );
            i = i + 1;
        }
        if span_len > UNK_SIZE_CUTOFF {
            let last_ea = lines[count].ea;
            let mut dots = String::new();
            dots.append("...");
            proof {
                reveal_strlit("...");
                assert(dots@ =~= ellipsis());
            }
            lines.push(
                UnknownLineData {
                    ea: last_ea,
                    text_ea: TextEA::new(seg_name.clone(), chunk_addrs[count - 1].clone()),
                    bytes: dots,
                },
            );
        }
    }
    CodeViewItem::Unknown(UnknownData { lines })
}


/// What the disassembler knows about one span, as the code view needs it.
pub enum SpanContent {
    /// A run of unexplored bytes (see [`unknown_item`]).
    Unk {
        ea: EA,
        seg_name: String,
        len: usize,
        base_addr: String,
        is_real: bool,
        data: Vec<u8>,
        chunk_addrs: Vec<String>,
    },
    /// A basic block (see [`basic_block_item`]).
    Code { ea: EA, func: Option<FuncData>, has_inrefs: bool, name: String, lines: Vec<CodeLineData> },
    /// A data item (see [`data_item`]).
    Data { ea: EA, seg_name: String, addr: String },
    /// A span whose analysis is still going on; it cannot be shown.
    InProgress,
}

/// A span can be shown: it is not being analysed, and an unexplored run comes
/// with its shown bytes and their line addresses.
pub open spec fn span_ok(c: SpanContent) -> bool {
    match c {
        SpanContent::InProgress => false,
        SpanContent::Unk { ea, len, is_real, data, chunk_addrs, .. } => is_real ==> {
            &&& data@.len() == (if len < UNK_SIZE_CUTOFF { len } else { UNK_SIZE_CUTOFF })
            &&& chunk_addrs@.len() == chunk_count(data@.len())
            &&& ea.offs + data@.len() <= usize::MAX
        },
        _ => true,
    }
}

/// The code-view item of a span: unexplored bytes, a basic block or a data item.
pub fn render_span(content: SpanContent) -> (r: CodeViewItem)
    requires
        span_ok(content),
    ensures
        match content {
            SpanContent::Unk { ea, seg_name, len, base_addr, is_real, data, chunk_addrs } => unknown_item_result(
                r,
                ea,
                seg_name@,
                len,
                base_addr@,
                is_real,
                data@,
                chunk_addrs@,
            ),
            SpanContent::Code { ea, func, has_inrefs, name, lines } => r matches CodeViewItem::BasicBlock(bb)
                && bb.ea == ea && bb.func == func && bb.lines@ == lines@ && bb.label@ == (if has_inrefs {
                name@
            } else {
                Seq::<char>::empty()
            }),
            SpanContent::Data { ea, seg_name, addr } => r matches CodeViewItem::DataItem(e, t) && e == ea
                && t.seg@ == seg_name@ && t.offs@ == addr@,
            SpanContent::InProgress => false,
        },
{
    match content {
        SpanContent::Unk { ea, seg_name, len, base_addr, is_real, data, chunk_addrs } => unknown_item(
            ea,
            &seg_name,
            len,
            base_addr,
            is_real,
            data.as_slice(),
            &chunk_addrs,
        ),
        SpanContent::Code { ea, func, has_inrefs, name, lines } => basic_block_item(
            ea,
            func,
            has_inrefs,
            name,
            lines,
        ),
        SpanContent::Data { ea, seg_name, addr } => data_item(ea, &seg_name, addr),
        SpanContent::InProgress => {
            assert(false);
            CodeViewItem::Unknown(UnknownData { lines: Vec::new() })
        },
    }
}


/// Law: an unexplored run, however long, is shown in at most ten lines: the
/// length line, at most eight lines of bytes, and the "..." line.
pub proof fn lemma_unknown_lines_bounded(span_len: nat, is_real: bool)
    ensures
        1 <= unknown_line_count(span_len, is_real) <= 10,
{
}

} // verus!
