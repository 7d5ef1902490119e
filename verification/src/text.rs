//! Small text builders: hexadecimal and decimal numbers, padding and joining.

use vstd::prelude::*;
use vstd::string::*;

verus! {

/// The upper-case hexadecimal digit for `d` (`0 <= d < 16`).
pub open spec fn hex_char(d: int) -> char {
    if d < 10 {
        (('0' as int) + d) as char
    } else {
        (('A' as int) + d - 10) as char
    }
}

/// The two upper-case hexadecimal digits of a byte, most significant first.
pub open spec fn hex2(b: u8) -> Seq<char> {
    seq![hex_char(b as int / 16), hex_char(b as int % 16)]
}

/// The bytes, each as two hexadecimal digits, separated by single spaces.
pub open spec fn hex_join(bytes: Seq<u8>) -> Seq<char>
    decreases bytes.len(),
{
    if bytes.len() == 0 {
        Seq::empty()
    } else if bytes.len() == 1 {
        hex2(bytes[0])
    } else {
        hex_join(bytes.drop_last()) + seq![' '] + hex2(bytes.last())
    }
}

/// The digit character for `d` (`0 <= d < 10`).
pub open spec fn dec_char(d: int) -> char {
    (('0' as int) + d) as char
}

/// The decimal representation of `n`, without leading zeros.
pub open spec fn dec_str(n: nat) -> Seq<char>
    decreases n,
{
    if n < 10 {
        seq![dec_char(n as int)]
    } else {
        dec_str(n / 10) + seq![dec_char((n % 10) as int)]
    }
}

/// `n` spaces.
pub open spec fn spaces(n: nat) -> Seq<char> {
    Seq::new(n, |i: int| ' ')
}

/// `s` padded on the right with spaces to at least `width` characters.
pub open spec fn pad_right(s: Seq<char>, width: nat) -> Seq<char> {
    if s.len() >= width {
        s
    } else {
        s + spaces((width - s.len()) as nat)
    }
}

/// The strings joined with `sep` between each two of them.
pub open spec fn join_seqs(parts: Seq<Seq<char>>, sep: Seq<char>) -> Seq<char>
    decreases parts.len(),
{
    if parts.len() == 0 {
        Seq::empty()
    } else if parts.len() == 1 {
        parts[0]
    } else {
        join_seqs(parts.drop_last(), sep) + sep + parts.last()
    }
}

fn digit_str(d: u8) -> (r: &'static str)
    requires
        d < 16,
    ensures
        r@ == seq![hex_char(d as int)],
{
    let table = "0123456789ABCDEF";
    proof {
        reveal_strlit("0123456789ABCDEF");
    }
    let r = table.substring_char(d as usize, d as usize + 1);
    assert(r@ =~= seq![hex_char(d as int)]) by {
        assert(r@.len() == 1);
        assert(r@[0] == table@[d as int]);
        assert(table@[d as int] == hex_char(d as int)) by {
            if d == 0 {} else if d == 1 {} else if d == 2 {} else if d == 3 {}
            else if d == 4 {} else if d == 5 {} else if d == 6 {} else if d == 7 {}
            else if d == 8 {} else if d == 9 {} else if d == 10 {} else if d == 11 {}
            else if d == 12 {} else if d == 13 {} else if d == 14 {} else {}
        }
    }
    r
}

/// Appends the two hexadecimal digits of `b` to `out`.
pub fn push_hex_byte(out: &mut String, b: u8)
    ensures
        final(out)@ == old(out)@ + hex2(b),
{
    out.append(digit_str(b / 16));
    out.append(digit_str(b % 16));
}

/// The bytes in hexadecimal, two digits each, separated by single spaces
/// (what `{:02X}` gives for each byte, joined with `" "`).
pub fn hex_bytes(bytes: &[u8]) -> (r: String)
    ensures
        r@ == hex_join(bytes@),
{
    let mut out = String::new();
    let mut i: usize = 0;
    while i < bytes.len()
        invariant
            i <= bytes.len(),
            out@ == hex_join(bytes@.take(i as int)),
        decreases bytes.len() - i,
    {
        let ghost before = out@;
        if i > 0 {
            out.append(" ");
            proof {
                reveal_strlit(" ");
            }
        }
        push_hex_byte(&mut out, bytes[i]);
        proof {
            let t = bytes@.take(i as int + 1);
            assert(t.drop_last() =~= bytes@.take(i as int));
            assert(t.last() == bytes@[i as int]);
            if i == 0 {
                assert(before =~= Seq::<char>::empty());
            }
            assert(out@ =~= hex_join(t));
        }
        i = i + 1;
    }
    assert(bytes@.take(bytes.len() as int) =~= bytes@);
    out
}


/// The decimal representation of `n` (what `{}` gives for an unsigned integer).
pub fn decimal(n: usize) -> (r: String)
    ensures
        r@ == dec_str(n as nat),
    decreases n,
{
    if n < 10 {
        let mut s = String::new();
        s.append(digit_str(n as u8));
        assert(s@ =~= dec_str(n as nat));
        s
    } else {
        let mut s = decimal(n / 10);
        s.append(digit_str((n % 10) as u8));
        assert(s@ =~= dec_str(n as nat));
        s
    }
}

/// `s` padded on the right with spaces to at least `width` characters
/// (what `{:width}` gives for a string).
pub fn pad_right_to(s: &str, width: usize) -> (r: String)
    ensures
        r@ == pad_right(s@, width as nat),
{
    let mut out = String::from_str(s);
    let len = s.unicode_len();
    if len < width {
        let mut k: usize = len;
        while k < width
            invariant
                len <= k <= width,
                len == s@.len(),
                out@ == s@ + spaces((k - len) as nat),
            decreases width - k,
        {
            out.append(" ");
            proof {
                reveal_strlit(" ");
            }
            assert(out@ =~= s@ + spaces((k + 1 - len) as nat));
            k = k + 1;
        }
    } else {
        assert(out@ =~= pad_right(s@, width as nat));
    }
    out
}

/// The views of the given strings.
pub open spec fn views(parts: Seq<String>) -> Seq<Seq<char>> {
    parts.map_values(|p: String| p@)
}

/// The strings joined with `sep` between each two of them.
pub fn join(parts: &Vec<String>, sep: &str) -> (r: String)
    ensures
        r@ == join_seqs(views(parts@), sep@),
{
    let mut out = String::new();
    let mut i: usize = 0;
    while i < parts.len()
        invariant
            i <= parts.len(),
            out@ == join_seqs(views(parts@.take(i as int)), sep@),
        decreases parts.len() - i,
    {
        let ghost before = out@;
        if i > 0 {
            out.append(sep);
        }
        out.append(parts[i].as_str());
        proof {
            let t = parts@.take(i as int + 1);
            assert(views(t).drop_last() =~= views(parts@.take(i as int)));
            assert(views(t).last() == parts@[i as int]@);
            if i == 0 {
                assert(before =~= Seq::<char>::empty());
                assert(views(t).len() == 1);
            }
            assert(out@ =~= join_seqs(views(t), sep@));
        }
        i = i + 1;
    }
    assert(parts@.take(parts.len() as int) =~= parts@);
    out
}


/// The value of a hexadecimal digit character.
pub open spec fn hex_value(c: char) -> int {
    if '0' <= c && c <= '9' {
        c as int - '0' as int
    } else {
        c as int - 'A' as int + 10
    }
}

/// The value of a string of decimal digits.
pub open spec fn dec_value(s: Seq<char>) -> int
    decreases s.len(),
{
    if s.len() == 0 {
        0
    } else {
        dec_value(s.drop_last()) * 10 + (s.last() as int - '0' as int)
    }
}

/// Law: the two hexadecimal digits of a byte are upper-case digits that give
/// back the byte.
pub proof fn lemma_hex2_round_trip(b: u8)
    ensures
        hex2(b).len() == 2,
        hex_value(hex2(b)[0]) * 16 + hex_value(hex2(b)[1]) == b,
        forall|k: int| 0 <= k < 2 ==> ('0' <= #[trigger] hex2(b)[k] <= '9' || 'A' <= hex2(b)[k] <= 'F'),
{
}

/// Law: the hexadecimal text of `n` bytes is `3n - 1` characters long; byte `i`
/// stands at characters `3i` and `3i + 1`, and a space follows each byte but the last.
pub proof fn lemma_hex_join_layout(bytes: Seq<u8>)
    requires
        bytes.len() > 0,
    ensures
        hex_join(bytes).len() == 3 * bytes.len() - 1,
        forall|i: int| 0 <= i < bytes.len() ==> #[trigger] hex_join(bytes).subrange(3 * i, 3 * i + 2) == hex2(bytes[i]),
        forall|i: int| 0 <= i < bytes.len() - 1 ==> #[trigger] hex_join(bytes)[3 * i + 2] == ' ',
    decreases bytes.len(),
{
    if bytes.len() == 1 {
        assert(hex_join(bytes).subrange(0, 2) =~= hex2(bytes[0]));
    } else {
        let init = bytes.drop_last();
        lemma_hex_join_layout(init);
        let h = hex_join(bytes);
        let hi = hex_join(init);
        assert(h == hi + seq![' '] + hex2(bytes.last()));
        assert forall|i: int| 0 <= i < bytes.len() implies #[trigger] h.subrange(3 * i, 3 * i + 2) == hex2(bytes[i]) by {
            if i < bytes.len() - 1 {
                assert(hi.subrange(3 * i, 3 * i + 2) == hex2(init[i]));
                assert(h.subrange(3 * i, 3 * i + 2) =~= hi.subrange(3 * i, 3 * i + 2));
            } else {
                assert(h.subrange(3 * i, 3 * i + 2) =~= hex2(bytes.last()));
            }
        }
        assert forall|i: int| 0 <= i < bytes.len() - 1 implies #[trigger] h[3 * i + 2] == ' ' by {
            if i < bytes.len() - 2 {
                assert(hi[3 * i + 2] == ' ');
            }
        }
    }
}

/// Law: the decimal text of `n` is made of digits, has no leading zero (unless it
/// is "0"), and reads back as `n`.
pub proof fn lemma_dec_str_round_trip(n: nat)
    ensures
        dec_str(n).len() > 0,
        dec_value(dec_str(n)) == n,
        forall|k: int| 0 <= k < dec_str(n).len() ==> '0' <= #[trigger] dec_str(n)[k] <= '9',
        n > 0 ==> dec_str(n)[0] != '0',
    decreases n,
{
    if n >= 10 {
        lemma_dec_str_round_trip(n / 10);
        let s = dec_str(n);
        let h = dec_str(n / 10);
        assert(s == h + seq![dec_char((n % 10) as int)]);
        assert(s.drop_last() =~= h);
        assert(s[0] == h[0]);
        assert(s.last() == dec_char((n % 10) as int));
        assert(dec_value(s) == dec_value(h) * 10 + (n % 10));
        assert((n / 10) * 10 + n % 10 == n);
    } else {
        let s = dec_str(n);
        assert(s.drop_last() =~= Seq::<char>::empty());
        assert(dec_value(s) == dec_value(s.drop_last()) * 10 + (s.last() as int - '0' as int));
    }
}

} // verus!
