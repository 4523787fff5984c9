use vstd::prelude::*;

verus! {

/// The bytes of an ASCII character sequence, one byte per character.
pub open spec fn ascii_seq(s: Seq<char>) -> Seq<u8> {
    Seq::new(s.len(), |i: int| s[i] as u8)
}

/// Canonical decimal rendering of a natural number: no sign, no leading zero
/// except for zero itself.
pub open spec fn dec(n: nat) -> Seq<u8>
    decreases n,
{
    if n < 10 {
        seq![(48 + n) as u8]
    } else {
        dec(n / 10) + seq![(48 + n % 10) as u8]
    }
}

/// The numeric value of a digit sequence, most significant digit first.
pub open spec fn val(s: Seq<u8>) -> int
    decreases s.len(),
{
    if s.len() == 0 {
        0
    } else {
        val(s.drop_last()) * 10 + (s.last() as int - 48)
    }
}

/// True of a byte that is a decimal digit.
pub open spec fn is_digit(b: u8) -> bool {
    48 <= b <= 57
}

/// The canonical decimal rendering consists of digits, is never empty, and
/// starts with a zero digit only for the value zero.
pub proof fn lemma_dec_props(n: nat)
    ensures
        dec(n).len() >= 1,
        forall|i: int| 0 <= i < dec(n).len() ==> is_digit(#[trigger] dec(n)[i]),
        n > 0 ==> dec(n)[0] != 48,
        n < 10 ==> dec(n).len() == 1,
    decreases n,
{
    if n >= 10 {
        lemma_dec_props(n / 10);
    }
}

/// Reading the canonical decimal rendering back yields the rendered value.
pub proof fn lemma_val_dec(n: nat)
    ensures
        val(dec(n)) == n,
    decreases n,
{
    reveal_with_fuel(val, 2);
    if n < 10 {
    } else {
        lemma_val_dec(n / 10);
        vstd::arithmetic::div_mod::lemma_fundamental_div_mod(n as int, 10);
        assert(dec(n) == dec(n / 10) + seq![(48 + n % 10) as u8]);
        assert(dec(n).drop_last() =~= dec(n / 10));
        assert(dec(n).last() == (48 + n % 10) as u8);
    }
}

/// The value of a digit sequence is never negative.
pub proof fn lemma_val_nonneg(s: Seq<u8>)
    requires
        forall|i: int| 0 <= i < s.len() ==> is_digit(#[trigger] s[i]),
    ensures
        val(s) >= 0,
    decreases s.len(),
{
    if s.len() > 0 {
        assert(forall|i: int|
            0 <= i < s.drop_last().len() ==> is_digit(#[trigger] s.drop_last()[i]));
        lemma_val_nonneg(s.drop_last());
    }
}

/// The value of a prefix of a digit sequence never exceeds the whole value.
pub proof fn lemma_val_prefix(s: Seq<u8>, i: int)
    requires
        forall|k: int| 0 <= k < s.len() ==> is_digit(#[trigger] s[k]),
        0 <= i <= s.len(),
    ensures
        val(s.take(i)) <= val(s),
    decreases s.len() - i,
{
    if i == s.len() {
        assert(s.take(i) =~= s);
    } else {
        lemma_val_prefix(s, i + 1);
        assert(s.take(i + 1).drop_last() =~= s.take(i));
        assert(forall|k: int| 0 <= k < s.take(i).len() ==> is_digit(#[trigger] s.take(i)[k]));
        lemma_val_nonneg(s.take(i));
        assert(val(s.take(i + 1)) == val(s.take(i)) * 10 + (s[i] as int - 48));
    }
}

/// A digit sequence that does not start with a zero digit has a positive
/// value.
pub proof fn lemma_val_positive(s: Seq<u8>)
    requires
        s.len() >= 1,
        forall|i: int| 0 <= i < s.len() ==> is_digit(#[trigger] s[i]),
        s[0] != 48,
    ensures
        val(s) > 0,
    decreases s.len(),
{
    reveal_with_fuel(val, 2);
    if s.len() == 1 {
    } else {
        let t = s.drop_last();
        assert(t[0] == s[0]);
        assert(forall|i: int| 0 <= i < t.len() ==> is_digit(#[trigger] t[i]));
        lemma_val_positive(t);
        assert(val(s) == val(t) * 10 + (s.last() as int - 48));
        assert(val(t) * 10 >= 10) by (nonlinear_arith)
            requires
                val(t) >= 1,
        ;
    }
}

/// A non-empty digit sequence without a superfluous leading zero is the
/// canonical rendering of its own value: decimal renderings are unique.
pub proof fn lemma_dec_canonical(s: Seq<u8>)
    requires
        s.len() >= 1,
        forall|i: int| 0 <= i < s.len() ==> is_digit(#[trigger] s[i]),
        s.len() > 1 ==> s[0] != 48,
    ensures
        val(s) >= 0,
        s == dec(val(s) as nat),
    decreases s.len(),
{
    reveal_with_fuel(val, 2);
    lemma_val_nonneg(s);
    if s.len() == 1 {
        assert(val(s) == s[0] as int - 48);
        assert(s =~= dec(val(s) as nat));
    } else {
        let t = s.drop_last();
        assert(forall|i: int| 0 <= i < t.len() ==> is_digit(#[trigger] t[i]));
        lemma_val_positive(t);
        lemma_dec_canonical(t);
        let v = val(s);
        assert(v == val(t) * 10 + (s.last() as int - 48));
        assert(v / 10 == val(t) && v % 10 == s.last() as int - 48) by (nonlinear_arith)
            requires
                v == val(t) * 10 + (s.last() as int - 48),
                val(t) >= 0,
                0 <= s.last() as int - 48 < 10,
        ;
        assert(v >= 10);
        assert(dec(v as nat) == dec((v as nat) / 10) + seq![(48 + (v as nat) % 10) as u8]);
        assert((v as nat) / 10 == val(t) && (v as nat) % 10 == s.last() as int - 48);
        assert(s =~= dec(v as nat));
    }
}

/// A character whose code point is below 128 lies in the ASCII range.
pub proof fn lemma_ascii_char_bounds(c: char)
    requires
        (c as u32) < 128,
    ensures
        '\0' <= c <= '\u{7f}',
{
}

/// Appends the canonical decimal rendering of `n` to `out`.
pub fn push_dec(out: &mut Vec<u8>, n: u128)
    ensures
        final(out)@ == old(out)@ + dec(n as nat),
    decreases n,
{
    if n >= 10 {
        push_dec(out, n / 10);
        let d: u8 = (n % 10) as u8;
        out.push(48 + d);
        assert(out@ =~= old(out)@ + dec(n as nat));
    } else {
        let d: u8 = n as u8;
        out.push(48 + d);
        assert(out@ =~= old(out)@ + dec(n as nat));
    }
}

/// Appends the bytes of an ASCII string to `out`.
pub fn push_ascii_str(out: &mut Vec<u8>, s: &str)
    requires
        s.is_ascii(),
    ensures
        final(out)@ == old(out)@ + ascii_seq(s@),
{
    broadcast use vstd::string::is_ascii_spec_bytes;

    let mut bytes = s.as_bytes_vec();
    proof {
        assert(bytes@ =~= ascii_seq(s@));
    }
    out.append(&mut bytes);
}

/// Lower-case hexadecimal digit of a value below sixteen.
pub open spec fn hex_digit(v: u8) -> u8 {
    if v < 10 {
        (48 + v) as u8
    } else {
        (87 + v) as u8
    }
}

/// Lower-case hexadecimal rendering of a byte sequence, two digits per byte.
pub open spec fn hex_bytes(b: Seq<u8>) -> Seq<u8>
    decreases b.len(),
{
    if b.len() == 0 {
        Seq::<u8>::empty()
    } else {
        hex_bytes(b.drop_last()) + seq![
            hex_digit((b.last() / 16) as u8),
            hex_digit((b.last() % 16) as u8),
        ]
    }
}

/// A byte sequence rendered as a quoted, 0x-prefixed hexadecimal string.
pub open spec fn quoted_hex(b: Seq<u8>) -> Seq<u8> {
    seq![34u8, 48u8, 120u8] + hex_bytes(b) + seq![34u8]
}

/// The hexadecimal rendering spends exactly two digits on each byte.
pub proof fn lemma_hex_bytes_len(b: Seq<u8>)
    ensures
        hex_bytes(b).len() == 2 * b.len(),
    decreases b.len(),
{
    if b.len() > 0 {
        lemma_hex_bytes_len(b.drop_last());
    }
}

/// Hexadecimal renderings are unique: equal renderings of equally long byte
/// sequences come from equal bytes.
pub proof fn lemma_hex_bytes_injective(a: Seq<u8>, b: Seq<u8>)
    requires
        a.len() == b.len(),
        hex_bytes(a) == hex_bytes(b),
    ensures
        a == b,
    decreases a.len(),
{
    if a.len() == 0 {
        assert(a =~= b);
    } else {
        let ha = hex_bytes(a);
        let hb = hex_bytes(b);
        lemma_hex_bytes_len(a);
        lemma_hex_bytes_len(a.drop_last());
        lemma_hex_bytes_len(b.drop_last());
        assert(ha[2 * a.len() - 2] == hex_digit((a.last() / 16) as u8) && ha[2 * a.len() - 1]
            == hex_digit((a.last() % 16) as u8));
        assert(hb[2 * b.len() - 2] == hex_digit((b.last() / 16) as u8) && hb[2 * b.len() - 1]
            == hex_digit((b.last() % 16) as u8));
        assert(a.last() / 16 == b.last() / 16 && a.last() % 16 == b.last() % 16);
        assert(a.last() == b.last());
        assert(hex_bytes(a.drop_last()) =~= ha.take(2 * a.len() - 2));
        assert(hex_bytes(b.drop_last()) =~= hb.take(2 * b.len() - 2));
        lemma_hex_bytes_injective(a.drop_last(), b.drop_last());
        assert forall|i: int| 0 <= i < a.len() implies a[i] == b[i] by {
            if i < a.len() - 1 {
                assert(a.drop_last()[i] == b.drop_last()[i]);
            } else {
                assert(a.last() == b.last());
            }
        }
        assert(a =~= b);
    }
}

/// Every byte of a hexadecimal rendering is a digit or a lower-case letter
/// between a and f.
pub proof fn lemma_hex_bytes_range(b: Seq<u8>)
    ensures
        forall|i: int|
            0 <= i < hex_bytes(b).len() ==> is_digit(#[trigger] hex_bytes(b)[i]) || 97
                <= hex_bytes(b)[i] <= 102,
    decreases b.len(),
{
    if b.len() > 0 {
        lemma_hex_bytes_range(b.drop_last());
        lemma_hex_bytes_len(b.drop_last());
        assert forall|i: int|
            0 <= i < hex_bytes(b).len() implies is_digit(#[trigger] hex_bytes(b)[i]) || 97
            <= hex_bytes(b)[i] <= 102 by {
            if i < hex_bytes(b.drop_last()).len() {
                assert(hex_bytes(b)[i] == hex_bytes(b.drop_last())[i]);
            }
        }
    }
}

/// A quoted hexadecimal rendering holds only quotes, the 0x prefix and
/// hexadecimal digits: in particular no brackets, braces or commas.
pub proof fn lemma_quoted_hex_range(b: Seq<u8>)
    ensures
        forall|i: int|
            0 <= i < quoted_hex(b).len() ==> (#[trigger] quoted_hex(b)[i] == 34 || quoted_hex(
                b,
            )[i] == 120 || is_digit(quoted_hex(b)[i]) || 97 <= quoted_hex(b)[i] <= 102),
{
    lemma_hex_bytes_range(b);
}

/// Appends the hexadecimal rendering of `bytes` to `out`.
pub fn push_hex(out: &mut Vec<u8>, bytes: &[u8])
    ensures
        final(out)@ == old(out)@ + hex_bytes(bytes@),
{
    let n = bytes.len();
    let mut i: usize = 0;
    while i < n
        invariant
            n == bytes@.len(),
            i <= n,
            out@ == old(out)@ + hex_bytes(bytes@.take(i as int)),
        decreases n - i,
    {
        let b = bytes[i];
        let hi: u8 = b / 16;
        let lo: u8 = b % 16;
        let ch: u8 = if hi < 10 {
            48 + hi
        } else {
            87 + hi
        };
        let cl: u8 = if lo < 10 {
            48 + lo
        } else {
            87 + lo
        };
        out.push(ch);
        out.push(cl);
        proof {
            assert(bytes@.take(i + 1).drop_last() =~= bytes@.take(i as int));
            assert(bytes@.take(i + 1).last() == bytes@[i as int]);
            assert(out@ =~= old(out)@ + hex_bytes(bytes@.take(i + 1)));
        }
        i = i + 1;
    }
    proof {
        assert(bytes@.take(n as int) =~= bytes@);
    }
}

/// Appends the quoted, 0x-prefixed hexadecimal rendering of `bytes` to `out`.
pub fn push_quoted_hex(out: &mut Vec<u8>, bytes: &[u8])
    ensures
        final(out)@ == old(out)@ + quoted_hex(bytes@),
{
    out.push(34);
    out.push(48);
    out.push(120);
    push_hex(out, bytes);
    out.push(34);
    proof {
        assert(out@ =~= old(out)@ + quoted_hex(bytes@));
    }
}

/// Builds a string from ASCII bytes.
///
/// Relies on alloc::string::String::from_utf8: ASCII bytes are valid UTF-8,
/// and each decodes to the character with the same code point.
#[verifier::external_body]
pub(crate) fn string_from_ascii(bytes: Vec<u8>) -> (r: String)
    requires
        forall|i: int| 0 <= i < bytes@.len() ==> bytes@[i] < 128,
    ensures
        r@.len() == bytes@.len(),
        forall|i: int|
            0 <= i < bytes@.len() ==> (#[trigger] r@[i]) as u8 == bytes@[i] && (r@[i] as u32)
                < 128,
{
    match String::from_utf8(bytes) {
        Ok(s) => s,
        Err(_) => String::new(),
    }
}

} // verus!
