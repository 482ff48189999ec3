//! The byte format of cursor records: a compact JSON object whose string
//! members are escaped exactly as a compact JSON writer escapes them.
//! Reading accepts precisely the texts that writing produces.

use vstd::prelude::*;

verus! {

/// Escape sequence of one byte inside a JSON string. Bytes of multi-byte
/// UTF-8 characters are all at least 0x80 and pass through unchanged.
pub open spec fn esc_byte(b: u8) -> Seq<u8> {
    if b == 34 {
        seq![92u8, 34u8]
    } else if b == 92 {
        seq![92u8, 92u8]
    } else if b == 8 {
        seq![92u8, 98u8]
    } else if b == 12 {
        seq![92u8, 102u8]
    } else if b == 10 {
        seq![92u8, 110u8]
    } else if b == 13 {
        seq![92u8, 114u8]
    } else if b == 9 {
        seq![92u8, 116u8]
    } else if b < 32 {
        seq![92u8, 117u8, 48u8, 48u8, hex_digit(b / 16), hex_digit(b % 16)]
    } else {
        seq![b]
    }
}

/// Lower-case hexadecimal digit of a value below 16.
pub open spec fn hex_digit(v: u8) -> u8 {
    if v < 10 {
        (48 + v) as u8
    } else {
        (87 + v) as u8
    }
}

/// The escaped body of a JSON string holding the bytes `s`.
pub open spec fn escaped(s: Seq<u8>) -> Seq<u8>
    decreases s.len(),
{
    if s.len() == 0 {
        seq![]
    } else {
        escaped(s.drop_last()) + esc_byte(s.last())
    }
}

/// Reads one escape sequence starting at the backslash at `i`: the byte it
/// stands for and the position after it. Only the forms that `esc_byte`
/// writes are read.
pub open spec fn read_escape(b: Seq<u8>, i: int) -> Option<(u8, int)> {
    if !(0 <= i && i + 1 < b.len()) {
        None
    } else {
        let c = b[i + 1];
        if c == 34 {
            Some((34u8, i + 2))
        } else if c == 92 {
            Some((92u8, i + 2))
        } else if c == 98 {
            Some((8u8, i + 2))
        } else if c == 102 {
            Some((12u8, i + 2))
        } else if c == 110 {
            Some((10u8, i + 2))
        } else if c == 114 {
            Some((13u8, i + 2))
        } else if c == 116 {
            Some((9u8, i + 2))
        } else if c == 117 && b.len() - i > 5 && b[i + 2] == 48 && b[i + 3] == 48
            && hex_value(b[i + 4]) is Some && hex_value(b[i + 5]) is Some {
            let v = (hex_value(b[i + 4]).unwrap() * 16 + hex_value(b[i + 5]).unwrap()) as u8;
            if v < 32 && esc_byte(v) == b.subrange(i, i + 6) {
                Some((v, i + 6))
            } else {
                None
            }
        } else {
            None
        }
    }
}

/// Value of a lower-case hexadecimal digit.
pub open spec fn hex_value(c: u8) -> Option<u8> {
    if 48 <= c && c <= 57 {
        Some((c - 48) as u8)
    } else if 97 <= c && c <= 102 {
        Some((c - 87) as u8)
    } else {
        None
    }
}

/// Reads an escaped string body starting at `i` up to its closing quote:
/// the bytes it holds and the position after the quote.
pub open spec fn read_string(b: Seq<u8>, i: int) -> Option<(Seq<u8>, int)>
    decreases b.len() - i,
{
    if !(0 <= i && i < b.len()) {
        None
    } else if b[i] == 34 {
        Some((seq![], i + 1))
    } else if b[i] == 92 {
        match read_escape(b, i) {
            Some((v, j)) => if j > i {
                match read_string(b, j) {
                    Some((rest, e)) => Some((seq![v] + rest, e)),
                    None => None,
                }
            } else {
                None
            },
            None => None,
        }
    } else if b[i] < 32 {
        None
    } else {
        match read_string(b, i + 1) {
            Some((rest, e)) => Some((seq![b[i]] + rest, e)),
            None => None,
        }
    }
}

/// Prepends `pre` to the bytes of a read result.
pub open spec fn prepend(pre: Seq<u8>, r: Option<(Seq<u8>, int)>) -> Option<(Seq<u8>, int)> {
    match r {
        Some((rest, e)) => Some((pre + rest, e)),
        None => None,
    }
}

proof fn lemma_escaped_cons(b: u8, s: Seq<u8>)
    ensures
        escaped(seq![b] + s) == esc_byte(b) + escaped(s),
    decreases s.len(),
{
    if s.len() == 0 {
        assert(seq![b] + s =~= seq![b]);
        assert(seq![b].drop_last() =~= Seq::<u8>::empty());
        assert(escaped(Seq::<u8>::empty()) =~= Seq::<u8>::empty());
        assert(escaped(seq![b]) =~= esc_byte(b));
    } else {
        assert((seq![b] + s).drop_last() =~= seq![b] + s.drop_last());
        lemma_escaped_cons(b, s.drop_last());
        assert(escaped(seq![b] + s) =~= esc_byte(b) + escaped(s));
    }
}

proof fn lemma_esc_byte_read(b: Seq<u8>, i: int, x: u8)
    requires
        0 <= i,
        i + esc_byte(x).len() <= b.len(),
        b.subrange(i, i + esc_byte(x).len()) == esc_byte(x),
    ensures
        b[i] == 92 ==> read_escape(b, i) == Some((x, i + esc_byte(x).len())),
        b[i] != 92 ==> b[i] == x && esc_byte(x).len() == 1 && x != 34 && x >= 32,
{
    let e = esc_byte(x);
    assert(b[i] == b.subrange(i, i + e.len())[0]);
    assert(b[i] == e[0]);
    if e.len() >= 2 {
        assert(b[i + 1] == b.subrange(i, i + e.len())[1]);
    }
    if e.len() == 6 {
        assert(b[i + 2] == b.subrange(i, i + e.len())[2]);
        assert(b[i + 3] == b.subrange(i, i + e.len())[3]);
        assert(b[i + 4] == b.subrange(i, i + e.len())[4]);
        assert(b[i + 5] == b.subrange(i, i + e.len())[5]);
        assert(b.subrange(i, i + 6) == e);
        let d1 = x / 16;
        let d2 = x % 16;
        assert(hex_value(b[i + 4]) == Some(d1));
        assert(hex_value(b[i + 5]) == Some(d2));
        assert((d1 * 16 + d2) as u8 == x);
    }
}

/// A string body written by `escaped` and closed by a quote reads back as
/// the bytes it was written from.
pub proof fn lemma_read_escaped(x: Seq<u8>, b: Seq<u8>, i: int)
    requires
        0 <= i,
        i + escaped(x).len() + 1 <= b.len(),
        b.subrange(i, i + escaped(x).len() + 1) == escaped(x) + seq![34u8],
    ensures
        read_string(b, i) == Some((x, i + escaped(x).len() + 1)),
    decreases x.len(),
{
    if x.len() == 0 {
        assert(b[i] == b.subrange(i, i + 1)[0]);
    } else {
        let x0 = x[0];
        let xs = x.drop_first();
        assert(x =~= seq![x0] + xs);
        lemma_escaped_cons(x0, xs);
        let n0 = esc_byte(x0).len() as int;
        let full = escaped(x) + seq![34u8];
        assert(b.subrange(i, i + n0) =~= full.subrange(0, n0));
        assert(full.subrange(0, n0) =~= esc_byte(x0));
        lemma_esc_byte_read(b, i, x0);
        assert(b.subrange(i + n0, i + n0 + escaped(xs).len() + 1) =~= full.subrange(
            n0,
            full.len() as int,
        ));
        assert(full.subrange(n0, full.len() as int) =~= escaped(xs) + seq![34u8]);
        lemma_read_escaped(xs, b, i + n0);
        assert(b[i] == esc_byte(x0)[0]);
    }
}

/// What a read consumed is the escaped form of what it returned, followed by
/// the closing quote.
pub proof fn lemma_read_string_sound(b: Seq<u8>, i: int)
    requires
        read_string(b, i) is Some,
    ensures
        ({
            let (x, e) = read_string(b, i).unwrap();
            i < e <= b.len() && b.subrange(i, e) == escaped(x) + seq![34u8]
        }),
    decreases b.len() - i,
{
    let (x, e) = read_string(b, i).unwrap();
    if b[i] == 34 {
        assert(b.subrange(i, e) =~= escaped(x) + seq![34u8]);
    } else if b[i] == 92 {
        let (v, j) = read_escape(b, i).unwrap();
        lemma_read_string_sound(b, j);
        let (rest, e2) = read_string(b, j).unwrap();
        assert(b.subrange(i, j) =~= esc_byte(v)) by {
            let c = b[i + 1];
            if c == 117 {
                assert(esc_byte(v) == b.subrange(i, i + 6));
            }
        }
        lemma_escaped_cons(v, rest);
        assert(x =~= seq![v] + rest);
        assert(b.subrange(i, e) =~= b.subrange(i, j) + b.subrange(j, e));
    } else {
        lemma_read_string_sound(b, i + 1);
        let (rest, e2) = read_string(b, i + 1).unwrap();
        lemma_escaped_cons(b[i], rest);
        assert(x =~= seq![b[i]] + rest);
        assert(esc_byte(b[i]) =~= seq![b[i]]);
        assert(b.subrange(i, e) =~= seq![b[i]] + b.subrange(i + 1, e));
    }
}

/// Whether a byte is an ASCII decimal digit.
pub open spec fn is_digit(c: u8) -> bool {
    48 <= c && c <= 57
}

/// Decimal digits of a natural number, most significant first, with no
/// leading zero.
pub open spec fn digits_of(n: nat) -> Seq<u8>
    decreases n,
{
    if n < 10 {
        seq![(48 + n) as u8]
    } else {
        digits_of(n / 10).push((48 + n % 10) as u8)
    }
}

/// Value of a run of decimal digits.
pub open spec fn value_of(d: Seq<u8>) -> nat
    decreases d.len(),
{
    if d.len() == 0 {
        0
    } else {
        value_of(d.drop_last()) * 10 + (d.last() - 48) as nat
    }
}

/// Decimal text of an integer, with a leading minus sign when negative.
pub open spec fn int_text(n: int) -> Seq<u8> {
    if n < 0 {
        seq![45u8] + digits_of((-n) as nat)
    } else {
        digits_of(n as nat)
    }
}

/// `int_text(n)` stands at `i` in `b` and is not followed by another digit.
pub open spec fn int_text_at(b: Seq<u8>, i: int, n: int) -> bool {
    let t = int_text(n);
    0 <= i && i + t.len() <= b.len() && b.subrange(i, i + t.len()) == t && (i + t.len()
        < b.len() ==> !is_digit(b[i + t.len()]))
}

proof fn lemma_digits_of(n: nat)
    ensures
        1 <= digits_of(n).len(),
        (digits_of(n).len() == 1) == (n < 10),
        forall|k: int| 0 <= k < digits_of(n).len() ==> is_digit(#[trigger] digits_of(n)[k]),
        digits_of(n).len() > 1 ==> digits_of(n)[0] != 48,
        value_of(digits_of(n)) == n,
        n < 10000000000000000000 ==> digits_of(n).len() <= 19,
    decreases n,
{
    if n < 10 {
        assert(digits_of(n).drop_last() =~= Seq::<u8>::empty());
        assert(value_of(Seq::<u8>::empty()) == 0);
        assert(digits_of(n).last() == (48 + n) as u8);
    } else {
        lemma_digits_of(n / 10);
        let d = digits_of(n);
        assert(d.drop_last() =~= digits_of(n / 10));
        assert(d[0] == digits_of(n / 10)[0]);
        assert(n == (n / 10) * 10 + n % 10);
        assert(d.last() == (48 + n % 10) as u8);
        assert(value_of(d) == value_of(d.drop_last()) * 10 + (d.last() - 48) as nat);
        assert(forall|k: int| 0 <= k < d.len() - 1 ==> d[k] == digits_of(n / 10)[k]);
    }
    if n < 10000000000000000000 {
        reveal_with_fuel(pow10, 20);
        assert(pow10(19) == 10000000000000000000);
        lemma_digits_bound(n, 19);
    }
}

proof fn lemma_digits_bound(n: nat, k: nat)
    requires
        n < pow10(k),
        k >= 1,
    ensures
        digits_of(n).len() <= k,
    decreases k,
{
    if n >= 10 {
        if k == 1 {
            assert(pow10(1) == 10 * pow10(0));
        } else {
            assert(pow10(k) == 10 * pow10((k - 1) as nat));
            lemma_digits_bound(n / 10, (k - 1) as nat);
        }
    }
}

/// Ten to the power `k`.
pub open spec fn pow10(k: nat) -> nat
    decreases k,
{
    if k == 0 {
        1
    } else {
        10 * pow10((k - 1) as nat)
    }
}

proof fn lemma_pow10_mono(a: nat, b: nat)
    requires
        a <= b,
    ensures
        1 <= pow10(a) <= pow10(b),
    decreases b,
{
    if b > 0 {
        if a < b {
            lemma_pow10_mono(a, (b - 1) as nat);
        } else {
            lemma_pow10_mono((b - 1) as nat, (b - 1) as nat);
        }
    }
}

/// Digits with no leading zero are the decimal text of their value.
proof fn lemma_value_digits(d: Seq<u8>)
    requires
        d.len() >= 1,
        forall|k: int| 0 <= k < d.len() ==> is_digit(#[trigger] d[k]),
        d.len() > 1 ==> d[0] != 48,
    ensures
        digits_of(value_of(d)) == d,
        value_of(d) >= 1 || d.len() == 1,
    decreases d.len(),
{
    let p = d.drop_last();
    if d.len() == 1 {
        assert(p =~= Seq::<u8>::empty());
        assert(value_of(Seq::<u8>::empty()) == 0);
        assert(value_of(d) == (d.last() - 48) as nat);
        assert(digits_of(value_of(d)) =~= d);
    } else {
        lemma_value_digits(p);
        if p.len() == 1 {
            assert(p[0] == d[0]);
        }
        let n = value_of(d);
        let m = value_of(p);
        let r = (d.last() - 48) as nat;
        assert(n == m * 10 + r);
        assert(n / 10 == m && n % 10 == r);
        assert(digits_of(n) =~= digits_of(m).push((48 + r) as u8));
        assert(d =~= p.push(d.last()));
    }
}

/// Magnitude of an integer.
pub open spec fn abs(n: int) -> nat {
    if n < 0 {
        (-n) as nat
    } else {
        n as nat
    }
}

proof fn lemma_int_text_at(b: Seq<u8>, i: int, n: int)
    requires
        int_text_at(b, i, n),
    ensures
        ({
            let start = if n < 0 { i + 1 } else { i };
            let ds = digits_of(abs(n));
            &&& i < b.len()
            &&& (b[i] == 45) == (n < 0)
            &&& start + ds.len() <= b.len()
            &&& b.subrange(start, start + ds.len()) == ds
            &&& forall|k: int| start <= k < start + ds.len() ==> is_digit(#[trigger] b[k])
            &&& (start + ds.len() < b.len() ==> !is_digit(b[start + ds.len()]))
        }),
{
    let t = int_text(n);
    let start = if n < 0 { i + 1 } else { i };
    let ds = digits_of(abs(n));
    lemma_digits_of(abs(n));
    assert(b.subrange(i, i + t.len())[0] == b[i]);
    if n < 0 {
        assert(t =~= seq![45u8] + ds);
        assert(b.subrange(start, start + ds.len()) =~= b.subrange(i, i + t.len()).subrange(
            1,
            t.len() as int,
        ));
    } else {
        assert(t[0] == ds[0]);
        assert(b.subrange(start, start + ds.len()) =~= b.subrange(i, i + t.len()));
    }
    assert forall|k: int| start <= k < start + ds.len() implies is_digit(#[trigger] b[k]) by {
        assert(b.subrange(start, start + ds.len())[k - start] == b[k]);
    }
}

/// At most one integer's text stands at a position.
pub proof fn lemma_int_text_unique(b: Seq<u8>, i: int, n: int, m: int)
    requires
        int_text_at(b, i, n),
        int_text_at(b, i, m),
    ensures
        n == m,
{
    lemma_int_text_at(b, i, n);
    lemma_int_text_at(b, i, m);
    lemma_digits_of(abs(n));
    lemma_digits_of(abs(m));
    let start = if n < 0 { i + 1 } else { i };
    let ln = digits_of(abs(n)).len() as int;
    let lm = digits_of(abs(m)).len() as int;
    if ln < lm {
        assert(is_digit(b[start + ln]));
    } else if lm < ln {
        assert(is_digit(b[start + lm]));
    }
    assert(digits_of(abs(n)) == digits_of(abs(m)));
}

/// Value of a lower-case hexadecimal digit.
fn hex_val(c: u8) -> (r: Option<u8>)
    ensures
        r == hex_value(c),
{
    if 48 <= c && c <= 57 {
        Some(c - 48)
    } else if 97 <= c && c <= 102 {
        Some(c - 87)
    } else {
        None
    }
}

fn read_escape_at(b: &[u8], i: usize) -> (r: Option<(u8, usize)>)
    requires
        i < b@.len(),
        b@[i as int] == 92,
    ensures
        match read_escape(b@, i as int) {
            Some((v, j)) => r == Some((v, j as usize)) && j <= b@.len(),
            None => r is None,
        },
{
    if i >= b.len() || b.len() - i < 2 {
        return None;
    }
    let c = b[i + 1];
    if c == 34 {
        Some((34, i + 2))
    } else if c == 92 {
        Some((92, i + 2))
    } else if c == 98 {
        Some((8, i + 2))
    } else if c == 102 {
        Some((12, i + 2))
    } else if c == 110 {
        Some((10, i + 2))
    } else if c == 114 {
        Some((13, i + 2))
    } else if c == 116 {
        Some((9, i + 2))
    } else if c == 117 && b.len() - i > 5 && b[i + 2] == 48 && b[i + 3] == 48 {
        match (hex_val(b[i + 4]), hex_val(b[i + 5])) {
            (Some(h), Some(l)) => {
                let v = h * 16 + l;
                if v < 32 && v != 8 && v != 9 && v != 10 && v != 12 && v != 13 {
                    proof {
                        assert(v / 16 == h && v % 16 == l);
                        assert(hex_digit(h) == b@[i + 4]);
                        assert(hex_digit(l) == b@[i + 5]);
                        assert(esc_byte(v) =~= b@.subrange(i as int, i + 6));
                    }
                    Some((v, i + 6))
                } else {
                    proof {
                        if v < 32 {
                            assert(esc_byte(v).len() == 2);
                        }
                    }
                    None
                }
            },
            _ => None,
        }
    } else {
        None
    }
}

/// Reads an escaped string body starting at `i`, through its closing quote.
pub fn read_string_at(b: &[u8], i: usize) -> (r: Option<(Vec<u8>, usize)>)
    ensures
        match read_string(b@, i as int) {
            Some((x, e)) => r matches Some((v, j)) && v@ == x && j == e,
            None => r is None,
        },
{
    let mut out: Vec<u8> = Vec::new();
    let mut pos = i;
    while pos < b.len()
        invariant
            i <= pos,
            read_string(b@, i as int) == prepend(out@, read_string(b@, pos as int)),
        decreases b@.len() - pos,
    {
        let c = b[pos];
        if c == 34 {
            assert(out@ + Seq::<u8>::empty() =~= out@);
            return Some((out, pos + 1));
        } else if c == 92 {
            match read_escape_at(b, pos) {
                Some((v, j)) => {
                    let ghost old_out = out@;
                    out.push(v);
                    proof {
                        match read_string(b@, j as int) {
                            Some((rest, e)) => {
                                assert(old_out + (seq![v] + rest) =~= out@ + rest);
                            },
                            None => {},
                        }
                    }
                    pos = j;
                },
                None => {
                    return None;
                },
            }
        } else if c < 32 {
            return None;
        } else {
            let ghost old_out = out@;
            out.push(c);
            proof {
                match read_string(b@, pos + 1) {
                    Some((rest, e)) => {
                        assert(old_out + (seq![c] + rest) =~= out@ + rest);
                    },
                    None => {},
                }
            }
            pos = pos + 1;
        }
    }
    None
}

/// Appends the escaped form of `s`.
pub fn write_escaped(out: &mut Vec<u8>, s: &[u8])
    ensures
        final(out)@ == old(out)@ + escaped(s@),
{
    let mut i: usize = 0;
    while i < s.len()
        invariant
            0 <= i <= s@.len(),
            out@ == old(out)@ + escaped(s@.take(i as int)),
        decreases s@.len() - i,
    {
        let c = s[i];
        let ghost before = out@;
        if c == 34 {
            out.push(92);
            out.push(34);
        } else if c == 92 {
            out.push(92);
            out.push(92);
        } else if c == 8 {
            out.push(92);
            out.push(98);
        } else if c == 12 {
            out.push(92);
            out.push(102);
        } else if c == 10 {
            out.push(92);
            out.push(110);
        } else if c == 13 {
            out.push(92);
            out.push(114);
        } else if c == 9 {
            out.push(92);
            out.push(116);
        } else if c < 32 {
            let h = c / 16;
            let l = c % 16;
            out.push(92);
            out.push(117);
            out.push(48);
            out.push(48);
            out.push(48 + h);
            out.push(if l < 10 { 48 + l } else { 87 + l });
        } else {
            out.push(c);
        }
        proof {
            assert(s@.take(i + 1).drop_last() =~= s@.take(i as int));
            assert(out@ =~= before + esc_byte(c));
        }
        i = i + 1;
    }
    assert(s@.take(s@.len() as int) =~= s@);
}

/// Appends the decimal digits of `n`.
fn write_digits(out: &mut Vec<u8>, n: u64)
    ensures
        final(out)@ == old(out)@ + digits_of(n as nat),
    decreases n,
{
    if n >= 10 {
        write_digits(out, n / 10);
    }
    let ghost mid = out@;
    out.push(48 + (n % 10) as u8);
    proof {
        if n >= 10 {
            assert(out@ =~= old(out)@ + digits_of(n as nat));
        } else {
            assert(out@ =~= old(out)@ + digits_of(n as nat));
        }
    }
}

/// Appends the decimal text of `n`.
pub fn write_int(out: &mut Vec<u8>, n: i64)
    ensures
        final(out)@ == old(out)@ + int_text(n as int),
{
    if n < 0 {
        out.push(45);
        let m: u64 = if n == i64::MIN {
            9223372036854775808u64
        } else {
            (-n) as u64
        };
        write_digits(out, m);
        assert(out@ =~= old(out)@ + int_text(n as int));
    } else {
        write_digits(out, n as u64);
    }
}

/// Reads the decimal text of an `i64` at `i`: a minus sign for negative
/// values, then at least one digit, no leading zero, and no further digit
/// after it. Returns the value and the position after the text.
#[verifier::rlimit(40)]
pub fn read_int(b: &[u8], i: usize) -> (r: Option<(i64, usize)>)
    ensures
        r matches Some((n, j)) ==> int_text_at(b@, i as int, n as int) && j == i + int_text(
            n as int,
        ).len(),
        forall|n: i64|
            #[trigger] int_text_at(b@, i as int, n as int) ==> r == Some(
                (n, (i + int_text(n as int).len()) as usize),
            ),
{
    if i >= b.len() {
        proof {
            assert forall|n: i64| #[trigger] int_text_at(b@, i as int, n as int) implies false by {
                lemma_int_text_at(b@, i as int, n as int);
            }
        }
        return None;
    }
    let neg = b[i] == 45;
    let start = if neg { i + 1 } else { i };
    proof {
        assert forall|n: i64| #[trigger] int_text_at(b@, i as int, n as int) implies (n < 0)
            == neg by {
            lemma_int_text_at(b@, i as int, n as int);
        }
    }
    let mut pos = start;
    let mut v: u64 = 0;
    while pos < b.len() && 48 <= b[pos] && b[pos] <= 57
        invariant
            start <= pos <= b@.len(),
            start == (if neg { i + 1 } else { i as int }),
            pos - start <= 19,
            forall|k: int| start <= k < pos ==> is_digit(#[trigger] b@[k]),
            v == value_of(b@.subrange(start as int, pos as int)),
            v < pow10((pos - start) as nat),
            forall|n: i64| #[trigger]
                int_text_at(b@, i as int, n as int) ==> (n < 0) == neg && pos - start
                    <= digits_of(abs(n as int)).len(),
        decreases b@.len() - pos,
    {
        if pos - start == 19 {
            proof {
                assert forall|n: i64| #[trigger] int_text_at(b@, i as int, n as int) implies false by {
                    lemma_int_text_at(b@, i as int, n as int);
                    lemma_digits_of(abs(n as int));
                }
            }
            return None;
        }
        let ghost old_pos = pos;
        proof {
            lemma_pow10_mono((pos - start) as nat, 18);
            reveal_with_fuel(pow10, 20);
            assert(pow10(18) == 1000000000000000000);
            let d = b@.subrange(start as int, pos + 1);
            assert(d.drop_last() =~= b@.subrange(start as int, pos as int));
        }
        v = v * 10 + (b[pos] - 48) as u64;
        pos = pos + 1;
        proof {
            assert forall|n: i64| #[trigger] int_text_at(b@, i as int, n as int) implies (n < 0)
                == neg && pos - start <= digits_of(abs(n as int)).len() by {
                lemma_int_text_at(b@, i as int, n as int);
            }
        }
    }
    let len = pos - start;
    let ghost d = b@.subrange(start as int, pos as int);
    proof {
        assert forall|n: i64| #[trigger] int_text_at(b@, i as int, n as int) implies pos - start
            == digits_of(abs(n as int)).len() && d == digits_of(abs(n as int)) && v == abs(
            n as int,
        ) by {
            lemma_int_text_at(b@, i as int, n as int);
            lemma_digits_of(abs(n as int));
        }
    }
    if len == 0 {
        proof {
            assert forall|n: i64| #[trigger] int_text_at(b@, i as int, n as int) implies false by {
                lemma_digits_of(abs(n as int));
            }
        }
        return None;
    }
    if len > 1 && b[start] == 48 {
        proof {
            assert forall|n: i64| #[trigger] int_text_at(b@, i as int, n as int) implies false by {
                lemma_digits_of(abs(n as int));
                assert(d[0] == b@[start as int]);
            }
        }
        return None;
    }
    proof {
        assert(forall|k: int| 0 <= k < d.len() ==> d[k] == b@[start + k]);
        lemma_value_digits(d);
    }
    let r: Option<(i64, usize)> = if neg {
        if v == 0 || v > 9223372036854775808u64 {
            None
        } else if v == 9223372036854775808u64 {
            Some((i64::MIN, pos))
        } else {
            Some((-(v as i64), pos))
        }
    } else {
        if v > 9223372036854775807u64 {
            None
        } else {
            Some((v as i64, pos))
        }
    };
    proof {
        match r {
            Some((n, j)) => {
                let t = int_text(n as int);
                assert(digits_of(abs(n as int)) == d);
                if neg {
                    assert(t =~= b@.subrange(i as int, j as int));
                } else {
                    assert(t =~= b@.subrange(i as int, j as int));
                }
                assert(int_text_at(b@, i as int, n as int));
            },
            None => {
                assert forall|n: i64| #[trigger] int_text_at(b@, i as int, n as int) implies false by {
                }
            },
        }
    }
    r
}

} // verus!
