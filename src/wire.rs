//! Text primitives of the wire format: decimal numbers, byte search and
//! UTF-8 text.
use vstd::prelude::*;
use vstd::utf8::*;

verus! {

pub open spec fn is_digit(b: u8) -> bool {
    48 <= b <= 57
}

pub open spec fn all_digits(s: Seq<u8>) -> bool {
    forall|j: int| 0 <= j < s.len() ==> is_digit(#[trigger] s[j])
}

/// The value of a run of ASCII decimal digits.
pub open spec fn digits_value(s: Seq<u8>) -> nat
    decreases s.len(),
{
    if s.len() == 0 {
        0
    } else {
        digits_value(s.drop_last()) * 10 + (s.last() - 48) as nat
    }
}

/// A run of one or more digits whose value is at most `max`.
pub open spec fn digits_number(s: Seq<u8>, max: nat) -> Option<nat> {
    if s.len() > 0 && all_digits(s) && digits_value(s) <= max {
        Some(digits_value(s))
    } else {
        None
    }
}

/// An unsigned number as std's integer parsing reads it: an optional `+`,
/// then one or more digits, with a value at most `max`.
pub open spec fn unsigned_number(s: Seq<u8>, max: nat) -> Option<nat> {
    if s.len() > 0 && s[0] == 43u8 {
        digits_number(s.skip(1), max)
    } else {
        digits_number(s, max)
    }
}

/// A signed 64-bit number as std's integer parsing reads it: an optional
/// `+` or `-`, then one or more digits.
pub open spec fn signed_number(s: Seq<u8>) -> Option<int> {
    if s.len() > 0 && s[0] == 45u8 {
        match digits_number(s.skip(1), 0x8000_0000_0000_0000) {
            Some(v) => Some(-v),
            None => None,
        }
    } else {
        match unsigned_number(s, 0x7fff_ffff_ffff_ffff) {
            Some(v) => Some(v as int),
            None => None,
        }
    }
}

/// The decimal text of a natural number, without leading zeros.
pub open spec fn dec(n: nat) -> Seq<u8>
    decreases n,
{
    if n < 10 {
        seq![(n + 48) as u8]
    } else {
        dec(n / 10).push((n % 10 + 48) as u8)
    }
}

/// The last `w` decimal digits of `n`, padded with zeros.
pub open spec fn dec_width(n: nat, w: nat) -> Seq<u8>
    decreases w,
{
    if w == 0 {
        Seq::empty()
    } else {
        dec_width(n / 10, (w - 1) as nat).push((n % 10 + 48) as u8)
    }
}

/// The decimal text of an integer, with a leading `-` when negative.
pub open spec fn dec_signed(n: int) -> Seq<u8> {
    if n < 0 {
        seq![45u8] + dec((-n) as nat)
    } else {
        dec(n as nat)
    }
}

/// The bytes of a text, as UTF-8.
pub open spec fn utf8(s: Seq<char>) -> Seq<u8> {
    encode_utf8(s)
}

/// The position of the first `c` in `s`.
pub open spec fn index_of(s: Seq<u8>, c: u8) -> Option<nat>
    decreases s.len(),
{
    if s.len() == 0 {
        None
    } else if s[0] == c {
        Some(0)
    } else {
        match index_of(s.skip(1), c) {
            Some(k) => Some(k + 1),
            None => None,
        }
    }
}

pub open spec fn is_first(s: Seq<u8>, c: u8, k: int) -> bool {
    &&& 0 <= k < s.len()
    &&& s[k] == c
    &&& forall|j: int| 0 <= j < k ==> s[j] != c
}

pub proof fn lemma_index_of(s: Seq<u8>, c: u8)
    ensures
        match index_of(s, c) {
            Some(k) => is_first(s, c, k as int),
            None => forall|j: int| 0 <= j < s.len() ==> s[j] != c,
        },
    decreases s.len(),
{
    if s.len() > 0 && s[0] != c {
        lemma_index_of(s.skip(1), c);
        match index_of(s.skip(1), c) {
            Some(k) => {
                assert forall|j: int| 0 <= j < k + 1 implies s[j] != c by {
                    if j > 0 {
                        assert(s[j] == s.skip(1)[j - 1]);
                    }
                }
            },
            None => {
                assert forall|j: int| 0 <= j < s.len() implies s[j] != c by {
                    if j > 0 {
                        assert(s[j] == s.skip(1)[j - 1]);
                    }
                }
            },
        }
    }
}

pub proof fn lemma_index_of_first(s: Seq<u8>, c: u8, k: int)
    requires
        is_first(s, c, k),
    ensures
        index_of(s, c) == Some(k as nat),
{
    lemma_index_of(s, c);
}

pub proof fn lemma_index_of_none(s: Seq<u8>, c: u8)
    requires
        forall|j: int| 0 <= j < s.len() ==> s[j] != c,
    ensures
        index_of(s, c) is None,
{
    lemma_index_of(s, c);
}

proof fn lemma_digits_prefix(s: Seq<u8>, k: int)
    requires
        all_digits(s),
        0 <= k <= s.len(),
    ensures
        digits_value(s.take(k)) <= digits_value(s),
    decreases s.len(),
{
    if k < s.len() {
        assert(s.drop_last().take(k) =~= s.take(k));
        lemma_digits_prefix(s.drop_last(), k);
    } else {
        assert(s.take(k) =~= s);
    }
}

/// The position of the first `c` in `s`, if any.
pub fn find_byte(s: &[u8], c: u8) -> (r: Option<usize>)
    ensures
        match index_of(s@, c) {
            Some(k) => r == Some(k as usize),
            None => r is None,
        },
{
    let mut k: usize = 0;
    while k < s.len()
        invariant
            k <= s@.len(),
            forall|j: int| 0 <= j < k ==> s@[j] != c,
        decreases s@.len() - k,
    {
        if s[k] == c {
            proof {
                lemma_index_of_first(s@, c, k as int);
            }
            return Some(k);
        }
        k += 1;
    }
    proof {
        lemma_index_of_none(s@, c);
    }
    None
}

/// Whether `s` begins with `t`.
pub fn has_prefix(s: &[u8], t: &[u8]) -> (r: bool)
    ensures
        r == (t@.len() <= s@.len() && s@.take(t@.len() as int) == t@),
{
    if t.len() > s.len() {
        return false;
    }
    let mut k: usize = 0;
    while k < t.len()
        invariant
            k <= t@.len() <= s@.len(),
            forall|j: int| 0 <= j < k ==> s@[j] == t@[j],
        decreases t@.len() - k,
    {
        if s[k] != t[k] {
            assert(s@.take(t@.len() as int)[k as int] != t@[k as int]);
            return false;
        }
        k += 1;
    }
    assert(s@.take(t@.len() as int) =~= t@);
    true
}

/// Reads a run of one or more digits whose value is at most `max`.
pub fn parse_digits(s: &[u8], max: u64) -> (r: Option<u64>)
    ensures
        match digits_number(s@, max as nat) {
            Some(v) => r == Some(v as u64),
            None => r is None,
        },
{
    if s.len() == 0 {
        return None;
    }
    let mut v: u64 = 0;
    let mut k: usize = 0;
    while k < s.len()
        invariant
            k <= s@.len(),
            all_digits(s@.take(k as int)),
            v as nat == digits_value(s@.take(k as int)),
            v <= max,
        decreases s@.len() - k,
    {
        let c = s[k];
        assert(s@.take(k as int + 1).drop_last() =~= s@.take(k as int));
        if c < 48 || c > 57 {
            assert(!is_digit(s@[k as int]));
            return None;
        }
        let d = (c - 48) as u64;
        assert(s@.take(k as int + 1).last() == c);
        assert(digits_value(s@.take(k as int + 1)) == v * 10 + d);
        if d > max || v > (max - d) / 10 {
            assert(v * 10 + d > max) by (nonlinear_arith)
                requires
                    d > max || v > (max - d) / 10,
            ;
            proof {
                if all_digits(s@) {
                    lemma_digits_prefix(s@, k as int + 1);
                }
            }
            return None;
        }
        assert(v * 10 + d <= max) by (nonlinear_arith)
            requires
                v <= (max - d) / 10,
                d <= max,
        ;
        v = v * 10 + d;
        k += 1;
        assert(all_digits(s@.take(k as int))) by {
            assert forall|j: int| 0 <= j < k implies is_digit(#[trigger] s@.take(k as int)[j]) by {
                if j < k - 1 {
                    assert(s@.take(k as int)[j] == s@.take(k as int - 1)[j]);
                }
            }
        }
    }
    assert(s@.take(k as int) =~= s@);
    Some(v)
}


/// Reads an unsigned number as std's integer parsing does: an optional
/// `+`, then one or more digits, with a value at most `max`.
pub fn parse_unsigned(s: &[u8], max: u64) -> (r: Option<u64>)
    ensures
        match unsigned_number(s@, max as nat) {
            Some(v) => r == Some(v as u64),
            None => r is None,
        },
{
    if s.len() > 0 && s[0] == 43u8 {
        let rest = &s[1..s.len()];
        assert(rest@ =~= s@.skip(1));
        parse_digits(rest, max)
    } else {
        parse_digits(s, max)
    }
}

/// Reads a signed 64-bit number as std's integer parsing does.
pub fn parse_signed(s: &[u8]) -> (r: Option<i64>)
    ensures
        match signed_number(s@) {
            Some(v) => r == Some(v as i64),
            None => r is None,
        },
{
    if s.len() > 0 && s[0] == 45u8 {
        let rest = &s[1..s.len()];
        assert(rest@ =~= s@.skip(1));
        match parse_digits(rest, 0x8000_0000_0000_0000) {
            Some(v) => {
                if v == 0x8000_0000_0000_0000 {
                    Some(i64::MIN)
                } else {
                    Some(-(v as i64))
                }
            },
            None => None,
        }
    } else {
        match parse_unsigned(s, 0x7fff_ffff_ffff_ffff) {
            Some(v) => Some(v as i64),
            None => None,
        }
    }
}

/// Appends bytes.
pub fn push_bytes(out: &mut Vec<u8>, s: &[u8])
    ensures
        final(out)@ == old(out)@ + s@,
{
    let mut k: usize = 0;
    while k < s.len()
        invariant
            k <= s@.len(),
            out@ == old(out)@ + s@.take(k as int),
        decreases s@.len() - k,
    {
        out.push(s[k]);
        k += 1;
        assert(out@ =~= old(out)@ + s@.take(k as int));
    }
    assert(s@.take(k as int) =~= s@);
}

/// Appends the UTF-8 bytes of a text.
pub fn push_str(out: &mut Vec<u8>, s: &str)
    ensures
        final(out)@ == old(out)@ + utf8(s@),
{
    push_bytes(out, s.as_bytes());
}

/// Appends the decimal text of a number.
pub fn push_dec(out: &mut Vec<u8>, n: u64)
    ensures
        final(out)@ == old(out)@ + dec(n as nat),
    decreases n,
{
    let ghost start = out@;
    if n >= 10 {
        push_dec(out, n / 10);
    }
    out.push((n % 10 + 48) as u8);
    assert(out@ =~= start + dec(n as nat));
}

/// Appends the last `w` decimal digits of a number, padded with zeros.
pub fn push_dec_width(out: &mut Vec<u8>, n: u64, w: u32)
    ensures
        final(out)@ == old(out)@ + dec_width(n as nat, w as nat),
    decreases w,
{
    let ghost start = out@;
    if w > 0 {
        push_dec_width(out, n / 10, w - 1);
        out.push((n % 10 + 48) as u8);
    }
    assert(out@ =~= start + dec_width(n as nat, w as nat));
}

/// Appends the decimal text of a signed number.
pub fn push_dec_signed(out: &mut Vec<u8>, n: i64)
    ensures
        final(out)@ == old(out)@ + dec_signed(n as int),
{
    let ghost start = out@;
    if n < 0 {
        out.push(45u8);
        let m: u64 = if n == i64::MIN {
            0x8000_0000_0000_0000
        } else {
            (-n) as u64
        };
        push_dec(out, m);
        assert(out@ =~= start + dec_signed(n as int));
    } else {
        push_dec(out, n as u64);
    }
}

/// Relies on std's String::from_utf8: it accepts exactly the valid UTF-8
/// byte sequences, and the text it returns is what they encode.
#[verifier::external_body]
fn string_from_utf8(bytes: Vec<u8>) -> (r: Option<String>)
    ensures
        match r {
            Some(s) => valid_utf8(bytes@) && s@ == decode_utf8(bytes@),
            None => !valid_utf8(bytes@),
        },
{
    String::from_utf8(bytes).ok()
}

/// The text that a run of bytes encodes as UTF-8, if they are valid.
pub open spec fn text_of(b: Seq<u8>) -> Option<Seq<char>> {
    if valid_utf8(b) {
        Some(decode_utf8(b))
    } else {
        None
    }
}

/// Decodes a run of bytes as UTF-8 text.
pub fn text_from(b: &[u8]) -> (r: Option<String>)
    ensures
        match text_of(b@) {
            Some(t) => r is Some && r->0@ == t,
            None => r is None,
        },
{
    string_from_utf8(vstd::slice::slice_to_vec(b))
}

} // verus!
