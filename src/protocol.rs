//! Wire primitives: the result of a decode step, fixed markers, the
//! greeting line, the daemon's error line, and the values of fields.
use vstd::prelude::*;
use crate::types::{CmdError, CmdErrorType, CmdErrorView, Decimal, Duration, State, Version, error_type_of};
use crate::wire::{
    all_digits, is_digit, push_bytes, digits_number, digits_value, find_byte, has_prefix, index_of, lemma_index_of,
    parse_digits, text_from, text_of, utf8,
};

verus! {

/// The outcome of decoding from the start of some input.
#[derive(Debug, PartialEq)]
pub enum ParseResult<T> {
    /// A value, and how many bytes of the input it took.
    Done(usize, T),
    /// The input ends before the value does: more bytes are needed.
    Incomplete,
    /// The input does not hold the value.
    Error,
}

impl<T: View> View for ParseResult<T> {
    type V = ParseResult<T::V>;

    open spec fn view(&self) -> ParseResult<T::V> {
        match self {
            ParseResult::Done(n, v) => ParseResult::Done(*n, v@),
            ParseResult::Incomplete => ParseResult::Incomplete,
            ParseResult::Error => ParseResult::Error,
        }
    }
}

/// Matching a fixed marker `t` at the start of `i`.
pub open spec fn tag_spec(i: Seq<u8>, t: Seq<u8>) -> ParseResult<()> {
    if t.len() <= i.len() {
        if i.take(t.len() as int) == t {
            ParseResult::Done(t.len() as usize, ())
        } else {
            ParseResult::Error
        }
    } else if i == t.take(i.len() as int) {
        ParseResult::Incomplete
    } else {
        ParseResult::Error
    }
}

/// Matches a fixed marker at the start of the input.
pub fn parse_tag(i: &[u8], t: &[u8]) -> (r: ParseResult<()>)
    ensures
        r == tag_spec(i@, t@),
{
    if t.len() <= i.len() {
        if has_prefix(i, t) {
            ParseResult::Done(t.len(), ())
        } else {
            ParseResult::Error
        }
    } else if has_prefix(t, i) {
        assert(t@.take(i@.len() as int) =~= i@);
        ParseResult::Incomplete
    } else {
        ParseResult::Error
    }
}

pub open spec fn ok_marker() -> Seq<u8> {
    utf8("OK\n"@)
}

pub open spec fn list_ok_marker() -> Seq<u8> {
    utf8("list_OK\n"@)
}

/// Parses the marker `OK\n` that ends every successful reply.
pub fn parse_ok(i: &[u8]) -> (r: ParseResult<()>)
    ensures
        r == tag_spec(i@, ok_marker()),
{
    parse_tag(i, "OK\n".as_bytes())
}

/// Parses the marker `list_OK\n` that follows each command's reply in a
/// command list.
pub fn parse_list_ok(i: &[u8]) -> (r: ParseResult<()>)
    ensures
        r == tag_spec(i@, list_ok_marker()),
{
    parse_tag(i, "list_OK\n".as_bytes())
}

/// Whether two byte runs are equal.
pub fn bytes_eq(a: &[u8], b: &[u8]) -> (r: bool)
    ensures
        r == (a@ == b@),
{
    if a.len() != b.len() {
        return false;
    }
    let r = has_prefix(a, b);
    assert(a@.take(b@.len() as int) =~= a@);
    r
}

pub open spec fn no_cr(s: Seq<u8>) -> bool {
    forall|j: int| 0 <= j < s.len() ==> s[j] != 13u8
}

/// Whether a byte run holds no carriage return.
pub fn has_no_cr(s: &[u8]) -> (r: bool)
    ensures
        r == no_cr(s@),
{
    match find_byte(s, 13) {
        Some(k) => {
            proof {
                lemma_index_of(s@, 13);
            }
            false
        },
        None => {
            proof {
                lemma_index_of(s@, 13);
            }
            true
        },
    }
}

/// A line without its ending: one trailing carriage return is dropped.
pub open spec fn line_body(l: Seq<u8>) -> Seq<u8> {
    if l.len() > 0 && l.last() == 13u8 {
        l.drop_last()
    } else {
        l
    }
}

/// A line that must be complete before it can be judged: with no newline
/// in the input, it is incomplete as long as the input could still begin
/// with `head`.
pub open spec fn line_spec<T>(i: Seq<u8>, head: Seq<u8>, judge: spec_fn(Seq<u8>) -> Option<T>) -> ParseResult<T> {
    match index_of(i, 10u8) {
        Some(p) => match judge(line_body(i.take(p as int))) {
            Some(v) => ParseResult::Done((p + 1) as usize, v),
            None => ParseResult::Error,
        },
        None => if tag_spec(i, head) is Error {
            ParseResult::Error
        } else {
            ParseResult::Incomplete
        },
    }
}

pub uninterp spec fn semver_of(text: Seq<char>) -> Option<(u64, u64, u64, Seq<char>, Seq<char>)>;

/// Relies on semver's Version::parse, whose outcome depends on the text
/// alone: the version's major, minor and patch numbers, its pre-release
/// part and its build metadata, or an error.
#[verifier::external_body]
fn parse_semver(text: &str) -> (r: Option<Version>)
    ensures
        match r {
            Some(v) => semver_of(text@) == Some(v@),
            None => semver_of(text@) is None,
        },
{
    match semver::Version::parse(text) {
        Ok(v) => Some(
            Version {
                major: v.major,
                minor: v.minor,
                patch: v.patch,
                pre: v.pre.as_str().to_string(),
                build: v.build.as_str().to_string(),
            },
        ),
        Err(_) => None,
    }
}

pub open spec fn greeting() -> Seq<u8> {
    utf8("OK MPD "@)
}

/// The version that a greeting line (without its ending) announces.
pub open spec fn greeting_version(l: Seq<u8>) -> Option<(u64, u64, u64, Seq<char>, Seq<char>)> {
    let g = greeting();
    if g.len() <= l.len() && l.take(g.len() as int) == g && no_cr(l.skip(g.len() as int)) {
        match text_of(l.skip(g.len() as int)) {
            Some(t) => semver_of(t),
            None => None,
        }
    } else {
        None
    }
}

pub open spec fn handshake_spec(i: Seq<u8>) -> ParseResult<(u64, u64, u64, Seq<char>, Seq<char>)> {
    line_spec(i, greeting(), |l: Seq<u8>| greeting_version(l))
}

/// Splits off the first line: its body (without `\n` and one trailing
/// `\r`) and the length of the whole line.
fn split_line(i: &[u8]) -> (r: Option<(&[u8], usize)>)
    ensures
        match index_of(i@, 10u8) {
            Some(p) => p < i@.len() && match r {
                Some((b, n)) => b@ == line_body(i@.take(p as int)) && n == p + 1,
                None => false,
            },
            None => r is None,
        },
{
    match find_byte(i, 10) {
        Some(p) => {
            proof {
                lemma_index_of(i@, 10u8);
            }
            assert(p < i.len());
            let l = &i[0..p];
            if p > 0 && l[p - 1] == 13u8 {
                let b = &i[0..p - 1];
                assert(b@ =~= line_body(i@.take(p as int)));
                Some((b, p + 1))
            } else {
                assert(l@ =~= line_body(i@.take(p as int)));
                Some((l, p + 1))
            }
        },
        None => None,
    }
}

/// Parses the daemon's greeting line, `OK MPD <version>\n`.
pub fn parse_handshake(i: &[u8]) -> (r: ParseResult<Version>)
    ensures
        r@ == handshake_spec(i@),
        r matches ParseResult::Done(n, _) ==> n <= i@.len(),
{
    let g = "OK MPD ".as_bytes();
    match split_line(i) {
        None => {
            match parse_tag(i, g) {
                ParseResult::Error => ParseResult::Error,
                _ => ParseResult::Incomplete,
            }
        },
        Some((l, n)) => {
            if g.len() <= l.len() && has_prefix(l, g) {
                let rest = &l[g.len()..l.len()];
                assert(rest@ =~= l@.skip(g@.len() as int));
                if !has_no_cr(rest) {
                    return ParseResult::Error;
                }
                match text_from(rest) {
                    Some(t) => match parse_semver(t.as_str()) {
                        Some(v) => ParseResult::Done(n, v),
                        None => ParseResult::Error,
                    },
                    None => ParseResult::Error,
                }
            } else {
                ParseResult::Error
            }
        },
    }
}


/// The fields of an error line (without its ending), after `ACK [`.
pub open spec fn cmd_error_fields(r1: Seq<u8>) -> Option<CmdErrorView> {
    match index_of(r1, 64u8) {
        None => None,
        Some(a) => match error_type_of(r1.take(a as int)) {
            None => None,
            Some(kind) => {
                let r2 = r1.skip(a + 1 as int);
                match index_of(r2, 93u8) {
                    None => None,
                    Some(b) => match digits_number(r2.take(b as int), usize::MAX as nat) {
                        None => None,
                        Some(no) => {
                            let r3 = r2.skip(b as int);
                            let m = utf8("] {"@);
                            if m.len() <= r3.len() && r3.take(m.len() as int) == m {
                                let r4 = r3.skip(m.len() as int);
                                match index_of(r4, 125u8) {
                                    None => None,
                                    Some(c) => {
                                        let name = r4.take(c as int);
                                        let r5 = r4.skip(c as int);
                                        let m2 = utf8("} "@);
                                        let msg = r5.skip(m2.len() as int);
                                        if m2.len() <= r5.len() && r5.take(m2.len() as int) == m2
                                            && no_cr(name) && no_cr(msg) {
                                            match (text_of(name), text_of(msg)) {
                                                (Some(n), Some(t)) => Some(
                                                    CmdErrorView {
                                                        error_type: kind,
                                                        command_no: no as usize,
                                                        command_name: n,
                                                        message_text: t,
                                                    },
                                                ),
                                                _ => None,
                                            }
                                        } else {
                                            None
                                        }
                                    },
                                }
                            } else {
                                None
                            }
                        },
                    },
                }
            },
        },
    }
}

pub open spec fn ack_head() -> Seq<u8> {
    utf8("ACK ["@)
}

/// The error that an error line (without its ending) reports.
pub open spec fn cmd_error_of(l: Seq<u8>) -> Option<CmdErrorView> {
    let h = ack_head();
    if h.len() <= l.len() && l.take(h.len() as int) == h {
        cmd_error_fields(l.skip(h.len() as int))
    } else {
        None
    }
}

pub open spec fn error_spec(i: Seq<u8>) -> ParseResult<CmdErrorView> {
    line_spec(i, ack_head(), |l: Seq<u8>| cmd_error_of(l))
}

pub proof fn lemma_error_len(i: Seq<u8>)
    ensures
        error_spec(i) matches ParseResult::Done(n, _) ==> n <= i.len(),
{
    lemma_index_of(i, 10u8);
}

fn parse_error_fields(r1: &[u8]) -> (r: Option<CmdError>)
    ensures
        match cmd_error_fields(r1@) {
            Some(e) => r is Some && r->0@ == e,
            None => r is None,
        },
{
    let a = match find_byte(r1, 64) {
        Some(a) => a,
        None => {
            return None;
        },
    };
    proof {
        lemma_index_of(r1@, 64u8);
    }
    let kind = match CmdErrorType::from_code(&r1[0..a]) {
        Some(k) => k,
        None => {
            return None;
        },
    };
    let r2 = &r1[a + 1..r1.len()];
    assert(r2@ =~= r1@.skip(a + 1 as int));
    let b = match find_byte(r2, 93) {
        Some(b) => b,
        None => {
            return None;
        },
    };
    proof {
        lemma_index_of(r2@, 93u8);
    }
    let no = match parse_digits(&r2[0..b], usize::MAX as u64) {
        Some(no) => no as usize,
        None => {
            return None;
        },
    };
    let r3 = &r2[b..r2.len()];
    assert(r3@ =~= r2@.skip(b as int));
    let m = "] {".as_bytes();
    if !(m.len() <= r3.len() && has_prefix(r3, m)) {
        return None;
    }
    let r4 = &r3[m.len()..r3.len()];
    assert(r4@ =~= r3@.skip(m@.len() as int));
    let c = match find_byte(r4, 125) {
        Some(c) => c,
        None => {
            return None;
        },
    };
    proof {
        lemma_index_of(r4@, 125u8);
    }
    let name = &r4[0..c];
    let r5 = &r4[c..r4.len()];
    assert(r5@ =~= r4@.skip(c as int));
    let m2 = "} ".as_bytes();
    if !(m2.len() <= r5.len() && has_prefix(r5, m2)) {
        return None;
    }
    let msg = &r5[m2.len()..r5.len()];
    assert(msg@ =~= r5@.skip(m2@.len() as int));
    if !has_no_cr(name) || !has_no_cr(msg) {
        return None;
    }
    match (text_from(name), text_from(msg)) {
        (Some(n), Some(t)) => Some(
            CmdError { error_type: kind, command_no: no, command_name: n, message_text: t },
        ),
        _ => None,
    }
}

/// Parses an error line of the daemon:
/// `ACK [<code>@<index>] {<command>} <message>\n`.
pub fn parse_error(i: &[u8]) -> (r: ParseResult<CmdError>)
    ensures
        r@ == error_spec(i@),
        r matches ParseResult::Done(n, _) ==> n <= i@.len(),
{
    let h = "ACK [".as_bytes();
    match split_line(i) {
        None => {
            match parse_tag(i, h) {
                ParseResult::Error => ParseResult::Error,
                _ => ParseResult::Incomplete,
            }
        },
        Some((l, n)) => {
            if h.len() <= l.len() && has_prefix(l, h) {
                let r1 = &l[h.len()..l.len()];
                assert(r1@ =~= l@.skip(h@.len() as int));
                match parse_error_fields(r1) {
                    Some(e) => ParseResult::Done(n, e),
                    None => ParseResult::Error,
                }
            } else {
                ParseResult::Error
            }
        },
    }
}

pub open spec fn num_bool_spec(i: Seq<u8>) -> ParseResult<bool> {
    if i.len() == 0 {
        ParseResult::Incomplete
    } else if i[0] == 48u8 {
        ParseResult::Done(1, false)
    } else if i[0] == 49u8 {
        ParseResult::Done(1, true)
    } else {
        ParseResult::Error
    }
}

/// Parses a boolean sent as one digit, `0` or `1`.
pub fn parse_num_bool(i: &[u8]) -> (r: ParseResult<bool>)
    ensures
        r == num_bool_spec(i@),
{
    if i.len() == 0 {
        ParseResult::Incomplete
    } else if i[0] == 48u8 {
        ParseResult::Done(1, false)
    } else if i[0] == 49u8 {
        ParseResult::Done(1, true)
    } else {
        ParseResult::Error
    }
}

/// A boolean field value: exactly `0` or `1`.
pub open spec fn bool_of(v: Seq<u8>) -> Option<bool> {
    if v.len() == 1 {
        match num_bool_spec(v) {
            ParseResult::Done(_, b) => Some(b),
            _ => None,
        }
    } else {
        None
    }
}

pub(crate) fn bool_value(v: &[u8]) -> (r: Option<bool>)
    ensures
        r == bool_of(v@),
{
    if v.len() == 1 {
        match parse_num_bool(v) {
            ParseResult::Done(_, b) => Some(b),
            _ => None,
        }
    } else {
        None
    }
}

/// A playback state field value.
pub open spec fn state_of(v: Seq<u8>) -> Option<State> {
    if v == utf8("play"@) {
        Some(State::Play)
    } else if v == utf8("pause"@) {
        Some(State::Pause)
    } else if v == utf8("stop"@) {
        Some(State::Stop)
    } else {
        None
    }
}

/// Parses a playback state: `play`, `pause` or `stop`.
pub fn parse_status_state(v: &[u8]) -> (r: Option<State>)
    ensures
        r == state_of(v@),
{
    if bytes_eq(v, "play".as_bytes()) {
        Some(State::Play)
    } else if bytes_eq(v, "pause".as_bytes()) {
        Some(State::Pause)
    } else if bytes_eq(v, "stop".as_bytes()) {
        Some(State::Stop)
    } else {
        None
    }
}

/// An audio format field value: `<rate>:<bits>:<channels>`, three runs of
/// digits.
pub open spec fn audio_of(v: Seq<u8>) -> Option<(u32, u32, u32)> {
    match index_of(v, 58u8) {
        None => None,
        Some(k1) => {
            let rest = v.skip(k1 + 1 as int);
            match index_of(rest, 58u8) {
                None => None,
                Some(k2) => match (
                    digits_number(v.take(k1 as int), u32::MAX as nat),
                    digits_number(rest.take(k2 as int), u32::MAX as nat),
                    digits_number(rest.skip(k2 + 1 as int), u32::MAX as nat),
                ) {
                    (Some(a), Some(b), Some(c)) => Some((a as u32, b as u32, c as u32)),
                    _ => None,
                },
            }
        },
    }
}

/// Parses an audio format: sample rate, bits and channels.
pub fn parse_audio(v: &[u8]) -> (r: Option<(u32, u32, u32)>)
    ensures
        r == audio_of(v@),
{
    let k1 = match find_byte(v, 58) {
        Some(k) => k,
        None => {
            return None;
        },
    };
    proof {
        lemma_index_of(v@, 58u8);
    }
    assert(k1 < v.len());
    let rest = &v[k1 + 1..v.len()];
    assert(rest@ =~= v@.skip(k1 + 1 as int));
    let k2 = match find_byte(rest, 58) {
        Some(k) => k,
        None => {
            return None;
        },
    };
    proof {
        lemma_index_of(rest@, 58u8);
    }
    assert(k2 < rest.len());
    let last = &rest[k2 + 1..rest.len()];
    assert(last@ =~= rest@.skip(k2 + 1 as int));
    match (
        parse_digits(&v[0..k1], u32::MAX as u64),
        parse_digits(&rest[0..k2], u32::MAX as u64),
        parse_digits(last, u32::MAX as u64),
    ) {
        (Some(a), Some(b), Some(c)) => Some((a as u32, b as u32, c as u32)),
        _ => None,
    }
}

pub open spec fn pow10(n: nat) -> nat
    decreases n,
{
    if n == 0 {
        1
    } else {
        10 * pow10((n - 1) as nat)
    }
}

proof fn lemma_digits_below(s: Seq<u8>)
    requires
        all_digits(s),
    ensures
        digits_value(s) < pow10(s.len()),
    decreases s.len(),
{
    if s.len() > 0 {
        assert(all_digits(s.drop_last()));
        lemma_digits_below(s.drop_last());
    }
}

/// A time field value: seconds, `.`, then one to nine digits of fraction.
pub open spec fn time_of(v: Seq<u8>) -> Option<Duration> {
    match index_of(v, 46u8) {
        None => None,
        Some(k) => {
            let frac = v.skip(k + 1 as int);
            match (digits_number(v.take(k as int), u64::MAX as nat), digits_number(frac, 999_999_999)) {
                (Some(secs), Some(f)) => if frac.len() <= 9 {
                    Some(Duration { secs: secs as u64, nanos: (f * pow10((9 - frac.len()) as nat)) as u32 })
                } else {
                    None
                },
                _ => None,
            }
        },
    }
}

/// Parses a time with a fraction of a second, such as `80.074`.
pub fn parse_time(v: &[u8]) -> (r: Option<Duration>)
    ensures
        r == time_of(v@),
        r matches Some(d) ==> d.wf(),
{
    let k = match find_byte(v, 46) {
        Some(k) => k,
        None => {
            return None;
        },
    };
    proof {
        lemma_index_of(v@, 46u8);
    }
    assert(k < v.len());
    let frac = &v[k + 1..v.len()];
    assert(frac@ =~= v@.skip(k + 1 as int));
    let secs = match parse_digits(&v[0..k], u64::MAX) {
        Some(s) => s,
        None => {
            return None;
        },
    };
    let f = match parse_digits(frac, 999_999_999) {
        Some(f) => f,
        None => {
            return None;
        },
    };
    if frac.len() > 9 {
        return None;
    }
    proof {
        lemma_digits_below(frac@);
    }
    let mut nanos: u64 = f;
    let mut w: usize = frac.len();
    while w < 9
        invariant
            frac@.len() <= w <= 9,
            nanos as nat * pow10((9 - w) as nat) == f as nat * pow10((9 - frac@.len()) as nat),
            nanos < pow10(w as nat),
        decreases 9 - w,
    {
        assert(pow10((9 - w) as nat) == 10 * pow10((9 - (w + 1)) as nat));
        assert(nanos as nat * pow10((9 - w) as nat) == (nanos * 10) as nat * pow10((9 - (w + 1)) as nat)) by (nonlinear_arith)
            requires
                pow10((9 - w) as nat) == 10 * pow10((9 - (w + 1)) as nat),
        ;
        assert(pow10((w + 1) as nat) == 10 * pow10(w as nat));
        assert(pow10(w as nat) <= 100_000_000) by {
            assert(pow10(8) == 100_000_000) by {
                reveal_with_fuel(pow10, 9);
            }
            lemma_pow10_mono(w as nat, 8);
        }
        nanos = nanos * 10;
        w = w + 1;
    }
    assert(pow10(9) == 1_000_000_000) by {
        reveal_with_fuel(pow10, 10);
    }
    assert(w == 9);
    assert(pow10((9 - w) as nat) == 1);
    assert(nanos as nat == f as nat * pow10((9 - frac@.len()) as nat)) by (nonlinear_arith)
        requires
            pow10((9 - w) as nat) == 1,
            nanos as nat * pow10((9 - w) as nat) == f as nat * pow10((9 - frac@.len()) as nat),
    ;
    assert(frac@ == v@.skip(k + 1 as int));
    Some(Duration { secs, nanos: nanos as u32 })
}

proof fn lemma_pow10_mono(a: nat, b: nat)
    requires
        a <= b,
    ensures
        pow10(a) <= pow10(b),
    decreases b,
{
    if a < b {
        lemma_pow10_mono(a, (b - 1) as nat);
    }
}

/// A decimal field value: an optional sign, digits, and optionally `.`
/// followed by more digits; all its digits together must fit in 64 bits.
pub open spec fn decimal_of(v: Seq<u8>) -> Option<Decimal> {
    let negative = v.len() > 0 && v[0] == 45u8;
    let body = if v.len() > 0 && (v[0] == 45u8 || v[0] == 43u8) {
        v.skip(1)
    } else {
        v
    };
    match index_of(body, 46u8) {
        Some(k) => {
            let whole = body.take(k as int);
            let frac = body.skip(k + 1 as int);
            if whole.len() > 0 && all_digits(whole) {
                match digits_number(whole + frac, u64::MAX as nat) {
                    Some(d) => if frac.len() > 0 {
                        Some(Decimal { negative, digits: d as u64, scale: frac.len() as usize })
                    } else {
                        None
                    },
                    None => None,
                }
            } else {
                None
            }
        },
        None => match digits_number(body, u64::MAX as nat) {
            Some(d) => Some(Decimal { negative, digits: d as u64, scale: 0 }),
            None => None,
        },
    }
}

/// Parses a decimal number such as `-17.25`, exactly.
pub fn parse_decimal(v: &[u8]) -> (r: Option<Decimal>)
    ensures
        r == decimal_of(v@),
{
    let negative = v.len() > 0 && v[0] == 45u8;
    let body = if v.len() > 0 && (v[0] == 45u8 || v[0] == 43u8) {
        &v[1..v.len()]
    } else {
        v
    };
    assert(body@ =~= (if v@.len() > 0 && (v@[0] == 45u8 || v@[0] == 43u8) {
        v@.skip(1)
    } else {
        v@
    }));
    match find_byte(body, 46) {
        Some(k) => {
            proof {
                lemma_index_of(body@, 46u8);
            }
            let whole = &body[0..k];
            let frac = &body[k + 1..body.len()];
            assert(frac@ =~= body@.skip(k + 1 as int));
            if whole.len() == 0 || frac.len() == 0 {
                return None;
            }
            let mut all: Vec<u8> = Vec::new();
            push_bytes(&mut all, whole);
            push_bytes(&mut all, frac);
            match parse_digits(all.as_slice(), u64::MAX) {
                Some(d) => {
                    assert(all_digits(whole@)) by {
                        assert forall|j: int| 0 <= j < whole@.len() implies is_digit(#[trigger] whole@[j]) by {
                            assert(whole@[j] == (whole@ + frac@)[j]);
                        }
                    }
                    Some(Decimal { negative, digits: d, scale: frac.len() })
                },
                None => {
                    None
                },
            }
        },
        None => {
            proof {
                lemma_index_of(body@, 46u8);
            }
            match parse_digits(body, u64::MAX) {
                Some(d) => Some(Decimal { negative, digits: d, scale: 0 }),
                None => None,
            }
        },
    }
}


/// A value that knows its own wire form.
pub trait Dispatch {
    /// The bytes that stand for the value on the wire.
    spec fn wire(&self) -> Seq<u8>;

    /// Appends the value's wire form.
    fn dispatch(&self, out: &mut Vec<u8>)
        ensures
            final(out)@ == old(out)@ + self.wire(),
    ;
}

/// A request whose reply can be decoded from the start of some input.
pub trait ParseResponse {
    type ResponseType;

    /// Whether `r` is what decoding the input `i` gives.
    spec fn decodes(&self, i: Seq<u8>, r: ParseResult<Self::ResponseType>) -> bool;

    /// Decodes the reply from the start of the input.
    fn parse_response(&self, i: &[u8]) -> (r: ParseResult<Self::ResponseType>)
        ensures
            self.decodes(i@, r),
            r matches ParseResult::Done(n, _) ==> n <= i@.len(),
    ;
}

/// The greeting that the daemon sends when a connection opens.
pub struct Handshake;

impl ParseResponse for Handshake {
    type ResponseType = Version;

    open spec fn decodes(&self, i: Seq<u8>, r: ParseResult<Version>) -> bool {
        r@ == handshake_spec(i)
    }

    fn parse_response(&self, i: &[u8]) -> (r: ParseResult<Version>) {
        parse_handshake(i)
    }
}

} // verus!
