//! Reply lines written from a record decode back to the same record.
use vstd::prelude::*;
use vstd::arithmetic::div_mod::{lemma_fundamental_div_mod, lemma_mod_breakdown, lemma_small_mod};
use vstd::seq_lib::lemma_concat_associative;
use crate::command::bool_text;
use crate::command::CommandResponseView;
use crate::protocol::{ParseResult, ok_marker, audio_of, bool_of, decimal_of, pow10, state_of, time_of};
use crate::types::{Decimal, Duration, State};
use crate::laws::{lemma_first_line, lemma_ok_marker, lemma_read_line, line_item};
use crate::records::{MaybeStats, MaybeStatusView, Stats, StatusView};
use crate::response::{
    StatusItem, apply_item, fields_spec, shifted, stats_item, stats_spec, stats_step, status_item,
    status_spec, status_step, utc_timestamp_valid,
};
use crate::wire::{signed_number, dec_signed, unsigned_number, all_digits, dec, dec_width, digits_number, digits_value, index_of, is_digit, utf8};

verus! {

proof fn lemma_dec(n: nat)
    ensures
        dec(n).len() >= 1,
        all_digits(dec(n)),
        digits_value(dec(n)) == n,
    decreases n,
{
    if n < 10 {
        assert(dec(n).drop_last() =~= Seq::<u8>::empty());
        assert(digits_value(dec(n)) == digits_value(dec(n).drop_last()) * 10 + (dec(n).last() - 48) as nat);
    } else {
        lemma_dec(n / 10);
        let d = dec(n);
        assert(d.drop_last() =~= dec(n / 10));
        assert(d.last() == (n % 10 + 48) as u8);
        assert((n / 10) * 10 + n % 10 == n) by (nonlinear_arith);
        assert forall|j: int| 0 <= j < d.len() implies is_digit(#[trigger] d[j]) by {
            if j < d.len() - 1 {
                assert(d[j] == dec(n / 10)[j]);
            }
        }
    }
}

proof fn lemma_pow10_pos(n: nat)
    ensures
        pow10(n) > 0,
    decreases n,
{
    if n > 0 {
        lemma_pow10_pos((n - 1) as nat);
    }
}

proof fn lemma_dec_width(n: nat, w: nat)
    ensures
        dec_width(n, w).len() == w,
        all_digits(dec_width(n, w)),
        digits_value(dec_width(n, w)) == n % pow10(w),
    decreases w,
{
    if w == 0 {
        assert(n % 1 == 0);
    } else {
        lemma_dec_width(n / 10, (w - 1) as nat);
        let d = dec_width(n, w);
        assert(d.drop_last() =~= dec_width(n / 10, (w - 1) as nat));
        assert forall|j: int| 0 <= j < d.len() implies is_digit(#[trigger] d[j]) by {
            if j < d.len() - 1 {
                assert(d[j] == dec_width(n / 10, (w - 1) as nat)[j]);
            }
        }
        lemma_pow10_pos((w - 1) as nat);
        lemma_mod_breakdown(n as int, 10, pow10((w - 1) as nat) as int);
        assert(digits_value(d) == (n / 10) % pow10((w - 1) as nat) * 10 + n % 10);
    }
}

proof fn lemma_digits_concat(a: Seq<u8>, b: Seq<u8>)
    requires
        all_digits(a),
        all_digits(b),
    ensures
        all_digits(a + b),
        digits_value(a + b) == digits_value(a) * pow10(b.len()) + digits_value(b),
    decreases b.len(),
{
    assert forall|j: int| 0 <= j < (a + b).len() implies is_digit(#[trigger] (a + b)[j]) by {
        if j < a.len() {
            assert((a + b)[j] == a[j]);
        } else {
            assert((a + b)[j] == b[j - a.len()]);
        }
    }
    if b.len() == 0 {
        assert(a + b =~= a);
        assert(pow10(0) == 1);
        assert(digits_value(a) * pow10(b.len()) == digits_value(a)) by (nonlinear_arith)
            requires
                pow10(b.len()) == 1,
        ;
    } else {
        let b1 = b.drop_last();
        assert(all_digits(b1));
        lemma_digits_concat(a, b1);
        assert((a + b).drop_last() =~= a + b1);
        let x = digits_value(a);
        let p = pow10(b1.len());
        let y = digits_value(b1);
        let d = (b.last() - 48) as nat;
        assert((x * p + y) * 10 + d == x * (10 * p) + (y * 10 + d)) by (nonlinear_arith);
        assert((a + b).last() == b.last());
        assert(pow10(b.len()) == 10 * p);
        assert(digits_value(b) == y * 10 + d);
        assert(digits_value(a + b) == (x * p + y) * 10 + d);
    }
}

/// A decimal as the daemon writes it: a sign when negative, the digits,
/// and `scale` of them after a point.
pub open spec fn decimal_text(d: Decimal) -> Seq<u8> {
    (if d.negative {
        seq![45u8]
    } else {
        Seq::empty()
    }) + if d.scale == 0 {
        dec(d.digits as nat)
    } else {
        dec(d.digits as nat / pow10(d.scale as nat)) + seq![46u8] + dec_width(
            d.digits as nat % pow10(d.scale as nat),
            d.scale as nat,
        )
    }
}

proof fn lemma_no_byte_in_digits(s: Seq<u8>, c: u8)
    requires
        all_digits(s),
        !is_digit(c),
    ensures
        index_of(s, c) is None,
{
    assert forall|j: int| 0 <= j < s.len() implies s[j] != c by {
        assert(is_digit(s[j]));
    }
    crate::wire::lemma_index_of_none(s, c);
}

proof fn lemma_decimal_round_trip(d: Decimal)
    ensures
        decimal_of(decimal_text(d)) == Some(d),
{
    let sign: Seq<u8> = if d.negative {
        seq![45u8]
    } else {
        Seq::empty()
    };
    let s = d.scale as nat;
    let v = decimal_text(d);
    lemma_pow10_pos(s);
    if s == 0 {
        let body = dec(d.digits as nat);
        lemma_dec(d.digits as nat);
        if d.negative {
            assert(v.skip(1) =~= body);
        } else {
            assert(v =~= body);
            assert(is_digit(body[0]));
        }
        lemma_no_byte_in_digits(body, 46u8);
    } else {
        let w = d.digits as nat / pow10(s);
        let f = d.digits as nat % pow10(s);
        let whole = dec(w);
        let frac = dec_width(f, s);
        let body = whole + seq![46u8] + frac;
        lemma_dec(w);
        lemma_dec_width(f, s);
        lemma_small_mod(f, pow10(s));
        if d.negative {
            assert(v.skip(1) =~= body);
        } else {
            assert(v =~= body);
            assert(body[0] == whole[0]);
            assert(is_digit(whole[0]));
        }
        assert(body[whole.len() as int] == 46u8);
        assert forall|j: int| 0 <= j < whole.len() implies body[j] != 46u8 by {
            assert(body[j] == whole[j]);
            assert(is_digit(whole[j]));
        }
        crate::wire::lemma_index_of_first(body, 46u8, whole.len() as int);
        assert(body.take(whole.len() as int) =~= whole);
        assert(body.skip(whole.len() + 1 as int) =~= frac);
        lemma_digits_concat(whole, frac);
        lemma_fundamental_div_mod(d.digits as int, pow10(s) as int);
        assert(digits_value(whole + frac) == d.digits as nat) by (nonlinear_arith)
            requires
                digits_value(whole + frac) == w * pow10(s) + f,
                d.digits as int == pow10(s) * (d.digits as int / pow10(s) as int) + d.digits as int % pow10(s) as int,
                w == d.digits as nat / pow10(s),
                f == d.digits as nat % pow10(s),
        ;
    }
}

/// A time as the daemon writes it: seconds, a point, nine digits.
pub open spec fn time_value_text(t: Duration) -> Seq<u8> {
    dec(t.secs as nat) + seq![46u8] + dec_width(t.nanos as nat, 9)
}

proof fn lemma_time_round_trip(t: Duration)
    requires
        t.wf(),
    ensures
        time_of(time_value_text(t)) == Some(t),
{
    let whole = dec(t.secs as nat);
    let frac = dec_width(t.nanos as nat, 9);
    let v = time_value_text(t);
    lemma_dec(t.secs as nat);
    lemma_dec_width(t.nanos as nat, 9);
    assert(pow10(9) == 1_000_000_000) by {
        reveal_with_fuel(pow10, 10);
    }
    lemma_small_mod(t.nanos as nat, pow10(9));
    assert(v[whole.len() as int] == 46u8);
    assert forall|j: int| 0 <= j < whole.len() implies v[j] != 46u8 by {
        assert(v[j] == whole[j]);
        assert(is_digit(whole[j]));
    }
    crate::wire::lemma_index_of_first(v, 46u8, whole.len() as int);
    assert(v.take(whole.len() as int) =~= whole);
    assert(v.skip(whole.len() + 1 as int) =~= frac);
    assert(pow10(0) == 1);
    assert(digits_number(frac, 999_999_999) == Some(t.nanos as nat));
    assert(digits_number(whole, u64::MAX as nat) == Some(t.secs as nat));
    assert(t.nanos as nat * pow10((9 - frac.len()) as nat) == t.nanos as nat) by (nonlinear_arith)
        requires
            pow10((9 - frac.len()) as nat) == 1,
    ;
}

/// An audio format as the daemon writes it.
pub open spec fn audio_text(a: (u32, u32, u32)) -> Seq<u8> {
    dec(a.0 as nat) + seq![58u8] + dec(a.1 as nat) + seq![58u8] + dec(a.2 as nat)
}

proof fn lemma_audio_round_trip(a: (u32, u32, u32))
    ensures
        audio_of(audio_text(a)) == Some(a),
{
    let x = dec(a.0 as nat);
    let y = dec(a.1 as nat);
    let z = dec(a.2 as nat);
    let v = audio_text(a);
    lemma_dec(a.0 as nat);
    lemma_dec(a.1 as nat);
    lemma_dec(a.2 as nat);
    assert(v[x.len() as int] == 58u8);
    assert forall|j: int| 0 <= j < x.len() implies v[j] != 58u8 by {
        assert(v[j] == x[j]);
        assert(is_digit(x[j]));
    }
    crate::wire::lemma_index_of_first(v, 58u8, x.len() as int);
    let rest = v.skip(x.len() + 1 as int);
    assert(rest =~= y + seq![58u8] + z);
    assert(rest[y.len() as int] == 58u8);
    assert forall|j: int| 0 <= j < y.len() implies rest[j] != 58u8 by {
        assert(rest[j] == y[j]);
        assert(is_digit(y[j]));
    }
    crate::wire::lemma_index_of_first(rest, 58u8, y.len() as int);
    assert(v.take(x.len() as int) =~= x);
    assert(rest.take(y.len() as int) =~= y);
    assert(rest.skip(y.len() + 1 as int) =~= z);
}

proof fn lemma_bool_round_trip(b: bool)
    ensures
        bool_of(bool_text(b)) == Some(b),
{
}

pub open spec fn state_name(s: State) -> Seq<char> {
    match s {
        State::Play => "play"@,
        State::Pause => "pause"@,
        State::Stop => "stop"@,
    }
}

proof fn lemma_ascii_bytes(s: Seq<char>)
    requires
        vstd::utf8::is_ascii_chars(s),
    ensures
        utf8(s) == s.map_values(|c: char| c as u8),
{
    vstd::utf8::is_ascii_chars_encode_utf8(s);
    assert(utf8(s) =~= s.map_values(|c: char| c as u8));
}

proof fn lemma_state_round_trip(s: State)
    ensures
        state_of(utf8(state_name(s))) == Some(s),
{
    reveal_strlit("play");
    reveal_strlit("pause");
    reveal_strlit("stop");
    lemma_ascii_bytes("play"@);
    lemma_ascii_bytes("pause"@);
    lemma_ascii_bytes("stop"@);
    assert(utf8("play"@) =~= seq![112u8, 108u8, 97u8, 121u8]);
    assert(utf8("pause"@) =~= seq![112u8, 97u8, 117u8, 115u8, 101u8]);
    assert(utf8("stop"@) =~= seq![115u8, 116u8, 111u8, 112u8]);
    assert(utf8("stop"@)[0] != utf8("play"@)[0]);
}


proof fn lemma_unsigned_dec(n: nat, max: nat)
    requires
        n <= max,
    ensures
        unsigned_number(dec(n), max) == Some(n),
        plain(dec(n)),
{
    lemma_dec(n);
    assert(is_digit(dec(n)[0]));
    lemma_digits_plain(dec(n));
}

/// No line break in a value.
pub open spec fn plain(v: Seq<u8>) -> bool {
    forall|j: int| 0 <= j < v.len() ==> v[j] != 10u8 && v[j] != 13u8
}

proof fn lemma_digits_plain(s: Seq<u8>)
    requires
        all_digits(s),
    ensures
        plain(s),
{
    assert forall|j: int| 0 <= j < s.len() implies s[j] != 10u8 && s[j] != 13u8 by {
        assert(is_digit(s[j]));
    }
}

proof fn lemma_plain_add(a: Seq<u8>, b: Seq<u8>)
    requires
        plain(a),
        plain(b),
    ensures
        plain(a + b),
{
    assert forall|j: int| 0 <= j < (a + b).len() implies (a + b)[j] != 10u8 && (a + b)[j] != 13u8 by {
        if j < a.len() {
            assert((a + b)[j] == a[j]);
        } else {
            assert((a + b)[j] == b[j - a.len()]);
        }
    }
}

proof fn lemma_decimal_plain(d: Decimal)
    ensures
        plain(decimal_text(d)),
{
    lemma_pow10_pos(d.scale as nat);
    let sign: Seq<u8> = if d.negative {
        seq![45u8]
    } else {
        Seq::empty()
    };
    assert(plain(sign));
    assert(plain(seq![46u8]));
    if d.scale == 0 {
        lemma_dec(d.digits as nat);
        lemma_digits_plain(dec(d.digits as nat));
        lemma_plain_add(sign, dec(d.digits as nat));
    } else {
        let w = dec(d.digits as nat / pow10(d.scale as nat));
        let f = dec_width(d.digits as nat % pow10(d.scale as nat), d.scale as nat);
        lemma_dec(d.digits as nat / pow10(d.scale as nat));
        lemma_dec_width(d.digits as nat % pow10(d.scale as nat), d.scale as nat);
        lemma_digits_plain(w);
        lemma_digits_plain(f);
        lemma_plain_add(w, seq![46u8]);
        lemma_plain_add(w + seq![46u8], f);
        lemma_plain_add(sign, w + seq![46u8] + f);
    }
}

proof fn lemma_time_plain(t: Duration)
    ensures
        plain(time_value_text(t)),
{
    assert(plain(seq![46u8]));
    lemma_dec(t.secs as nat);
    lemma_dec_width(t.nanos as nat, 9);
    lemma_digits_plain(dec(t.secs as nat));
    lemma_digits_plain(dec_width(t.nanos as nat, 9));
    lemma_plain_add(dec(t.secs as nat), seq![46u8]);
    lemma_plain_add(dec(t.secs as nat) + seq![46u8], dec_width(t.nanos as nat, 9));
}

proof fn lemma_audio_plain(a: (u32, u32, u32))
    ensures
        plain(audio_text(a)),
{
    assert(plain(seq![58u8]));
    lemma_dec(a.0 as nat);
    lemma_dec(a.1 as nat);
    lemma_dec(a.2 as nat);
    lemma_digits_plain(dec(a.0 as nat));
    lemma_digits_plain(dec(a.1 as nat));
    lemma_digits_plain(dec(a.2 as nat));
    lemma_plain_add(dec(a.0 as nat), seq![58u8]);
    lemma_plain_add(dec(a.0 as nat) + seq![58u8], dec(a.1 as nat));
    lemma_plain_add(dec(a.0 as nat) + seq![58u8] + dec(a.1 as nat), seq![58u8]);
    lemma_plain_add(dec(a.0 as nat) + seq![58u8] + dec(a.1 as nat) + seq![58u8], dec(a.2 as nat));
}

proof fn lemma_state_plain(s: State)
    ensures
        plain(utf8(state_name(s))),
{
    reveal_strlit("play");
    reveal_strlit("pause");
    reveal_strlit("stop");
    lemma_ascii_bytes("play"@);
    lemma_ascii_bytes("pause"@);
    lemma_ascii_bytes("stop"@);
    assert(utf8("play"@) =~= seq![112u8, 108u8, 97u8, 121u8]);
    assert(utf8("pause"@) =~= seq![112u8, 97u8, 117u8, 115u8, 101u8]);
    assert(utf8("stop"@) =~= seq![115u8, 116u8, 111u8, 112u8]);
}

proof fn lemma_status_keys()
    ensures
        utf8("volume"@) == seq![118u8, 111u8, 108u8, 117u8, 109u8, 101u8],
        utf8("repeat"@) == seq![114u8, 101u8, 112u8, 101u8, 97u8, 116u8],
        utf8("random"@) == seq![114u8, 97u8, 110u8, 100u8, 111u8, 109u8],
        utf8("single"@) == seq![115u8, 105u8, 110u8, 103u8, 108u8, 101u8],
        utf8("consume"@) == seq![99u8, 111u8, 110u8, 115u8, 117u8, 109u8, 101u8],
        utf8("playlist"@) == seq![112u8, 108u8, 97u8, 121u8, 108u8, 105u8, 115u8, 116u8],
        utf8("playlistlength"@) == seq![112u8, 108u8, 97u8, 121u8, 108u8, 105u8, 115u8, 116u8, 108u8, 101u8, 110u8, 103u8, 116u8, 104u8],
        utf8("mixrampdb"@) == seq![109u8, 105u8, 120u8, 114u8, 97u8, 109u8, 112u8, 100u8, 98u8],
        utf8("state"@) == seq![115u8, 116u8, 97u8, 116u8, 101u8],
        utf8("xfade"@) == seq![120u8, 102u8, 97u8, 100u8, 101u8],
        utf8("song"@) == seq![115u8, 111u8, 110u8, 103u8],
        utf8("songid"@) == seq![115u8, 111u8, 110u8, 103u8, 105u8, 100u8],
        utf8("time"@) == seq![116u8, 105u8, 109u8, 101u8],
        utf8("elapsed"@) == seq![101u8, 108u8, 97u8, 112u8, 115u8, 101u8, 100u8],
        utf8("bitrate"@) == seq![98u8, 105u8, 116u8, 114u8, 97u8, 116u8, 101u8],
        utf8("duration"@) == seq![100u8, 117u8, 114u8, 97u8, 116u8, 105u8, 111u8, 110u8],
        utf8("audio"@) == seq![97u8, 117u8, 100u8, 105u8, 111u8],
        utf8("nextsong"@) == seq![110u8, 101u8, 120u8, 116u8, 115u8, 111u8, 110u8, 103u8],
        utf8("nextsongid"@) == seq![110u8, 101u8, 120u8, 116u8, 115u8, 111u8, 110u8, 103u8, 105u8, 100u8],
        utf8("updating_db"@) == seq![117u8, 112u8, 100u8, 97u8, 116u8, 105u8, 110u8, 103u8, 95u8, 100u8, 98u8],
        utf8("error"@) == seq![101u8, 114u8, 114u8, 111u8, 114u8],
{
    reveal_strlit("volume");
    lemma_ascii_bytes("volume"@);
    assert(utf8("volume"@) =~= seq![118u8, 111u8, 108u8, 117u8, 109u8, 101u8]);
    reveal_strlit("repeat");
    lemma_ascii_bytes("repeat"@);
    assert(utf8("repeat"@) =~= seq![114u8, 101u8, 112u8, 101u8, 97u8, 116u8]);
    reveal_strlit("random");
    lemma_ascii_bytes("random"@);
    assert(utf8("random"@) =~= seq![114u8, 97u8, 110u8, 100u8, 111u8, 109u8]);
    reveal_strlit("single");
    lemma_ascii_bytes("single"@);
    assert(utf8("single"@) =~= seq![115u8, 105u8, 110u8, 103u8, 108u8, 101u8]);
    reveal_strlit("consume");
    lemma_ascii_bytes("consume"@);
    assert(utf8("consume"@) =~= seq![99u8, 111u8, 110u8, 115u8, 117u8, 109u8, 101u8]);
    reveal_strlit("playlist");
    lemma_ascii_bytes("playlist"@);
    assert(utf8("playlist"@) =~= seq![112u8, 108u8, 97u8, 121u8, 108u8, 105u8, 115u8, 116u8]);
    reveal_strlit("playlistlength");
    lemma_ascii_bytes("playlistlength"@);
    assert(utf8("playlistlength"@) =~= seq![112u8, 108u8, 97u8, 121u8, 108u8, 105u8, 115u8, 116u8, 108u8, 101u8, 110u8, 103u8, 116u8, 104u8]);
    reveal_strlit("mixrampdb");
    lemma_ascii_bytes("mixrampdb"@);
    assert(utf8("mixrampdb"@) =~= seq![109u8, 105u8, 120u8, 114u8, 97u8, 109u8, 112u8, 100u8, 98u8]);
    reveal_strlit("state");
    lemma_ascii_bytes("state"@);
    assert(utf8("state"@) =~= seq![115u8, 116u8, 97u8, 116u8, 101u8]);
    reveal_strlit("xfade");
    lemma_ascii_bytes("xfade"@);
    assert(utf8("xfade"@) =~= seq![120u8, 102u8, 97u8, 100u8, 101u8]);
    reveal_strlit("song");
    lemma_ascii_bytes("song"@);
    assert(utf8("song"@) =~= seq![115u8, 111u8, 110u8, 103u8]);
    reveal_strlit("songid");
    lemma_ascii_bytes("songid"@);
    assert(utf8("songid"@) =~= seq![115u8, 111u8, 110u8, 103u8, 105u8, 100u8]);
    reveal_strlit("time");
    lemma_ascii_bytes("time"@);
    assert(utf8("time"@) =~= seq![116u8, 105u8, 109u8, 101u8]);
    reveal_strlit("elapsed");
    lemma_ascii_bytes("elapsed"@);
    assert(utf8("elapsed"@) =~= seq![101u8, 108u8, 97u8, 112u8, 115u8, 101u8, 100u8]);
    reveal_strlit("bitrate");
    lemma_ascii_bytes("bitrate"@);
    assert(utf8("bitrate"@) =~= seq![98u8, 105u8, 116u8, 114u8, 97u8, 116u8, 101u8]);
    reveal_strlit("duration");
    lemma_ascii_bytes("duration"@);
    assert(utf8("duration"@) =~= seq![100u8, 117u8, 114u8, 97u8, 116u8, 105u8, 111u8, 110u8]);
    reveal_strlit("audio");
    lemma_ascii_bytes("audio"@);
    assert(utf8("audio"@) =~= seq![97u8, 117u8, 100u8, 105u8, 111u8]);
    reveal_strlit("nextsong");
    lemma_ascii_bytes("nextsong"@);
    assert(utf8("nextsong"@) =~= seq![110u8, 101u8, 120u8, 116u8, 115u8, 111u8, 110u8, 103u8]);
    reveal_strlit("nextsongid");
    lemma_ascii_bytes("nextsongid"@);
    assert(utf8("nextsongid"@) =~= seq![110u8, 101u8, 120u8, 116u8, 115u8, 111u8, 110u8, 103u8, 105u8, 100u8]);
    reveal_strlit("updating_db");
    lemma_ascii_bytes("updating_db"@);
    assert(utf8("updating_db"@) =~= seq![117u8, 112u8, 100u8, 97u8, 116u8, 105u8, 110u8, 103u8, 95u8, 100u8, 98u8]);
    reveal_strlit("error");
    lemma_ascii_bytes("error"@);
    assert(utf8("error"@) =~= seq![101u8, 114u8, 114u8, 111u8, 114u8]);
}

proof fn lemma_status_field_line(name: Seq<u8>, value: Seq<u8>, rest: Seq<u8>, acc: MaybeStatusView, it: StatusItem)
    requires
        forall|j: int| 0 <= j < name.len() ==> name[j] != 58u8 && name[j] != 10u8 && name[j] != 13u8,
        plain(value),
        status_item(name, value) == Some(it),
    ensures
        fields_spec(field_line(name, value) + rest, acc, |l: Seq<u8>, s: MaybeStatusView| status_step(l, s))
            == shifted(
            fields_spec(rest, apply_item(acc, it), |l: Seq<u8>, s: MaybeStatusView| status_step(l, s)),
            field_line(name, value).len(),
        ),
{
    let l = name + seq![58u8, 32u8] + value;
    assert forall|j: int| 0 <= j < l.len() implies l[j] != 10u8 && l[j] != 13u8 by {
        if j >= name.len() + 2 {
            assert(l[j] == value[j - name.len() - 2]);
        }
    }
    assert(field_line(name, value) + rest =~= l + seq![10u8] + rest);
    assert(l[name.len() as int] == 58u8);
    assert forall|j: int| 0 <= j < name.len() implies l[j] != 58u8 by {
        assert(l[j] == name[j]);
    }
    crate::wire::lemma_index_of_first(l, 58u8, name.len() as int);
    assert(l.take(name.len() as int) =~= name);
    assert(l.skip(name.len() + 2 as int) =~= value);
    assert(line_item(l) == Some(it));
    lemma_read_line(l, rest, acc, it);
}

proof fn lemma_status_line_volume(st: StatusView, rest: Seq<u8>, acc: MaybeStatusView)
    requires
        st.elapsed.wf(),
    ensures
        fields_spec(field_line(utf8("volume"@), dec(st.volume as nat)) + rest, acc, |l: Seq<u8>, s: MaybeStatusView| status_step(l, s))
            == shifted(
            fields_spec(rest, MaybeStatusView { volume: Some(st.volume), ..acc }, |l: Seq<u8>, s: MaybeStatusView| status_step(l, s)),
            field_line(utf8("volume"@), dec(st.volume as nat)).len(),
        ),
{
    lemma_status_keys();
    lemma_unsigned_dec(st.volume as nat, 255);
    reveal(status_item);
    assert(status_item(utf8("volume"@), dec(st.volume as nat)) == Some(StatusItem::Volume(st.volume)));
    lemma_status_field_line(utf8("volume"@), dec(st.volume as nat), rest, acc, StatusItem::Volume(st.volume));
}

proof fn lemma_status_line_repeat(st: StatusView, rest: Seq<u8>, acc: MaybeStatusView)
    requires
        st.elapsed.wf(),
    ensures
        fields_spec(field_line(utf8("repeat"@), bool_text(st.repeat)) + rest, acc, |l: Seq<u8>, s: MaybeStatusView| status_step(l, s))
            == shifted(
            fields_spec(rest, MaybeStatusView { repeat: Some(st.repeat), ..acc }, |l: Seq<u8>, s: MaybeStatusView| status_step(l, s)),
            field_line(utf8("repeat"@), bool_text(st.repeat)).len(),
        ),
{
    lemma_status_keys();
    assert(plain(bool_text(st.repeat)));
    lemma_bool_round_trip(st.repeat);
    assert(utf8("repeat"@)[0] != utf8("volume"@)[0]);
    reveal(status_item);
    assert(status_item(utf8("repeat"@), bool_text(st.repeat)) == Some(StatusItem::Repeat(st.repeat)));
    lemma_status_field_line(utf8("repeat"@), bool_text(st.repeat), rest, acc, StatusItem::Repeat(st.repeat));
}

proof fn lemma_status_line_random(st: StatusView, rest: Seq<u8>, acc: MaybeStatusView)
    requires
        st.elapsed.wf(),
    ensures
        fields_spec(field_line(utf8("random"@), bool_text(st.random)) + rest, acc, |l: Seq<u8>, s: MaybeStatusView| status_step(l, s))
            == shifted(
            fields_spec(rest, MaybeStatusView { random: Some(st.random), ..acc }, |l: Seq<u8>, s: MaybeStatusView| status_step(l, s)),
            field_line(utf8("random"@), bool_text(st.random)).len(),
        ),
{
    lemma_status_keys();
    assert(plain(bool_text(st.random)));
    lemma_bool_round_trip(st.random);
    assert(utf8("random"@)[0] != utf8("volume"@)[0]);
    assert(utf8("random"@)[1] != utf8("repeat"@)[1]);
    reveal(status_item);
    assert(status_item(utf8("random"@), bool_text(st.random)) == Some(StatusItem::Random(st.random)));
    lemma_status_field_line(utf8("random"@), bool_text(st.random), rest, acc, StatusItem::Random(st.random));
}

proof fn lemma_status_line_single(st: StatusView, rest: Seq<u8>, acc: MaybeStatusView)
    requires
        st.elapsed.wf(),
    ensures
        fields_spec(field_line(utf8("single"@), bool_text(st.single)) + rest, acc, |l: Seq<u8>, s: MaybeStatusView| status_step(l, s))
            == shifted(
            fields_spec(rest, MaybeStatusView { single: Some(st.single), ..acc }, |l: Seq<u8>, s: MaybeStatusView| status_step(l, s)),
            field_line(utf8("single"@), bool_text(st.single)).len(),
        ),
{
    lemma_status_keys();
    assert(plain(bool_text(st.single)));
    lemma_bool_round_trip(st.single);
    assert(utf8("single"@)[0] != utf8("volume"@)[0]);
    assert(utf8("single"@)[0] != utf8("repeat"@)[0]);
    assert(utf8("single"@)[0] != utf8("random"@)[0]);
    reveal(status_item);
    assert(status_item(utf8("single"@), bool_text(st.single)) == Some(StatusItem::Single(st.single)));
    lemma_status_field_line(utf8("single"@), bool_text(st.single), rest, acc, StatusItem::Single(st.single));
}

proof fn lemma_status_line_consume(st: StatusView, rest: Seq<u8>, acc: MaybeStatusView)
    requires
        st.elapsed.wf(),
    ensures
        fields_spec(field_line(utf8("consume"@), bool_text(st.consume)) + rest, acc, |l: Seq<u8>, s: MaybeStatusView| status_step(l, s))
            == shifted(
            fields_spec(rest, MaybeStatusView { consume: Some(st.consume), ..acc }, |l: Seq<u8>, s: MaybeStatusView| status_step(l, s)),
            field_line(utf8("consume"@), bool_text(st.consume)).len(),
        ),
{
    lemma_status_keys();
    assert(plain(bool_text(st.consume)));
    lemma_bool_round_trip(st.consume);
    assert(utf8("consume"@).len() != utf8("volume"@).len());
    assert(utf8("consume"@).len() != utf8("repeat"@).len());
    assert(utf8("consume"@).len() != utf8("random"@).len());
    assert(utf8("consume"@).len() != utf8("single"@).len());
    reveal(status_item);
    assert(status_item(utf8("consume"@), bool_text(st.consume)) == Some(StatusItem::Consume(st.consume)));
    lemma_status_field_line(utf8("consume"@), bool_text(st.consume), rest, acc, StatusItem::Consume(st.consume));
}

proof fn lemma_status_line_playlist(st: StatusView, rest: Seq<u8>, acc: MaybeStatusView)
    requires
        st.elapsed.wf(),
    ensures
        fields_spec(field_line(utf8("playlist"@), dec(st.playlist as nat)) + rest, acc, |l: Seq<u8>, s: MaybeStatusView| status_step(l, s))
            == shifted(
            fields_spec(rest, MaybeStatusView { playlist: Some(st.playlist), ..acc }, |l: Seq<u8>, s: MaybeStatusView| status_step(l, s)),
            field_line(utf8("playlist"@), dec(st.playlist as nat)).len(),
        ),
{
    lemma_status_keys();
    lemma_unsigned_dec(st.playlist as nat, u32::MAX as nat);
    assert(utf8("playlist"@).len() != utf8("volume"@).len());
    assert(utf8("playlist"@).len() != utf8("repeat"@).len());
    assert(utf8("playlist"@).len() != utf8("random"@).len());
    assert(utf8("playlist"@).len() != utf8("single"@).len());
    assert(utf8("playlist"@).len() != utf8("consume"@).len());
    reveal(status_item);
    assert(status_item(utf8("playlist"@), dec(st.playlist as nat)) == Some(StatusItem::Playlist(st.playlist)));
    lemma_status_field_line(utf8("playlist"@), dec(st.playlist as nat), rest, acc, StatusItem::Playlist(st.playlist));
}

proof fn lemma_status_line_playlist_length(st: StatusView, rest: Seq<u8>, acc: MaybeStatusView)
    requires
        st.elapsed.wf(),
    ensures
        fields_spec(field_line(utf8("playlistlength"@), dec(st.playlist_length as nat)) + rest, acc, |l: Seq<u8>, s: MaybeStatusView| status_step(l, s))
            == shifted(
            fields_spec(rest, MaybeStatusView { playlist_length: Some(st.playlist_length), ..acc }, |l: Seq<u8>, s: MaybeStatusView| status_step(l, s)),
            field_line(utf8("playlistlength"@), dec(st.playlist_length as nat)).len(),
        ),
{
    lemma_status_keys();
    lemma_unsigned_dec(st.playlist_length as nat, u32::MAX as nat);
    assert(utf8("playlistlength"@).len() != utf8("volume"@).len());
    assert(utf8("playlistlength"@).len() != utf8("repeat"@).len());
    assert(utf8("playlistlength"@).len() != utf8("random"@).len());
    assert(utf8("playlistlength"@).len() != utf8("single"@).len());
    assert(utf8("playlistlength"@).len() != utf8("consume"@).len());
    assert(utf8("playlistlength"@).len() != utf8("playlist"@).len());
    reveal(status_item);
    assert(status_item(utf8("playlistlength"@), dec(st.playlist_length as nat)) == Some(StatusItem::PlaylistLength(st.playlist_length)));
    lemma_status_field_line(utf8("playlistlength"@), dec(st.playlist_length as nat), rest, acc, StatusItem::PlaylistLength(st.playlist_length));
}

proof fn lemma_status_line_mix_ramp_db(st: StatusView, rest: Seq<u8>, acc: MaybeStatusView)
    requires
        st.elapsed.wf(),
    ensures
        fields_spec(field_line(utf8("mixrampdb"@), decimal_text(st.mix_ramp_db)) + rest, acc, |l: Seq<u8>, s: MaybeStatusView| status_step(l, s))
            == shifted(
            fields_spec(rest, MaybeStatusView { mix_ramp_db: Some(st.mix_ramp_db), ..acc }, |l: Seq<u8>, s: MaybeStatusView| status_step(l, s)),
            field_line(utf8("mixrampdb"@), decimal_text(st.mix_ramp_db)).len(),
        ),
{
    lemma_status_keys();
    lemma_decimal_plain(st.mix_ramp_db);
    lemma_decimal_round_trip(st.mix_ramp_db);
    assert(utf8("mixrampdb"@).len() != utf8("volume"@).len());
    assert(utf8("mixrampdb"@).len() != utf8("repeat"@).len());
    assert(utf8("mixrampdb"@).len() != utf8("random"@).len());
    assert(utf8("mixrampdb"@).len() != utf8("single"@).len());
    assert(utf8("mixrampdb"@).len() != utf8("consume"@).len());
    assert(utf8("mixrampdb"@).len() != utf8("playlist"@).len());
    assert(utf8("mixrampdb"@).len() != utf8("playlistlength"@).len());
    reveal(status_item);
    assert(status_item(utf8("mixrampdb"@), decimal_text(st.mix_ramp_db)) == Some(StatusItem::MixRampDb(st.mix_ramp_db)));
    lemma_status_field_line(utf8("mixrampdb"@), decimal_text(st.mix_ramp_db), rest, acc, StatusItem::MixRampDb(st.mix_ramp_db));
}

proof fn lemma_status_line_state(st: StatusView, rest: Seq<u8>, acc: MaybeStatusView)
    requires
        st.elapsed.wf(),
    ensures
        fields_spec(field_line(utf8("state"@), utf8(state_name(st.state))) + rest, acc, |l: Seq<u8>, s: MaybeStatusView| status_step(l, s))
            == shifted(
            fields_spec(rest, MaybeStatusView { state: Some(st.state), ..acc }, |l: Seq<u8>, s: MaybeStatusView| status_step(l, s)),
            field_line(utf8("state"@), utf8(state_name(st.state))).len(),
        ),
{
    lemma_status_keys();
    lemma_state_plain(st.state);
    lemma_state_round_trip(st.state);
    assert(utf8("state"@).len() != utf8("volume"@).len());
    assert(utf8("state"@).len() != utf8("repeat"@).len());
    assert(utf8("state"@).len() != utf8("random"@).len());
    assert(utf8("state"@).len() != utf8("single"@).len());
    assert(utf8("state"@).len() != utf8("consume"@).len());
    assert(utf8("state"@).len() != utf8("playlist"@).len());
    assert(utf8("state"@).len() != utf8("playlistlength"@).len());
    assert(utf8("state"@).len() != utf8("mixrampdb"@).len());
    reveal(status_item);
    assert(status_item(utf8("state"@), utf8(state_name(st.state))) == Some(StatusItem::State(st.state)));
    lemma_status_field_line(utf8("state"@), utf8(state_name(st.state)), rest, acc, StatusItem::State(st.state));
}

proof fn lemma_status_line_crossfade(st: StatusView, rest: Seq<u8>, acc: MaybeStatusView)
    requires
        st.elapsed.wf(),
    ensures
        fields_spec(field_line(utf8("xfade"@), dec(st.crossfade as nat)) + rest, acc, |l: Seq<u8>, s: MaybeStatusView| status_step(l, s))
            == shifted(
            fields_spec(rest, MaybeStatusView { crossfade: Some(st.crossfade), ..acc }, |l: Seq<u8>, s: MaybeStatusView| status_step(l, s)),
            field_line(utf8("xfade"@), dec(st.crossfade as nat)).len(),
        ),
{
    lemma_status_keys();
    lemma_unsigned_dec(st.crossfade as nat, u32::MAX as nat);
    assert(utf8("xfade"@).len() != utf8("volume"@).len());
    assert(utf8("xfade"@).len() != utf8("repeat"@).len());
    assert(utf8("xfade"@).len() != utf8("random"@).len());
    assert(utf8("xfade"@).len() != utf8("single"@).len());
    assert(utf8("xfade"@).len() != utf8("consume"@).len());
    assert(utf8("xfade"@).len() != utf8("playlist"@).len());
    assert(utf8("xfade"@).len() != utf8("playlistlength"@).len());
    assert(utf8("xfade"@).len() != utf8("mixrampdb"@).len());
    assert(utf8("xfade"@)[0] != utf8("state"@)[0]);
    reveal(status_item);
    assert(status_item(utf8("xfade"@), dec(st.crossfade as nat)) == Some(StatusItem::Crossfade(st.crossfade)));
    lemma_status_field_line(utf8("xfade"@), dec(st.crossfade as nat), rest, acc, StatusItem::Crossfade(st.crossfade));
}

proof fn lemma_status_line_song(st: StatusView, rest: Seq<u8>, acc: MaybeStatusView)
    requires
        st.elapsed.wf(),
    ensures
        fields_spec(field_line(utf8("song"@), dec(st.song as nat)) + rest, acc, |l: Seq<u8>, s: MaybeStatusView| status_step(l, s))
            == shifted(
            fields_spec(rest, MaybeStatusView { song: Some(st.song), ..acc }, |l: Seq<u8>, s: MaybeStatusView| status_step(l, s)),
            field_line(utf8("song"@), dec(st.song as nat)).len(),
        ),
{
    lemma_status_keys();
    lemma_unsigned_dec(st.song as nat, u32::MAX as nat);
    assert(utf8("song"@).len() != utf8("volume"@).len());
    assert(utf8("song"@).len() != utf8("repeat"@).len());
    assert(utf8("song"@).len() != utf8("random"@).len());
    assert(utf8("song"@).len() != utf8("single"@).len());
    assert(utf8("song"@).len() != utf8("consume"@).len());
    assert(utf8("song"@).len() != utf8("playlist"@).len());
    assert(utf8("song"@).len() != utf8("playlistlength"@).len());
    assert(utf8("song"@).len() != utf8("mixrampdb"@).len());
    assert(utf8("song"@).len() != utf8("state"@).len());
    assert(utf8("song"@).len() != utf8("xfade"@).len());
    reveal(status_item);
    assert(status_item(utf8("song"@), dec(st.song as nat)) == Some(StatusItem::Song(st.song)));
    lemma_status_field_line(utf8("song"@), dec(st.song as nat), rest, acc, StatusItem::Song(st.song));
}

proof fn lemma_status_line_song_id(st: StatusView, rest: Seq<u8>, acc: MaybeStatusView)
    requires
        st.elapsed.wf(),
    ensures
        fields_spec(field_line(utf8("songid"@), dec(st.song_id as nat)) + rest, acc, |l: Seq<u8>, s: MaybeStatusView| status_step(l, s))
            == shifted(
            fields_spec(rest, MaybeStatusView { song_id: Some(st.song_id), ..acc }, |l: Seq<u8>, s: MaybeStatusView| status_step(l, s)),
            field_line(utf8("songid"@), dec(st.song_id as nat)).len(),
        ),
{
    lemma_status_keys();
    lemma_unsigned_dec(st.song_id as nat, u32::MAX as nat);
    assert(utf8("songid"@)[0] != utf8("volume"@)[0]);
    assert(utf8("songid"@)[0] != utf8("repeat"@)[0]);
    assert(utf8("songid"@)[0] != utf8("random"@)[0]);
    assert(utf8("songid"@)[1] != utf8("single"@)[1]);
    assert(utf8("songid"@).len() != utf8("consume"@).len());
    assert(utf8("songid"@).len() != utf8("playlist"@).len());
    assert(utf8("songid"@).len() != utf8("playlistlength"@).len());
    assert(utf8("songid"@).len() != utf8("mixrampdb"@).len());
    assert(utf8("songid"@).len() != utf8("state"@).len());
    assert(utf8("songid"@).len() != utf8("xfade"@).len());
    assert(utf8("songid"@).len() != utf8("song"@).len());
    reveal(status_item);
    assert(status_item(utf8("songid"@), dec(st.song_id as nat)) == Some(StatusItem::SongId(st.song_id)));
    lemma_status_field_line(utf8("songid"@), dec(st.song_id as nat), rest, acc, StatusItem::SongId(st.song_id));
}

proof fn lemma_status_line_elapsed(st: StatusView, rest: Seq<u8>, acc: MaybeStatusView)
    requires
        st.elapsed.wf(),
    ensures
        fields_spec(field_line(utf8("elapsed"@), time_value_text(st.elapsed)) + rest, acc, |l: Seq<u8>, s: MaybeStatusView| status_step(l, s))
            == shifted(
            fields_spec(rest, MaybeStatusView { elapsed: Some(st.elapsed), ..acc }, |l: Seq<u8>, s: MaybeStatusView| status_step(l, s)),
            field_line(utf8("elapsed"@), time_value_text(st.elapsed)).len(),
        ),
{
    lemma_status_keys();
    lemma_time_plain(st.elapsed);
    lemma_time_round_trip(st.elapsed);
    assert(utf8("elapsed"@).len() != utf8("volume"@).len());
    assert(utf8("elapsed"@).len() != utf8("repeat"@).len());
    assert(utf8("elapsed"@).len() != utf8("random"@).len());
    assert(utf8("elapsed"@).len() != utf8("single"@).len());
    assert(utf8("elapsed"@)[0] != utf8("consume"@)[0]);
    assert(utf8("elapsed"@).len() != utf8("playlist"@).len());
    assert(utf8("elapsed"@).len() != utf8("playlistlength"@).len());
    assert(utf8("elapsed"@).len() != utf8("mixrampdb"@).len());
    assert(utf8("elapsed"@).len() != utf8("state"@).len());
    assert(utf8("elapsed"@).len() != utf8("xfade"@).len());
    assert(utf8("elapsed"@).len() != utf8("song"@).len());
    assert(utf8("elapsed"@).len() != utf8("songid"@).len());
    assert(utf8("elapsed"@).len() != utf8("time"@).len());
    reveal(status_item);
    assert(status_item(utf8("elapsed"@), time_value_text(st.elapsed)) == Some(StatusItem::Elapsed(st.elapsed)));
    lemma_status_field_line(utf8("elapsed"@), time_value_text(st.elapsed), rest, acc, StatusItem::Elapsed(st.elapsed));
}

proof fn lemma_status_line_bitrate(st: StatusView, rest: Seq<u8>, acc: MaybeStatusView)
    requires
        st.elapsed.wf(),
    ensures
        fields_spec(field_line(utf8("bitrate"@), dec(st.bitrate as nat)) + rest, acc, |l: Seq<u8>, s: MaybeStatusView| status_step(l, s))
            == shifted(
            fields_spec(rest, MaybeStatusView { bitrate: Some(st.bitrate), ..acc }, |l: Seq<u8>, s: MaybeStatusView| status_step(l, s)),
            field_line(utf8("bitrate"@), dec(st.bitrate as nat)).len(),
        ),
{
    lemma_status_keys();
    lemma_unsigned_dec(st.bitrate as nat, u32::MAX as nat);
    assert(utf8("bitrate"@).len() != utf8("volume"@).len());
    assert(utf8("bitrate"@).len() != utf8("repeat"@).len());
    assert(utf8("bitrate"@).len() != utf8("random"@).len());
    assert(utf8("bitrate"@).len() != utf8("single"@).len());
    assert(utf8("bitrate"@)[0] != utf8("consume"@)[0]);
    assert(utf8("bitrate"@).len() != utf8("playlist"@).len());
    assert(utf8("bitrate"@).len() != utf8("playlistlength"@).len());
    assert(utf8("bitrate"@).len() != utf8("mixrampdb"@).len());
    assert(utf8("bitrate"@).len() != utf8("state"@).len());
    assert(utf8("bitrate"@).len() != utf8("xfade"@).len());
    assert(utf8("bitrate"@).len() != utf8("song"@).len());
    assert(utf8("bitrate"@).len() != utf8("songid"@).len());
    assert(utf8("bitrate"@).len() != utf8("time"@).len());
    assert(utf8("bitrate"@)[0] != utf8("elapsed"@)[0]);
    reveal(status_item);
    assert(status_item(utf8("bitrate"@), dec(st.bitrate as nat)) == Some(StatusItem::Bitrate(st.bitrate)));
    lemma_status_field_line(utf8("bitrate"@), dec(st.bitrate as nat), rest, acc, StatusItem::Bitrate(st.bitrate));
}

proof fn lemma_status_line_audio(st: StatusView, rest: Seq<u8>, acc: MaybeStatusView)
    requires
        st.elapsed.wf(),
    ensures
        fields_spec(field_line(utf8("audio"@), audio_text(st.audio)) + rest, acc, |l: Seq<u8>, s: MaybeStatusView| status_step(l, s))
            == shifted(
            fields_spec(rest, MaybeStatusView { audio: Some(st.audio), ..acc }, |l: Seq<u8>, s: MaybeStatusView| status_step(l, s)),
            field_line(utf8("audio"@), audio_text(st.audio)).len(),
        ),
{
    lemma_status_keys();
    lemma_audio_plain(st.audio);
    lemma_audio_round_trip(st.audio);
    assert(utf8("audio"@).len() != utf8("volume"@).len());
    assert(utf8("audio"@).len() != utf8("repeat"@).len());
    assert(utf8("audio"@).len() != utf8("random"@).len());
    assert(utf8("audio"@).len() != utf8("single"@).len());
    assert(utf8("audio"@).len() != utf8("consume"@).len());
    assert(utf8("audio"@).len() != utf8("playlist"@).len());
    assert(utf8("audio"@).len() != utf8("playlistlength"@).len());
    assert(utf8("audio"@).len() != utf8("mixrampdb"@).len());
    assert(utf8("audio"@)[0] != utf8("state"@)[0]);
    assert(utf8("audio"@)[0] != utf8("xfade"@)[0]);
    assert(utf8("audio"@).len() != utf8("song"@).len());
    assert(utf8("audio"@).len() != utf8("songid"@).len());
    assert(utf8("audio"@).len() != utf8("time"@).len());
    assert(utf8("audio"@).len() != utf8("elapsed"@).len());
    assert(utf8("audio"@).len() != utf8("bitrate"@).len());
    assert(utf8("audio"@).len() != utf8("duration"@).len());
    reveal(status_item);
    assert(status_item(utf8("audio"@), audio_text(st.audio)) == Some(StatusItem::Audio(st.audio)));
    lemma_status_field_line(utf8("audio"@), audio_text(st.audio), rest, acc, StatusItem::Audio(st.audio));
}

proof fn lemma_status_line_next_song(st: StatusView, rest: Seq<u8>, acc: MaybeStatusView)
    requires
        st.elapsed.wf(),
    ensures
        fields_spec(field_line(utf8("nextsong"@), dec(st.next_song as nat)) + rest, acc, |l: Seq<u8>, s: MaybeStatusView| status_step(l, s))
            == shifted(
            fields_spec(rest, MaybeStatusView { next_song: Some(st.next_song), ..acc }, |l: Seq<u8>, s: MaybeStatusView| status_step(l, s)),
            field_line(utf8("nextsong"@), dec(st.next_song as nat)).len(),
        ),
{
    lemma_status_keys();
    lemma_unsigned_dec(st.next_song as nat, u32::MAX as nat);
    assert(utf8("nextsong"@).len() != utf8("volume"@).len());
    assert(utf8("nextsong"@).len() != utf8("repeat"@).len());
    assert(utf8("nextsong"@).len() != utf8("random"@).len());
    assert(utf8("nextsong"@).len() != utf8("single"@).len());
    assert(utf8("nextsong"@).len() != utf8("consume"@).len());
    assert(utf8("nextsong"@)[0] != utf8("playlist"@)[0]);
    assert(utf8("nextsong"@).len() != utf8("playlistlength"@).len());
    assert(utf8("nextsong"@).len() != utf8("mixrampdb"@).len());
    assert(utf8("nextsong"@).len() != utf8("state"@).len());
    assert(utf8("nextsong"@).len() != utf8("xfade"@).len());
    assert(utf8("nextsong"@).len() != utf8("song"@).len());
    assert(utf8("nextsong"@).len() != utf8("songid"@).len());
    assert(utf8("nextsong"@).len() != utf8("time"@).len());
    assert(utf8("nextsong"@).len() != utf8("elapsed"@).len());
    assert(utf8("nextsong"@).len() != utf8("bitrate"@).len());
    assert(utf8("nextsong"@)[0] != utf8("duration"@)[0]);
    assert(utf8("nextsong"@).len() != utf8("audio"@).len());
    reveal(status_item);
    assert(status_item(utf8("nextsong"@), dec(st.next_song as nat)) == Some(StatusItem::NextSong(st.next_song)));
    lemma_status_field_line(utf8("nextsong"@), dec(st.next_song as nat), rest, acc, StatusItem::NextSong(st.next_song));
}

proof fn lemma_status_line_next_song_id(st: StatusView, rest: Seq<u8>, acc: MaybeStatusView)
    requires
        st.elapsed.wf(),
    ensures
        fields_spec(field_line(utf8("nextsongid"@), dec(st.next_song_id as nat)) + rest, acc, |l: Seq<u8>, s: MaybeStatusView| status_step(l, s))
            == shifted(
            fields_spec(rest, MaybeStatusView { next_song_id: Some(st.next_song_id), ..acc }, |l: Seq<u8>, s: MaybeStatusView| status_step(l, s)),
            field_line(utf8("nextsongid"@), dec(st.next_song_id as nat)).len(),
        ),
{
    lemma_status_keys();
    lemma_unsigned_dec(st.next_song_id as nat, u32::MAX as nat);
    assert(utf8("nextsongid"@).len() != utf8("volume"@).len());
    assert(utf8("nextsongid"@).len() != utf8("repeat"@).len());
    assert(utf8("nextsongid"@).len() != utf8("random"@).len());
    assert(utf8("nextsongid"@).len() != utf8("single"@).len());
    assert(utf8("nextsongid"@).len() != utf8("consume"@).len());
    assert(utf8("nextsongid"@).len() != utf8("playlist"@).len());
    assert(utf8("nextsongid"@).len() != utf8("playlistlength"@).len());
    assert(utf8("nextsongid"@).len() != utf8("mixrampdb"@).len());
    assert(utf8("nextsongid"@).len() != utf8("state"@).len());
    assert(utf8("nextsongid"@).len() != utf8("xfade"@).len());
    assert(utf8("nextsongid"@).len() != utf8("song"@).len());
    assert(utf8("nextsongid"@).len() != utf8("songid"@).len());
    assert(utf8("nextsongid"@).len() != utf8("time"@).len());
    assert(utf8("nextsongid"@).len() != utf8("elapsed"@).len());
    assert(utf8("nextsongid"@).len() != utf8("bitrate"@).len());
    assert(utf8("nextsongid"@).len() != utf8("duration"@).len());
    assert(utf8("nextsongid"@).len() != utf8("audio"@).len());
    assert(utf8("nextsongid"@).len() != utf8("nextsong"@).len());
    reveal(status_item);
    assert(status_item(utf8("nextsongid"@), dec(st.next_song_id as nat)) == Some(StatusItem::NextSongId(st.next_song_id)));
    lemma_status_field_line(utf8("nextsongid"@), dec(st.next_song_id as nat), rest, acc, StatusItem::NextSongId(st.next_song_id));
}

/// The lines of a status reply that holds just the required fields.
pub open spec fn status_lines(st: StatusView) -> Seq<u8> {
    field_line(utf8("volume"@), dec(st.volume as nat))
        + field_line(utf8("repeat"@), bool_text(st.repeat))
        + field_line(utf8("random"@), bool_text(st.random))
        + field_line(utf8("single"@), bool_text(st.single))
        + field_line(utf8("consume"@), bool_text(st.consume))
        + field_line(utf8("playlist"@), dec(st.playlist as nat))
        + field_line(utf8("playlistlength"@), dec(st.playlist_length as nat))
        + field_line(utf8("mixrampdb"@), decimal_text(st.mix_ramp_db))
        + field_line(utf8("state"@), utf8(state_name(st.state)))
        + field_line(utf8("xfade"@), dec(st.crossfade as nat))
        + field_line(utf8("song"@), dec(st.song as nat))
        + field_line(utf8("songid"@), dec(st.song_id as nat))
        + field_line(utf8("elapsed"@), time_value_text(st.elapsed))
        + field_line(utf8("bitrate"@), dec(st.bitrate as nat))
        + field_line(utf8("audio"@), audio_text(st.audio))
        + field_line(utf8("nextsong"@), dec(st.next_song as nat))
        + field_line(utf8("nextsongid"@), dec(st.next_song_id as nat))
}

proof fn lemma_status_lines_nest(st: StatusView, tail: Seq<u8>)
    ensures
        status_lines(st) + tail == field_line(utf8("volume"@), dec(st.volume as nat)) + (field_line(utf8("repeat"@), bool_text(st.repeat)) + (field_line(utf8("random"@), bool_text(st.random)) + (field_line(utf8("single"@), bool_text(st.single)) + (field_line(utf8("consume"@), bool_text(st.consume)) + (field_line(utf8("playlist"@), dec(st.playlist as nat)) + (field_line(utf8("playlistlength"@), dec(st.playlist_length as nat)) + (field_line(utf8("mixrampdb"@), decimal_text(st.mix_ramp_db)) + (field_line(utf8("state"@), utf8(state_name(st.state))) + (field_line(utf8("xfade"@), dec(st.crossfade as nat)) + (field_line(utf8("song"@), dec(st.song as nat)) + (field_line(utf8("songid"@), dec(st.song_id as nat)) + (field_line(utf8("elapsed"@), time_value_text(st.elapsed)) + (field_line(utf8("bitrate"@), dec(st.bitrate as nat)) + (field_line(utf8("audio"@), audio_text(st.audio)) + (field_line(utf8("nextsong"@), dec(st.next_song as nat)) + (field_line(utf8("nextsongid"@), dec(st.next_song_id as nat)) + (tail))))))))))))))))),
{
    let l0 = field_line(utf8("volume"@), dec(st.volume as nat));
    let l1 = field_line(utf8("repeat"@), bool_text(st.repeat));
    let l2 = field_line(utf8("random"@), bool_text(st.random));
    let l3 = field_line(utf8("single"@), bool_text(st.single));
    let l4 = field_line(utf8("consume"@), bool_text(st.consume));
    let l5 = field_line(utf8("playlist"@), dec(st.playlist as nat));
    let l6 = field_line(utf8("playlistlength"@), dec(st.playlist_length as nat));
    let l7 = field_line(utf8("mixrampdb"@), decimal_text(st.mix_ramp_db));
    let l8 = field_line(utf8("state"@), utf8(state_name(st.state)));
    let l9 = field_line(utf8("xfade"@), dec(st.crossfade as nat));
    let l10 = field_line(utf8("song"@), dec(st.song as nat));
    let l11 = field_line(utf8("songid"@), dec(st.song_id as nat));
    let l12 = field_line(utf8("elapsed"@), time_value_text(st.elapsed));
    let l13 = field_line(utf8("bitrate"@), dec(st.bitrate as nat));
    let l14 = field_line(utf8("audio"@), audio_text(st.audio));
    let l15 = field_line(utf8("nextsong"@), dec(st.next_song as nat));
    let l16 = field_line(utf8("nextsongid"@), dec(st.next_song_id as nat));
    let p1 = l0;
    let p2 = p1 + l1;
    let p3 = p2 + l2;
    let p4 = p3 + l3;
    let p5 = p4 + l4;
    let p6 = p5 + l5;
    let p7 = p6 + l6;
    let p8 = p7 + l7;
    let p9 = p8 + l8;
    let p10 = p9 + l9;
    let p11 = p10 + l10;
    let p12 = p11 + l11;
    let p13 = p12 + l12;
    let p14 = p13 + l13;
    let p15 = p14 + l14;
    let p16 = p15 + l15;
    let r17 = tail;
    let r16 = l16 + r17;
    let r15 = l15 + r16;
    let r14 = l14 + r15;
    let r13 = l13 + r14;
    let r12 = l12 + r13;
    let r11 = l11 + r12;
    let r10 = l10 + r11;
    let r9 = l9 + r10;
    let r8 = l8 + r9;
    let r7 = l7 + r8;
    let r6 = l6 + r7;
    let r5 = l5 + r6;
    let r4 = l4 + r5;
    let r3 = l3 + r4;
    let r2 = l2 + r3;
    let r1 = l1 + r2;
    let r0 = l0 + r1;
    assert(status_lines(st) == p16 + l16);
    lemma_concat_associative(p16, l16, r17);
    lemma_concat_associative(p15, l15, r16);
    lemma_concat_associative(p14, l14, r15);
    lemma_concat_associative(p13, l13, r14);
    lemma_concat_associative(p12, l12, r13);
    lemma_concat_associative(p11, l11, r12);
    lemma_concat_associative(p10, l10, r11);
    lemma_concat_associative(p9, l9, r10);
    lemma_concat_associative(p8, l8, r9);
    lemma_concat_associative(p7, l7, r8);
    lemma_concat_associative(p6, l6, r7);
    lemma_concat_associative(p5, l5, r6);
    lemma_concat_associative(p4, l4, r5);
    lemma_concat_associative(p3, l3, r4);
    lemma_concat_associative(p2, l2, r3);
    lemma_concat_associative(p1, l1, r2);
}

proof fn lemma_status_ok_tail(acc: MaybeStatusView, t: Seq<u8>)
    ensures
        fields_spec(ok_marker() + t, acc, |l: Seq<u8>, s: MaybeStatusView| status_step(l, s)) == Some((0nat, acc)),
{
    reveal(fields_spec);
    lemma_ok_marker();
    let tail = ok_marker() + t;
    assert(tail[0] == 79u8 && tail[1] == 75u8 && tail[2] == 10u8);
    crate::wire::lemma_index_of_first(tail, 10u8, 2);
    let ok_line = tail.take(2);
    crate::wire::lemma_index_of_none(ok_line, 58u8);
    assert(status_step(ok_line, acc) is None);
}

/// The accumulator once every required field of `st` has been read.
pub open spec fn filled(st: StatusView) -> MaybeStatusView {
    MaybeStatusView {
        volume: Some(st.volume),
        repeat: Some(st.repeat),
        random: Some(st.random),
        single: Some(st.single),
        consume: Some(st.consume),
        playlist: Some(st.playlist),
        playlist_length: Some(st.playlist_length),
        mix_ramp_db: Some(st.mix_ramp_db),
        state: Some(st.state),
        crossfade: Some(st.crossfade),
        song: Some(st.song),
        song_id: Some(st.song_id),
        elapsed: Some(st.elapsed),
        bitrate: Some(st.bitrate),
        audio: Some(st.audio),
        next_song: Some(st.next_song),
        next_song_id: Some(st.next_song_id),
        ..MaybeStatusView::empty()
    }
}

/// A status record without its optional fields, written as the lines of
/// the daemon's reply and then `OK\n`, decodes back to the same record.
pub proof fn law_status_round_trip(st: StatusView, t: Seq<u8>)
    requires
        st.elapsed.wf(),
        st.duration is None,
        st.updating_db is None,
        st.error is None,
        status_lines(st).len() <= usize::MAX,
    ensures
        status_spec(status_lines(st) + ok_marker() + t) == ParseResult::Done(
            status_lines(st).len() as usize,
            CommandResponseView::Status(st),
        ),
{
    let tail = ok_marker() + t;
    lemma_concat_associative(status_lines(st), ok_marker(), t);
    lemma_status_lines_nest(st, tail);
    lemma_status_ok_tail(filled(st), t);
    let l0 = field_line(utf8("volume"@), dec(st.volume as nat));
    let l1 = field_line(utf8("repeat"@), bool_text(st.repeat));
    let l2 = field_line(utf8("random"@), bool_text(st.random));
    let l3 = field_line(utf8("single"@), bool_text(st.single));
    let l4 = field_line(utf8("consume"@), bool_text(st.consume));
    let l5 = field_line(utf8("playlist"@), dec(st.playlist as nat));
    let l6 = field_line(utf8("playlistlength"@), dec(st.playlist_length as nat));
    let l7 = field_line(utf8("mixrampdb"@), decimal_text(st.mix_ramp_db));
    let l8 = field_line(utf8("state"@), utf8(state_name(st.state)));
    let l9 = field_line(utf8("xfade"@), dec(st.crossfade as nat));
    let l10 = field_line(utf8("song"@), dec(st.song as nat));
    let l11 = field_line(utf8("songid"@), dec(st.song_id as nat));
    let l12 = field_line(utf8("elapsed"@), time_value_text(st.elapsed));
    let l13 = field_line(utf8("bitrate"@), dec(st.bitrate as nat));
    let l14 = field_line(utf8("audio"@), audio_text(st.audio));
    let l15 = field_line(utf8("nextsong"@), dec(st.next_song as nat));
    let l16 = field_line(utf8("nextsongid"@), dec(st.next_song_id as nat));
    let a0 = MaybeStatusView::empty();
    let a1 = MaybeStatusView { volume: Some(st.volume), ..a0 };
    let a2 = MaybeStatusView { repeat: Some(st.repeat), ..a1 };
    let a3 = MaybeStatusView { random: Some(st.random), ..a2 };
    let a4 = MaybeStatusView { single: Some(st.single), ..a3 };
    let a5 = MaybeStatusView { consume: Some(st.consume), ..a4 };
    let a6 = MaybeStatusView { playlist: Some(st.playlist), ..a5 };
    let a7 = MaybeStatusView { playlist_length: Some(st.playlist_length), ..a6 };
    let a8 = MaybeStatusView { mix_ramp_db: Some(st.mix_ramp_db), ..a7 };
    let a9 = MaybeStatusView { state: Some(st.state), ..a8 };
    let a10 = MaybeStatusView { crossfade: Some(st.crossfade), ..a9 };
    let a11 = MaybeStatusView { song: Some(st.song), ..a10 };
    let a12 = MaybeStatusView { song_id: Some(st.song_id), ..a11 };
    let a13 = MaybeStatusView { elapsed: Some(st.elapsed), ..a12 };
    let a14 = MaybeStatusView { bitrate: Some(st.bitrate), ..a13 };
    let a15 = MaybeStatusView { audio: Some(st.audio), ..a14 };
    let a16 = MaybeStatusView { next_song: Some(st.next_song), ..a15 };
    let a17 = MaybeStatusView { next_song_id: Some(st.next_song_id), ..a16 };
    let r17 = tail;
    let r16 = l16 + r17;
    let r15 = l15 + r16;
    let r14 = l14 + r15;
    let r13 = l13 + r14;
    let r12 = l12 + r13;
    let r11 = l11 + r12;
    let r10 = l10 + r11;
    let r9 = l9 + r10;
    let r8 = l8 + r9;
    let r7 = l7 + r8;
    let r6 = l6 + r7;
    let r5 = l5 + r6;
    let r4 = l4 + r5;
    let r3 = l3 + r4;
    let r2 = l2 + r3;
    let r1 = l1 + r2;
    let r0 = l0 + r1;
    lemma_status_line_volume(st, r1, a0);
    lemma_status_line_repeat(st, r2, a1);
    lemma_status_line_random(st, r3, a2);
    lemma_status_line_single(st, r4, a3);
    lemma_status_line_consume(st, r5, a4);
    lemma_status_line_playlist(st, r6, a5);
    lemma_status_line_playlist_length(st, r7, a6);
    lemma_status_line_mix_ramp_db(st, r8, a7);
    lemma_status_line_state(st, r9, a8);
    lemma_status_line_crossfade(st, r10, a9);
    lemma_status_line_song(st, r11, a10);
    lemma_status_line_song_id(st, r12, a11);
    lemma_status_line_elapsed(st, r13, a12);
    lemma_status_line_bitrate(st, r14, a13);
    lemma_status_line_audio(st, r15, a14);
    lemma_status_line_next_song(st, r16, a15);
    lemma_status_line_next_song_id(st, r17, a16);
    assert(a17 == filled(st));
    assert(filled(st).finish() == Some(st));
}

proof fn lemma_signed_dec(x: i64)
    ensures
        signed_number(dec_signed(x as int)) == Some(x as int),
{
    if x < 0 {
        lemma_dec((-x) as nat);
        let s = dec_signed(x as int);
        assert(s.skip(1) =~= dec((-x) as nat));
    } else {
        lemma_dec(x as nat);
        assert(is_digit(dec(x as nat)[0]));
    }
}

/// A field line as the daemon sends it: `<name>: <value>\n`.
pub open spec fn field_line(name: Seq<u8>, value: Seq<u8>) -> Seq<u8> {
    name + seq![58u8, 32u8] + value + seq![10u8]
}

/// The lines of a stats reply for a given record.
pub open spec fn stats_lines(st: Stats) -> Seq<u8> {
    field_line(utf8("artists"@), dec(st.artists as nat))
        + field_line(utf8("albums"@), dec(st.albums as nat))
        + field_line(utf8("songs"@), dec(st.songs as nat))
        + field_line(utf8("uptime"@), dec(st.uptime.secs as nat))
        + field_line(utf8("db_playtime"@), dec(st.db_playtime.secs as nat))
        + field_line(utf8("db_update"@), dec_signed(st.db_update as int))
        + field_line(utf8("playtime"@), dec(st.playtime.secs as nat))
}

proof fn lemma_stats_keys()
    ensures
        utf8("artists"@) == seq![97u8, 114u8, 116u8, 105u8, 115u8, 116u8, 115u8],
        utf8("albums"@) == seq![97u8, 108u8, 98u8, 117u8, 109u8, 115u8],
        utf8("songs"@) == seq![115u8, 111u8, 110u8, 103u8, 115u8],
        utf8("uptime"@) == seq![117u8, 112u8, 116u8, 105u8, 109u8, 101u8],
        utf8("db_playtime"@) == seq![100u8, 98u8, 95u8, 112u8, 108u8, 97u8, 121u8, 116u8, 105u8, 109u8, 101u8],
        utf8("db_update"@) == seq![100u8, 98u8, 95u8, 117u8, 112u8, 100u8, 97u8, 116u8, 101u8],
        utf8("playtime"@) == seq![112u8, 108u8, 97u8, 121u8, 116u8, 105u8, 109u8, 101u8],
{
    reveal_strlit("artists");
    lemma_ascii_bytes("artists"@);
    assert(utf8("artists"@) =~= seq![97u8, 114u8, 116u8, 105u8, 115u8, 116u8, 115u8]);
    reveal_strlit("albums");
    lemma_ascii_bytes("albums"@);
    assert(utf8("albums"@) =~= seq![97u8, 108u8, 98u8, 117u8, 109u8, 115u8]);
    reveal_strlit("songs");
    lemma_ascii_bytes("songs"@);
    assert(utf8("songs"@) =~= seq![115u8, 111u8, 110u8, 103u8, 115u8]);
    reveal_strlit("uptime");
    lemma_ascii_bytes("uptime"@);
    assert(utf8("uptime"@) =~= seq![117u8, 112u8, 116u8, 105u8, 109u8, 101u8]);
    reveal_strlit("db_playtime");
    lemma_ascii_bytes("db_playtime"@);
    assert(utf8("db_playtime"@) =~= seq![100u8, 98u8, 95u8, 112u8, 108u8, 97u8, 121u8, 116u8, 105u8, 109u8, 101u8]);
    reveal_strlit("db_update");
    lemma_ascii_bytes("db_update"@);
    assert(utf8("db_update"@) =~= seq![100u8, 98u8, 95u8, 117u8, 112u8, 100u8, 97u8, 116u8, 101u8]);
    reveal_strlit("playtime");
    lemma_ascii_bytes("playtime"@);
    assert(utf8("playtime"@) =~= seq![112u8, 108u8, 97u8, 121u8, 116u8, 105u8, 109u8, 101u8]);
}

proof fn lemma_read_stats_line(name: Seq<u8>, value: Seq<u8>, rest: Seq<u8>, acc: MaybeStats, next: MaybeStats)
    requires
        forall|j: int| 0 <= j < name.len() ==> name[j] != 58u8 && name[j] != 10u8 && name[j] != 13u8,
        all_digits(value) || (value.len() > 0 && value[0] == 45u8 && all_digits(value.skip(1))),
        stats_item(name, value, acc) == Some(next),
    ensures
        fields_spec(field_line(name, value) + rest, acc, |l: Seq<u8>, s: MaybeStats| stats_step(l, s))
            == shifted(
            fields_spec(rest, next, |l: Seq<u8>, s: MaybeStats| stats_step(l, s)),
            field_line(name, value).len(),
        ),
{
    reveal(fields_spec);
    let l = name + seq![58u8, 32u8] + value;
    assert forall|j: int| 0 <= j < value.len() implies value[j] != 10u8 && value[j] != 13u8 && value[j] != 58u8 by {
        if j > 0 && !all_digits(value) {
            assert(value.skip(1)[j - 1] == value[j]);
        }
    }
    assert forall|j: int| 0 <= j < l.len() implies l[j] != 10u8 && l[j] != 13u8 by {
        if j >= name.len() + 2 {
            assert(l[j] == value[j - name.len() - 2]);
        }
    }
    assert(field_line(name, value) + rest =~= l + seq![10u8] + rest);
    lemma_first_line(l, rest);
    assert(l[name.len() as int] == 58u8);
    assert forall|j: int| 0 <= j < name.len() implies l[j] != 58u8 by {
        assert(l[j] == name[j]);
    }
    crate::wire::lemma_index_of_first(l, 58u8, name.len() as int);
    assert(l.take(name.len() as int) =~= name);
    assert(l.skip(name.len() + 2 as int) =~= value);
}

proof fn lemma_stats_line_artists(st: Stats, rest: Seq<u8>, acc: MaybeStats)
    requires
        st.uptime.nanos == 0,
        st.db_playtime.nanos == 0,
        st.playtime.nanos == 0,
        utc_timestamp_valid(st.db_update as int),
    ensures
        fields_spec(field_line(utf8("artists"@), dec(st.artists as nat)) + rest, acc, |l: Seq<u8>, s: MaybeStats| stats_step(l, s))
            == shifted(
            fields_spec(rest, MaybeStats { artists: Some(st.artists), ..acc }, |l: Seq<u8>, s: MaybeStats| stats_step(l, s)),
            field_line(utf8("artists"@), dec(st.artists as nat)).len(),
        ),
{
    lemma_stats_keys();
    lemma_unsigned_dec(st.artists as nat, u64::MAX as nat);
    lemma_dec(st.artists as nat);
    assert(stats_item(utf8("artists"@), dec(st.artists as nat), acc) == Some(MaybeStats { artists: Some(st.artists), ..acc }));
    lemma_read_stats_line(utf8("artists"@), dec(st.artists as nat), rest, acc, MaybeStats { artists: Some(st.artists), ..acc });
}

proof fn lemma_stats_line_albums(st: Stats, rest: Seq<u8>, acc: MaybeStats)
    requires
        st.uptime.nanos == 0,
        st.db_playtime.nanos == 0,
        st.playtime.nanos == 0,
        utc_timestamp_valid(st.db_update as int),
    ensures
        fields_spec(field_line(utf8("albums"@), dec(st.albums as nat)) + rest, acc, |l: Seq<u8>, s: MaybeStats| stats_step(l, s))
            == shifted(
            fields_spec(rest, MaybeStats { albums: Some(st.albums), ..acc }, |l: Seq<u8>, s: MaybeStats| stats_step(l, s)),
            field_line(utf8("albums"@), dec(st.albums as nat)).len(),
        ),
{
    lemma_stats_keys();
    lemma_unsigned_dec(st.albums as nat, u64::MAX as nat);
    lemma_dec(st.albums as nat);
    assert(stats_item(utf8("albums"@), dec(st.albums as nat), acc) == Some(MaybeStats { albums: Some(st.albums), ..acc }));
    lemma_read_stats_line(utf8("albums"@), dec(st.albums as nat), rest, acc, MaybeStats { albums: Some(st.albums), ..acc });
}

proof fn lemma_stats_line_songs(st: Stats, rest: Seq<u8>, acc: MaybeStats)
    requires
        st.uptime.nanos == 0,
        st.db_playtime.nanos == 0,
        st.playtime.nanos == 0,
        utc_timestamp_valid(st.db_update as int),
    ensures
        fields_spec(field_line(utf8("songs"@), dec(st.songs as nat)) + rest, acc, |l: Seq<u8>, s: MaybeStats| stats_step(l, s))
            == shifted(
            fields_spec(rest, MaybeStats { songs: Some(st.songs), ..acc }, |l: Seq<u8>, s: MaybeStats| stats_step(l, s)),
            field_line(utf8("songs"@), dec(st.songs as nat)).len(),
        ),
{
    lemma_stats_keys();
    lemma_unsigned_dec(st.songs as nat, u64::MAX as nat);
    lemma_dec(st.songs as nat);
    assert(stats_item(utf8("songs"@), dec(st.songs as nat), acc) == Some(MaybeStats { songs: Some(st.songs), ..acc }));
    lemma_read_stats_line(utf8("songs"@), dec(st.songs as nat), rest, acc, MaybeStats { songs: Some(st.songs), ..acc });
}

proof fn lemma_stats_line_uptime(st: Stats, rest: Seq<u8>, acc: MaybeStats)
    requires
        st.uptime.nanos == 0,
        st.db_playtime.nanos == 0,
        st.playtime.nanos == 0,
        utc_timestamp_valid(st.db_update as int),
    ensures
        fields_spec(field_line(utf8("uptime"@), dec(st.uptime.secs as nat)) + rest, acc, |l: Seq<u8>, s: MaybeStats| stats_step(l, s))
            == shifted(
            fields_spec(rest, MaybeStats { uptime: Some(st.uptime), ..acc }, |l: Seq<u8>, s: MaybeStats| stats_step(l, s)),
            field_line(utf8("uptime"@), dec(st.uptime.secs as nat)).len(),
        ),
{
    lemma_stats_keys();
    lemma_unsigned_dec(st.uptime.secs as nat, u64::MAX as nat);
    lemma_dec(st.uptime.secs as nat);
    assert(stats_item(utf8("uptime"@), dec(st.uptime.secs as nat), acc) == Some(MaybeStats { uptime: Some(st.uptime), ..acc }));
    lemma_read_stats_line(utf8("uptime"@), dec(st.uptime.secs as nat), rest, acc, MaybeStats { uptime: Some(st.uptime), ..acc });
}

proof fn lemma_stats_line_db_playtime(st: Stats, rest: Seq<u8>, acc: MaybeStats)
    requires
        st.uptime.nanos == 0,
        st.db_playtime.nanos == 0,
        st.playtime.nanos == 0,
        utc_timestamp_valid(st.db_update as int),
    ensures
        fields_spec(field_line(utf8("db_playtime"@), dec(st.db_playtime.secs as nat)) + rest, acc, |l: Seq<u8>, s: MaybeStats| stats_step(l, s))
            == shifted(
            fields_spec(rest, MaybeStats { db_playtime: Some(st.db_playtime), ..acc }, |l: Seq<u8>, s: MaybeStats| stats_step(l, s)),
            field_line(utf8("db_playtime"@), dec(st.db_playtime.secs as nat)).len(),
        ),
{
    lemma_stats_keys();
    lemma_unsigned_dec(st.db_playtime.secs as nat, u64::MAX as nat);
    lemma_dec(st.db_playtime.secs as nat);
    assert(stats_item(utf8("db_playtime"@), dec(st.db_playtime.secs as nat), acc) == Some(MaybeStats { db_playtime: Some(st.db_playtime), ..acc }));
    lemma_read_stats_line(utf8("db_playtime"@), dec(st.db_playtime.secs as nat), rest, acc, MaybeStats { db_playtime: Some(st.db_playtime), ..acc });
}

proof fn lemma_stats_line_db_update(st: Stats, rest: Seq<u8>, acc: MaybeStats)
    requires
        st.uptime.nanos == 0,
        st.db_playtime.nanos == 0,
        st.playtime.nanos == 0,
        utc_timestamp_valid(st.db_update as int),
    ensures
        fields_spec(field_line(utf8("db_update"@), dec_signed(st.db_update as int)) + rest, acc, |l: Seq<u8>, s: MaybeStats| stats_step(l, s))
            == shifted(
            fields_spec(rest, MaybeStats { db_update: Some(st.db_update), ..acc }, |l: Seq<u8>, s: MaybeStats| stats_step(l, s)),
            field_line(utf8("db_update"@), dec_signed(st.db_update as int)).len(),
        ),
{
    lemma_stats_keys();
    lemma_signed_dec(st.db_update);
    if st.db_update < 0 {
        lemma_dec((-st.db_update) as nat);
        assert(dec_signed(st.db_update as int).skip(1) =~= dec((-st.db_update) as nat));
    } else {
        lemma_dec(st.db_update as nat);
    }
    assert(stats_item(utf8("db_update"@), dec_signed(st.db_update as int), acc) == Some(MaybeStats { db_update: Some(st.db_update), ..acc }));
    lemma_read_stats_line(utf8("db_update"@), dec_signed(st.db_update as int), rest, acc, MaybeStats { db_update: Some(st.db_update), ..acc });
}

proof fn lemma_stats_line_playtime(st: Stats, rest: Seq<u8>, acc: MaybeStats)
    requires
        st.uptime.nanos == 0,
        st.db_playtime.nanos == 0,
        st.playtime.nanos == 0,
        utc_timestamp_valid(st.db_update as int),
    ensures
        fields_spec(field_line(utf8("playtime"@), dec(st.playtime.secs as nat)) + rest, acc, |l: Seq<u8>, s: MaybeStats| stats_step(l, s))
            == shifted(
            fields_spec(rest, MaybeStats { playtime: Some(st.playtime), ..acc }, |l: Seq<u8>, s: MaybeStats| stats_step(l, s)),
            field_line(utf8("playtime"@), dec(st.playtime.secs as nat)).len(),
        ),
{
    lemma_stats_keys();
    lemma_unsigned_dec(st.playtime.secs as nat, u64::MAX as nat);
    lemma_dec(st.playtime.secs as nat);
    assert(stats_item(utf8("playtime"@), dec(st.playtime.secs as nat), acc) == Some(MaybeStats { playtime: Some(st.playtime), ..acc }));
    lemma_read_stats_line(utf8("playtime"@), dec(st.playtime.secs as nat), rest, acc, MaybeStats { playtime: Some(st.playtime), ..acc });
}

proof fn lemma_ok_tail(acc: MaybeStats, t: Seq<u8>)
    ensures
        fields_spec(ok_marker() + t, acc, |l: Seq<u8>, s: MaybeStats| stats_step(l, s)) == Some((0nat, acc)),
{
    reveal(fields_spec);
    lemma_ok_marker();
    let tail = ok_marker() + t;
    assert(tail[0] == 79u8 && tail[1] == 75u8 && tail[2] == 10u8);
    crate::wire::lemma_index_of_first(tail, 10u8, 2);
    let ok_line = tail.take(2);
    crate::wire::lemma_index_of_none(ok_line, 58u8);
    assert(stats_step(ok_line, acc) is None);
}

proof fn lemma_stats_lines_nest(st: Stats, tail: Seq<u8>)
    ensures
        stats_lines(st) + tail == field_line(utf8("artists"@), dec(st.artists as nat)) + (field_line(utf8("albums"@), dec(st.albums as nat)) + (field_line(utf8("songs"@), dec(st.songs as nat)) + (field_line(utf8("uptime"@), dec(st.uptime.secs as nat)) + (field_line(utf8("db_playtime"@), dec(st.db_playtime.secs as nat)) + (field_line(utf8("db_update"@), dec_signed(st.db_update as int)) + (field_line(utf8("playtime"@), dec(st.playtime.secs as nat)) + (tail))))))),
{
    let l0 = field_line(utf8("artists"@), dec(st.artists as nat));
    let l1 = field_line(utf8("albums"@), dec(st.albums as nat));
    let l2 = field_line(utf8("songs"@), dec(st.songs as nat));
    let l3 = field_line(utf8("uptime"@), dec(st.uptime.secs as nat));
    let l4 = field_line(utf8("db_playtime"@), dec(st.db_playtime.secs as nat));
    let l5 = field_line(utf8("db_update"@), dec_signed(st.db_update as int));
    let l6 = field_line(utf8("playtime"@), dec(st.playtime.secs as nat));
    let p2 = l0 + l1;
    let p3 = p2 + l2;
    let p4 = p3 + l3;
    let p5 = p4 + l4;
    let p6 = p5 + l5;
    let r6 = l6 + tail;
    let r5 = l5 + r6;
    let r4 = l4 + r5;
    let r3 = l3 + r4;
    let r2 = l2 + r3;
    let r1 = l1 + r2;
    lemma_concat_associative(p6, l6, tail);
    lemma_concat_associative(p5, l5, r6);
    lemma_concat_associative(p4, l4, r5);
    lemma_concat_associative(p3, l3, r4);
    lemma_concat_associative(p2, l2, r3);
    lemma_concat_associative(l0, l1, r2);
}

/// A stats record written as the daemon's reply lines, then `OK\n`,
/// decodes back to the same record (its durations are whole seconds, and
/// its update time is one that chrono can represent).
pub proof fn law_stats_round_trip(st: Stats, t: Seq<u8>)
    requires
        st.uptime.nanos == 0,
        st.db_playtime.nanos == 0,
        st.playtime.nanos == 0,
        utc_timestamp_valid(st.db_update as int),
        stats_lines(st).len() <= usize::MAX,
    ensures
        stats_spec(stats_lines(st) + ok_marker() + t) == ParseResult::Done(
            stats_lines(st).len() as usize,
            CommandResponseView::Stats(st),
        ),
{
    let tail = ok_marker() + t;
    lemma_concat_associative(stats_lines(st), ok_marker(), t);
    lemma_stats_lines_nest(st, tail);
    lemma_ok_tail(MaybeStats { artists: Some(st.artists), albums: Some(st.albums), songs: Some(st.songs), uptime: Some(st.uptime), db_playtime: Some(st.db_playtime), db_update: Some(st.db_update), playtime: Some(st.playtime) }, t);
    let l0 = field_line(utf8("artists"@), dec(st.artists as nat));
    let l1 = field_line(utf8("albums"@), dec(st.albums as nat));
    let l2 = field_line(utf8("songs"@), dec(st.songs as nat));
    let l3 = field_line(utf8("uptime"@), dec(st.uptime.secs as nat));
    let l4 = field_line(utf8("db_playtime"@), dec(st.db_playtime.secs as nat));
    let l5 = field_line(utf8("db_update"@), dec_signed(st.db_update as int));
    let l6 = field_line(utf8("playtime"@), dec(st.playtime.secs as nat));
    let a0 = MaybeStats::empty();
    let a1 = MaybeStats { artists: Some(st.artists), ..a0 };
    let a2 = MaybeStats { albums: Some(st.albums), ..a1 };
    let a3 = MaybeStats { songs: Some(st.songs), ..a2 };
    let a4 = MaybeStats { uptime: Some(st.uptime), ..a3 };
    let a5 = MaybeStats { db_playtime: Some(st.db_playtime), ..a4 };
    let a6 = MaybeStats { db_update: Some(st.db_update), ..a5 };
    let a7 = MaybeStats { playtime: Some(st.playtime), ..a6 };
    let r7 = tail;
    let r6 = l6 + r7;
    let r5 = l5 + r6;
    let r4 = l4 + r5;
    let r3 = l3 + r4;
    let r2 = l2 + r3;
    let r1 = l1 + r2;
    let r0 = l0 + r1;
    lemma_stats_line_artists(st, r1, a0);
    lemma_stats_line_albums(st, r2, a1);
    lemma_stats_line_songs(st, r3, a2);
    lemma_stats_line_uptime(st, r4, a3);
    lemma_stats_line_db_playtime(st, r5, a4);
    lemma_stats_line_db_update(st, r6, a5);
    lemma_stats_line_playtime(st, r7, a6);
    assert(a7 == MaybeStats { artists: Some(st.artists), albums: Some(st.albums), songs: Some(st.songs), uptime: Some(st.uptime), db_playtime: Some(st.db_playtime), db_update: Some(st.db_update), playtime: Some(st.playtime) });
    assert(a7.finish() == Some(st));
}

} // verus!
