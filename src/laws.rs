//! Properties that relate several of the library's functions.
use vstd::prelude::*;
use crate::command::{
    Command, CommandResponseView, ReplyKind, command_reply, list_items, reply_kind, slot_spec,
};
use crate::protocol::{
    ParseResult, ack_head, cmd_error_of, error_spec, line_body, list_ok_marker, ok_marker, tag_spec,
};
use crate::records::{MaybeStats, MaybeStatusView};
use crate::response::{
    StatusItem, apply_item, fields_spec, pair_of, pairs_step, shifted, split_field, stats_step,
    status_item, status_spec, status_step,
};
use crate::wire::{index_of, lemma_index_of, utf8};

verus! {

/// The kind of reply that a decoded response belongs to.
pub open spec fn response_kind(r: CommandResponseView) -> ReplyKind {
    match r {
        CommandResponseView::Blank => ReplyKind::Blank,
        CommandResponseView::Status(_) => ReplyKind::Status,
        CommandResponseView::Stats(_) => ReplyKind::Stats,
        CommandResponseView::Pairs(_) => ReplyKind::Pairs,
        CommandResponseView::Error(_) => ReplyKind::Blank,
    }
}

/// Whatever a command's reply decodes to is a response of the kind that
/// the command expects.
pub proof fn law_reply_kind(c: Command, i: Seq<u8>)
    ensures
        command_reply(c, i) matches ParseResult::Done(_, r) ==> response_kind(r) == reply_kind(c),
{
}

pub proof fn lemma_ok_marker()
    ensures
        ok_marker() == seq![79u8, 75u8, 10u8],
{
    reveal_strlit("OK\n");
    vstd::utf8::is_ascii_chars_encode_utf8("OK\n"@);
    assert(ok_marker() =~= seq![79u8, 75u8, 10u8]);
}

pub proof fn lemma_list_ok_marker()
    ensures
        list_ok_marker() == seq![108u8, 105u8, 115u8, 116u8, 95u8, 79u8, 75u8, 10u8],
{
    reveal_strlit("list_OK\n");
    vstd::utf8::is_ascii_chars_encode_utf8("list_OK\n"@);
    assert(list_ok_marker() =~= seq![108u8, 105u8, 115u8, 116u8, 95u8, 79u8, 75u8, 10u8]);
}

/// A command without payload decodes to `Blank` from any input, taking no
/// bytes; a command whose reply is pairs decodes to no pairs when its reply
/// is just the terminator `OK\n`.
pub proof fn law_minimal_replies(c: Command, t: Seq<u8>)
    ensures
        reply_kind(c) is Blank ==> command_reply(c, t) == ParseResult::Done(0, CommandResponseView::Blank),
        reply_kind(c) is Pairs ==> command_reply(c, ok_marker() + t) == ParseResult::Done(
            0,
            CommandResponseView::Pairs(Seq::empty()),
        ),
{
    reveal(fields_spec);
    let i = ok_marker() + t;
    lemma_ok_marker();
    assert(i[0] == 79u8 && i[1] == 75u8 && i[2] == 10u8);
    assert(index_of(i, 10u8) == Some(2nat)) by {
        crate::wire::lemma_index_of_first(i, 10u8, 2);
    }
    let l = i.take(2);
    assert(index_of(l, 58u8) is None) by {
        crate::wire::lemma_index_of_none(l, 58u8);
    }
    assert(split_field(l) is None);
    assert(pair_of(l) is None);
    let step = |l: Seq<u8>, s: Seq<(Seq<char>, Seq<char>)>| pairs_step(l, s);
    assert(fields_spec(i, Seq::empty(), step) == Some((0nat, Seq::<(Seq<char>, Seq<char>)>::empty())));
}

/// A status accumulator that has every field finalizes; without one of
/// the required fields it does not, while the duration, the database
/// update job and the error may each be absent.
pub proof fn law_status_finish(s: MaybeStatusView)
    requires
        s.is_complete(),
    ensures
        s.finish() is Some,
        (MaybeStatusView { duration: None, ..s }).finish() is Some,
        (MaybeStatusView { updating_db: None, ..s }).finish() is Some,
        (MaybeStatusView { error: None, ..s }).finish() is Some,
        (MaybeStatusView { volume: None, ..s }).finish() is None,
        (MaybeStatusView { repeat: None, ..s }).finish() is None,
        (MaybeStatusView { random: None, ..s }).finish() is None,
        (MaybeStatusView { single: None, ..s }).finish() is None,
        (MaybeStatusView { consume: None, ..s }).finish() is None,
        (MaybeStatusView { playlist: None, ..s }).finish() is None,
        (MaybeStatusView { playlist_length: None, ..s }).finish() is None,
        (MaybeStatusView { state: None, ..s }).finish() is None,
        (MaybeStatusView { song: None, ..s }).finish() is None,
        (MaybeStatusView { song_id: None, ..s }).finish() is None,
        (MaybeStatusView { next_song: None, ..s }).finish() is None,
        (MaybeStatusView { next_song_id: None, ..s }).finish() is None,
        (MaybeStatusView { elapsed: None, ..s }).finish() is None,
        (MaybeStatusView { bitrate: None, ..s }).finish() is None,
        (MaybeStatusView { crossfade: None, ..s }).finish() is None,
        (MaybeStatusView { mix_ramp_db: None, ..s }).finish() is None,
        (MaybeStatusView { audio: None, ..s }).finish() is None,
{
}

pub proof fn lemma_ack_head()
    ensures
        ack_head() == seq![65u8, 67u8, 75u8, 32u8, 91u8],
{
    reveal_strlit("ACK [");
    vstd::utf8::is_ascii_chars_encode_utf8("ACK ["@);
    assert(ack_head() =~= seq![65u8, 67u8, 75u8, 32u8, 91u8]);
}

/// Input that does not begin with `A` holds no error line.
pub proof fn lemma_no_error_line(i: Seq<u8>)
    requires
        i.len() > 0,
        i[0] != 65u8,
    ensures
        error_spec(i) is Error,
{
    lemma_ack_head();
    lemma_index_of(i, 10u8);
    match index_of(i, 10u8) {
        Some(p) => {
            let body = line_body(i.take(p as int));
            if body.len() >= 5 {
                assert(body.take(5)[0] == i[0]);
            }
        },
        None => {
            assert(i.take(1)[0] == i[0]);
        },
    }
}

/// `n` markers `list_OK\n` in a row.
pub open spec fn list_oks(n: nat) -> Seq<u8>
    decreases n,
{
    if n == 0 {
        Seq::empty()
    } else {
        list_ok_marker() + list_oks((n - 1) as nat)
    }
}

pub open spec fn blanks(n: nat) -> Seq<CommandResponseView> {
    Seq::new(n, |j: int| CommandResponseView::Blank)
}

proof fn lemma_blank_slot(c: Command, i: Seq<u8>)
    requires
        reply_kind(c) is Blank,
        i.len() > 0,
        i[0] != 65u8,
    ensures
        slot_spec(c, i) == match tag_spec(i, list_ok_marker()) {
            ParseResult::Done(m, _) => ParseResult::Done(m, (CommandResponseView::Blank, false)),
            ParseResult::Incomplete => ParseResult::Incomplete,
            ParseResult::Error => ParseResult::Error,
        },
{
    reveal(slot_spec);
    lemma_no_error_line(i);
    assert(i.skip(0) =~= i);
}

proof fn lemma_framing_full(cmds: Seq<Command>, t: Seq<u8>)
    requires
        forall|j: int| 0 <= j < cmds.len() ==> reply_kind(#[trigger] cmds[j]) is Blank,
        8 * cmds.len() + 3 <= usize::MAX,
    ensures
        list_items(cmds, list_oks(cmds.len()) + ok_marker() + t) == ParseResult::Done(
            (8 * cmds.len() + 3) as usize,
            blanks(cmds.len()),
        ),
    decreases cmds.len(),
{
    lemma_ok_marker();
    lemma_list_ok_marker();
    let n = cmds.len();
    let full = list_oks(n) + ok_marker() + t;
    if n == 0 {
        assert(full =~= ok_marker() + t);
        assert(full.take(3) =~= ok_marker());
        assert(blanks(0) =~= Seq::empty());
    } else {
        let rest = cmds.skip(1);
        assert forall|j: int| 0 <= j < rest.len() implies reply_kind(#[trigger] rest[j]) is Blank by {
            assert(rest[j] == cmds[j + 1]);
        }
        assert(reply_kind(cmds[0]) is Blank);
        lemma_framing_full(rest, t);
        assert(full =~= list_ok_marker() + (list_oks((n - 1) as nat) + ok_marker() + t));
        assert(full.take(8) =~= list_ok_marker());
        lemma_blank_slot(cmds[0], full);
        assert(full.skip(8) =~= list_oks((n - 1) as nat) + ok_marker() + t);
        assert(seq![CommandResponseView::Blank] + blanks((n - 1) as nat) =~= blanks(n));
    }
}

proof fn lemma_framing_short(cmds: Seq<Command>, k: nat, t: Seq<u8>)
    requires
        forall|j: int| 0 <= j < cmds.len() ==> reply_kind(#[trigger] cmds[j]) is Blank,
        k < cmds.len(),
    ensures
        list_items(cmds, list_oks(k) + ok_marker() + t) is Error,
    decreases cmds.len(),
{
    lemma_ok_marker();
    lemma_list_ok_marker();
    let rest = cmds.skip(1);
    assert(reply_kind(cmds[0]) is Blank);
    let short = list_oks(k) + ok_marker() + t;
    if k == 0 {
        assert(short =~= ok_marker() + t);
        lemma_blank_slot(cmds[0], short);
        if short.len() >= 8 {
            assert(short.take(8)[0] != list_ok_marker()[0]);
        } else {
            assert(list_ok_marker().take(short.len() as int)[0] != short[0]);
        }
    } else {
        assert forall|j: int| 0 <= j < rest.len() implies reply_kind(#[trigger] rest[j]) is Blank by {
            assert(rest[j] == cmds[j + 1]);
        }
        lemma_framing_short(rest, (k - 1) as nat, t);
        assert(short =~= list_ok_marker() + (list_oks((k - 1) as nat) + ok_marker() + t));
        assert(short.take(8) =~= list_ok_marker());
        lemma_blank_slot(cmds[0], short);
        assert(short.skip(8) =~= list_oks((k - 1) as nat) + ok_marker() + t);
    }
}

/// Framing of a command list whose commands carry no payload: the reply
/// holds one `list_OK\n` per command and then `OK\n`. With exactly that
/// many markers the reply decodes to one `Blank` per command; with fewer
/// markers before the `OK\n` it is an error. The reply's length must fit
/// in memory.
pub proof fn law_list_framing(cmds: Seq<Command>, k: nat, t: Seq<u8>)
    requires
        forall|j: int| 0 <= j < cmds.len() ==> reply_kind(#[trigger] cmds[j]) is Blank,
        8 * cmds.len() + 3 <= usize::MAX,
    ensures
        list_items(cmds, list_oks(cmds.len()) + ok_marker() + t) == ParseResult::Done(
            (8 * cmds.len() + 3) as usize,
            blanks(cmds.len()),
        ),
        k < cmds.len() ==> list_items(cmds, list_oks(k) + ok_marker() + t) is Error,
{
    lemma_framing_full(cmds, t);
    if k < cmds.len() {
        lemma_framing_short(cmds, k, t);
    }
}

/// Which field a status item sets (the legacy `time` line sets none).
pub open spec fn item_field(it: StatusItem) -> nat {
    match it {
        StatusItem::Volume(_) => 0,
        StatusItem::Repeat(_) => 1,
        StatusItem::Random(_) => 2,
        StatusItem::Single(_) => 3,
        StatusItem::Consume(_) => 4,
        StatusItem::Playlist(_) => 5,
        StatusItem::PlaylistLength(_) => 6,
        StatusItem::MixRampDb(_) => 7,
        StatusItem::State(_) => 8,
        StatusItem::Crossfade(_) => 9,
        StatusItem::Song(_) => 10,
        StatusItem::SongId(_) => 11,
        StatusItem::Time => 12,
        StatusItem::Elapsed(_) => 13,
        StatusItem::Bitrate(_) => 14,
        StatusItem::Duration(_) => 15,
        StatusItem::Audio(_) => 16,
        StatusItem::NextSong(_) => 17,
        StatusItem::NextSongId(_) => 18,
        StatusItem::UpdatingDb(_) => 19,
        StatusItem::Error(_) => 20,
    }
}

/// The item that a whole status line stands for.
pub open spec fn line_item(l: Seq<u8>) -> Option<StatusItem> {
    match split_field(l) {
        Some((k, v)) => status_item(k, v),
        None => None,
    }
}

pub open spec fn no_newline(l: Seq<u8>) -> bool {
    forall|j: int| 0 <= j < l.len() ==> l[j] != 10u8
}

proof fn lemma_apply_commutes(s: MaybeStatusView, a: StatusItem, b: StatusItem)
    requires
        item_field(a) != item_field(b),
    ensures
        apply_item(apply_item(s, a), b) == apply_item(apply_item(s, b), a),
{
}

pub proof fn lemma_first_line(l: Seq<u8>, rest: Seq<u8>)
    requires
        no_newline(l),
    ensures
        index_of(l + seq![10u8] + rest, 10u8) == Some(l.len()),
        (l + seq![10u8] + rest).take(l.len() as int) == l,
        (l + seq![10u8] + rest).skip(l.len() + 1 as int) == rest,
{
    let i = l + seq![10u8] + rest;
    assert(i[l.len() as int] == 10u8);
    assert forall|j: int| 0 <= j < l.len() implies i[j] != 10u8 by {
        assert(i[j] == l[j]);
    }
    crate::wire::lemma_index_of_first(i, 10u8, l.len() as int);
    assert(i.take(l.len() as int) =~= l);
    assert(i.skip(l.len() + 1 as int) =~= rest);
}

pub proof fn lemma_read_line(l: Seq<u8>, rest: Seq<u8>, t: MaybeStatusView, it: StatusItem)
    requires
        no_newline(l),
        line_item(l) == Some(it),
    ensures
        fields_spec(l + seq![10u8] + rest, t, |l: Seq<u8>, s: MaybeStatusView| status_step(l, s))
            == shifted(
            fields_spec(rest, apply_item(t, it), |l: Seq<u8>, s: MaybeStatusView| status_step(l, s)),
            l.len() + 1,
        ),
{
    reveal(fields_spec);
    lemma_first_line(l, rest);
}

/// Status fields may come in any order: two adjacent lines that set
/// different fields can be swapped, whatever was read before them, without
/// changing what the reply decodes to.
pub proof fn law_status_order(l1: Seq<u8>, l2: Seq<u8>, rest: Seq<u8>, s: MaybeStatusView)
    requires
        no_newline(l1),
        no_newline(l2),
        line_item(l1) is Some,
        line_item(l2) is Some,
        item_field(line_item(l1)->0) != item_field(line_item(l2)->0),
    ensures
        fields_spec(
            l1 + seq![10u8] + (l2 + seq![10u8] + rest),
            s,
            |l: Seq<u8>, s: MaybeStatusView| status_step(l, s),
        ) == fields_spec(
            l2 + seq![10u8] + (l1 + seq![10u8] + rest),
            s,
            |l: Seq<u8>, s: MaybeStatusView| status_step(l, s),
        ),
        status_spec(l1 + seq![10u8] + (l2 + seq![10u8] + rest)) == status_spec(
            l2 + seq![10u8] + (l1 + seq![10u8] + rest),
        ),
{
    let a = line_item(l1)->0;
    let b = line_item(l2)->0;
    lemma_apply_commutes(s, a, b);
    lemma_apply_commutes(MaybeStatusView::empty(), a, b);
    lemma_read_line(l1, l2 + seq![10u8] + rest, s, a);
    lemma_read_line(l2, rest, apply_item(s, a), b);
    lemma_read_line(l2, l1 + seq![10u8] + rest, s, b);
    lemma_read_line(l1, rest, apply_item(s, b), a);
    let e = MaybeStatusView::empty();
    lemma_read_line(l1, l2 + seq![10u8] + rest, e, a);
    lemma_read_line(l2, rest, apply_item(e, a), b);
    lemma_read_line(l2, l1 + seq![10u8] + rest, e, b);
    lemma_read_line(l1, rest, apply_item(e, b), a);
}

proof fn lemma_index_ext(i: Seq<u8>, t: Seq<u8>, c: u8)
    ensures
        index_of(i, c) matches Some(p) ==> index_of(i + t, c) == Some(p),
{
    lemma_index_of(i, c);
    if let Some(p) = index_of(i, c) {
        assert forall|j: int| 0 <= j < p implies (i + t)[j] != c by {
            assert((i + t)[j] == i[j]);
        }
        crate::wire::lemma_index_of_first(i + t, c, p as int);
    }
}

proof fn lemma_tag_ext(i: Seq<u8>, t: Seq<u8>, m: Seq<u8>)
    ensures
        !(tag_spec(i, m) is Incomplete) ==> tag_spec(i + t, m) == tag_spec(i, m),
{
    let it = i + t;
    if m.len() <= i.len() {
        assert(it.take(m.len() as int) =~= i.take(m.len() as int));
    } else if i != m.take(i.len() as int) {
        assert(!(i =~= m.take(i.len() as int)));
        let j = choose|j: int| 0 <= j < i.len() && i[j] != m.take(i.len() as int)[j];
        assert(it[j] == i[j]);
        if m.len() <= it.len() {
            assert(it.take(m.len() as int)[j] != m[j]);
        } else {
            assert(it[j] != m.take(it.len() as int)[j]);
        }
    }
}

proof fn lemma_error_ext(i: Seq<u8>, t: Seq<u8>)
    ensures
        !(error_spec(i) is Incomplete) ==> error_spec(i + t) == error_spec(i),
{
    let it = i + t;
    lemma_index_ext(i, t, 10u8);
    lemma_index_of(i, 10u8);
    lemma_index_of(it, 10u8);
    match index_of(i, 10u8) {
        Some(p) => {
            assert(it.take(p as int) =~= i.take(p as int));
        },
        None => {
            if tag_spec(i, ack_head()) is Error {
                lemma_tag_ext(i, t, ack_head());
                lemma_ack_head();
                if let Some(p) = index_of(it, 10u8) {
                    if p < i.len() {
                        assert(it[p as int] == i[p as int]);
                    }
                    let body = line_body(it.take(p as int));
                    if cmd_error_of(body) is Some {
                        assert(body.take(5) == ack_head());
                        assert forall|j: int| 0 <= j < 5 && j < i.len() implies i[j] == ack_head()[j] by {
                            assert(body.take(5)[j] == body[j]);
                            assert(body[j] == it[j]);
                        }
                        if i.len() >= 5 {
                            assert(i.take(5) =~= ack_head());
                        } else {
                            assert(i =~= ack_head().take(i.len() as int));
                        }
                    }
                }
            }
        },
    }
}

proof fn lemma_fields_ext<A>(i: Seq<u8>, t: Seq<u8>, acc: A, step: spec_fn(Seq<u8>, A) -> Option<A>)
    ensures
        fields_spec(i, acc, step) is Some ==> fields_spec(i + t, acc, step) == fields_spec(i, acc, step),
    decreases i.len(),
{
    reveal(fields_spec);
    lemma_index_ext(i, t, 10u8);
    lemma_index_of(i, 10u8);
    if let Some(p) = index_of(i, 10u8) {
        assert((i + t).take(p as int) =~= i.take(p as int));
        assert((i + t).skip(p + 1 as int) =~= i.skip(p + 1 as int) + t);
        if let Some(next) = step(i.take(p as int), acc) {
            lemma_fields_ext(i.skip(p + 1 as int), t, next, step);
        }
    }
}

proof fn lemma_reply_ext(c: Command, i: Seq<u8>, t: Seq<u8>)
    ensures
        !(command_reply(c, i) is Incomplete) ==> command_reply(c, i + t) == command_reply(c, i),
{
    lemma_fields_ext(i, t, MaybeStatusView::empty(), |l: Seq<u8>, s: MaybeStatusView| status_step(l, s));
    lemma_fields_ext(i, t, MaybeStats::empty(), |l: Seq<u8>, s: MaybeStats| stats_step(l, s));
    lemma_fields_ext(
        i,
        t,
        Seq::empty(),
        |l: Seq<u8>, s: Seq<(Seq<char>, Seq<char>)>| pairs_step(l, s),
    );
}

proof fn lemma_slot_ext(c: Command, i: Seq<u8>, t: Seq<u8>)
    ensures
        !(slot_spec(c, i) is Incomplete) ==> slot_spec(c, i + t) == slot_spec(c, i),
{
    reveal(slot_spec);
    lemma_error_ext(i, t);
    lemma_reply_ext(c, i, t);
    crate::command::lemma_reply_len(c, i);
    if let ParseResult::Done(n, _) = command_reply(c, i) {
        assert((i + t).skip(n as int) =~= i.skip(n as int) + t);
        lemma_tag_ext(i.skip(n as int), t, list_ok_marker());
    }
}

/// Decoding a list reply judges bytes only once they are all there: once
/// the decoding of some input is done, or has failed, more input after it
/// changes nothing.
pub proof fn law_list_prefix(cmds: Seq<Command>, i: Seq<u8>, t: Seq<u8>)
    ensures
        !(list_items(cmds, i) is Incomplete) ==> list_items(cmds, i + t) == list_items(cmds, i),
    decreases cmds.len(),
{
    if cmds.len() == 0 {
        lemma_tag_ext(i, t, ok_marker());
    } else {
        lemma_slot_ext(cmds[0], i, t);
        crate::command::lemma_slot_len(cmds[0], i);
        if let ParseResult::Done(n, _) = slot_spec(cmds[0], i) {
            assert((i + t).skip(n as int) =~= i.skip(n as int) + t);
            law_list_prefix(cmds.skip(1), i.skip(n as int), t);
        }
    }
}

/// A reply that arrives in pieces decodes as the whole does: decoding
/// what has arrived so far is either incomplete, or gives exactly what the
/// whole reply gives.
pub proof fn law_chunked_decode(cmds: Seq<Command>, m: Seq<u8>, k: int)
    requires
        0 <= k <= m.len(),
        list_items(cmds, m) is Done,
    ensures
        list_items(cmds, m.take(k)) is Incomplete || list_items(cmds, m.take(k)) == list_items(cmds, m),
{
    law_list_prefix(cmds, m.take(k), m.skip(k));
    assert(m.take(k) + m.skip(k) =~= m);
}


} // verus!
