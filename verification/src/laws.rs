//! Properties that relate several operations of the library, stated over the
//! same spec functions and views that the operations' own contracts use.
use crate::events::{
    ascending_below, byte_len, events_after, is_completion, is_replayable, is_terminal_replayable,
    is_terminal_stop, or_empty, session_after, session_retained, terminal_after,
    terminal_retained, total_bytes, SESSION_BUFFER_CAP, TERMINAL_BUFFER_MAX_BYTES,
    TERMINAL_BUFFER_MAX_EVENTS,
};
use crate::git_status::{
    branch_status_next, count_of, counts_phase, rev_count, text_of, untracked_paths, BranchStatusView,
    WorktreeInfoView,
};
use crate::error::BackendErrorCode;
use crate::json::{json_bool_pointer, json_error, json_str_pointer};
use crate::merge::{
    merge_branch_to_base_next, permission_error, rebase_onto_base_next, shows_changes, MergeOutcome,
    MergeType,
};
use crate::process::{git, InvocationView, Next, Outcome};
use crate::push::{push_to_pr_next, PushResultView};
use crate::linear_issues::{
    reference_index, session_keys, with_reference, without_reference, without_session,
};
use crate::provision::{
    launch_command, shell_quoted, systemd_unit, UNIT_HEAD, UNIT_MIDDLE, UNIT_TAIL,
};
use crate::terminal::{
    completable_scalar_start, decode_step, nonempty_text, text_of_bytes, is_valid_prefix_len, utf8_incomplete_tail,
    valid_prefix_len,
};
use crate::text::{contains_seq, decimal, occurs_at, replace_all};
use vstd::prelude::*;
use vstd::utf8::{
    decode_utf8, length_of_first_scalar, pop_first_scalar, valid_first_scalar, valid_utf8,
};

verus! {

/// Replay gives back what was recorded: after a replayable chat event with
/// number `seq` is recorded for session `k`, a replay of that session from any
/// earlier number ends with exactly that event.
pub proof fn replay_returns_recorded_event(
    log: Option<Seq<(u64, Seq<char>)>>,
    k: Seq<char>,
    event: Seq<char>,
    seq: u64,
    json: Seq<char>,
    after: u64,
)
    requires
        is_replayable(event),
        !is_completion(event),
        after < seq,
    ensures
        ({
            let replay = events_after(or_empty(session_after(log, k, event, Some(k), seq, json)), after);
            replay.len() > 0 && replay.last() == (seq, json)
        }),
{
    let es = session_retained(or_empty(log), seq, json);
    assert(es.last() == (seq, json));
    assert(es.len() > 0);
}

/// The same for terminals: a replayable terminal event that fits the byte
/// budget is the last event of any replay from an earlier number.
pub proof fn terminal_replay_returns_recorded_event(
    log: Option<Seq<(u64, Seq<char>)>>,
    k: Seq<char>,
    event: Seq<char>,
    seq: u64,
    json: Seq<char>,
    after: u64,
)
    requires
        is_terminal_replayable(event),
        !is_terminal_stop(event),
        byte_len(json) <= TERMINAL_BUFFER_MAX_BYTES,
        after < seq,
    ensures
        ({
            let replay = events_after(or_empty(terminal_after(log, k, event, Some(k), seq, json)), after);
            replay.len() > 0 && replay.last() == (seq, json)
        }),
{
    let es = terminal_retained(or_empty(log), seq, json);
    assert(es.last() == (seq, json));
    assert(es.len() > 0);
}

/// A replay is in recording order and holds only events after the number
/// asked for: from a buffer in ascending order below `bound`, the events after
/// `after` are still ascending below `bound`, and each is numbered above `after`.
pub proof fn replay_is_ordered_and_after(es: Seq<(u64, Seq<char>)>, after: u64, bound: int)
    requires
        ascending_below(es, bound),
    ensures
        ascending_below(events_after(es, after), bound),
        forall|i: int| 0 <= i < events_after(es, after).len() ==> #[trigger] events_after(es, after)[i].0 > after,
    decreases es.len(),
{
    if es.len() > 0 {
        let init = es.drop_last();
        assert(ascending_below(init, bound)) by {
            assert forall|i: int, j: int| 0 <= i < j < init.len() implies init[i].0 < init[j].0 by {
                assert(init[i] == es[i] && init[j] == es[j]);
            }
        }
        replay_is_ordered_and_after(init, after, bound);
        let r = events_after(init, after);
        if es.last().0 > after {
            let out = r.push(es.last());
            assert(events_after(es, after) == out);
            assert forall|i: int| 0 <= i < r.len() implies r[i].0 < es.last().0 by {
                lemma_events_after_from(init, after, i);
                let j = choose|j: int| 0 <= j < init.len() && init[j] == r[i];
                assert(es[j] == init[j]);
            }
            assert forall|i: int, j: int| 0 <= i < j < out.len() implies out[i].0 < out[j].0 by {
                if j == out.len() - 1 {
                    assert(out[i] == r[i]);
                } else {
                    assert(out[i] == r[i] && out[j] == r[j]);
                }
            }
            assert forall|i: int| 0 <= i < out.len() implies out[i].0 < bound && #[trigger] out[i].0 > after by {
                if i < r.len() {
                    assert(out[i] == r[i]);
                }
            }
        }
    }
}

/// Every event of a replay comes from the buffer.
proof fn lemma_events_after_from(es: Seq<(u64, Seq<char>)>, after: u64, i: int)
    requires
        0 <= i < events_after(es, after).len(),
    ensures
        exists|j: int| 0 <= j < es.len() && es[j] == events_after(es, after)[i],
    decreases es.len(),
{
    if es.len() > 0 {
        let r = events_after(es.drop_last(), after);
        if es.last().0 > after && i == r.len() {
            assert(es[es.len() - 1] == events_after(es, after)[i]);
        } else {
            lemma_events_after_from(es.drop_last(), after, i);
            let j = choose|j: int| 0 <= j < es.drop_last().len() && es.drop_last()[j] == r[i];
            assert(es[j] == es.drop_last()[j]);
        }
    }
}

/// Below the cap nothing recorded is lost: recording a new chat event adds
/// exactly that event at the end of every replay from an earlier number.
pub proof fn recording_below_cap_keeps_earlier_events(
    es: Seq<(u64, Seq<char>)>,
    seq: u64,
    json: Seq<char>,
    after: u64,
)
    requires
        es.len() < SESSION_BUFFER_CAP,
        after < seq,
    ensures
        events_after(session_retained(es, seq, json), after) == events_after(es, after).push((seq, json)),
{
    assert(es.push((seq, json)).drop_last() =~= es);
}

/// A completed (done or cancelled) chat run leaves no replay buffer for its
/// session, whatever was buffered before.
pub proof fn completion_clears_session(
    log: Option<Seq<(u64, Seq<char>)>>,
    k: Seq<char>,
    event: Seq<char>,
    seq: u64,
    json: Seq<char>,
)
    requires
        is_completion(event),
    ensures
        session_after(log, k, event, Some(k), seq, json) is None,
{
}

/// Events of other sessions leave a session's buffer untouched.
pub proof fn other_sessions_untouched(
    log: Option<Seq<(u64, Seq<char>)>>,
    k: Seq<char>,
    event: Seq<char>,
    sid: Option<Seq<char>>,
    seq: u64,
    json: Seq<char>,
)
    requires
        sid != Some(k),
    ensures
        session_after(log, k, event, sid, seq, json) == log,
        terminal_after(log, k, event, sid, seq, json) == log,
{
}

/// A session buffer never holds more than [`SESSION_BUFFER_CAP`] events.
pub proof fn session_buffer_is_capped(es: Seq<(u64, Seq<char>)>, seq: u64, json: Seq<char>)
    requires
        es.len() <= SESSION_BUFFER_CAP,
    ensures
        session_retained(es, seq, json).len() <= SESSION_BUFFER_CAP,
{
}

/// A terminal buffer stays within [`TERMINAL_BUFFER_MAX_EVENTS`] events and
/// [`TERMINAL_BUFFER_MAX_BYTES`] bytes, whatever it held before.
pub proof fn terminal_buffer_stays_within_budget(
    es: Seq<(u64, Seq<char>)>,
    seq: u64,
    json: Seq<char>,
)
    ensures
        terminal_retained(es, seq, json).len() <= TERMINAL_BUFFER_MAX_EVENTS,
        total_bytes(terminal_retained(es, seq, json)) <= TERMINAL_BUFFER_MAX_BYTES,
{
    crate::events::lemma_terminal_budget(es, seq, json);
}

/// Registering a new identifier adds one to the count of a registry, and
/// registering a known one leaves it; unregistering takes one off exactly when
/// the identifier was registered.
pub proof fn registry_counts_follow_registration(ids: Set<Seq<char>>, id: Seq<char>)
    requires
        ids.finite(),
    ensures
        ids.insert(id).len() == ids.len() + (if ids.contains(id) { 0int } else { 1int }),
        ids.remove(id).len() == ids.len() - (if ids.contains(id) { 1int } else { 0int }),
{
    if ids.contains(id) {
        assert(ids.insert(id) =~= ids);
    } else {
        assert(ids.remove(id) =~= ids);
    }
}

/// Registering is idempotent, and unregistering a newly registered identifier
/// restores the registry.
pub proof fn register_then_unregister_restores(ids: Set<Seq<char>>, id: Seq<char>)
    ensures
        ids.insert(id).insert(id) == ids.insert(id),
        !ids.contains(id) ==> ids.insert(id).remove(id) == ids,
        ids.insert(id).contains(id),
        !ids.insert(id).remove(id).contains(id),
{
    assert(ids.insert(id).insert(id) =~= ids.insert(id));
    if !ids.contains(id) {
        assert(ids.insert(id).remove(id) =~= ids);
    }
}

// ---------------------------------------------------------------------------
// Decoding a terminal's output stream
// ---------------------------------------------------------------------------

/// The text of an optional chunk; nothing for `None`.
pub open spec fn text_or_empty(t: Option<Seq<char>>) -> Seq<char> {
    match t {
        Some(x) => x,
        None => seq![],
    }
}

/// Every byte string has a longest valid UTF-8 prefix, at least as long as
/// any valid prefix.
proof fn lemma_valid_prefix_exists(bytes: Seq<u8>, k: int)
    requires
        0 <= k <= bytes.len(),
        valid_utf8(bytes.take(k)),
    ensures
        is_valid_prefix_len(bytes, valid_prefix_len(bytes)),
    decreases bytes.len() - k,
{
    if forall|m: int| k < m <= bytes.len() ==> !valid_utf8(#[trigger] bytes.take(m)) {
        assert(is_valid_prefix_len(bytes, k));
    } else {
        let m = choose|m: int| k < m <= bytes.len() && valid_utf8(#[trigger] bytes.take(m));
        lemma_valid_prefix_exists(bytes, m);
    }
}

/// The first scalar of `w`, cut out of it, is still that scalar.
proof fn lemma_first_scalar_prefix(w: Seq<u8>)
    requires
        w.len() > 0,
        valid_first_scalar(w),
    ensures
        1 <= length_of_first_scalar(w) <= w.len(),
        valid_first_scalar(w.take(length_of_first_scalar(w))),
        length_of_first_scalar(w.take(length_of_first_scalar(w))) == length_of_first_scalar(w),
        valid_utf8(w.take(length_of_first_scalar(w))),
{
    let l = length_of_first_scalar(w);
    let p = w.take(l);
    assert(p[0] == w[0]);
    if l >= 2 {
        assert(p[1] == w[1]);
    }
    if l >= 3 {
        assert(p[2] == w[2]);
    }
    if l >= 4 {
        assert(p[3] == w[3]);
    }
    assert(pop_first_scalar(p).len() == 0);
    assert(valid_utf8(pop_first_scalar(p)));
}

/// Valid UTF-8 followed by valid UTF-8 is valid, and decodes to the two texts.
proof fn lemma_decode_concat(p: Seq<u8>, q: Seq<u8>)
    requires
        valid_utf8(p),
        valid_utf8(q),
    ensures
        valid_utf8(p + q),
        decode_utf8(p + q) == decode_utf8(p) + decode_utf8(q),
    decreases p.len(),
{
    vstd::utf8::valid_utf8_concat(p, q);
    if p.len() == 0 {
        assert(p + q =~= q);
        assert(decode_utf8(p) + decode_utf8(q) =~= decode_utf8(q));
    } else {
        lemma_first_scalar_prefix(p);
        let rest = pop_first_scalar(p);
        lemma_decode_concat(rest, q);
        assert(pop_first_scalar(p + q) =~= rest + q);
        assert((p + q)[0] == p[0]);
        if p.len() >= 2 {
            assert((p + q)[1] == p[1]);
        }
        if p.len() >= 3 {
            assert((p + q)[2] == p[2]);
        }
        if p.len() >= 4 {
            assert((p + q)[3] == p[3]);
        }
        assert(decode_utf8(p + q) =~= decode_utf8(p) + decode_utf8(q));
    }
}

/// What follows a valid prefix of valid UTF-8 is valid UTF-8.
proof fn lemma_valid_suffix(w: Seq<u8>, n: int)
    requires
        0 <= n <= w.len(),
        valid_utf8(w),
        valid_utf8(w.take(n)),
    ensures
        valid_utf8(w.skip(n)),
{
    assert(w.subrange(0, n) =~= w.take(n));
    assert(w.subrange(n, w.len() as int) =~= w.skip(n));
    if !valid_utf8(w.skip(n)) {
        vstd::utf8::partial_valid_partial_invalid_utf8(w, n);
    }
}

/// A chunk that is not valid UTF-8 but that more bytes make valid ends in the
/// middle of a character.
proof fn lemma_cut_inside_character(a: Seq<u8>, b: Seq<u8>)
    requires
        valid_utf8(a + b),
        !valid_utf8(a),
        is_valid_prefix_len(a, valid_prefix_len(a)),
    ensures
        utf8_incomplete_tail(a),
{
    let n = valid_prefix_len(a);
    let t = a.skip(n);
    let ab = a + b;
    let w = ab.skip(n);
    assert(ab.take(n) =~= a.take(n));
    lemma_valid_suffix(ab, n);
    assert(w =~= t + b);
    if n == a.len() {
        assert(a.take(n) =~= a);
    }
    assert(t.len() > 0);
    assert(valid_first_scalar(w));
    lemma_first_scalar_prefix(w);
    let l = length_of_first_scalar(w);
    if l <= t.len() {
        assert(t.take(l) =~= w.take(l));
        lemma_decode_concat(a.take(n), t.take(l));
        assert(a.take(n) + t.take(l) =~= a.take(n + l));
        assert(!valid_utf8(a.take(n + l)));
        assert(false);
    } else {
        let c = b.take(l - t.len());
        assert(t + c =~= w.take(l));
        assert(c.len() > 0);
        assert(completable_scalar_start(t));
    }
}

/// A UTF-8 stream decoded in two chunks, from an empty decoder, gives exactly
/// its text and holds nothing back, wherever it was cut, in the middle of a
/// character included.
pub proof fn split_utf8_stream_decodes_whole(a: Seq<u8>, b: Seq<u8>)
    requires
        valid_utf8(a + b),
    ensures
        ({
            let (first, carried) = decode_step(seq![], a);
            let (second, rest) = decode_step(carried, b);
            text_or_empty(first) + text_or_empty(second) == decode_utf8(a + b) && rest.len() == 0
        }),
{
    let ab = a + b;
    assert(Seq::<u8>::empty() + a =~= a);
    assert(a.take(0).len() == 0);
    lemma_valid_prefix_exists(a, 0);
    if valid_utf8(a) {
        assert(ab.take(a.len() as int) =~= a);
        assert(ab.skip(a.len() as int) =~= b);
        lemma_valid_suffix(ab, a.len() as int);
        assert(Seq::<u8>::empty() + b =~= b);
        lemma_decode_concat(a, b);
    } else {
        lemma_cut_inside_character(a, b);
        let n = valid_prefix_len(a);
        let carried = a.skip(n);
        assert(ab.take(n) =~= a.take(n));
        lemma_valid_suffix(ab, n);
        assert(carried + b =~= ab.skip(n));
        lemma_decode_concat(a.take(n), ab.skip(n));
        assert(a.take(n) + ab.skip(n) =~= ab);
    }
}

/// The bytes of a sequence of chunks, in order.
pub open spec fn flatten(chunks: Seq<Seq<u8>>) -> Seq<u8>
    decreases chunks.len(),
{
    if chunks.len() == 0 {
        seq![]
    } else {
        chunks[0] + flatten(chunks.drop_first())
    }
}

/// The text a decoder holding `carried` reports for `chunks`, one decode per
/// chunk, then one finish: the texts of the calls that report one, in order.
pub open spec fn stream_text(carried: Seq<u8>, chunks: Seq<Seq<u8>>) -> Seq<char>
    decreases chunks.len(),
{
    if chunks.len() == 0 {
        text_or_empty(nonempty_text(text_of_bytes(carried)))
    } else {
        let (out, held) = decode_step(carried, chunks[0]);
        text_or_empty(out) + stream_text(held, chunks.drop_first())
    }
}

/// One decode on a stream that stays valid UTF-8: what it reports, followed by
/// the text of what it holds back and of the rest, is the text of it all.
proof fn lemma_decode_one_chunk(carried: Seq<u8>, chunk: Seq<u8>, rest: Seq<u8>)
    requires
        valid_utf8(carried + chunk + rest),
    ensures
        valid_utf8(decode_step(carried, chunk).1 + rest),
        text_or_empty(decode_step(carried, chunk).0) + decode_utf8(decode_step(carried, chunk).1 + rest)
            == decode_utf8(carried + chunk + rest),
{
    let all = carried + chunk;
    let w = all + rest;
    assert(all.take(0).len() == 0);
    lemma_valid_prefix_exists(all, 0);
    if valid_utf8(all) {
        assert(w.take(all.len() as int) =~= all);
        assert(w.skip(all.len() as int) =~= rest);
        lemma_valid_suffix(w, all.len() as int);
        assert(Seq::<u8>::empty() + rest =~= rest);
        lemma_decode_concat(all, rest);
    } else {
        lemma_cut_inside_character(all, rest);
        let n = valid_prefix_len(all);
        assert(w.take(n) =~= all.take(n));
        lemma_valid_suffix(w, n);
        assert(all.skip(n) + rest =~= w.skip(n));
        lemma_decode_concat(all.take(n), w.skip(n));
        assert(all.take(n) + w.skip(n) =~= w);
    }
}

/// From any held bytes that, with the chunks still to come, make valid
/// UTF-8, the decoder reports exactly their text.
proof fn lemma_stream_text(carried: Seq<u8>, chunks: Seq<Seq<u8>>)
    requires
        valid_utf8(carried + flatten(chunks)),
    ensures
        stream_text(carried, chunks) == decode_utf8(carried + flatten(chunks)),
    decreases chunks.len(),
{
    if chunks.len() == 0 {
        assert(carried + flatten(chunks) =~= carried);
    } else {
        let rest = flatten(chunks.drop_first());
        assert(carried + flatten(chunks) =~= carried + chunks[0] + rest);
        lemma_decode_one_chunk(carried, chunks[0], rest);
        lemma_stream_text(decode_step(carried, chunks[0]).1, chunks.drop_first());
    }
}

/// A UTF-8 stream decoded in any number of chunks, from an empty decoder and
/// then finished, is reported as exactly its text, wherever it was cut (in
/// the middle of a character included); no call reports empty text.
pub proof fn chunked_utf8_stream_decodes_whole(chunks: Seq<Seq<u8>>)
    requires
        valid_utf8(flatten(chunks)),
    ensures
        stream_text(seq![], chunks) == decode_utf8(flatten(chunks)),
{
    assert(Seq::<u8>::empty() + flatten(chunks) =~= flatten(chunks));
    lemma_stream_text(seq![], chunks);
}

// ---------------------------------------------------------------------------
// Provisioning
// ---------------------------------------------------------------------------

/// The service that provisioning installs starts Jean bound to the loopback
/// interface, on the configured port and with the token, whatever the
/// server's user, port and token.
pub proof fn provisioned_service_binds_loopback(username: Seq<char>, remote_port: u16, token: Seq<char>)
    ensures
        contains_seq(
            systemd_unit(username, remote_port, token),
            "--host 127.0.0.1 --port "@ + decimal(remote_port as nat) + " --token "@ + token,
        ),
{
    reveal_strlit("/usr/bin/xvfb-run -a /opt/jean-remote/jean.AppImage --headless --host 127.0.0.1 --port ");
    reveal_strlit("--host 127.0.0.1 --port ");
    let launch_head = "/usr/bin/xvfb-run -a /opt/jean-remote/jean.AppImage --headless --host 127.0.0.1 --port "@;
    let bind = "--host 127.0.0.1 --port "@;
    let k = launch_head.len() - bind.len();
    assert(launch_head.subrange(k, launch_head.len() as int) =~= bind);
    let rest = decimal(remote_port as nat) + " --token "@ + token;
    let pat = bind + rest;
    let pre = UNIT_HEAD@ + username + UNIT_MIDDLE@;
    let unit = systemd_unit(username, remote_port, token);
    assert(launch_command(remote_port, token) =~= launch_head + rest);
    assert(unit =~= pre + launch_head + rest + UNIT_TAIL@);
    let i = pre.len() + k;
    assert(unit.subrange(i, i + pat.len()) =~= pat);
    assert(occurs_at(unit, pat, i));
    assert(pat =~= bind + decimal(remote_port as nat) + " --token "@ + token);
}

// ---------------------------------------------------------------------------
// Context references
// ---------------------------------------------------------------------------

/// References in mathematical form: key, sessions, orphaned time.
pub type References = Seq<(Seq<char>, Seq<Seq<char>>, Option<u64>)>;

/// No two references share a key.
pub open spec fn distinct_keys(refs: References) -> bool {
    forall|a: int, b: int| 0 <= a < b < refs.len() ==> refs[a].0 != refs[b].0
}

/// A key is listed for a session exactly when some reference with that key
/// lists the session.
proof fn lemma_session_keys_member(refs: References, session: Seq<char>, key: Seq<char>)
    ensures
        session_keys(refs, session).contains(key) <==> exists|j: int|
            0 <= j < refs.len() && #[trigger] refs[j].0 == key && refs[j].1.contains(session),
    decreases refs.len(),
{
    if refs.len() > 0 {
        let init = refs.drop_last();
        let last = refs.last();
        lemma_session_keys_member(init, session, key);
        let ski = session_keys(init, session);
        assert((exists|j: int| 0 <= j < refs.len() && #[trigger] refs[j].0 == key && refs[j].1.contains(session))
            <==> ((exists|j: int| 0 <= j < init.len() && #[trigger] init[j].0 == key && init[j].1.contains(session))
            || (last.0 == key && last.1.contains(session)))) by {
            if exists|j: int| 0 <= j < refs.len() && #[trigger] refs[j].0 == key && refs[j].1.contains(session) {
                let j = choose|j: int| 0 <= j < refs.len() && #[trigger] refs[j].0 == key && refs[j].1.contains(session);
                if j < init.len() {
                    assert(init[j] == refs[j]);
                }
            }
            if exists|j: int| 0 <= j < init.len() && #[trigger] init[j].0 == key && init[j].1.contains(session) {
                let j = choose|j: int| 0 <= j < init.len() && #[trigger] init[j].0 == key && init[j].1.contains(session);
                assert(refs[j] == init[j]);
            }
            if last.0 == key && last.1.contains(session) {
                assert(refs[refs.len() - 1] == last);
            }
        }
        if last.1.contains(session) {
            let sk = ski.push(last.0);
            assert(sk.contains(key) <==> (ski.contains(key) || last.0 == key)) by {
                if sk.contains(key) {
                    let k = choose|k: int| 0 <= k < sk.len() && sk[k] == key;
                    if k < ski.len() {
                        assert(ski[k] == key);
                    }
                }
                if ski.contains(key) {
                    let k = choose|k: int| 0 <= k < ski.len() && ski[k] == key;
                    assert(sk[k] == key);
                }
                if last.0 == key {
                    assert(sk[ski.len() as int] == key);
                }
            }
        }
    }
}

/// The position found for a key holds that key; when none is found, no
/// reference has it.
proof fn lemma_reference_index_found(refs: References, key: Seq<char>)
    ensures
        reference_index(refs, key) matches Some(i) ==> 0 <= i < refs.len() && refs[i].0 == key,
        reference_index(refs, key) is None ==> forall|j: int| 0 <= j < refs.len() ==> #[trigger] refs[j].0 != key,
    decreases refs.len(),
{
    if refs.len() > 0 && refs.last().0 != key {
        let init = refs.drop_last();
        lemma_reference_index_found(init, key);
        if reference_index(refs, key) is None {
            assert forall|j: int| 0 <= j < refs.len() implies #[trigger] refs[j].0 != key by {
                if j < init.len() {
                    assert(refs[j] == init[j]);
                }
            }
        }
    }
}

/// A session's list no longer holds it once the session is removed.
proof fn lemma_without_session(sessions: Seq<Seq<char>>, session: Seq<char>, other: Seq<char>)
    ensures
        !without_session(sessions, session).contains(session),
        other != session ==> (without_session(sessions, session).contains(other) <==> sessions.contains(other)),
    decreases sessions.len(),
{
    if sessions.len() > 0 {
        let init = sessions.drop_last();
        lemma_without_session(init, session, other);
        let w = without_session(init, session);
        if sessions.last() != session {
            assert forall|x: Seq<char>| w.push(sessions.last()).contains(x) implies (x == sessions.last() || w.contains(x)) by {
                let k = choose|k: int| 0 <= k < w.push(sessions.last()).len() && w.push(sessions.last())[k] == x;
                if k < w.len() {
                    assert(w[k] == x);
                }
            }
            if w.contains(other) {
                let k = choose|k: int| 0 <= k < w.len() && w[k] == other;
                assert(w.push(sessions.last())[k] == other);
            }
            assert(w.push(sessions.last())[w.len() as int] == sessions.last());
        }
        if sessions.contains(other) {
            let k = choose|k: int| 0 <= k < sessions.len() && sessions[k] == other;
            if k < init.len() {
                assert(init[k] == other);
            }
        }
        if init.contains(other) {
            let k = choose|k: int| 0 <= k < init.len() && init[k] == other;
            assert(sessions[k] == other);
        }
    }
}

/// What a session records is read back: after a session starts using a
/// context, the context's key is among the session's keys.
pub proof fn added_reference_is_listed(refs: References, key: Seq<char>, session: Seq<char>)
    ensures
        session_keys(with_reference(refs, key, session), session).contains(key),
{
    lemma_reference_index_found(refs, key);
    let after = with_reference(refs, key, session);
    lemma_session_keys_member(after, session, key);
    match reference_index(refs, key) {
        Some(i) => {
            let listed = if refs[i].1.contains(session) {
                refs[i].1
            } else {
                refs[i].1.push(session)
            };
            if !refs[i].1.contains(session) {
                assert(listed[listed.len() - 1] == session);
            }
            assert(after[i].0 == key && after[i].1.contains(session));
        },
        None => {
            assert(after[refs.len() as int].0 == key);
            assert(after[refs.len() as int].1[0] == session);
        },
    }
}

/// Recording a reference keeps keys distinct.
pub proof fn adding_reference_keeps_keys_distinct(refs: References, key: Seq<char>, session: Seq<char>)
    requires
        distinct_keys(refs),
    ensures
        distinct_keys(with_reference(refs, key, session)),
{
    lemma_reference_index_found(refs, key);
    let after = with_reference(refs, key, session);
    assert forall|a: int, b: int| 0 <= a < b < after.len() implies after[a].0 != after[b].0 by {
        match reference_index(refs, key) {
            Some(i) => {
                assert(refs[a].0 != refs[b].0);
            },
            None => {
                if b == refs.len() {
                    assert(after[a] == refs[a]);
                    assert(refs[a].0 != key);
                } else {
                    assert(after[a] == refs[a] && after[b] == refs[b]);
                }
            },
        }
    }
}

/// A session that stops using a context no longer lists it, and others are
/// unaffected: with distinct keys, after `session` releases `key` its keys
/// hold `key` no more, and every other session's membership is unchanged.
pub proof fn removed_reference_is_not_listed(
    refs: References,
    key: Seq<char>,
    session: Seq<char>,
    now: u64,
    other: Seq<char>,
    other_key: Seq<char>,
)
    requires
        distinct_keys(refs),
        other != session,
    ensures
        !session_keys(without_reference(refs, key, session, now).0, session).contains(key),
        session_keys(without_reference(refs, key, session, now).0, other).contains(other_key)
            <==> session_keys(refs, other).contains(other_key),
{
    lemma_reference_index_found(refs, key);
    let after = without_reference(refs, key, session, now).0;
    lemma_session_keys_member(after, session, key);
    lemma_session_keys_member(after, other, other_key);
    lemma_session_keys_member(refs, other, other_key);
    match reference_index(refs, key) {
        Some(i) => {
            lemma_without_session(refs[i].1, session, other);
            assert forall|j: int| 0 <= j < after.len() && #[trigger] after[j].0 == key implies !after[j].1.contains(session) by {
                if j != i {
                    assert(after[j] == refs[j]);
                    if j < i {
                        assert(refs[j].0 != refs[i].0);
                    } else {
                        assert(refs[i].0 != refs[j].0);
                    }
                }
            }
            if session_keys(after, other).contains(other_key) {
                let j = choose|j: int| 0 <= j < after.len() && #[trigger] after[j].0 == other_key && after[j].1.contains(other);
                if j != i {
                    assert(after[j] == refs[j]);
                }
                assert(refs[j].0 == other_key && refs[j].1.contains(other));
            }
            if session_keys(refs, other).contains(other_key) {
                let j = choose|j: int| 0 <= j < refs.len() && #[trigger] refs[j].0 == other_key && refs[j].1.contains(other);
                if j != i {
                    assert(after[j] == refs[j]);
                }
                assert(after[j].0 == other_key && after[j].1.contains(other));
            }
        },
        None => {},
    }
}

// ---------------------------------------------------------------------------
// Shell quoting
// ---------------------------------------------------------------------------

/// `c` in front of a read value, if there is one.
pub open spec fn prepend(c: char, r: Option<Seq<char>>) -> Option<Seq<char>> {
    match r {
        Some(v) => Some(seq![c] + v),
        None => None,
    }
}

/// The value a POSIX shell reads from a word made of single-quoted parts and
/// backslash-escaped characters; `None` for anything else (an unquoted
/// character or an unterminated quote).
pub open spec fn shell_word_value(w: Seq<char>) -> Option<Seq<char>>
    decreases w.len(),
{
    if w.len() == 0 {
        Some(seq![])
    } else if w[0] == '\'' {
        single_quoted_rest(w.drop_first())
    } else if w[0] == '\\' && w.len() >= 2 {
        prepend(w[1], shell_word_value(w.skip(2)))
    } else {
        None
    }
}

/// The value read from the inside of a single-quoted part onwards: every
/// character stands for itself up to the closing quote.
pub open spec fn single_quoted_rest(w: Seq<char>) -> Option<Seq<char>>
    decreases w.len(),
{
    if w.len() == 0 {
        None
    } else if w[0] == '\'' {
        shell_word_value(w.drop_first())
    } else {
        prepend(w[0], single_quoted_rest(w.drop_first()))
    }
}

/// Inside a single-quoted part, the escaped body of `v`, a closing quote and
/// a word read as `x` read as `v` followed by `x`.
proof fn lemma_quoted_body(v: Seq<char>, t: Seq<char>, x: Seq<char>)
    requires
        shell_word_value(t) == Some(x),
    ensures
        single_quoted_rest(replace_all(v, "'"@, "'\\''"@) + "'"@ + t) == Some(v + x),
    decreases v.len(),
{
    reveal_strlit("'");
    reveal_strlit("'\\''");
    let q = "'"@;
    let esc = "'\\''"@;
    let body = replace_all(v, q, esc);
    if v.len() == 0 {
        assert(body == v);
        let w = body + q + t;
        assert(w =~= q + t);
        assert(w.drop_first() =~= t);
        assert(w[0] == '\'');
        assert(single_quoted_rest(w) == shell_word_value(w.drop_first()));
        assert(v + x =~= x);
    } else {
        let rest = v.drop_first();
        lemma_quoted_body(rest, t, x);
        let tail = replace_all(rest, q, esc) + q + t;
        if v[0] == '\'' {
            assert(v.take(1) =~= q);
            assert(v.skip(1) =~= rest);
            let w = body + q + t;
            assert(w =~= esc + tail);
            assert(w[0] == '\'');
            let w1 = w.drop_first();
            assert(w1[0] == '\\' && w1[1] == '\'');
            assert(w1.skip(2) =~= q + tail);
            assert((q + tail).drop_first() =~= tail);
            assert((q + tail)[0] == '\'');
            assert(shell_word_value(q + tail) == single_quoted_rest(tail));
            assert(shell_word_value(w1) == prepend('\'', shell_word_value(w1.skip(2))));
            assert(single_quoted_rest(w) == shell_word_value(w1));
            assert(v =~= seq!['\''] + rest);
            assert(v + x =~= seq!['\''] + (rest + x));
        } else {
            assert(!(v.take(1) =~= q)) by {
                assert(v.take(1)[0] == v[0]);
            }
            let w = body + q + t;
            assert(w =~= seq![v[0]] + tail);
            assert(w.drop_first() =~= tail);
            assert(w[0] == v[0]);
            assert(single_quoted_rest(w) == prepend(v[0], single_quoted_rest(tail)));
            assert(v + x =~= seq![v[0]] + (rest + x));
        }
    }
}

/// A value quoted for the shell is read back by the shell as exactly that
/// value, whatever characters (single quotes included) it holds.
pub proof fn shell_quoted_word_reads_back(v: Seq<char>)
    ensures
        shell_word_value(shell_quoted(v)) == Some(v),
{
    reveal_strlit("'");
    let q = "'"@;
    let body = replace_all(v, q, "'\\''"@);
    lemma_quoted_body(v, seq![], seq![]);
    let w = shell_quoted(v);
    assert(w =~= q + (body + q + seq![]));
    assert(w.drop_first() =~= body + q + seq![]);
    assert(v + seq![] =~= v);
}


/// On the base branch, the commits not yet pushed are the base branch's own
/// commits that `origin` does not have: whatever git answers, a status whose
/// current branch is its base branch reports an unpushed count equal to its
/// base-ahead count (`git rev-list --count origin/<base>..<base>`).
pub proof fn base_branch_unpushed_is_base_ahead(
    info: WorktreeInfoView,
    now: u64,
    outs: Seq<Outcome>,
    v: BranchStatusView,
)
    requires
        branch_status_next(info, now, outs) == Next::<Result<BranchStatusView, (BackendErrorCode, Seq<char>)>>::Done(Ok(v)),
        v.current_branch == v.base_branch,
    ensures
        v.unpushed_count == v.base_branch_ahead_count,
{
}

/// A squash merge never makes a merge commit: every `git merge` it asks for
/// is `git merge --squash <feature>` (or `git merge --abort` after a failed
/// one), whatever git answers.
pub proof fn squash_merge_asks_only_squash(
    repo: Seq<char>,
    worktree: Seq<char>,
    feature: Seq<char>,
    base: Seq<char>,
    outs: Seq<Outcome>,
    inv: InvocationView,
)
    requires
        merge_branch_to_base_next(repo, worktree, feature, base, MergeType::Squash, outs)
            == Next::<MergeOutcome>::Run(inv),
        inv.args.len() > 0,
        inv.args[0] == "merge"@,
    ensures
        inv.args == seq!["merge"@, "--squash"@, feature] || inv.args == seq!["merge"@, "--abort"@],
{
    reveal_strlit("merge");
    reveal_strlit("status");
    reveal_strlit("checkout");
    reveal_strlit("pull");
    reveal_strlit("diff");
    reveal_strlit("rev-parse");
    reveal_strlit("commit");
    assert("merge"@[0] != "status"@[0] && "merge"@[0] != "checkout"@[0] && "merge"@[0] != "pull"@[0]);
    assert("merge"@[0] != "diff"@[0] && "merge"@[0] != "rev-parse"@[0] && "merge"@[0] != "commit"@[0]);
    assert("merge"@ != "status"@ && "merge"@ != "checkout"@ && "merge"@ != "pull"@);
    assert("merge"@ != "diff"@ && "merge"@ != "rev-parse"@ && "merge"@ != "commit"@);
}

/// A squash merge on a clean base branch, once checked out and pulled, asks
/// for `git merge --squash <feature>`; when that succeeds, it commits the
/// result as one commit, `Squashed commit from '<feature>'`.
pub proof fn squash_merge_squashes_then_commits(
    repo: Seq<char>,
    worktree: Seq<char>,
    feature: Seq<char>,
    base: Seq<char>,
    outs: Seq<Outcome>,
)
    requires
        outs.len() >= 3,
        outs[0] matches Ok(o) && !shows_changes(o),
        outs[1] matches Ok(c) && c.success,
    ensures
        outs.len() == 3 ==> merge_branch_to_base_next(repo, worktree, feature, base, MergeType::Squash, outs)
            == Next::<MergeOutcome>::Run(git(repo, seq!["merge"@, "--squash"@, feature])),
        (outs.len() == 4 && (outs[3] matches Ok(m) && m.success)) ==> merge_branch_to_base_next(
            repo,
            worktree,
            feature,
            base,
            MergeType::Squash,
            outs,
        ) == Next::<MergeOutcome>::Run(
            git(repo, seq!["commit"@, "-m"@, "Squashed commit from '"@ + feature + "'"@]),
        ),
{
}

/// A finished chat run, done or cancelled, leaves its session no replay
/// buffer: after `chat:done` or `chat:cancelled` is recorded for session `k`,
/// a replay of `k` from any number is empty.
pub proof fn done_or_cancelled_clears_replay(
    log: Option<Seq<(u64, Seq<char>)>>,
    k: Seq<char>,
    seq: u64,
    json: Seq<char>,
    after: u64,
)
    ensures
        session_after(log, k, "chat:cancelled"@, Some(k), seq, json) is None,
        session_after(log, k, "chat:done"@, Some(k), seq, json) is None,
        events_after(or_empty(session_after(log, k, "chat:cancelled"@, Some(k), seq, json)), after).len() == 0,
        events_after(or_empty(session_after(log, k, "chat:done"@, Some(k), seq, json)), after).len() == 0,
{
}

/// Rebasing onto the base branch always rebases onto the fetched remote
/// branch: every `git rebase` asked for is `git rebase origin/<base>` (or
/// `git rebase --abort` after a failed one), whatever git answers.
pub proof fn rebase_targets_fetched_base(
    repo: Seq<char>,
    base: Seq<char>,
    message: Option<Seq<char>>,
    outs: Seq<Outcome>,
    inv: InvocationView,
)
    requires
        rebase_onto_base_next(repo, base, message, outs) == Next::<Result<Seq<char>, Seq<char>>>::Run(inv),
        inv.args.len() > 0,
        inv.args[0] == "rebase"@,
    ensures
        inv.args == seq!["rebase"@, "origin/"@ + base] || inv.args == seq!["rebase"@, "--abort"@],
{
    reveal_strlit("rebase");
    reveal_strlit("status");
    reveal_strlit("add");
    reveal_strlit("commit");
    reveal_strlit("fetch");
    reveal_strlit("push");
    assert("rebase"@[0] != "status"@[0] && "rebase"@[0] != "commit"@[0]);
    assert("rebase"@ != "status"@ && "rebase"@ != "commit"@ && "rebase"@ != "add"@);
    assert("rebase"@ != "fetch"@ && "rebase"@ != "push"@);
}

/// With a clean worktree and a successful `git fetch origin <base>`, the next
/// command is `git rebase origin/<base>`.
pub proof fn clean_fetched_worktree_rebases_onto_origin(
    repo: Seq<char>,
    base: Seq<char>,
    message: Option<Seq<char>>,
    outs: Seq<Outcome>,
)
    requires
        outs.len() == 2,
        outs[0] matches Ok(o) && !shows_changes(o),
        outs[1] matches Ok(f) && f.success,
    ensures
        rebase_onto_base_next(repo, base, message, outs) == Next::<Result<Seq<char>, Seq<char>>>::Run(
            git(repo, seq!["rebase"@, "origin/"@ + base]),
        ),
{
}

/// A push to a pull request is reported as refused for lack of permission only
/// when git's refusal reads as a permission error, and then it reports that
/// refusal.
pub proof fn permission_denied_only_on_permission_error(
    repo: Seq<char>,
    pr_number: u32,
    outs: Seq<Outcome>,
    v: PushResultView,
)
    requires
        push_to_pr_next(repo, pr_number, outs) == Next::<Result<PushResultView, Seq<char>>>::Done(Ok(v)),
        v.permission_denied,
    ensures
        permission_error(v.output),
        !v.fell_back,
{
}

/// A push to a same-repository pull request's branch that git refuses for any
/// reason but permission falls back to a regular `git push`.
pub proof fn lease_push_refusal_falls_back(
    repo: Seq<char>,
    pr_number: u32,
    outs: Seq<Outcome>,
    branch: Seq<char>,
)
    requires
        outs.len() == 2,
        outs[0] matches Ok(v) && v.success && json_error(v.stdout@) is None
            && json_str_pointer(v.stdout@, "/headRefName"@) == Some(branch)
            && json_bool_pointer(v.stdout@, "/isCrossRepository"@) != Some(true),
        outs[1] matches Ok(p) && !p.success && !permission_error(p.stderr@),
    ensures
        push_to_pr_next(repo, pr_number, outs) == Next::<Result<PushResultView, Seq<char>>>::Run(
            git(repo, seq!["push"@]),
        ),
{
}

/// A plain merge always makes a merge commit: every `git merge` it asks for
/// is `git merge --no-ff <feature> -m "Merge branch '<feature>'"` (or
/// `git merge --abort` after a failed one), whatever git answers.
pub proof fn plain_merge_asks_only_no_ff(
    repo: Seq<char>,
    worktree: Seq<char>,
    feature: Seq<char>,
    base: Seq<char>,
    outs: Seq<Outcome>,
    inv: InvocationView,
)
    requires
        merge_branch_to_base_next(repo, worktree, feature, base, MergeType::Merge, outs)
            == Next::<MergeOutcome>::Run(inv),
        inv.args.len() > 0,
        inv.args[0] == "merge"@,
    ensures
        inv.args == seq!["merge"@, "--no-ff"@, feature, "-m"@, "Merge branch '"@ + feature + "'"@]
            || inv.args == seq!["merge"@, "--abort"@],
{
    reveal_strlit("merge");
    reveal_strlit("status");
    reveal_strlit("checkout");
    reveal_strlit("pull");
    reveal_strlit("diff");
    reveal_strlit("rev-parse");
    assert("merge"@[0] != "status"@[0] && "merge"@[0] != "checkout"@[0] && "merge"@[0] != "pull"@[0]);
    assert("merge"@[0] != "diff"@[0] && "merge"@[0] != "rev-parse"@[0]);
}

/// A rebase merge rebases the feature branch in its worktree onto the local
/// base branch and then only fast-forwards the base branch in the main
/// repository: every `git rebase` is run in the worktree, as
/// `git rebase <base>` or `git rebase --abort`, and every `git merge` is
/// `git merge --ff-only <feature>` in the main repository.
pub proof fn rebase_merge_only_fast_forwards(
    repo: Seq<char>,
    worktree: Seq<char>,
    feature: Seq<char>,
    base: Seq<char>,
    outs: Seq<Outcome>,
    inv: InvocationView,
)
    requires
        merge_branch_to_base_next(repo, worktree, feature, base, MergeType::Rebase, outs)
            == Next::<MergeOutcome>::Run(inv),
        inv.args.len() > 0,
    ensures
        inv.args[0] == "merge"@ ==> inv == git(repo, seq!["merge"@, "--ff-only"@, feature]),
        inv.args[0] == "rebase"@ ==> (inv == git(worktree, seq!["rebase"@, base]) || inv == git(
            worktree,
            seq!["rebase"@, "--abort"@],
        )),
{
    reveal_strlit("merge");
    reveal_strlit("rebase");
    reveal_strlit("status");
    reveal_strlit("checkout");
    reveal_strlit("pull");
    reveal_strlit("diff");
    reveal_strlit("rev-parse");
    assert("merge"@[0] != "status"@[0] && "merge"@[0] != "checkout"@[0] && "merge"@[0] != "pull"@[0]);
    assert("merge"@[0] != "diff"@[0] && "merge"@[0] != "rev-parse"@[0] && "merge"@[0] != "rebase"@[0]);
    assert("rebase"@[0] != "status"@[0] && "rebase"@[0] != "checkout"@[0] && "rebase"@[0] != "pull"@[0]);
    assert("rebase"@[0] != "diff"@[0] && "rebase"@[2] != "rev-parse"@[2]);
}

/// Rebasing onto the base branch rewrites history, so it pushes only with a
/// lease: every `git push` asked for is `git push --force-with-lease` (or
/// `git push -u origin HEAD` when git asks for an upstream).
pub proof fn rebase_pushes_with_lease(
    repo: Seq<char>,
    base: Seq<char>,
    message: Option<Seq<char>>,
    outs: Seq<Outcome>,
    inv: InvocationView,
)
    requires
        rebase_onto_base_next(repo, base, message, outs) == Next::<Result<Seq<char>, Seq<char>>>::Run(inv),
        inv.args.len() > 0,
        inv.args[0] == "push"@,
    ensures
        inv.args == seq!["push"@, "--force-with-lease"@] || inv.args == seq![
            "push"@,
            "-u"@,
            "origin"@,
            "HEAD"@,
        ],
{
    reveal_strlit("rebase");
    reveal_strlit("status");
    reveal_strlit("add");
    reveal_strlit("commit");
    reveal_strlit("fetch");
    reveal_strlit("push");
    assert("push"@[0] != "status"@[0] && "push"@[0] != "commit"@[0] && "push"@[0] != "add"@[0]);
    assert("push"@[0] != "fetch"@[0] && "push"@[0] != "rebase"@[0]);
}

/// A stopped terminal leaves no replay buffer: after `terminal:stopped` is
/// recorded for terminal `k`, a replay of `k` from any number is empty.
pub proof fn stopped_terminal_clears_replay(
    log: Option<Seq<(u64, Seq<char>)>>,
    k: Seq<char>,
    seq: u64,
    json: Seq<char>,
    after: u64,
)
    ensures
        terminal_after(log, k, "terminal:stopped"@, Some(k), seq, json) is None,
        events_after(or_empty(terminal_after(log, k, "terminal:stopped"@, Some(k), seq, json)), after).len()
            == 0,
{
}

/// The chat events of a running session are kept for replay: after one of
/// them (`chat:sending`, `chat:chunk`, the tool, thinking, permission and
/// Codex request events, `chat:error`) is recorded with number `seq` for
/// session `k`, a replay of `k` from an earlier number ends with it.
pub proof fn running_chat_events_are_replayed(
    log: Option<Seq<(u64, Seq<char>)>>,
    k: Seq<char>,
    event: Seq<char>,
    seq: u64,
    json: Seq<char>,
    after: u64,
)
    requires
        event == "chat:sending"@ || event == "chat:chunk"@ || event == "chat:tool_use"@
            || event == "chat:tool_block"@ || event == "chat:tool_result"@ || event == "chat:thinking"@
            || event == "chat:permission_denied"@ || event == "chat:codex_command_approval_request"@
            || event == "chat:codex_permission_request"@ || event == "chat:codex_user_input_request"@
            || event == "chat:codex_mcp_elicitation_request"@
            || event == "chat:codex_dynamic_tool_call_request"@ || event == "chat:error"@,
        after < seq,
    ensures
        ({
            let replay = events_after(or_empty(session_after(log, k, event, Some(k), seq, json)), after);
            replay.len() > 0 && replay.last() == (seq, json)
        }),
{
    reveal_strlit("chat:done");
    reveal_strlit("chat:cancelled");
    reveal_strlit("chat:sending");
    reveal_strlit("chat:chunk");
    reveal_strlit("chat:tool_use");
    reveal_strlit("chat:tool_block");
    reveal_strlit("chat:tool_result");
    reveal_strlit("chat:thinking");
    reveal_strlit("chat:permission_denied");
    reveal_strlit("chat:codex_command_approval_request");
    reveal_strlit("chat:codex_permission_request");
    reveal_strlit("chat:codex_user_input_request");
    reveal_strlit("chat:codex_mcp_elicitation_request");
    reveal_strlit("chat:codex_dynamic_tool_call_request");
    reveal_strlit("chat:error");
    assert(event.len() > 6 && event[5] != 'd' && (event[5] == 'c' ==> event[6] != 'a'));
    assert("chat:done"@[5] == 'd' && "chat:cancelled"@[6] == 'a');
    replay_returns_recorded_event(log, k, event, seq, json, after);
}

/// Terminal output and start events are kept for replay: after one of them,
/// within the byte budget, is recorded with number `seq` for terminal `k`, a
/// replay of `k` from an earlier number ends with it.
pub proof fn terminal_output_is_replayed(
    log: Option<Seq<(u64, Seq<char>)>>,
    k: Seq<char>,
    event: Seq<char>,
    seq: u64,
    json: Seq<char>,
    after: u64,
)
    requires
        event == "terminal:output"@ || event == "terminal:started"@,
        byte_len(json) <= TERMINAL_BUFFER_MAX_BYTES,
        after < seq,
    ensures
        ({
            let replay = events_after(or_empty(terminal_after(log, k, event, Some(k), seq, json)), after);
            replay.len() > 0 && replay.last() == (seq, json)
        }),
{
    reveal_strlit("terminal:output");
    reveal_strlit("terminal:started");
    reveal_strlit("terminal:stopped");
    assert(!is_terminal_stop(event)) by {
        assert("terminal:stopped"@[9] != "terminal:output"@[9]);
        assert("terminal:stopped"@[11] != "terminal:started"@[11]);
    }
    terminal_replay_returns_recorded_event(log, k, event, seq, json, after);
}

/// After the current branch was read from the outcome at `k - 1`, the status
/// protocol, run on the first `i` outcomes, is in its counting phase.
proof fn status_prefix_counts(info: WorktreeInfoView, now: u64, outs: Seq<Outcome>, k: int, i: int)
    requires
        2 <= k <= 3,
        k <= i <= outs.len(),
        k == 2 ==> text_of(outs[1]) is Some,
        k == 3 ==> text_of(outs[1]) is None && text_of(outs[2]) is Some,
    ensures
        branch_status_next(info, now, outs.take(i)) == counts_phase(
            info,
            now,
            text_of(outs[k - 1])->0,
            outs.take(i),
            k,
        ),
{
    assert(outs.take(i)[1] == outs[1]);
    if k == 3 {
        assert(outs.take(i)[2] == outs[2]);
    }
}

/// Each count of a branch status is what the git command that counts it
/// printed: the status protocol asked, at some point, for exactly that
/// `git rev-list --count` and reports the number it printed. Behind is
/// `HEAD..origin/<base>`, ahead `origin/<base>..HEAD`, base-ahead
/// `origin/<base>..<base>`, base-behind `<base>..origin/<base>`, and
/// worktree-ahead `<base>..HEAD`; there are updates exactly when behind is
/// not zero.
pub proof fn status_counts_come_from_their_commands(
    info: WorktreeInfoView,
    now: u64,
    outs: Seq<Outcome>,
    v: BranchStatusView,
)
    requires
        branch_status_next(info, now, outs) == Next::<Result<BranchStatusView, (BackendErrorCode, Seq<char>)>>::Done(Ok(v)),
    ensures
        exists|i: int|
            0 <= i < outs.len() && #[trigger] branch_status_next(info, now, outs.take(i)) == Next::<
                Result<BranchStatusView, (BackendErrorCode, Seq<char>)>,
            >::Run(rev_count(info.worktree_path, "HEAD"@, "origin/"@ + info.base_branch))
                && v.behind_count == count_of(outs[i]),
        exists|i: int|
            0 <= i < outs.len() && #[trigger] branch_status_next(info, now, outs.take(i)) == Next::<
                Result<BranchStatusView, (BackendErrorCode, Seq<char>)>,
            >::Run(rev_count(info.worktree_path, "origin/"@ + info.base_branch, "HEAD"@))
                && v.ahead_count == count_of(outs[i]),
        exists|i: int|
            0 <= i < outs.len() && #[trigger] branch_status_next(info, now, outs.take(i)) == Next::<
                Result<BranchStatusView, (BackendErrorCode, Seq<char>)>,
            >::Run(rev_count(info.worktree_path, "origin/"@ + info.base_branch, info.base_branch))
                && v.base_branch_ahead_count == count_of(outs[i]),
        exists|i: int|
            0 <= i < outs.len() && #[trigger] branch_status_next(info, now, outs.take(i)) == Next::<
                Result<BranchStatusView, (BackendErrorCode, Seq<char>)>,
            >::Run(rev_count(info.worktree_path, info.base_branch, "origin/"@ + info.base_branch))
                && v.base_branch_behind_count == count_of(outs[i]),
        exists|i: int|
            0 <= i < outs.len() && #[trigger] branch_status_next(info, now, outs.take(i)) == Next::<
                Result<BranchStatusView, (BackendErrorCode, Seq<char>)>,
            >::Run(rev_count(info.worktree_path, info.base_branch, "HEAD"@))
                && v.worktree_ahead_count == count_of(outs[i]),
        v.has_updates == (v.behind_count > 0),
{
    let k: int = if text_of(outs[1]) is Some { 2 } else { 3 };
    let m: int = k + 5 + untracked_paths(outs[k + 4]).len();
    assert(outs.len() >= m + 4);
    status_prefix_counts(info, now, outs, k, k);
    status_prefix_counts(info, now, outs, k, k + 1);
    status_prefix_counts(info, now, outs, k, m + 1);
    status_prefix_counts(info, now, outs, k, m + 2);
    status_prefix_counts(info, now, outs, k, m + 3);
    assert(outs.take(m + 1)[k + 4] == outs[k + 4]);
    assert(outs.take(m + 2)[k + 4] == outs[k + 4]);
    assert(outs.take(m + 3)[k + 4] == outs[k + 4]);
}

/// A same-repository pull request is pushed to its own head branch on
/// `origin` with a lease, `git push --force-with-lease origin HEAD:<branch>`;
/// when that succeeds, the result names `origin` and that branch and reports
/// neither a fallback nor a refusal.
pub proof fn same_repo_pr_pushes_head_branch(
    repo: Seq<char>,
    pr_number: u32,
    outs: Seq<Outcome>,
    branch: Seq<char>,
)
    requires
        outs.len() >= 1,
        outs[0] matches Ok(v) && v.success && json_error(v.stdout@) is None
            && json_str_pointer(v.stdout@, "/headRefName"@) == Some(branch)
            && json_bool_pointer(v.stdout@, "/isCrossRepository"@) != Some(true),
    ensures
        outs.len() == 1 ==> push_to_pr_next(repo, pr_number, outs) == Next::<
            Result<PushResultView, Seq<char>>,
        >::Run(git(repo, seq!["push"@, "--force-with-lease"@, "origin"@, "HEAD:"@ + branch])),
        (outs.len() == 2 && (outs[1] matches Ok(p) && p.success)) ==> (push_to_pr_next(
            repo,
            pr_number,
            outs,
        ) matches Next::Done(Ok(r)) && r.pushed_remote == Some("origin"@) && r.pushed_branch == Some(
            branch,
        ) && !r.fell_back && !r.permission_denied),
{
}

} // verus!
