//! Event broadcasting state: sequence numbers and the replay buffers that let a
//! reconnecting client catch up on chat and terminal events.
//!
//! The host serializes each event (with the sequence number handed out by
//! [`WsBroadcaster::next_sequence`]) and sends it to connected clients; this
//! module decides what is kept for replay and what a replay returns.
use crate::json::{json_quote, json_quoted, json_str_at, json_str_pointer};
use crate::process::cat3;
use crate::text::{decimal, decimal_string, str_eq};
use std::collections::VecDeque;
use vstd::prelude::*;

verus! {

/// Events kept per chat session.
pub const SESSION_BUFFER_CAP: usize = 2000;

/// Events kept per terminal.
pub const TERMINAL_BUFFER_MAX_EVENTS: usize = 12000;

/// Bytes of serialized events kept per terminal.
pub const TERMINAL_BUFFER_MAX_BYTES: usize = 3145728;

/// A serialized event and its sequence number.
#[derive(Clone, Debug)]
pub struct WsEvent {
    pub json: String,
    pub seq: u64,
}

/// The size of a text in UTF-8 bytes.
pub open spec fn byte_len(s: Seq<char>) -> nat {
    vstd::utf8::encode_utf8(s).len()
}

/// The UTF-8 size of a string (`str::len`).
pub fn utf8_len(s: &String) -> (n: usize)
    ensures
        n == byte_len(s@),
{
    let b = s.as_str().as_bytes();
    b.len()
}

/// The bytes of all buffered events.
pub open spec fn total_bytes(es: Seq<(u64, Seq<char>)>) -> nat
    decreases es.len(),
{
    if es.len() == 0 {
        0
    } else {
        total_bytes(es.drop_first()) + byte_len(es[0].1)
    }
}

/// Buffered events in mathematical form.
pub open spec fn event_seq(d: Seq<(u64, String)>) -> Seq<(u64, Seq<char>)> {
    d.map_values(|e: (u64, String)| (e.0, e.1@))
}

/// The events with a sequence number above `after`, in buffer order.
pub open spec fn events_after(es: Seq<(u64, Seq<char>)>, after: u64) -> Seq<(u64, Seq<char>)>
    decreases es.len(),
{
    if es.len() == 0 {
        seq![]
    } else if es.last().0 > after {
        events_after(es.drop_last(), after).push(es.last())
    } else {
        events_after(es.drop_last(), after)
    }
}

/// Replay events in mathematical form.
pub open spec fn replay_view(v: Seq<WsEvent>) -> Seq<(u64, Seq<char>)> {
    v.map_values(|e: WsEvent| (e.seq, e.json@))
}

/// The events of `d` with a sequence number above `after`, copied.
fn replay_from(d: &VecDeque<(u64, String)>, after: u64) -> (r: Vec<WsEvent>)
    ensures
        replay_view(r@) == events_after(event_seq(d@), after),
{
    let ghost es = event_seq(d@);
    let mut r: Vec<WsEvent> = Vec::new();
    let mut i: usize = 0;
    assert(es.take(0) =~= Seq::<(u64, Seq<char>)>::empty());
    while i < d.len()
        invariant
            i <= d@.len(),
            es == event_seq(d@),
            replay_view(r@) == events_after(es.take(i as int), after),
        decreases d.len() - i,
    {
        assert(es.take(i + 1).drop_last() =~= es.take(i as int));
        assert(es.take(i + 1).last() == (d@[i as int].0, d@[i as int].1@));
        let (seq, json) = &d[i];
        if *seq > after {
            let ghost before = replay_view(r@);
            r.push(WsEvent { json: json.clone(), seq: *seq });
            assert(replay_view(r@) =~= before.push((d@[i as int].0, d@[i as int].1@)));
        }
        i = i + 1;
    }
    assert(es.take(d@.len() as int) =~= es);
    r
}

// ---------------------------------------------------------------------------
// Buffers
// ---------------------------------------------------------------------------

/// A replay buffer: an ordered list of serialized events with some retention rule.
pub trait ReplayBuffer: Sized {
    /// The buffered events, oldest first.
    spec fn events(&self) -> Seq<(u64, Seq<char>)>;

    /// The buffer's internal invariant.
    spec fn wf(&self) -> bool;

    /// What the buffer holds after appending an event to `events`.
    spec fn retained(events: Seq<(u64, Seq<char>)>, seq: u64, json: Seq<char>) -> Seq<
        (u64, Seq<char>),
    >;

    /// An empty buffer.
    fn empty() -> (b: Self)
        ensures
            b.wf(),
            b.events() == Seq::<(u64, Seq<char>)>::empty(),
    ;

    /// Appends an event, dropping old events as the retention rule says.
    fn append(&mut self, seq: u64, json: String)
        requires
            old(self).wf(),
        ensures
            final(self).wf(),
            final(self).events() == Self::retained(old(self).events(), seq, json@),
    ;

    /// The buffered events above `after`.
    fn replay(&self, after: u64) -> (r: Vec<WsEvent>)
        requires
            self.wf(),
        ensures
            replay_view(r@) == events_after(self.events(), after),
    ;
}

/// The per-session chat buffer: the newest [`SESSION_BUFFER_CAP`] events.
pub struct SessionReplayBuffer {
    events: VecDeque<(u64, String)>,
}

/// Appending to a session buffer: the oldest event goes when the buffer is full.
pub open spec fn session_retained(events: Seq<(u64, Seq<char>)>, seq: u64, json: Seq<char>) -> Seq<
    (u64, Seq<char>),
> {
    if events.len() >= SESSION_BUFFER_CAP {
        events.drop_first().push((seq, json))
    } else {
        events.push((seq, json))
    }
}

impl ReplayBuffer for SessionReplayBuffer {
    closed spec fn events(&self) -> Seq<(u64, Seq<char>)> {
        event_seq(self.events@)
    }

    closed spec fn wf(&self) -> bool {
        self.events@.len() <= SESSION_BUFFER_CAP
    }

    open spec fn retained(events: Seq<(u64, Seq<char>)>, seq: u64, json: Seq<char>) -> Seq<
        (u64, Seq<char>),
    > {
        session_retained(events, seq, json)
    }

    fn empty() -> (b: Self) {
        let b = SessionReplayBuffer { events: VecDeque::new() };
        assert(event_seq(b.events@) =~= Seq::<(u64, Seq<char>)>::empty());
        b
    }

    fn append(&mut self, seq: u64, json: String) {
        let ghost before = event_seq(self.events@);
        if self.events.len() >= SESSION_BUFFER_CAP {
            self.events.pop_front();
            assert(event_seq(self.events@) =~= before.drop_first());
        }
        let ghost mid = event_seq(self.events@);
        let ghost j = json@;
        self.events.push_back((seq, json));
        assert(event_seq(self.events@) =~= mid.push((seq, j)));
    }

    fn replay(&self, after: u64) -> (r: Vec<WsEvent>) {
        replay_from(&self.events, after)
    }
}

/// The per-terminal buffer: the newest events that together stay within
/// [`TERMINAL_BUFFER_MAX_EVENTS`] events and [`TERMINAL_BUFFER_MAX_BYTES`] bytes.
pub struct TerminalReplayBuffer {
    events: VecDeque<(u64, String)>,
    bytes: usize,
}

/// How many of the oldest events make room for an event of `size` bytes.
pub open spec fn evicted(events: Seq<(u64, Seq<char>)>, size: nat) -> nat
    decreases events.len(),
{
    if events.len() > 0 && (events.len() >= TERMINAL_BUFFER_MAX_EVENTS || total_bytes(events)
        + size > TERMINAL_BUFFER_MAX_BYTES) {
        1 + evicted(events.drop_first(), size)
    } else {
        0
    }
}

/// Appending to a terminal buffer: an event larger than the byte budget empties
/// the buffer (and is not kept); otherwise the oldest events are dropped until
/// the new one fits.
pub open spec fn terminal_retained(events: Seq<(u64, Seq<char>)>, seq: u64, json: Seq<char>) -> Seq<
    (u64, Seq<char>),
> {
    if byte_len(json) > TERMINAL_BUFFER_MAX_BYTES {
        seq![]
    } else {
        events.skip(evicted(events, byte_len(json)) as int).push((seq, json))
    }
}

proof fn lemma_evicted_fits(events: Seq<(u64, Seq<char>)>, size: nat)
    requires
        size <= TERMINAL_BUFFER_MAX_BYTES,
    ensures
        evicted(events, size) <= events.len(),
        events.len() - evicted(events, size) < TERMINAL_BUFFER_MAX_EVENTS,
        total_bytes(events.skip(evicted(events, size) as int)) + size <= TERMINAL_BUFFER_MAX_BYTES,
    decreases events.len(),
{
    if events.len() > 0 && (events.len() >= TERMINAL_BUFFER_MAX_EVENTS || total_bytes(events)
        + size > TERMINAL_BUFFER_MAX_BYTES) {
        lemma_evicted_fits(events.drop_first(), size);
        assert(events.skip(evicted(events, size) as int) =~= events.drop_first().skip(
            evicted(events.drop_first(), size) as int,
        ));
    } else {
        assert(events.skip(0) =~= events);
    }
}

proof fn lemma_total_push(es: Seq<(u64, Seq<char>)>, e: (u64, Seq<char>))
    ensures
        total_bytes(es.push(e)) == total_bytes(es) + byte_len(e.1),
    decreases es.len(),
{
    if es.len() > 0 {
        assert(es.push(e).drop_first() =~= es.drop_first().push(e));
        assert(es.push(e)[0] == es[0]);
        lemma_total_push(es.drop_first(), e);
    } else {
        assert(es.push(e).drop_first() =~= Seq::<(u64, Seq<char>)>::empty());
        assert(es.push(e)[0] == e);
        assert(total_bytes(Seq::<(u64, Seq<char>)>::empty()) == 0);
        assert(total_bytes(es) == 0);
    }
}

/// Appending to a terminal buffer keeps it within both budgets.
pub proof fn lemma_terminal_budget(es: Seq<(u64, Seq<char>)>, seq: u64, json: Seq<char>)
    ensures
        terminal_retained(es, seq, json).len() <= TERMINAL_BUFFER_MAX_EVENTS,
        total_bytes(terminal_retained(es, seq, json)) <= TERMINAL_BUFFER_MAX_BYTES,
{
    if byte_len(json) > TERMINAL_BUFFER_MAX_BYTES {
        assert(total_bytes(Seq::<(u64, Seq<char>)>::empty()) == 0);
    } else {
        let size = byte_len(json);
        lemma_evicted_fits(es, size);
        let kept = es.skip(evicted(es, size) as int);
        lemma_total_push(kept, (seq, json));
    }
}

impl ReplayBuffer for TerminalReplayBuffer {
    closed spec fn events(&self) -> Seq<(u64, Seq<char>)> {
        event_seq(self.events@)
    }

    closed spec fn wf(&self) -> bool {
        &&& self.bytes == total_bytes(event_seq(self.events@))
        &&& self.events@.len() <= TERMINAL_BUFFER_MAX_EVENTS
        &&& self.bytes <= TERMINAL_BUFFER_MAX_BYTES
    }

    open spec fn retained(events: Seq<(u64, Seq<char>)>, seq: u64, json: Seq<char>) -> Seq<
        (u64, Seq<char>),
    > {
        terminal_retained(events, seq, json)
    }

    fn empty() -> (b: Self) {
        let b = TerminalReplayBuffer { events: VecDeque::new(), bytes: 0 };
        assert(event_seq(b.events@) =~= Seq::<(u64, Seq<char>)>::empty());
        b
    }

    fn append(&mut self, seq: u64, json: String) {
        let event_bytes = utf8_len(&json);
        if event_bytes > TERMINAL_BUFFER_MAX_BYTES {
            self.events.clear();
            self.bytes = 0;
            assert(event_seq(self.events@) =~= Seq::<(u64, Seq<char>)>::empty());
            return;
        }
        let ghost start = event_seq(self.events@);
        let ghost size = byte_len(json@);
        let ghost mut dropped: nat = 0;
        while self.events.len() > 0 && (self.events.len() >= TERMINAL_BUFFER_MAX_EVENTS
            || self.bytes + event_bytes > TERMINAL_BUFFER_MAX_BYTES)
            invariant
                event_bytes == size,
                size <= TERMINAL_BUFFER_MAX_BYTES,
                self.bytes == total_bytes(event_seq(self.events@)),
                self.bytes <= TERMINAL_BUFFER_MAX_BYTES,
                self.events@.len() <= TERMINAL_BUFFER_MAX_EVENTS,
                dropped <= start.len(),
                event_seq(self.events@) == start.skip(dropped as int),
                evicted(start, size) == dropped + evicted(event_seq(self.events@), size),
            decreases self.events@.len(),
        {
            let ghost cur = event_seq(self.events@);
            let front = self.events.pop_front();
            assert(event_seq(self.events@) =~= cur.drop_first());
            proof {
                assert(start.skip(dropped + 1int) =~= cur.drop_first());
                dropped = dropped + 1;
            }
            if let Some((_, old)) = front {
                let old_bytes = utf8_len(&old);
                assert(total_bytes(cur) == total_bytes(cur.drop_first()) + old_bytes);
                self.bytes = self.bytes - old_bytes;
            }
        }
        proof {
            lemma_evicted_fits(event_seq(self.events@), size);
            lemma_total_push(event_seq(self.events@), (seq, json@));
        }
        let ghost kept = event_seq(self.events@);
        let ghost j = json@;
        self.bytes = self.bytes + event_bytes;
        self.events.push_back((seq, json));
        assert(event_seq(self.events@) =~= kept.push((seq, j)));
        assert(evicted(kept, size) == 0);
    }

    fn replay(&self, after: u64) -> (r: Vec<WsEvent>) {
        replay_from(&self.events, after)
    }
}


// ---------------------------------------------------------------------------
// Buffers by key
// ---------------------------------------------------------------------------

/// The keys are pairwise distinct.
pub open spec fn unique_keys<B>(es: Seq<(String, B)>) -> bool {
    forall|i: int, j: int| 0 <= i < j < es.len() ==> es[i].0@ != es[j].0@
}

/// The events buffered under key `k`, if there is a buffer for it.
pub open spec fn log_of<B: ReplayBuffer>(es: Seq<(String, B)>, k: Seq<char>) -> Option<
    Seq<(u64, Seq<char>)>,
> {
    if exists|i: int| 0 <= i < es.len() && #[trigger] es[i].0@ == k {
        let i = choose|i: int| 0 <= i < es.len() && #[trigger] es[i].0@ == k;
        Some(es[i].1.events())
    } else {
        None
    }
}

/// The events buffered under a key, or none.
pub open spec fn or_empty(o: Option<Seq<(u64, Seq<char>)>>) -> Seq<(u64, Seq<char>)> {
    match o {
        Some(s) => s,
        None => seq![],
    }
}

proof fn lemma_log_at<B: ReplayBuffer>(es: Seq<(String, B)>, i: int)
    requires
        unique_keys(es),
        0 <= i < es.len(),
    ensures
        log_of(es, es[i].0@) == Some(es[i].1.events()),
{
    let k = es[i].0@;
    assert(es[i].0@ == k);
    let j = choose|j: int| 0 <= j < es.len() && #[trigger] es[j].0@ == k;
    if j != i {
        if j < i {
            assert(es[j].0@ != es[i].0@);
        } else {
            assert(es[i].0@ != es[j].0@);
        }
    }
}

/// Replay buffers, one per key (a chat session or a terminal).
pub struct KeyedBuffers<B> {
    entries: Vec<(String, B)>,
}

impl<B: ReplayBuffer> KeyedBuffers<B> {
    /// The events buffered under `k`, if any.
    pub closed spec fn log(&self, k: Seq<char>) -> Option<Seq<(u64, Seq<char>)>> {
        log_of(self.entries@, k)
    }

    pub closed spec fn wf(&self) -> bool {
        &&& unique_keys(self.entries@)
        &&& forall|i: int| 0 <= i < self.entries@.len() ==> (#[trigger] self.entries@[i]).1.wf()
    }

    /// No buffers.
    pub fn new() -> (r: Self)
        ensures
            r.wf(),
            forall|k: Seq<char>| #[trigger] r.log(k) is None,
    {
        KeyedBuffers { entries: Vec::new() }
    }

    fn find(&self, k: &str) -> (r: Option<usize>)
        ensures
            match r {
                Some(i) => i < self.entries@.len() && self.entries@[i as int].0@ == k@,
                None => forall|i: int|
                    0 <= i < self.entries@.len() ==> (#[trigger] self.entries@[i]).0@ != k@,
            },
    {
        let mut i: usize = 0;
        while i < self.entries.len()
            invariant
                i <= self.entries@.len(),
                forall|j: int| 0 <= j < i ==> (#[trigger] self.entries@[j]).0@ != k@,
            decreases self.entries.len() - i,
        {
            if str_eq(self.entries[i].0.as_str(), k) {
                return Some(i);
            }
            i = i + 1;
        }
        None
    }

    /// Appends an event to the buffer of `k`, creating the buffer if needed.
    pub fn append(&mut self, k: &str, seq: u64, json: String)
        requires
            old(self).wf(),
        ensures
            final(self).wf(),
            final(self).log(k@) == Some(B::retained(or_empty(old(self).log(k@)), seq, json@)),
            forall|k2: Seq<char>| k2 != k@ ==> #[trigger] final(self).log(k2) == old(self).log(k2),
    {
        let ghost es = self.entries@;
        let ghost j = json@;
        match self.find(k) {
            Some(i) => {
                proof {
                    lemma_log_at(es, i as int);
                }
                let (key, mut buffer) = self.entries.remove(i);
                buffer.append(seq, json);
                let ghost nb = buffer;
                self.entries.insert(i, (key, buffer));
                proof {
                    let ne = self.entries@;
                    assert(ne =~= es.update(i as int, (es[i as int].0, nb)));
                    assert(unique_keys(ne)) by {
                        assert forall|a: int, b: int| 0 <= a < b < ne.len() implies ne[a].0@ != ne[b].0@ by {
                            assert(ne[a].0 == es[a].0 && ne[b].0 == es[b].0);
                        }
                    }
                    lemma_log_at(ne, i as int);
                    assert forall|k2: Seq<char>| k2 != k@ implies #[trigger] log_of(ne, k2) == log_of(es, k2) by {
                        if exists|x: int| 0 <= x < es.len() && #[trigger] es[x].0@ == k2 {
                            let x = choose|x: int| 0 <= x < es.len() && #[trigger] es[x].0@ == k2;
                            lemma_log_at(es, x);
                            assert(x != i);
                            assert(ne[x] == es[x]);
                            lemma_log_at(ne, x);
                        } else {
                            assert forall|x: int| 0 <= x < ne.len() implies #[trigger] ne[x].0@ != k2 by {
                                assert(ne[x].0 == es[x].0);
                            }
                        }
                    }
                }
            },
            None => {
                let mut buffer = B::empty();
                buffer.append(seq, json);
                let ghost nb = buffer;
                self.entries.push((crate::process::own(k), buffer));
                proof {
                    let ne = self.entries@;
                    assert(ne =~= es.push((ne.last().0, nb)));
                    assert(log_of(es, k@) is None);
                    assert(unique_keys(ne)) by {
                        assert forall|a: int, b: int| 0 <= a < b < ne.len() implies ne[a].0@ != ne[b].0@ by {
                            if b == ne.len() - 1 {
                                assert(ne[a] == es[a]);
                            } else {
                                assert(ne[a] == es[a] && ne[b] == es[b]);
                            }
                        }
                    }
                    lemma_log_at(ne, ne.len() - 1);
                    assert forall|k2: Seq<char>| k2 != k@ implies #[trigger] log_of(ne, k2) == log_of(es, k2) by {
                        if exists|x: int| 0 <= x < es.len() && #[trigger] es[x].0@ == k2 {
                            let x = choose|x: int| 0 <= x < es.len() && #[trigger] es[x].0@ == k2;
                            lemma_log_at(es, x);
                            assert(ne[x] == es[x]);
                            lemma_log_at(ne, x);
                        } else {
                            assert forall|x: int| 0 <= x < ne.len() implies #[trigger] ne[x].0@ != k2 by {
                                if x < es.len() {
                                    assert(ne[x] == es[x]);
                                }
                            }
                        }
                    }
                }
            },
        }
    }

    /// Drops the buffer of `k`.
    pub fn remove(&mut self, k: &str)
        requires
            old(self).wf(),
        ensures
            final(self).wf(),
            final(self).log(k@) is None,
            forall|k2: Seq<char>| k2 != k@ ==> #[trigger] final(self).log(k2) == old(self).log(k2),
    {
        let ghost es = self.entries@;
        match self.find(k) {
            None => {},
            Some(i) => {
                self.entries.remove(i);
                proof {
                    let ne = self.entries@;
                    assert(ne =~= es.remove(i as int));
                    es.remove_ensures(i as int);
                    assert(unique_keys(ne)) by {
                        assert forall|a: int, b: int| 0 <= a < b < ne.len() implies ne[a].0@ != ne[b].0@ by {
                            if a < i && b >= i {
                                assert(ne[a] == es[a] && ne[b] == es[b + 1]);
                            } else if a >= i {
                                assert(ne[a] == es[a + 1] && ne[b] == es[b + 1]);
                            } else {
                                assert(ne[a] == es[a] && ne[b] == es[b]);
                            }
                        }
                    }
                    assert forall|x: int| 0 <= x < ne.len() implies #[trigger] ne[x].0@ != k@ by {
                        if x < i {
                            assert(ne[x] == es[x]);
                            assert(es[x].0@ != es[i as int].0@);
                        } else {
                            assert(ne[x] == es[x + 1]);
                            assert(es[i as int].0@ != es[x + 1].0@);
                        }
                    }
                    assert forall|k2: Seq<char>| k2 != k@ implies #[trigger] log_of(ne, k2) == log_of(es, k2) by {
                        if exists|x: int| 0 <= x < es.len() && #[trigger] es[x].0@ == k2 {
                            let x = choose|x: int| 0 <= x < es.len() && #[trigger] es[x].0@ == k2;
                            lemma_log_at(es, x);
                            assert(x != i);
                            if x < i {
                                assert(ne[x] == es[x]);
                                lemma_log_at(ne, x);
                            } else {
                                assert(ne[x - 1] == es[x]);
                                lemma_log_at(ne, x - 1);
                            }
                        } else {
                            assert forall|x: int| 0 <= x < ne.len() implies #[trigger] ne[x].0@ != k2 by {
                                if x < i {
                                    assert(ne[x] == es[x]);
                                } else {
                                    assert(ne[x] == es[x + 1]);
                                }
                            }
                        }
                    }
                }
            },
        }
    }

    /// The events of `k` above `after`.
    pub fn replay(&self, k: &str, after: u64) -> (r: Vec<WsEvent>)
        requires
            self.wf(),
        ensures
            replay_view(r@) == events_after(or_empty(self.log(k@)), after),
    {
        match self.find(k) {
            Some(i) => {
                proof {
                    lemma_log_at(self.entries@, i as int);
                }
                self.entries[i].1.replay(after)
            },
            None => {
                let r: Vec<WsEvent> = Vec::new();
                assert(replay_view(r@) =~= Seq::<(u64, Seq<char>)>::empty());
                r
            },
        }
    }
}


// ---------------------------------------------------------------------------
// Event names
// ---------------------------------------------------------------------------

/// Chat events kept for replay, per session.
pub open spec fn is_replayable(event: Seq<char>) -> bool {
    ||| event == "chat:sending"@
    ||| event == "chat:chunk"@
    ||| event == "chat:tool_use"@
    ||| event == "chat:tool_block"@
    ||| event == "chat:tool_result"@
    ||| event == "chat:thinking"@
    ||| event == "chat:permission_denied"@
    ||| event == "chat:codex_command_approval_request"@
    ||| event == "chat:codex_permission_request"@
    ||| event == "chat:codex_user_input_request"@
    ||| event == "chat:codex_mcp_elicitation_request"@
    ||| event == "chat:codex_dynamic_tool_call_request"@
    ||| event == "chat:done"@
    ||| event == "chat:cancelled"@
    ||| event == "chat:error"@
}

/// Chat events that end a session's run; its replay buffer is dropped.
pub open spec fn is_completion(event: Seq<char>) -> bool {
    event == "chat:done"@ || event == "chat:cancelled"@
}

/// Terminal events kept for replay, per terminal.
pub open spec fn is_terminal_replayable(event: Seq<char>) -> bool {
    event == "terminal:output"@ || event == "terminal:started"@
}

/// The terminal event that drops a terminal's replay buffer.
pub open spec fn is_terminal_stop(event: Seq<char>) -> bool {
    event == "terminal:stopped"@
}

fn replayable(event: &str) -> (r: bool)
    ensures
        r == is_replayable(event@),
{
    str_eq(event, "chat:sending") || str_eq(event, "chat:chunk") || str_eq(event, "chat:tool_use")
        || str_eq(event, "chat:tool_block") || str_eq(event, "chat:tool_result") || str_eq(
        event,
        "chat:thinking",
    ) || str_eq(event, "chat:permission_denied") || str_eq(
        event,
        "chat:codex_command_approval_request",
    ) || str_eq(event, "chat:codex_permission_request") || str_eq(
        event,
        "chat:codex_user_input_request",
    ) || str_eq(event, "chat:codex_mcp_elicitation_request") || str_eq(
        event,
        "chat:codex_dynamic_tool_call_request",
    ) || str_eq(event, "chat:done") || str_eq(event, "chat:cancelled") || str_eq(
        event,
        "chat:error",
    )
}

fn completion(event: &str) -> (r: bool)
    ensures
        r == is_completion(event@),
{
    str_eq(event, "chat:done") || str_eq(event, "chat:cancelled")
}

fn terminal_replayable(event: &str) -> (r: bool)
    ensures
        r == is_terminal_replayable(event@),
{
    str_eq(event, "terminal:output") || str_eq(event, "terminal:started")
}

// ---------------------------------------------------------------------------
// Event frames
// ---------------------------------------------------------------------------

/// The wire frame of an event: a JSON object with the event name, its payload
/// (JSON text), its sequence number and the type `event`, keys in sorted order.
pub open spec fn event_frame(event: Seq<char>, payload: Seq<char>, seq: u64) -> Seq<char> {
    "{\"event\":"@ + json_quoted(event) + ",\"payload\":"@ + payload + ",\"seq\":"@ + decimal(
        seq as nat,
    ) + ",\"type\":\"event\"}"@
}

/// Builds the wire frame of an event whose payload serializes to `payload`.
pub fn event_json(event: &str, payload: &str, seq: u64) -> (r: String)
    ensures
        r@ == event_frame(event@, payload@, seq),
{
    let quoted = json_quote(event);
    let number = decimal_string(seq);
    let mut r = cat3("{\"event\":", quoted.as_str(), ",\"payload\":");
    r.append(payload);
    r.append(",\"seq\":");
    r.append(number.as_str());
    r.append(",\"type\":\"event\"}");
    r
}

// ---------------------------------------------------------------------------
// The broadcaster
// ---------------------------------------------------------------------------

/// The buffer of session `k` after `event` was recorded for session `sid`.
pub open spec fn session_after(
    log: Option<Seq<(u64, Seq<char>)>>,
    k: Seq<char>,
    event: Seq<char>,
    sid: Option<Seq<char>>,
    seq: u64,
    json: Seq<char>,
) -> Option<Seq<(u64, Seq<char>)>> {
    if sid == Some(k) {
        if is_completion(event) {
            None
        } else if is_replayable(event) {
            Some(session_retained(or_empty(log), seq, json))
        } else {
            log
        }
    } else {
        log
    }
}

/// The buffer of terminal `k` after `event` was recorded for terminal `tid`.
pub open spec fn terminal_after(
    log: Option<Seq<(u64, Seq<char>)>>,
    k: Seq<char>,
    event: Seq<char>,
    tid: Option<Seq<char>>,
    seq: u64,
    json: Seq<char>,
) -> Option<Seq<(u64, Seq<char>)>> {
    if tid == Some(k) {
        if is_terminal_stop(event) {
            None
        } else if is_terminal_replayable(event) {
            Some(terminal_retained(or_empty(log), seq, json))
        } else {
            log
        }
    } else {
        log
    }
}

/// Sequence numbers strictly ascend through `es` and stay below `bound`.
pub open spec fn ascending_below(es: Seq<(u64, Seq<char>)>, bound: int) -> bool {
    &&& forall|i: int, j: int| 0 <= i < j < es.len() ==> es[i].0 < es[j].0
    &&& forall|i: int| 0 <= i < es.len() ==> es[i].0 < bound
}

/// Every present buffer is ascending below `bound`.
pub open spec fn log_below(log: Option<Seq<(u64, Seq<char>)>>, bound: int) -> bool {
    match log {
        Some(es) => ascending_below(es, bound),
        None => true,
    }
}

proof fn lemma_session_retained_below(es: Seq<(u64, Seq<char>)>, seq: u64, json: Seq<char>)
    requires
        ascending_below(es, seq as int),
    ensures
        ascending_below(session_retained(es, seq, json), seq + 1),
{
    let r = session_retained(es, seq, json);
    if es.len() >= SESSION_BUFFER_CAP {
        let d = es.drop_first();
        assert forall|i: int, j: int| 0 <= i < j < r.len() implies r[i].0 < r[j].0 by {
            if j < d.len() {
                assert(r[i] == es[i + 1] && r[j] == es[j + 1]);
            } else {
                assert(r[i] == es[i + 1]);
            }
        }
        assert forall|i: int| 0 <= i < r.len() implies r[i].0 < seq + 1 by {
            if i < d.len() {
                assert(r[i] == es[i + 1]);
            }
        }
    } else {
        assert forall|i: int, j: int| 0 <= i < j < r.len() implies r[i].0 < r[j].0 by {
            assert(r[i] == es[i]);
            if j < es.len() {
                assert(r[j] == es[j]);
            }
        }
        assert forall|i: int| 0 <= i < r.len() implies r[i].0 < seq + 1 by {
            if i < es.len() {
                assert(r[i] == es[i]);
            }
        }
    }
}

proof fn lemma_terminal_retained_below(es: Seq<(u64, Seq<char>)>, seq: u64, json: Seq<char>)
    requires
        ascending_below(es, seq as int),
    ensures
        ascending_below(terminal_retained(es, seq, json), seq + 1),
{
    if byte_len(json) <= TERMINAL_BUFFER_MAX_BYTES {
        lemma_evicted_fits(es, byte_len(json));
        let n = evicted(es, byte_len(json)) as int;
        let d = es.skip(n);
        let r = terminal_retained(es, seq, json);
        assert(r == d.push((seq, json)));
        assert forall|i: int, j: int| 0 <= i < j < r.len() implies r[i].0 < r[j].0 by {
            assert(r[i] == es[i + n]);
            if j < d.len() {
                assert(r[j] == es[j + n]);
            }
        }
        assert forall|i: int| 0 <= i < r.len() implies r[i].0 < seq + 1 by {
            if i < d.len() {
                assert(r[i] == es[i + n]);
            }
        }
    }
}

/// Hands out sequence numbers to events and keeps the replay buffers of chat
/// sessions and terminals. While inactive (no client connected) nothing is
/// numbered or buffered.
pub struct WsBroadcaster {
    active: bool,
    next_seq: u64,
    sessions: KeyedBuffers<SessionReplayBuffer>,
    terminals: KeyedBuffers<TerminalReplayBuffer>,
}

impl Default for WsBroadcaster {
    fn default() -> (b: Self)
        ensures
            !b.active_spec(),
            b.next_seq_spec() == 1,
            forall|k: Seq<char>| #[trigger] b.session_log(k) is None,
            forall|k: Seq<char>| #[trigger] b.terminal_log(k) is None,
    {
        WsBroadcaster::new()
    }
}

impl WsBroadcaster {
    #[verifier::type_invariant]
    closed spec fn buffers_wf(&self) -> bool {
        self.sessions.wf() && self.terminals.wf()
    }

    /// Whether a client is connected.
    pub closed spec fn active_spec(&self) -> bool {
        self.active
    }

    /// The number the next event gets.
    pub closed spec fn next_seq_spec(&self) -> u64 {
        self.next_seq
    }

    /// The buffered events of a chat session.
    pub closed spec fn session_log(&self, k: Seq<char>) -> Option<Seq<(u64, Seq<char>)>> {
        self.sessions.log(k)
    }

    /// The buffered events of a terminal.
    pub closed spec fn terminal_log(&self, k: Seq<char>) -> Option<Seq<(u64, Seq<char>)>> {
        self.terminals.log(k)
    }

    /// Every buffer is ascending in sequence number, below `bound`.
    pub open spec fn buffers_below(&self, bound: int) -> bool {
        &&& forall|k: Seq<char>| #[trigger] log_below(self.session_log(k), bound)
        &&& forall|k: Seq<char>| #[trigger] log_below(self.terminal_log(k), bound)
    }

    /// An inactive broadcaster with empty buffers; the first event gets number 1.
    pub fn new() -> (b: Self)
        ensures
            !b.active_spec(),
            b.next_seq_spec() == 1,
            forall|k: Seq<char>| #[trigger] b.session_log(k) is None,
            forall|k: Seq<char>| #[trigger] b.terminal_log(k) is None,
            b.buffers_below(b.next_seq_spec() as int),
    {
        WsBroadcaster {
            active: false,
            next_seq: 1,
            sessions: KeyedBuffers::new(),
            terminals: KeyedBuffers::new(),
        }
    }

    /// Marks a client as connected or not; going inactive drops every buffer.
    pub fn set_active(&mut self, active: bool)
        ensures
            final(self).active_spec() == active,
            final(self).next_seq_spec() == old(self).next_seq_spec(),
            forall|k: Seq<char>|
                #[trigger] final(self).session_log(k) == if active {
                    old(self).session_log(k)
                } else {
                    None
                },
            forall|k: Seq<char>|
                #[trigger] final(self).terminal_log(k) == if active {
                    old(self).terminal_log(k)
                } else {
                    None
                },
    {
        proof {
            use_type_invariant(&*self);
        }
        self.active = active;
        if !active {
            self.sessions = KeyedBuffers::new();
            self.terminals = KeyedBuffers::new();
        }
    }

    /// Whether a client is connected.
    pub fn is_active(&self) -> (r: bool)
        ensures
            r == self.active_spec(),
    {
        self.active
    }

    /// The number for the next event, or `None` while inactive. Numbers
    /// increase by one, wrapping at the end of the `u64` range.
    pub fn next_sequence(&mut self) -> (r: Option<u64>)
        ensures
            final(self).active_spec() == old(self).active_spec(),
            forall|k: Seq<char>| #[trigger] final(self).session_log(k) == old(self).session_log(k),
            forall|k: Seq<char>| #[trigger] final(self).terminal_log(k) == old(self).terminal_log(k),
            old(self).active_spec() ==> r == Some(old(self).next_seq_spec())
                && final(self).next_seq_spec() == (if old(self).next_seq_spec() == u64::MAX {
                0
            } else {
                (old(self).next_seq_spec() + 1) as u64
            }),
            !old(self).active_spec() ==> r is None && final(self).next_seq_spec()
                == old(self).next_seq_spec(),
    {
        proof {
            use_type_invariant(&*self);
        }
        if !self.active {
            return None;
        }
        let seq = self.next_seq;
        self.next_seq = seq.wrapping_add(1);
        Some(seq)
    }

    /// Records event `seq` (frame `json`) in the buffers: a replayable chat
    /// event of session `session_id` goes into its buffer and a completion
    /// drops it; a replayable terminal event of `terminal_id` goes into its
    /// buffer and a stop drops it.
    pub fn record(
        &mut self,
        event: &str,
        session_id: Option<&str>,
        terminal_id: Option<&str>,
        seq: u64,
        json: String,
    )
        ensures
            final(self).active_spec() == old(self).active_spec(),
            final(self).next_seq_spec() == old(self).next_seq_spec(),
            forall|k: Seq<char>|
                #[trigger] final(self).session_log(k) == session_after(
                    old(self).session_log(k),
                    k,
                    event@,
                    match session_id {
                        Some(s) => Some(s@),
                        None => None,
                    },
                    seq,
                    json@,
                ),
            forall|k: Seq<char>|
                #[trigger] final(self).terminal_log(k) == terminal_after(
                    old(self).terminal_log(k),
                    k,
                    event@,
                    match terminal_id {
                        Some(t) => Some(t@),
                        None => None,
                    },
                    seq,
                    json@,
                ),
            old(self).buffers_below(seq as int) ==> final(self).buffers_below(seq + 1),
    {
        proof {
            use_type_invariant(&*self);
        }
        let ghost old_self = *self;
        let ghost j = json@;
        let ghost sid = match session_id {
            Some(s) => Some(s@),
            None => None,
        };
        let ghost tid = match terminal_id {
            Some(t) => Some(t@),
            None => None,
        };
        let mut sessions = KeyedBuffers::new();
        std::mem::swap(&mut sessions, &mut self.sessions);
        let mut terminals = KeyedBuffers::new();
        std::mem::swap(&mut terminals, &mut self.terminals);
        let ghost s0 = sessions;
        let ghost t0 = terminals;
        if let Some(s) = session_id {
            if replayable(event) {
                sessions.append(s, seq, json.clone());
            }
            if completion(event) {
                sessions.remove(s);
            }
        }
        assert forall|k: Seq<char>| #[trigger] sessions.log(k) == session_after(
            s0.log(k),
            k,
            event@,
            sid,
            seq,
            j,
        ) by {}
        if let Some(t) = terminal_id {
            if terminal_replayable(event) {
                terminals.append(t, seq, json);
            } else if str_eq(event, "terminal:stopped") {
                terminals.remove(t);
            }
        }
        proof {
            reveal_strlit("terminal:stopped");
            reveal_strlit("terminal:output");
            reveal_strlit("terminal:started");
        }
        assert forall|k: Seq<char>| #[trigger] terminals.log(k) == terminal_after(
            t0.log(k),
            k,
            event@,
            tid,
            seq,
            j,
        ) by {
            if tid == Some(k) {
                if is_terminal_replayable(event@) {
                    assert("terminal:output"@.len() != "terminal:stopped"@.len());
                    assert("terminal:started"@[11] != "terminal:stopped"@[11]);
                    assert(!is_terminal_stop(event@));
                    assert(terminals.log(k) == Some(terminal_retained(or_empty(t0.log(k)), seq, j)));
                } else if is_terminal_stop(event@) {
                    assert(terminals.log(k) is None);
                } else {
                    assert(terminals.log(k) == t0.log(k));
                }
            }
        }
        self.sessions = sessions;
        self.terminals = terminals;
        proof {
            if old_self.buffers_below(seq as int) {
                assert forall|k: Seq<char>| #[trigger] log_below(self.session_log(k), seq + 1) by {
                    assert(log_below(old_self.session_log(k), seq as int));
                    if sid == Some(k) && !is_completion(event@) && is_replayable(event@) {
                        lemma_session_retained_below(or_empty(old_self.session_log(k)), seq, j);
                    } else if let Some(es) = self.session_log(k) {
                        assert(ascending_below(es, seq as int));
                    }
                }
                assert forall|k: Seq<char>| #[trigger] log_below(self.terminal_log(k), seq + 1) by {
                    assert(log_below(old_self.terminal_log(k), seq as int));
                    if tid == Some(k) && !is_terminal_stop(event@) && is_terminal_replayable(event@) {
                        lemma_terminal_retained_below(or_empty(old_self.terminal_log(k)), seq, j);
                    } else if let Some(es) = self.terminal_log(k) {
                        assert(ascending_below(es, seq as int));
                    }
                }
            }
        }
    }

    /// Numbers, frames and records an event whose payload serializes to the
    /// JSON text `payload`; returns the event to send, or `None` while inactive.
    pub fn broadcast(&mut self, event: &str, payload: &str) -> (sent: Option<WsEvent>)
        ensures
            final(self).active_spec() == old(self).active_spec(),
            !old(self).active_spec() ==> sent is None && final(self).next_seq_spec()
                == old(self).next_seq_spec() && (forall|k: Seq<char>|
                #[trigger] final(self).session_log(k) == old(self).session_log(k)) && (forall|
                k: Seq<char>,
            | #[trigger] final(self).terminal_log(k) == old(self).terminal_log(k)),
            old(self).active_spec() ==> (sent matches Some(e) && e.seq == old(self).next_seq_spec()
                && e.json@ == event_frame(event@, payload@, e.seq) && (forall|k: Seq<char>|
                #[trigger] final(self).session_log(k) == session_after(
                    old(self).session_log(k),
                    k,
                    event@,
                    json_str_pointer(payload@, "/session_id"@),
                    e.seq,
                    e.json@,
                )) && (forall|k: Seq<char>|
                #[trigger] final(self).terminal_log(k) == terminal_after(
                    old(self).terminal_log(k),
                    k,
                    event@,
                    json_str_pointer(payload@, "/terminal_id"@),
                    e.seq,
                    e.json@,
                ))),
            old(self).active_spec() ==> final(self).next_seq_spec() == (if old(
                self,
            ).next_seq_spec() == u64::MAX {
                0
            } else {
                (old(self).next_seq_spec() + 1) as u64
            }),
            old(self).buffers_below(old(self).next_seq_spec() as int) && old(self).next_seq_spec()
                < u64::MAX ==> final(self).buffers_below(final(self).next_seq_spec() as int),
    {
        let seq = match self.next_sequence() {
            Some(seq) => seq,
            None => return None,
        };
        let json = event_json(event, payload, seq);
        let session_id = json_str_at(payload, "/session_id");
        let terminal_id = json_str_at(payload, "/terminal_id");
        let sid: Option<&str> = match &session_id {
            Some(s) => Some(s.as_str()),
            None => None,
        };
        let tid: Option<&str> = match &terminal_id {
            Some(t) => Some(t.as_str()),
            None => None,
        };
        proof {
            reveal_strlit("/session_id");
            reveal_strlit("/terminal_id");
        }
        self.record(event, sid, tid, seq, json.clone());
        Some(WsEvent { json, seq })
    }

    /// The buffered events of a chat session above `after_seq`, oldest first.
    pub fn replay_events(&self, session_id: &str, after_seq: u64) -> (r: Vec<WsEvent>)
        ensures
            replay_view(r@) == events_after(or_empty(self.session_log(session_id@)), after_seq),
    {
        proof {
            use_type_invariant(self);
        }
        self.sessions.replay(session_id, after_seq)
    }

    /// The buffered events of a terminal above `after_seq`, oldest first.
    pub fn replay_terminal_events(&self, terminal_id: &str, after_seq: u64) -> (r: Vec<WsEvent>)
        ensures
            replay_view(r@) == events_after(or_empty(self.terminal_log(terminal_id@)), after_seq),
    {
        proof {
            use_type_invariant(self);
        }
        self.terminals.replay(terminal_id, after_seq)
    }
}

} // verus!
