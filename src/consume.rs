use vstd::prelude::*;
use std::collections::VecDeque;
use crate::record::{build_message_value, record_matches, ConsumedMessage, MessageRecord};

verus! {

/// The last `n` items of `s`, or all of them when there are fewer.
pub open spec fn keep_last<T>(s: Seq<T>, n: nat) -> Seq<T> {
    if s.len() <= n {
        s
    } else {
        s.subrange(s.len() - n, s.len() as int)
    }
}

/// The window after each item of `s` is appended in turn, the oldest being
/// dropped whenever more than `limit` are held.
pub open spec fn fill<T>(limit: nat, s: Seq<T>) -> Seq<T>
    decreases s.len(),
{
    if s.len() == 0 {
        seq![]
    } else {
        keep_last(fill(limit, s.drop_last()).push(s.last()), limit)
    }
}

/// The records of one read, holding at most `limit` of them, newest last.
pub struct MessageWindow {
    limit: usize,
    items: VecDeque<MessageRecord>,
}

impl View for MessageWindow {
    type V = Seq<MessageRecord>;

    closed spec fn view(&self) -> Seq<MessageRecord> {
        self.items@
    }
}

impl MessageWindow {
    pub closed spec fn limit(&self) -> nat {
        self.limit as nat
    }

    pub closed spec fn wf(&self) -> bool {
        self.limit >= 1 && self.items@.len() <= self.limit
    }

    pub fn new(limit: usize) -> (r: MessageWindow)
        requires
            limit >= 1,
        ensures
            r.wf(),
            r@ == Seq::<MessageRecord>::empty(),
            r.limit() == limit,
    {
        MessageWindow { limit, items: VecDeque::new() }
    }

    pub fn len(&self) -> (r: usize)
        ensures
            r == self@.len(),
    {
        self.items.len()
    }

    /// Appends a record, dropping the oldest when more than the limit are held.
    pub fn push(&mut self, record: MessageRecord)
        requires
            old(self).wf(),
        ensures
            final(self).wf(),
            final(self).limit() == old(self).limit(),
            final(self)@ == keep_last(old(self)@.push(record), old(self).limit()),
    {
        let ghost s = self.items@.push(record);
        self.items.push_back(record);
        if self.items.len() > self.limit {
            let _ = self.items.pop_front();
            assert(self.items@ =~= s.subrange(s.len() - self.limit, s.len() as int));
        }
    }

    /// The records held, oldest first.
    pub fn into_items(self) -> (r: Vec<MessageRecord>)
        ensures
            r@ == self@,
    {
        let ghost all = self.items@;
        let mut items = self.items;
        let mut out: Vec<MessageRecord> = Vec::new();
        while items.len() > 0
            invariant
                all == out@ + items@,
            decreases items@.len(),
        {
            let ghost before = items@;
            match items.pop_front() {
                Some(x) => {
                    out.push(x);
                    assert(all =~= out@ + items@) by {
                        assert(before =~= seq![x] + items@);
                    }
                },
                None => {},
            }
        }
        assert(out@ =~= all);
        out
    }
}

proof fn lemma_keep_last_push<T>(s: Seq<T>, x: T, n: nat)
    requires
        n >= 1,
    ensures
        keep_last(keep_last(s, n).push(x), n) == keep_last(s.push(x), n),
{
    assert(keep_last(keep_last(s, n).push(x), n) =~= keep_last(s.push(x), n));
}

/// However many records arrive, the window holds exactly the last `limit`
/// of them (all of them when fewer arrived), in the order they arrived.
pub proof fn lemma_window_keeps_last<T>(limit: nat, s: Seq<T>)
    requires
        limit >= 1,
    ensures
        fill(limit, s) == keep_last(s, limit),
        s.len() >= limit ==> fill(limit, s) == s.subrange(s.len() - limit, s.len() as int),
        s.len() >= limit ==> fill(limit, s).len() == limit,
    decreases s.len(),
{
    if s.len() > 0 {
        lemma_window_keeps_last(limit, s.drop_last());
        lemma_keep_last_push(s.drop_last(), s.last(), limit);
        assert(s.drop_last().push(s.last()) =~= s);
    }
}

/// What a wait on the subscription gave.
#[derive(Debug)]
pub enum ReadEvent {
    TimedOut,
    StreamEnded,
    DeliveryFailed(String),
    Delivered(ConsumedMessage),
}

/// What the caller does next.
#[derive(Debug)]
pub enum ReadAction {
    /// Acknowledge the delivered message and wait again.
    Acknowledge,
    /// Close the subscription and return the window's records.
    Close,
    /// Give up with the delivery error.
    Fail(String),
}

/// The window's records after an event; `newest` is the record made of a
/// delivered message.
pub open spec fn window_after(
    before: Seq<MessageRecord>,
    limit: nat,
    event: ReadEvent,
    newest: MessageRecord,
) -> Seq<MessageRecord> {
    match event {
        ReadEvent::Delivered(_) => keep_last(before.push(newest), limit),
        _ => before,
    }
}

/// The action that follows an event.
pub open spec fn action_after(event: ReadEvent) -> ReadAction {
    match event {
        ReadEvent::TimedOut => ReadAction::Close,
        ReadEvent::StreamEnded => ReadAction::Close,
        ReadEvent::DeliveryFailed(e) => ReadAction::Fail(e),
        ReadEvent::Delivered(_) => ReadAction::Acknowledge,
    }
}

/// One step of the bounded read: a delivery is recorded in the window and
/// acknowledged; a timeout or the end of the stream ends the read; a
/// delivery error fails it.
pub fn on_read_event(window: &mut MessageWindow, event: ReadEvent) -> (r: ReadAction)
    requires
        old(window).wf(),
    ensures
        final(window).wf(),
        final(window).limit() == old(window).limit(),
        r == action_after(event),
        final(window)@ == window_after(
            old(window)@,
            old(window).limit(),
            event,
            final(window)@.last(),
        ),
        event is Delivered ==> record_matches(final(window)@.last(), event->Delivered_0),
{
    match event {
        ReadEvent::TimedOut => ReadAction::Close,
        ReadEvent::StreamEnded => ReadAction::Close,
        ReadEvent::DeliveryFailed(e) => ReadAction::Fail(e),
        ReadEvent::Delivered(m) => {
            let record = build_message_value(&m);
            window.push(record);
            ReadAction::Acknowledge
        },
    }
}

/// A read whose first wait times out ends at once: a new window stays empty
/// and the subscription is closed.
pub proof fn lemma_timeout_without_delivery(limit: nat, newest: MessageRecord)
    requires
        limit >= 1,
    ensures
        window_after(Seq::<MessageRecord>::empty(), limit, ReadEvent::TimedOut, newest)
            == Seq::<MessageRecord>::empty(),
        action_after(ReadEvent::TimedOut) is Close,
{
}

pub const DEFAULT_LIMIT: usize = 10;

pub const DEFAULT_TIMEOUT_MS: u64 = 2000;

/// The window size of a read: 10 when not given, and at least 1.
pub fn effective_limit(limit: Option<usize>) -> (r: usize)
    ensures
        r == (match limit {
            Some(n) => if n >= 1 {
                n
            } else {
                1
            },
            None => DEFAULT_LIMIT,
        }),
{
    match limit {
        Some(n) => if n >= 1 {
            n
        } else {
            1
        },
        None => DEFAULT_LIMIT,
    }
}

/// The wait for each delivery: 2000 ms when not given, and at least 1 ms.
pub fn effective_timeout_ms(timeout_ms: Option<u64>) -> (r: u64)
    ensures
        r == (match timeout_ms {
            Some(n) => if n >= 1 {
                n
            } else {
                1
            },
            None => DEFAULT_TIMEOUT_MS,
        }),
{
    match timeout_ms {
        Some(n) => if n >= 1 {
            n
        } else {
            1
        },
        None => DEFAULT_TIMEOUT_MS,
    }
}

pub open spec fn earliest_lower() -> Seq<char> {
    seq!['e', 'a', 'r', 'l', 'i', 'e', 's', 't']
}

pub open spec fn earliest_upper() -> Seq<char> {
    seq!['E', 'A', 'R', 'L', 'I', 'E', 'S', 'T']
}

/// `s` is `"earliest"` up to ASCII case.
pub open spec fn is_earliest(s: Seq<char>) -> bool {
    s.len() == 8 && forall|i: int|
        0 <= i < 8 ==> s[i] == earliest_lower()[i] || s[i] == earliest_upper()[i]
}

/// Whether a start position asks to read from the beginning of the topic.
pub fn starts_from_earliest(start_position: &Option<String>) -> (r: bool)
    ensures
        r == (start_position is Some && is_earliest(start_position->0@)),
{
    match start_position {
        None => false,
        Some(s) => {
            proof {
                reveal_strlit("earliest");
                reveal_strlit("EARLIEST");
            }
            let lower = "earliest";
            let upper = "EARLIEST";
            assert(lower@ =~= earliest_lower());
            assert(upper@ =~= earliest_upper());
            if s.unicode_len() != 8 {
                return false;
            }
            let mut i: usize = 0;
            while i < 8
                invariant
                    start_position is Some && start_position->0@ == s@,
                    s@.len() == 8,
                    lower@ == earliest_lower(),
                    upper@ == earliest_upper(),
                    i <= 8,
                    forall|j: int|
                        0 <= j < i ==> s@[j] == earliest_lower()[j] || s@[j] == earliest_upper()[j],
                decreases 8 - i,
            {
                let c = s.get_char(i);
                let lc = lower.get_char(i);
                let uc = upper.get_char(i);
                if c != lc && c != uc {
                    assert(!is_earliest(s@)) by {
                        assert(c == s@[i as int]);
                        assert(lc == earliest_lower()[i as int]);
                        assert(uc == earliest_upper()[i as int]);
                    }
                    return false;
                }
                i = i + 1;
            }
            true
        },
    }
}

} // verus!
