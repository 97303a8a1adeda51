//! The log of pipeline events that viewers replay and follow.
use vstd::prelude::*;

verus! {

/// The most events that the log holds.
pub const LOG_CAPACITY: usize = 10_000;

/// How many of the oldest events leave when the log runs over.
pub const LOG_EVICTED: usize = 5_000;

/// A bounded log of events, each with its sequence number and its JSON text. Readers keep their
/// own position.
pub struct EventLog {
    events: Vec<(u64, String)>,
    next_seq: u64,
}

/// One event of the log: its sequence number and its text.
pub type Entry = (u64, Seq<char>);

/// The entries that a list of numbered strings stands for.
pub open spec fn entries(v: Seq<(u64, String)>) -> Seq<Entry> {
    v.map_values(|e: (u64, String)| (e.0, e.1@))
}

/// The entries that a list of numbered string slices stands for.
pub open spec fn entries_of_slices(v: Seq<(u64, &str)>) -> Seq<Entry> {
    v.map_values(|e: (u64, &str)| (e.0, e.1@))
}

/// Whether a log with these entries, whose next event gets the number `next`, is in order: its
/// entries bear the numbers just below `next`, one by one and upwards, and fit the capacity.
pub open spec fn in_order(log: Seq<Entry>, next: u64) -> bool {
    &&& log.len() <= LOG_CAPACITY
    &&& log.len() < next
    &&& forall|i: int| 0 <= i < log.len() ==> (#[trigger] log[i]).0 == next - log.len() + i
}

/// The entries after one more event. Where they run over the capacity, the oldest leave.
pub open spec fn pushed(log: Seq<Entry>, next: u64, json: Seq<char>) -> Seq<Entry> {
    let longer = log.push((next, json));
    if longer.len() > LOG_CAPACITY {
        longer.skip(LOG_EVICTED as int)
    } else {
        longer
    }
}

/// The entries with a number above `after`, in the order of the log.
pub open spec fn newer(log: Seq<Entry>, after: u64) -> Seq<Entry> {
    log.filter(|e: Entry| e.0 > after)
}

impl View for EventLog {
    type V = Seq<Entry>;

    closed spec fn view(&self) -> Seq<Entry> {
        entries(self.events@)
    }
}

impl EventLog {
    /// The number that the next event gets.
    pub closed spec fn next(&self) -> u64 {
        self.next_seq
    }

    /// The log is in order.
    pub open spec fn wf(&self) -> bool {
        in_order(self@, self.next())
    }

    /// An empty log. The first event gets number 1.
    pub fn new() -> (r: EventLog)
        ensures
            r@ == Seq::<Entry>::empty(),
            r.next() == 1,
            r.wf(),
    {
        let r = EventLog { events: Vec::new(), next_seq: 1 };
        assert(r@ =~= Seq::<Entry>::empty());
        r
    }

    /// Appends an event and returns its number. A log that then holds more than
    /// `LOG_CAPACITY` events loses its `LOG_EVICTED` oldest.
    pub fn push(&mut self, json: String) -> (seq: u64)
        requires
            old(self).wf(),
            old(self).next() < u64::MAX,
        ensures
            seq == old(self).next(),
            final(self).next() == old(self).next() + 1,
            final(self)@ == pushed(old(self)@, old(self).next(), json@),
            final(self).wf(),
    {
        let seq = self.next_seq;
        self.next_seq = self.next_seq + 1;
        self.events.push((seq, json));
        assert(self@ =~= old(self)@.push((seq, json@)));
        if self.events.len() > LOG_CAPACITY {
            let newest = self.events.split_off(LOG_EVICTED);
            self.events = newest;
            assert(self@ =~= old(self)@.push((seq, json@)).skip(LOG_EVICTED as int));
        }
        seq
    }

    /// The number that the next event gets.
    pub fn next_seq(&self) -> (r: u64)
        ensures
            r == self.next(),
    {
        self.next_seq
    }

    /// The events with a number above `after_seq`, oldest first.
    pub fn since(&self, after_seq: u64) -> (r: Vec<(u64, &str)>)
        ensures
            entries_of_slices(r@) == newer(self@, after_seq),
    {
        let mut r: Vec<(u64, &str)> = Vec::new();
        let mut i: usize = 0;
        proof {
            reveal(Seq::filter);
            assert(self@.take(0) =~= Seq::<Entry>::empty());
            assert(entries_of_slices(r@) =~= newer(self@.take(0), after_seq));
        }
        while i < self.events.len()
            invariant
                i <= self.events.len(),
                self@.len() == self.events.len(),
                entries_of_slices(r@) == newer(self@.take(i as int), after_seq),
            decreases self.events.len() - i,
        {
            let ghost before = r@;
            let ghost seen = self@.take(i as int);
            let ghost entry = self@[i as int];
            if self.events[i].0 > after_seq {
                r.push((self.events[i].0, self.events[i].1.as_str()));
                assert(entries_of_slices(r@) =~= entries_of_slices(before).push(entry));
            }
            proof {
                reveal(Seq::filter);
                assert(self@.take(i + 1) =~= seen.push(entry));
                assert(seen.push(entry).drop_last() =~= seen);
            }
            i += 1;
        }
        assert(self@.take(i as int) =~= self@);
        r
    }
}

/// How many entries of an ordered log have a number up to `after`.
pub open spec fn seen_count(log: Seq<Entry>, next: u64, after: u64) -> int {
    if after >= next {
        log.len() as int
    } else if after + 1 <= next - log.len() {
        0
    } else {
        after + 1 - (next - log.len())
    }
}

/// In an ordered log the entries above `after` are its tail, without a gap: the entries
/// numbered from `after + 1`, or from the oldest that the log still holds, up to the newest.
pub proof fn law_newer_is_tail(log: Seq<Entry>, next: u64, after: u64)
    requires
        in_order(log, next),
    ensures
        0 <= seen_count(log, next, after) <= log.len(),
        newer(log, after) == log.skip(seen_count(log, next, after)),
        forall|i: int|
            0 <= i < newer(log, after).len() ==> (#[trigger] newer(log, after)[i]).0 == next
                - newer(log, after).len() + i,
{
    let k = seen_count(log, next, after);
    assert forall|i: int| 0 <= i < log.len() implies (#[trigger] log[i]).0 > after <==> i >= k by {}
    lemma_filter_tail(log, |e: Entry| e.0 > after, k);
    assert forall|i: int| 0 <= i < log.skip(k).len() implies (#[trigger] log.skip(k)[i]).0 == next
        - log.skip(k).len() + i by {
        assert(log.skip(k)[i] == log[k + i]);
    }
}

proof fn lemma_filter_tail(s: Seq<Entry>, keep: spec_fn(Entry) -> bool, k: int)
    requires
        0 <= k <= s.len(),
        forall|i: int| 0 <= i < s.len() ==> keep(#[trigger] s[i]) == (i >= k),
    ensures
        s.filter(keep) == s.skip(k),
    decreases s.len(),
{
    reveal(Seq::filter);
    if s.len() > 0 {
        let init = s.drop_last();
        assert forall|i: int| 0 <= i < init.len() implies keep(#[trigger] init[i]) == (i >= k) by {
            assert(init[i] == s[i]);
        }
        let last = s.len() - 1;
        assert(keep(s[last]) == (last >= k));
        if last >= k {
            lemma_filter_tail(init, keep, k);
            assert(init.skip(k).push(s[last]) =~= s.skip(k));
        } else {
            lemma_filter_tail(init, keep, init.len() as int);
            assert(init.skip(init.len() as int) =~= s.skip(k));
        }
    } else {
        assert(s.skip(k) =~= s);
    }
}

/// A reader that has seen nothing gets the whole log.
pub proof fn law_replay_is_whole_log(log: Seq<Entry>, next: u64)
    requires
        in_order(log, next),
    ensures
        newer(log, 0) == log,
{
    law_newer_is_tail(log, next, 0);
    assert(log.skip(0) =~= log);
}

/// A reader that has seen every number given out gets nothing.
pub proof fn law_caught_up_gets_nothing(log: Seq<Entry>, next: u64, after: u64)
    requires
        in_order(log, next),
        after >= next - 1,
    ensures
        newer(log, after).len() == 0,
{
    law_newer_is_tail(log, next, after);
}

/// Pushing keeps the log in order and its newest entries: the new event stands last, and what
/// stands before it is the end of the log as it was.
pub proof fn law_push_keeps_newest(log: Seq<Entry>, next: u64, json: Seq<char>)
    requires
        in_order(log, next),
        next < u64::MAX,
    ensures
        in_order(pushed(log, next, json), (next + 1) as u64),
        pushed(log, next, json).last() == (next, json),
        pushed(log, next, json).drop_last().is_suffix_of(log),
        log.len() < LOG_CAPACITY ==> pushed(log, next, json) == log.push((next, json)),
        log.len() == LOG_CAPACITY ==> pushed(log, next, json).len() == LOG_CAPACITY - LOG_EVICTED
            + 1,
{
    let after = pushed(log, next, json);
    assert forall|i: int| 0 <= i < after.len() implies (#[trigger] after[i]).0 == next + 1
        - after.len() + i by {
        if log.len() == LOG_CAPACITY {
            assert(after[i] == log.push((next, json))[i + LOG_EVICTED]);
        }
    }
}

/// A reader that was up to date before an event gets exactly that event after it.
pub proof fn law_up_to_date_reader_gets_new_event(log: Seq<Entry>, next: u64, json: Seq<char>)
    requires
        in_order(log, next),
        next < u64::MAX,
    ensures
        newer(pushed(log, next, json), (next - 1) as u64) == seq![(next, json)],
{
    let after = pushed(log, next, json);
    law_push_keeps_newest(log, next, json);
    law_newer_is_tail(after, (next + 1) as u64, (next - 1) as u64);
    assert(after.skip(after.len() - 1) =~= seq![(next, json)]);
}

/// A log after a series of events, the first of which gets the number `next`.
pub open spec fn pushed_all(log: Seq<Entry>, next: u64, texts: Seq<Seq<char>>) -> Seq<Entry>
    decreases texts.len(),
{
    if texts.len() == 0 {
        log
    } else {
        pushed(
            pushed_all(log, next, texts.drop_last()),
            (next + texts.len() - 1) as u64,
            texts.last(),
        )
    }
}

/// Events come back as they were pushed: after any series of events on an empty log, the entry
/// with the number `i + 1` bears the text of event `i`; the log is in order; and it has all of
/// the newest `LOG_CAPACITY - LOG_EVICTED` events, and all events while no more than
/// `LOG_CAPACITY` have come.
pub proof fn law_log_returns_what_was_pushed(texts: Seq<Seq<char>>)
    requires
        texts.len() < u64::MAX,
    ensures
        ({
            let log = pushed_all(Seq::empty(), 1, texts);
            &&& in_order(log, (texts.len() + 1) as u64)
            &&& forall|k: int|
                0 <= k < log.len() ==> (#[trigger] log[k]).1 == texts[log[k].0 as int - 1]
            &&& texts.len() <= LOG_CAPACITY ==> log.len() == texts.len()
            &&& texts.len() > LOG_CAPACITY ==> log.len() > LOG_CAPACITY - LOG_EVICTED
        }),
    decreases texts.len(),
{
    if texts.len() > 0 {
        let before = texts.drop_last();
        law_log_returns_what_was_pushed(before);
        let old_log = pushed_all(Seq::empty(), 1, before);
        let next = texts.len() as u64;
        let log = pushed(old_log, next, texts.last());
        law_push_keeps_newest(old_log, next, texts.last());
        assert(log == pushed_all(Seq::empty(), 1, texts));
        assert forall|k: int| 0 <= k < log.len() implies (#[trigger] log[k]).1
            == texts[log[k].0 as int - 1] by {
            let m: int = k + old_log.len() + 1 - log.len();
            assert(log[k] == old_log.push((next, texts.last()))[m]);
            if m < old_log.len() {
                assert(old_log[m].1 == before[old_log[m].0 as int - 1]);
            }
        }
    }
}

/// The log holds up to ten thousand events and then loses its oldest five thousand.
pub proof fn law_log_limits()
    ensures
        LOG_CAPACITY == 10_000,
        LOG_EVICTED == 5_000,
{
}

/// A reader gets the end of an ordered log: every event with a number above the one it has seen,
/// no other, and in their order.
pub proof fn law_reader_gets_what_it_has_not_seen(log: Seq<Entry>, next: u64, after: u64)
    requires
        in_order(log, next),
    ensures
        exists|k: int|
            0 <= k <= log.len() && newer(log, after) == #[trigger] log.skip(k) && (forall|i: int|
                0 <= i < k ==> (#[trigger] log[i]).0 <= after) && (forall|i: int|
                k <= i < log.len() ==> (#[trigger] log[i]).0 > after),
{
    law_newer_is_tail(log, next, after);
    let k = seen_count(log, next, after);
    assert(newer(log, after) == log.skip(k));
}

/// What a reader gets of two logs one behind the other is what it gets of the first and then what
/// it gets of the second.
pub proof fn law_reading_goes_event_by_event(front: Seq<Entry>, back: Seq<Entry>, after: u64)
    ensures
        newer(front + back, after) == newer(front, after) + newer(back, after),
        forall|e: Entry|
            newer(seq![e], after) == if e.0 > after {
                #[trigger] seq![e]
            } else {
                Seq::<Entry>::empty()
            },
    decreases back.len(),
{
    reveal(Seq::filter);
    if back.len() == 0 {
        assert(front + back =~= front);
        assert(newer(back, after) =~= Seq::<Entry>::empty());
        assert(newer(front + back, after) =~= newer(front, after) + newer(back, after));
    } else {
        law_reading_goes_event_by_event(front, back.drop_last(), after);
        assert((front + back).drop_last() =~= front + back.drop_last());
        assert((front + back).last() == back.last());
        assert(newer(front + back, after) =~= newer(front, after) + newer(back, after));
    }
    assert forall|e: Entry|
        newer(seq![e], after) == if e.0 > after {
            #[trigger] seq![e]
        } else {
            Seq::<Entry>::empty()
        } by {
        let one = seq![e];
        assert(one.drop_last() =~= Seq::<Entry>::empty());
        assert(one.last() == e);
        assert(newer(one.drop_last(), after) =~= Seq::<Entry>::empty());
        if e.0 > after {
            assert(newer(one, after) =~= one);
        }
    }
}

/// An ordered log has its newest event last, under the number before the next, and no two events
/// with one number or out of their order; it never holds more than its capacity.
pub proof fn law_order_of_the_log(log: Seq<Entry>, next: u64)
    requires
        in_order(log, next),
    ensures
        log.len() > 0 ==> log.last().0 == next - 1,
        log.len() > 0 ==> log[0].0 >= 1,
        log.len() <= 10_000,
        forall|i: int, j: int| 0 <= i < j < log.len() ==> log[j].0 - log[i].0 == j - i,
{
}

/// A pushed event stands last with its own text and number; of what was there, everything stays
/// while there is room, and else the newest five thousand.
pub proof fn law_push_loses_nothing_early(log: Seq<Entry>, next: u64, json: Seq<char>)
    requires
        log.len() <= 10_000,
    ensures
        pushed(log, next, json).last() == (next, json),
        log.len() < 10_000 ==> pushed(log, next, json).drop_last() == log,
        log.len() == 10_000 ==> pushed(log, next, json).drop_last() == log.subrange(5_000, 10_000),
{
    let longer = log.push((next, json));
    if log.len() < 10_000 {
        assert(longer.drop_last() =~= log);
    } else {
        assert(longer.skip(5_000).drop_last() =~= log.subrange(5_000, 10_000));
    }
}

/// The entries of a list are its numbers and texts, one for one and in their order.
pub proof fn law_entries_are_the_list(v: Seq<(u64, String)>, w: Seq<(u64, &str)>)
    ensures
        entries(v).len() == v.len(),
        forall|i: int|
            0 <= i < v.len() ==> (#[trigger] entries(v)[i]).0 == v[i].0 && entries(v)[i].1
                == v[i].1@,
        entries_of_slices(w).len() == w.len(),
        forall|i: int|
            0 <= i < w.len() ==> (#[trigger] entries_of_slices(w)[i]).0 == w[i].0
                && entries_of_slices(w)[i].1 == w[i].1@,
{
}

} // verus!
