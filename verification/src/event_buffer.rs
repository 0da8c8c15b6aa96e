//! The last events of a session, numbered in the order in which they happened.
use std::collections::VecDeque;
use vstd::prelude::*;

use crate::limits;
use crate::session_event;
use crate::session_event::{BufferedAgentEvent, SerializableThreadEvent};

verus! {

/// How many events of a session are kept.
pub const AGENT_EVENT_BUFFER_LIMIT: usize = 1024;

/// The last events of a session.
pub struct SessionEventBuffer {
    next_sequence: u64,
    events: VecDeque<BufferedAgentEvent>,
    pushed: Ghost<nat>,
}

/// The model of a [`SessionEventBuffer`].
pub struct EventBufferView {
    /// How many events there have been.
    pub pushed: nat,
    /// The last of them, as many as are kept.
    pub events: Seq<session_event::ThreadEventView>,
}

/// The events that are not before a place.
pub open spec fn at_or_after(
    events: Seq<session_event::BufferedEventView>,
    from_sequence: u64,
) -> Seq<session_event::BufferedEventView>
    decreases events.len(),
{
    if events.len() == 0 {
        Seq::empty()
    } else {
        let before = at_or_after(events.drop_last(), from_sequence);
        if events.last().sequence >= from_sequence {
            before.push(events.last())
        } else {
            before
        }
    }
}

impl EventBufferView {
    /// The place of the next event.
    pub open spec fn next(self) -> u64 {
        limits::saturated(self.pushed)
    }

    /// The place of an event that is kept.
    pub open spec fn sequence(self, i: int) -> u64 {
        limits::saturated((self.pushed - self.events.len() + i) as nat)
    }

    /// The place of the first event that is kept, or of the next one where none is.
    pub open spec fn first(self) -> u64 {
        self.sequence(0)
    }

    /// The events that are kept, each with its place.
    pub open spec fn buffered(self) -> Seq<session_event::BufferedEventView> {
        Seq::new(
            self.events.len(),
            |i: int|
                session_event::BufferedEventView {
                    sequence: self.sequence(i),
                    event: self.events[i],
                },
        )
    }

    /// Whether an event at or after a place is no longer kept.
    pub open spec fn has_gap_before(self, from_sequence: u64) -> bool {
        from_sequence < self.first() && from_sequence < self.next()
    }

    /// The buffer after one more event.
    pub open spec fn push(self, event: session_event::ThreadEventView, limit: nat) -> Self {
        EventBufferView { pushed: self.pushed + 1, events: limits::last_of(self.events.push(event), limit) }
    }
}

impl View for SessionEventBuffer {
    type V = EventBufferView;

    closed spec fn view(&self) -> EventBufferView {
        EventBufferView {
            pushed: self.pushed@,
            events: self.events@.map_values(|event: BufferedAgentEvent| event.event@),
        }
    }
}

impl Default for SessionEventBuffer {
    fn default() -> (buffer: Self)
        ensures
            buffer.wf(),
            buffer@ == (EventBufferView { pushed: 0, events: Seq::empty() }),
    {
        let buffer = SessionEventBuffer {
            next_sequence: 0,
            events: VecDeque::new(),
            pushed: Ghost(0),
        };
        assert(buffer@.events =~= Seq::empty());
        buffer
    }
}

impl SessionEventBuffer {
    /// The invariant: the events are numbered without a hole up to the next place.
    pub closed spec fn wf(&self) -> bool {
        &&& self.events@.len() <= self.pushed@
        &&& self.next_sequence == self@.next()
        &&& forall|i: int|
            0 <= i < self.events@.len() ==> (#[trigger] self.events@[i]).sequence
                == self@.sequence(i)
    }

    /// Adds an event; of more than `limit` events the first ones are dropped.
    pub fn push(&mut self, event: SerializableThreadEvent, limit: usize) -> (pushed:
        BufferedAgentEvent)
        requires
            old(self).wf(),
        ensures
            final(self).wf(),
            final(self)@ == old(self)@.push(event@, limit as nat),
            pushed@ == (session_event::BufferedEventView {
                sequence: old(self)@.next(),
                event: event@,
            }),
    {
        let sequence = self.next_sequence;
        self.next_sequence = if sequence < u64::MAX {
            sequence + 1
        } else {
            sequence
        };
        let event = BufferedAgentEvent { sequence, event };
        let ghost before = self@;
        let ghost kept = self.events@;
        self.events.push_back(event.clone());
        proof {
            self.pushed@ = self.pushed@ + 1;
        }
        let ghost all = self.events@;
        let ghost number = self.pushed@;
        let ghost views = before.events.push(event@.event);
        assert(all.map_values(|event: BufferedAgentEvent| event.event@) =~= views);
        assert forall|i: int| 0 <= i < all.len() implies (#[trigger] all[i]).sequence == limits::saturated(
            (number - all.len() + i) as nat,
        ) by {
            if i < kept.len() {
                assert(all[i] == kept[i]);
                assert(kept[i].sequence == before.sequence(i));
            }
        }
        while self.events.len() > limit
            invariant
                self.events@.len() <= all.len() <= number,
                self.events@.len() == all.len() || self.events@.len() >= limit,
                self.events@ == all.subrange(all.len() - self.events@.len(), all.len() as int),
                self.pushed@ == number,
                self.next_sequence == limits::saturated(number),
            decreases self.events.len(),
        {
            let _ = self.events.pop_front();
            assert(self.events@ =~= all.subrange(
                all.len() - self.events@.len(),
                all.len() as int,
            ));
        }
        proof {
            assert(self@.events =~= limits::last_of(views, limit as nat)) by {
                let dropped = all.len() - self.events@.len();
                assert forall|i: int| 0 <= i < self.events@.len() implies self@.events[i]
                    == views[dropped + i] by {
                    assert(self.events@[i] == all[dropped + i]);
                    assert(all.map_values(
                        |event: BufferedAgentEvent| event.event@,
                    )[dropped + i] == views[dropped + i]);
                }
            }
            assert forall|i: int| 0 <= i < self.events@.len() implies (
            #[trigger] self.events@[i]).sequence == self@.sequence(i) by {
                assert(self.events@[i] == all[all.len() - self.events@.len() + i]);
            }
        }
        event
    }

    /// The events that are kept.
    pub fn events(&self) -> (events: Vec<BufferedAgentEvent>)
        requires
            self.wf(),
        ensures
            session_event::buffered_views(events@) == self@.buffered(),
    {
        let mut events: Vec<BufferedAgentEvent> = Vec::new();
        let mut i: usize = 0;
        while i < self.events.len()
            invariant
                i <= self.events.len(),
                self.wf(),
                events.len() == i,
                forall|j: int| 0 <= j < i ==> (#[trigger] events@[j])@ == self.events@[j]@,
            decreases self.events.len() - i,
        {
            events.push(self.events[i].clone());
            i += 1;
        }
        proof {
            let views = session_event::buffered_views(events@);
            assert forall|j: int| 0 <= j < views.len() implies views[j] == self@.buffered()[j] by {
                assert(events@[j]@ == self.events@[j]@);
                assert(self.events@[j].sequence == self@.sequence(j));
            }
            assert(views =~= self@.buffered());
        }
        events
    }

    pub fn next_sequence(&self) -> (sequence: u64)
        requires
            self.wf(),
        ensures
            sequence == self@.next(),
    {
        self.next_sequence
    }

    pub fn first_sequence(&self) -> (sequence: u64)
        requires
            self.wf(),
        ensures
            sequence == self@.first(),
    {
        if self.events.len() > 0 {
            self.events[0].sequence
        } else {
            self.next_sequence
        }
    }

    pub fn has_gap_before(&self, from_sequence: u64) -> (gap: bool)
        requires
            self.wf(),
        ensures
            gap == self@.has_gap_before(from_sequence),
    {
        from_sequence < self.first_sequence() && from_sequence < self.next_sequence
    }

    /// The events that are kept and not before a place.
    pub fn events_from(&self, from_sequence: u64) -> (events: Vec<BufferedAgentEvent>)
        requires
            self.wf(),
        ensures
            session_event::buffered_views(events@) == at_or_after(self@.buffered(), from_sequence),
    {
        let ghost buffered = self@.buffered();
        let mut events: Vec<BufferedAgentEvent> = Vec::new();
        assert(session_event::buffered_views(events@) =~= Seq::empty());
        assert(buffered.take(0) =~= Seq::empty());
        let mut i: usize = 0;
        while i < self.events.len()
            invariant
                i <= self.events.len(),
                self.wf(),
                buffered == self@.buffered(),
                session_event::buffered_views(events@) == at_or_after(
                    buffered.take(i as int),
                    from_sequence,
                ),
            decreases self.events.len() - i,
        {
            let ghost before = session_event::buffered_views(events@);
            proof {
                let next = buffered.take(i + 1);
                assert(next.drop_last() =~= buffered.take(i as int));
                assert(self.events@[i as int].sequence == self@.sequence(i as int));
                assert(next.last() == self.events@[i as int]@);
            }
            if self.events[i].sequence >= from_sequence {
                events.push(self.events[i].clone());
                assert(session_event::buffered_views(events@) =~= before.push(
                    self.events@[i as int]@,
                ));
            }
            i += 1;
        }
        assert(buffered.take(i as int) =~= buffered);
        events
    }
}

proof fn at_or_after_counts(
    events: Seq<session_event::BufferedEventView>,
    first: int,
    from_sequence: u64,
)
    requires
        forall|i: int| 0 <= i < events.len() ==> (#[trigger] events[i]).sequence == first + i,
    ensures
        from_sequence <= first ==> at_or_after(events, from_sequence) == events,
        first <= from_sequence <= first + events.len() ==> at_or_after(events, from_sequence)
            == events.subrange(from_sequence - first, events.len() as int),
        first + events.len() <= from_sequence ==> at_or_after(events, from_sequence)
            == Seq::<session_event::BufferedEventView>::empty(),
    decreases events.len(),
{
    if events.len() > 0 {
        let before = events.drop_last();
        assert forall|i: int| 0 <= i < before.len() implies (#[trigger] before[i]).sequence == first
            + i by {
            assert(before[i] == events[i]);
        }
        at_or_after_counts(before, first, from_sequence);
        assert(events[events.len() - 1].sequence == first + events.len() - 1);
        if from_sequence <= first {
            assert(before.push(events.last()) =~= events);
        }
        if first <= from_sequence < first + events.len() {
            assert(before.subrange(from_sequence - first, before.len() as int).push(events.last())
                =~= events.subrange(from_sequence - first, events.len() as int));
        }
    }
    if first + events.len() == from_sequence {
        assert(events.subrange(events.len() as int, events.len() as int) =~= Seq::empty());
    }
    if from_sequence <= first {
        assert(events.subrange(0, events.len() as int) =~= events);
    }
}

/// Where the buffer has no gap before a place, the events from there on are all there:
/// one for each place up to the next one, in order. This holds as long as the places have
/// not run out.
pub proof fn no_gap_means_complete(buffer: EventBufferView, from_sequence: u64)
    requires
        buffer.events.len() <= buffer.pushed <= u64::MAX,
        !buffer.has_gap_before(from_sequence),
        from_sequence <= buffer.next(),
    ensures
        ({
            let events = at_or_after(buffer.buffered(), from_sequence);
            &&& events.len() == buffer.next() - from_sequence
            &&& forall|i: int|
                0 <= i < events.len() ==> (#[trigger] events[i]).sequence == from_sequence + i
        }),
{
    let all = buffer.buffered();
    let first = buffer.pushed - buffer.events.len();
    at_or_after_counts(all, first, from_sequence);
}

/// The events that are asked for from a place on stand at consecutive places, from there or
/// from the first one that is kept, up to the next place; and those from a later place on
/// are the last of them. This holds as long as the places have not run out.
pub proof fn asked_events_are_numbered(buffer: EventBufferView, from_sequence: u64, later: u64)
    requires
        buffer.events.len() <= buffer.pushed <= u64::MAX,
        from_sequence <= later <= buffer.next(),
        !buffer.has_gap_before(later),
    ensures
        ({
            let events = at_or_after(buffer.buffered(), from_sequence);
            let start = if from_sequence <= buffer.first() {
                buffer.first()
            } else {
                from_sequence
            };
            &&& start <= later
            &&& events.len() == buffer.next() - start
            &&& forall|i: int|
                0 <= i < events.len() ==> (#[trigger] events[i]).sequence == start + i
            &&& at_or_after(buffer.buffered(), later) == events.skip(later - start)
        }),
{
    let all = buffer.buffered();
    let first = buffer.pushed - buffer.events.len();
    at_or_after_counts(all, first, from_sequence);
    at_or_after_counts(all, first, later);
    let start = if from_sequence <= first {
        first
    } else {
        from_sequence as int
    };
    assert(all.subrange(0, all.len() as int) =~= all);
    assert(all.subrange(start - first, all.len() as int).skip(later - start) =~= all.subrange(
        later - first,
        all.len() as int,
    ));
}

/// Where the buffer has a gap before a place, the event at that place is not kept.
pub proof fn gap_means_lost(buffer: EventBufferView, from_sequence: u64)
    requires
        buffer.events.len() <= buffer.pushed,
        buffer.has_gap_before(from_sequence),
    ensures
        forall|i: int|
            0 <= i < buffer.buffered().len() ==> (#[trigger] buffer.buffered()[i]).sequence
                > from_sequence,
{
}

/// A push leaves no more events than the limit, the newest last.
pub proof fn push_keeps_the_newest(
    buffer: EventBufferView,
    event: session_event::ThreadEventView,
    limit: nat,
)
    ensures
        limit > 0 ==> buffer.push(event, limit).events.last() == event,
        buffer.push(event, limit).events.len() <= limit,
        buffer.pushed < u64::MAX ==> buffer.push(event, limit).next() == buffer.next() + 1,
{
}

/// A buffer keeps no more events than there have been.
pub proof fn kept_at_most_pushed(buffer: &SessionEventBuffer)
    requires
        buffer.wf(),
    ensures
        buffer@.events.len() <= buffer@.pushed,
{
}

/// The events that are kept stand at consecutive places, the last of them just before the
/// next place, which is the number of events that there have been. This holds as long as
/// the places have not run out.
pub proof fn kept_events_are_numbered(buffer: &SessionEventBuffer)
    requires
        buffer.wf(),
        buffer@.pushed < u64::MAX,
    ensures
        buffer@.next() == buffer@.pushed,
        forall|i: int|
            0 <= i < buffer@.buffered().len() ==> (#[trigger] buffer@.buffered()[i]).sequence
                == buffer@.pushed - buffer@.buffered().len() + i,
{
}

/// The events that are asked for from a place on are those of the events that are kept
/// which are not before it, in the same order.
pub proof fn asked_events_are_kept(
    events: Seq<session_event::BufferedEventView>,
    from_sequence: u64,
)
    ensures
        at_or_after(events, from_sequence) == events.filter(
            |event: session_event::BufferedEventView| event.sequence >= from_sequence,
        ),
    decreases events.len(),
{
    reveal(Seq::filter);
    if events.len() > 0 {
        asked_events_are_kept(events.drop_last(), from_sequence);
    }
}

/// After a push the newest event that is kept is the one that was pushed, and the others
/// are the last of those that were kept before, unchanged and in order. Without a limit
/// that is reached nothing is dropped.
pub proof fn push_keeps_what_was_kept(
    buffer: EventBufferView,
    event: session_event::ThreadEventView,
    limit: nat,
)
    ensures
        ({
            let after = buffer.push(event, limit);
            let dropped = buffer.events.len() + 1 - after.events.len();
            &&& after.pushed == buffer.pushed + 1
            &&& buffer.events.len() < limit ==> dropped == 0
            &&& buffer.events.len() >= limit ==> after.events.len() == limit
            &&& limit > 0 ==> after.events.len() > 0 && after.events.last() == event
            &&& forall|i: int|
                0 <= i < after.events.len() - 1 ==> #[trigger] after.events[i]
                    == buffer.events[dropped + i]
        }),
{
}

/// The events that are kept are given out as they are, each with its place: the number of
/// the events before it. The next place follows that of the last one.
pub proof fn kept_events_are_given_out(buffer: EventBufferView, i: int)
    requires
        0 <= i < buffer.events.len() <= buffer.pushed <= u64::MAX,
    ensures
        buffer.buffered().len() == buffer.events.len(),
        buffer.buffered()[i].event == buffer.events[i],
        buffer.buffered()[i].sequence == buffer.pushed - buffer.events.len() + i,
        buffer.next() == buffer.pushed,
        buffer.first() == buffer.pushed - buffer.events.len(),
{
}

/// There is a gap before a place exactly where an event at or after it was pushed and is no
/// longer kept.
pub proof fn gaps_are_lost_events(buffer: EventBufferView, from_sequence: u64)
    requires
        buffer.events.len() <= buffer.pushed <= u64::MAX,
    ensures
        buffer.has_gap_before(from_sequence) <==> from_sequence < buffer.pushed
            - buffer.events.len(),
{
}

} // verus!
