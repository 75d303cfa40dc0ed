//! Ordering and cutting of event lists.

use crate::output::{event_views, CalendarEvent, EventView};
use vstd::prelude::*;

verus! {

/// Whether the events are in ascending order of start.
pub open spec fn sorted_by_start(events: Seq<EventView>) -> bool {
    forall|i: int, j: int|
        0 <= i <= j < events.len() ==> events[i].start_time.key() <= events[j].start_time.key()
}

/// The events that start at the instant with the given key, in list order.
pub open spec fn starting_at(events: Seq<EventView>, key: int) -> Seq<EventView> {
    events.filter(|e: EventView| e.start_time.key() == key)
}

/// Whether `merged` holds exactly the events of `gathered`, in ascending
/// order of start, events with the same start in the order they have in
/// `gathered`.
pub open spec fn is_timeline_of(merged: Seq<EventView>, gathered: Seq<EventView>) -> bool {
    &&& sorted_by_start(merged)
    &&& forall|key: int| #[trigger] starting_at(merged, key) == starting_at(gathered, key)
}

/// The first `limit` events, or all of them where there is no limit or
/// fewer events.
pub open spec fn limited(events: Seq<EventView>, limit: Option<usize>) -> Seq<EventView> {
    match limit {
        Some(n) => if n < events.len() {
            events.take(n as int)
        } else {
            events
        },
        None => events,
    }
}

proof fn lemma_insert_splits(events: Seq<EventView>, at: int, item: EventView)
    requires
        0 <= at <= events.len(),
    ensures
        events.insert(at, item) == events.take(at) + seq![item] + events.skip(at),
        events == events.take(at) + events.skip(at),
{
    assert(events.insert(at, item) =~= events.take(at) + seq![item] + events.skip(at));
    assert(events =~= events.take(at) + events.skip(at));
}

proof fn lemma_none_start_at(events: Seq<EventView>, key: int)
    requires
        forall|i: int| 0 <= i < events.len() ==> events[i].start_time.key() != key,
    ensures
        starting_at(events, key) == Seq::<EventView>::empty(),
    decreases events.len(),
{
    reveal(Seq::filter);
    if events.len() > 0 {
        lemma_none_start_at(events.drop_last(), key);
    }
}

proof fn lemma_single_start_at(item: EventView, key: int)
    ensures
        starting_at(seq![item], key) == if item.start_time.key() == key {
            seq![item]
        } else {
            Seq::<EventView>::empty()
        },
{
    reveal(Seq::filter);
    let one = seq![item];
    assert(one.drop_last() =~= Seq::<EventView>::empty());
    assert(one.drop_last().filter(|e: EventView| e.start_time.key() == key)
        =~= Seq::<EventView>::empty());
    assert(one.last() == item);
    assert(starting_at(one, key) =~= if item.start_time.key() == key {
        seq![item]
    } else {
        Seq::<EventView>::empty()
    });
}

/// Putting `item` in front of the first event that does not start before
/// it keeps a timeline a timeline, now of the gathered events with `item`
/// in front.
proof fn lemma_insert_keeps_timeline(
    merged: Seq<EventView>,
    gathered: Seq<EventView>,
    at: int,
    item: EventView,
)
    requires
        is_timeline_of(merged, gathered),
        0 <= at <= merged.len(),
        forall|i: int| 0 <= i < at ==> merged[i].start_time.key() < item.start_time.key(),
        forall|i: int|
            at <= i < merged.len() ==> item.start_time.key() <= merged[i].start_time.key(),
    ensures
        is_timeline_of(merged.insert(at, item), seq![item] + gathered),
{
    let grown = merged.insert(at, item);
    assert(sorted_by_start(grown)) by {
        assert forall|i: int, j: int| 0 <= i <= j < grown.len() implies grown[i].start_time.key()
            <= grown[j].start_time.key() by {
            if i < at && j > at {
                assert(grown[i] == merged[i]);
                assert(grown[j] == merged[j - 1]);
            } else if i > at {
                assert(grown[i] == merged[i - 1]);
                assert(grown[j] == merged[j - 1]);
            }
        }
    }
    assert forall|key: int| #[trigger]
        starting_at(grown, key) == starting_at(seq![item] + gathered, key) by {
        let pred = |e: EventView| e.start_time.key() == key;
        lemma_insert_splits(merged, at, item);
        Seq::filter_distributes_over_add(merged.take(at) + seq![item], merged.skip(at), pred);
        Seq::filter_distributes_over_add(merged.take(at), seq![item], pred);
        Seq::filter_distributes_over_add(merged.take(at), merged.skip(at), pred);
        Seq::filter_distributes_over_add(seq![item], gathered, pred);
        lemma_single_start_at(item, key);
        assert(starting_at(merged, key) == starting_at(gathered, key));
        if item.start_time.key() == key {
            lemma_none_start_at(merged.take(at), key);
            assert(starting_at(grown, key) =~= seq![item] + starting_at(merged.skip(at), key));
            assert(starting_at(merged, key) =~= starting_at(merged.skip(at), key));
        } else {
            assert(starting_at(grown, key) =~= starting_at(merged.take(at), key) + starting_at(
                merged.skip(at),
                key,
            ));
            assert(starting_at(seq![item] + gathered, key) =~= starting_at(gathered, key));
        }
    }
}

/// Sorts events by start, earliest first. Events that start at the same
/// instant keep the order in which they were handed in.
pub fn sort_by_start(events: Vec<CalendarEvent>) -> (merged: Vec<CalendarEvent>)
    ensures
        is_timeline_of(event_views(merged@), event_views(events@)),
{
    let mut rest = events;
    let mut merged: Vec<CalendarEvent> = Vec::new();
    let ghost all = event_views(events@);
    proof {
        reveal(Seq::filter);
        assert(all.skip(all.len() as int) =~= Seq::<EventView>::empty());
        assert(event_views(merged@) =~= Seq::<EventView>::empty());
        assert forall|key: int| #[trigger]
            starting_at(event_views(merged@), key) == starting_at(
                all.skip(all.len() as int),
                key,
            ) by {}
    }
    while rest.len() > 0
        invariant
            all == event_views(events@),
            rest.len() <= all.len(),
            event_views(rest@) == all.take(rest.len() as int),
            is_timeline_of(event_views(merged@), all.skip(rest.len() as int)),
        decreases rest.len(),
    {
        let ghost rest_before = rest@;
        let ghost merged_before = merged@;
        let item = rest.pop().unwrap();
        let ghost n = rest.len() as int;
        proof {
            assert(rest@ =~= rest_before.take(n));
            assert(event_views(rest@) =~= all.take(n));
            assert(event_views(rest_before)[n] == rest_before[n]@);
            assert(all.take(n + 1)[n] == all[n]);
            assert(item@ == all[n]);
            assert(all.skip(n) =~= seq![item@] + all.skip(n + 1));
        }
        let mut at: usize = 0;
        while at < merged.len() && merged[at].start_time.is_before(&item.start_time)
            invariant
                at <= merged.len(),
                forall|i: int|
                    0 <= i < at ==> event_views(merged@)[i].start_time.key()
                        < item@.start_time.key(),
            decreases merged.len() - at,
        {
            at += 1;
        }
        proof {
            let before = event_views(merged@);
            assert forall|i: int| at <= i < before.len() implies item@.start_time.key()
                <= before[i].start_time.key() by {
                assert(before[at as int].start_time.key() <= before[i].start_time.key());
            }
            lemma_insert_keeps_timeline(before, all.skip(n + 1), at as int, item@);
        }
        merged.insert(at, item);
        assert(event_views(merged@) =~= event_views(merged_before).insert(at as int, item@));
    }
    assert(all.skip(0) =~= all);
    merged
}

/// Cuts a list of events down to its first `limit` events; without a limit
/// the list stays whole.
pub fn truncate_events(events: Vec<CalendarEvent>, limit: Option<usize>) -> (cut: Vec<
    CalendarEvent,
>)
    ensures
        event_views(cut@) == limited(event_views(events@), limit),
{
    let mut cut = events;
    match limit {
        Some(n) => {
            if n < cut.len() {
                cut.truncate(n);
                assert(event_views(cut@) =~= event_views(events@).take(n as int));
            }
        },
        None => {},
    }
    cut
}

/// In a sorted list whose last event starts at `key`, the events starting
/// at `key` end with that event; without it, the list is still sorted and
/// the events starting at other instants are the same.
proof fn lemma_last_of_sorted(events: Seq<EventView>, key: int)
    requires
        events.len() > 0,
        events.last().start_time.key() == key,
    ensures
        starting_at(events, key) == starting_at(events.drop_last(), key).push(events.last()),
        forall|other: int|
            other != key ==> #[trigger] starting_at(events, other) == starting_at(
                events.drop_last(),
                other,
            ),
        sorted_by_start(events) ==> sorted_by_start(events.drop_last()),
{
    reveal(Seq::filter);
    if sorted_by_start(events) {
        let shorter = events.drop_last();
        assert forall|i: int, j: int|
            0 <= i <= j < shorter.len() implies shorter[i].start_time.key()
            <= shorter[j].start_time.key() by {
            assert(shorter[i] == events[i]);
            assert(shorter[j] == events[j]);
        }
    }
}

/// Every event of the list that starts at `key` is found among the events
/// starting at `key`; so if there are none of those, no event starts at
/// `key`.
proof fn lemma_starting_at_finds(events: Seq<EventView>, at: int)
    requires
        0 <= at < events.len(),
    ensures
        starting_at(events, events[at].start_time.key()).len() > 0,
    decreases events.len(),
{
    reveal(Seq::filter);
    let key = events[at].start_time.key();
    if at < events.len() - 1 {
        lemma_starting_at_finds(events.drop_last(), at);
    }
}

/// Some event of the list starts at `key` if the events starting at `key`
/// are not none.
proof fn lemma_starting_at_witness(events: Seq<EventView>, key: int) -> (at: int)
    requires
        starting_at(events, key).len() > 0,
    ensures
        0 <= at < events.len(),
        events[at].start_time.key() == key,
    decreases events.len(),
{
    reveal(Seq::filter);
    if events.len() == 0 {
        0
    } else if events.last().start_time.key() == key {
        events.len() - 1
    } else {
        lemma_starting_at_witness(events.drop_last(), key)
    }
}

/// The order of an agenda is fixed by what was gathered: two timelines of
/// the same events are the same list.
pub proof fn law_timeline_is_unique(
    first: Seq<EventView>,
    second: Seq<EventView>,
    gathered: Seq<EventView>,
)
    requires
        is_timeline_of(first, gathered),
        is_timeline_of(second, gathered),
    ensures
        first == second,
{
    assert forall|key: int| #[trigger] starting_at(first, key) == starting_at(second, key) by {
        assert(starting_at(first, key) == starting_at(gathered, key));
        assert(starting_at(second, key) == starting_at(gathered, key));
    }
    lemma_same_sorted(first, second);
}

proof fn lemma_same_sorted(first: Seq<EventView>, second: Seq<EventView>)
    requires
        sorted_by_start(first),
        sorted_by_start(second),
        forall|key: int| #[trigger] starting_at(first, key) == starting_at(second, key),
    ensures
        first == second,
    decreases first.len(),
{
    if first.len() == 0 {
        if second.len() > 0 {
            lemma_starting_at_finds(second, 0);
            let key = second[0].start_time.key();
            assert(starting_at(first, key) == starting_at(second, key));
            reveal(Seq::filter);
        }
        assert(first =~= second);
    } else {
        let key = first.last().start_time.key();
        lemma_last_of_sorted(first, key);
        assert(starting_at(first, key) == starting_at(second, key));
        let at = lemma_starting_at_witness(second, key);
        let top = second.last().start_time.key();
        assert(second[at].start_time.key() <= top);
        if top != key {
            lemma_starting_at_finds(second, second.len() - 1);
            assert(starting_at(first, top) == starting_at(second, top));
            let back = lemma_starting_at_witness(first, top);
            assert(first[back].start_time.key() <= first[first.len() - 1].start_time.key());
        }
        lemma_last_of_sorted(second, key);
        let firsts = starting_at(first.drop_last(), key);
        let seconds = starting_at(second.drop_last(), key);
        assert(firsts.push(first.last()) == seconds.push(second.last()));
        assert(firsts.push(first.last()).last() == first.last());
        assert(seconds.push(second.last()).last() == second.last());
        assert(firsts =~= firsts.push(first.last()).drop_last());
        assert(seconds =~= seconds.push(second.last()).drop_last());
        assert forall|other: int| #[trigger]
            starting_at(first.drop_last(), other) == starting_at(second.drop_last(), other) by {
            if other != key {
                assert(starting_at(first, other) == starting_at(second, other));
            }
        }
        lemma_same_sorted(first.drop_last(), second.drop_last());
        assert(first =~= first.drop_last().push(first.last()));
        assert(second =~= second.drop_last().push(second.last()));
    }
}

/// A timeline holds every gathered event, as often as it was gathered.
pub proof fn law_timeline_keeps_events(merged: Seq<EventView>, gathered: Seq<EventView>)
    requires
        is_timeline_of(merged, gathered),
    ensures
        merged.len() == gathered.len(),
        forall|i: int| 0 <= i < gathered.len() ==> merged.contains(#[trigger] gathered[i]),
        forall|i: int| 0 <= i < merged.len() ==> gathered.contains(#[trigger] merged[i]),
{
    lemma_timeline_of_gathered(gathered);
    law_timeline_is_unique(merged, timeline(gathered), gathered);
}

/// The gathered events put in order: each event, from the last to the
/// first, goes in front of the first event that does not start before it.
pub open spec fn timeline(gathered: Seq<EventView>) -> Seq<EventView>
    decreases gathered.len(),
{
    if gathered.len() == 0 {
        Seq::empty()
    } else {
        let rest = timeline(gathered.drop_first());
        rest.insert(insertion_point(rest, gathered[0].start_time.key()), gathered[0])
    }
}

/// The number of events at the front of the list that start before `key`.
pub open spec fn insertion_point(events: Seq<EventView>, key: int) -> int
    decreases events.len(),
{
    if events.len() == 0 || events[0].start_time.key() >= key {
        0
    } else {
        1 + insertion_point(events.drop_first(), key)
    }
}

proof fn lemma_insertion_point(events: Seq<EventView>, key: int)
    requires
        sorted_by_start(events),
    ensures
        0 <= insertion_point(events, key) <= events.len(),
        forall|i: int|
            0 <= i < insertion_point(events, key) ==> events[i].start_time.key() < key,
        forall|i: int|
            insertion_point(events, key) <= i < events.len() ==> key
                <= events[i].start_time.key(),
    decreases events.len(),
{
    if events.len() == 0 || events[0].start_time.key() >= key {
        assert forall|i: int| 0 <= i < events.len() implies key <= events[i].start_time.key() by {
            assert(events[0].start_time.key() <= events[i].start_time.key());
        }
    } else {
        let rest = events.drop_first();
        assert forall|i: int, j: int| 0 <= i <= j < rest.len() implies rest[i].start_time.key()
            <= rest[j].start_time.key() by {
            assert(rest[i] == events[i + 1]);
            assert(rest[j] == events[j + 1]);
        }
        lemma_insertion_point(rest, key);
        assert forall|i: int|
            0 <= i < insertion_point(events, key) implies events[i].start_time.key() < key by {
            if i > 0 {
                assert(events[i] == rest[i - 1]);
            }
        }
        assert forall|i: int| insertion_point(events, key) <= i < events.len() implies key
            <= events[i].start_time.key() by {
            assert(events[i] == rest[i - 1]);
        }
    }
}

/// The gathered events put in order are a timeline of them, of the same
/// length and with the same events.
pub proof fn lemma_timeline_of_gathered(gathered: Seq<EventView>)
    ensures
        is_timeline_of(timeline(gathered), gathered),
        timeline(gathered).len() == gathered.len(),
        forall|i: int| 0 <= i < gathered.len() ==> timeline(gathered).contains(
            #[trigger] gathered[i],
        ),
        forall|i: int| 0 <= i < timeline(gathered).len() ==> gathered.contains(
            #[trigger] timeline(gathered)[i],
        ),
    decreases gathered.len(),
{
    if gathered.len() == 0 {
        reveal(Seq::filter);
        assert forall|key: int| #[trigger]
            starting_at(timeline(gathered), key) == starting_at(gathered, key) by {
            assert(timeline(gathered) =~= gathered);
        }
    } else {
        let rest = gathered.drop_first();
        let item = gathered[0];
        let sorted = timeline(rest);
        lemma_timeline_of_gathered(rest);
        lemma_insertion_point(sorted, item.start_time.key());
        let at = insertion_point(sorted, item.start_time.key());
        lemma_insert_keeps_timeline(sorted, rest, at, item);
        assert(seq![item] + rest =~= gathered);
        let grown = sorted.insert(at, item);
        assert(grown[at] == item);
        assert forall|i: int| 0 <= i < gathered.len() implies grown.contains(
            #[trigger] gathered[i],
        ) by {
            if i > 0 {
                assert(gathered[i] == rest[i - 1]);
                assert(sorted.contains(rest[i - 1]));
                let j = choose|j: int| 0 <= j < sorted.len() && sorted[j] == rest[i - 1];
                if j < at {
                    assert(grown[j] == sorted[j]);
                } else {
                    assert(grown[j + 1] == sorted[j]);
                }
            }
        }
        assert forall|i: int| 0 <= i < grown.len() implies gathered.contains(
            #[trigger] grown[i],
        ) by {
            if i == at {
                assert(gathered[0] == item);
            } else {
                let j = if i < at {
                    i
                } else {
                    i - 1
                };
                assert(grown[i] == sorted[j]);
                assert(rest.contains(sorted[j]));
                let k = choose|k: int| 0 <= k < rest.len() && rest[k] == sorted[j];
                assert(gathered[k + 1] == rest[k]);
            }
        }
    }
}

/// Cutting keeps the front of the list: a cut is the beginning of every
/// cut of the same list with a larger limit or none, and it holds as many
/// events as the limit allows.
pub proof fn law_cut_is_front(events: Seq<EventView>, small: usize, large: Option<usize>)
    requires
        large matches Some(n) ==> small <= n,
    ensures
        limited(events, Some(small)).is_prefix_of(limited(events, large)),
        limited(events, large).is_prefix_of(events),
        limited(events, Some(small)).len() == if small < events.len() {
            small as nat
        } else {
            events.len()
        },
        limited(events, None) == events,
{
}

} // verus!
