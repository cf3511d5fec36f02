//! One poll cycle over all watched rooms: poll every tracker on its freshly
//! fetched timeline slice, isolate per-room transport failures, and combine
//! the outcomes into the cycle's single decision.

use vstd::prelude::*;

use crate::aggregate::combined_value;
use crate::aggregate::compare_and_store;
use crate::aggregate::lemma_max_opt_value;
use crate::duration::Seconds;
use crate::duration::opt_value;
use crate::filter::RawEvent;
use crate::tracker::Room;
use crate::tracker::TransportError;
use crate::tracker::last_seen_view;
use crate::tracker::next_last_seen;
use crate::tracker::poll_value;

verus! {

/// One room's outcome value in a cycle: a transport failure is isolated and
/// counts as no outcome.
pub open spec fn cycle_value(room: Room, fetched: Result<Vec<RawEvent>, TransportError>) -> Option<
    int,
> {
    match fetched {
        Ok(events) => poll_value(last_seen_view(room.last_event_id), events@),
        Err(_) => None,
    }
}

/// What a room's tracker remembers after a cycle: unchanged when its fetch
/// failed, advanced to the newest filterable message otherwise.
pub open spec fn last_seen_after(
    room: Room,
    fetched: Result<Vec<RawEvent>, TransportError>,
) -> Option<Seq<char>> {
    match fetched {
        Ok(events) => next_last_seen(last_seen_view(room.last_event_id), events@),
        Err(_) => last_seen_view(room.last_event_id),
    }
}

/// All rooms' outcome values for one cycle, room by room.
pub open spec fn cycle_values(
    rooms: Seq<Room>,
    fetches: Seq<Result<Vec<RawEvent>, TransportError>>,
) -> Seq<Option<int>> {
    Seq::new(rooms.len(), |i: int| cycle_value(rooms[i], fetches[i]))
}

/// Poll every room once, each on its own fetched timeline slice, and return
/// the cycle's decision: the largest duration any room requested. A failed
/// fetch leaves its room's tracker unchanged and never affects the other
/// rooms or the decision they produce.
pub fn poll_all_rooms(
    rooms: &mut Vec<Room>,
    fetches: Vec<Result<Vec<RawEvent>, TransportError>>,
) -> (r: Option<Seconds>)
    requires
        fetches@.len() == old(rooms)@.len(),
    ensures
        final(rooms)@.len() == old(rooms)@.len(),
        forall|i: int|
            0 <= i < old(rooms)@.len() ==> (#[trigger] final(rooms)@[i]).room_id@ == old(
                rooms,
            )@[i].room_id@ && last_seen_view(final(rooms)@[i].last_event_id) == last_seen_after(
                old(rooms)@[i],
                fetches@[i],
            ),
        opt_value(r) == combined_value(cycle_values(old(rooms)@, fetches@)),
{
    let ghost orig_rooms = old(rooms)@;
    let ghost all_fetches = fetches@;
    let mut fs = fetches;
    let mut acc: Option<Seconds> = None;
    let mut i: usize = 0;
    let n = rooms.len();
    proof {
        assert(fs@ =~= all_fetches.skip(0));
        assert(cycle_values(orig_rooms, all_fetches).take(0) =~= Seq::<Option<int>>::empty());
    }
    while i < n
        invariant
            n == orig_rooms.len(),
            rooms@.len() == n,
            all_fetches.len() == n,
            i <= n,
            fs@ == all_fetches.skip(i as int),
            forall|j: int| i <= j < n ==> rooms@[j] == orig_rooms[j],
            forall|j: int|
                0 <= j < i ==> (#[trigger] rooms@[j]).room_id@ == orig_rooms[j].room_id@
                    && last_seen_view(rooms@[j].last_event_id) == last_seen_after(
                    orig_rooms[j],
                    all_fetches[j],
                ),
            opt_value(acc) == combined_value(cycle_values(orig_rooms, all_fetches).take(i as int)),
        decreases n - i,
    {
        let ghost acc_before = acc;
        let fetched = fs.remove(0);
        proof {
            assert(fetched == all_fetches[i as int]);
            assert(fs@ =~= all_fetches.skip(i + 1 as int));
        }
        let res = rooms[i].poll_room(fetched);
        let outcome = match res {
            Ok(o) => o,
            Err(_) => None,
        };
        proof {
            assert(opt_value(outcome) == cycle_value(orig_rooms[i as int], all_fetches[i as int]));
        }
        compare_and_store(&mut acc, outcome);
        i = i + 1;
        proof {
            lemma_max_opt_value(acc_before, outcome);
            let vals = cycle_values(orig_rooms, all_fetches);
            assert(vals.take(i as int).drop_last() =~= vals.take(i as int - 1));
            assert(vals.take(i as int).last() == vals[i as int - 1]);
        }
    }
    proof {
        assert(cycle_values(orig_rooms, all_fetches).take(n as int) =~= cycle_values(
            orig_rooms,
            all_fetches,
        ));
    }
    acc
}

} // verus!
