//! The pool of free rooms: a sequence of room numbers in the order in which
//! they became free.

use vstd::prelude::*;

verus! {

/// The hotel's rooms are numbered from one up to this number.
pub const ROOM_COUNT: u32 = 20;

/// Whether `room` is a room of the hotel.
pub open spec fn is_room(room: u32) -> bool {
    1 <= room <= 20
}

/// Every room of the hotel, in ascending order.
pub open spec fn all_rooms() -> Seq<u32> {
    Seq::new(20, |i: int| (i + 1) as u32)
}

/// The pool with every occurrence of `room` taken out, the rest in order.
pub open spec fn without(pool: Seq<u32>, room: u32) -> Seq<u32> {
    pool.filter(|r: u32| r != room)
}

/// Taking a room out removes exactly that room, keeps a pool free of
/// repetitions, and changes nothing where the room was not in the pool.
pub proof fn lemma_without(pool: Seq<u32>, room: u32)
    ensures
        forall|x: u32| #[trigger] without(pool, room).contains(x) <==> (pool.contains(x) && x != room),
        pool.no_duplicates() ==> without(pool, room).no_duplicates(),
        !pool.contains(room) ==> without(pool, room) == pool,
    decreases pool.len(),
{
    reveal(Seq::filter);
    let out = without(pool, room);
    if pool.len() > 0 {
        let front = pool.drop_last();
        let last = pool.last();
        let sub = without(front, room);
        lemma_without(front, room);
        assert(out == if last != room { sub.push(last) } else { sub });
        assert forall|x: u32| #[trigger] out.contains(x) implies pool.contains(x) && x != room by {
            let i = choose|i: int| 0 <= i < out.len() && out[i] == x;
            if last != room && i == out.len() - 1 {
                assert(pool[pool.len() - 1] == x);
            } else {
                assert(sub[i] == x);
                assert(sub.contains(x));
                assert(front.contains(x));
                let j = choose|j: int| 0 <= j < front.len() && front[j] == x;
                assert(pool[j] == x);
            }
        }
        assert forall|x: u32| pool.contains(x) && x != room implies #[trigger] out.contains(x) by {
            let i = choose|i: int| 0 <= i < pool.len() && pool[i] == x;
            if i == pool.len() - 1 {
                assert(out[out.len() - 1] == x);
            } else {
                assert(front[i] == x);
                assert(front.contains(x));
                assert(sub.contains(x));
                let j = choose|j: int| 0 <= j < sub.len() && sub[j] == x;
                assert(out[j] == x);
            }
        }
        if pool.no_duplicates() {
            assert forall|i: int, j: int| 0 <= i < front.len() && 0 <= j < front.len() && i != j implies front[i] != front[j] by {
                assert(front[i] == pool[i] && front[j] == pool[j]);
            }
            assert(front.no_duplicates());
            if last != room {
                if sub.contains(last) {
                    assert(front.contains(last));
                    let j = choose|j: int| 0 <= j < front.len() && front[j] == last;
                    assert(pool[j] == pool[pool.len() - 1]);
                }
                assert forall|i: int, j: int| 0 <= i < out.len() && 0 <= j < out.len() && i != j implies out[i] != out[j] by {
                    if i < sub.len() {
                        assert(sub.contains(sub[i]));
                    }
                    if j < sub.len() {
                        assert(sub.contains(sub[j]));
                    }
                }
            }
        }
        if !pool.contains(room) {
            if front.contains(room) {
                let j = choose|j: int| 0 <= j < front.len() && front[j] == room;
                assert(pool[j] == room);
            }
            assert(pool[pool.len() - 1] == last);
            assert(last != room);
            assert(out =~= pool);
        }
    } else {
        assert(out =~= pool);
    }
}

/// Taking a room out of a pool that just grew by one room: the new room
/// stays at the end unless it is the one taken out.
pub proof fn lemma_without_push(pool: Seq<u32>, last: u32, room: u32)
    ensures
        without(pool.push(last), room) == if last != room {
            without(pool, room).push(last)
        } else {
            without(pool, room)
        },
{
    reveal(Seq::filter);
    assert(pool.push(last).drop_last() =~= pool);
}

/// A pool that grows by one room holds that room and what it held before,
/// and stays free of repetitions where the room is new to it.
pub proof fn lemma_push(pool: Seq<u32>, room: u32)
    ensures
        forall|x: u32| #[trigger] pool.push(room).contains(x) <==> (pool.contains(x) || x == room),
        pool.no_duplicates() && !pool.contains(room) ==> pool.push(room).no_duplicates(),
{
    let out = pool.push(room);
    assert forall|x: u32| #[trigger] out.contains(x) implies pool.contains(x) || x == room by {
        let i = choose|i: int| 0 <= i < out.len() && out[i] == x;
        if i < pool.len() {
            assert(pool[i] == x);
        }
    }
    assert forall|x: u32| pool.contains(x) || x == room implies #[trigger] out.contains(x) by {
        if pool.contains(x) {
            let i = choose|i: int| 0 <= i < pool.len() && pool[i] == x;
            assert(out[i] == x);
        } else {
            assert(out[pool.len() as int] == x);
        }
    }
    if pool.no_duplicates() && !pool.contains(room) {
        assert forall|i: int, j: int| 0 <= i < out.len() && 0 <= j < out.len() && i != j implies out[i] != out[j] by {
            if i < pool.len() {
                assert(pool.contains(pool[i]));
            }
            if j < pool.len() {
                assert(pool.contains(pool[j]));
            }
        }
    }
}

/// Tells whether `room` is in the pool.
pub fn contains_room(pool: &Vec<u32>, room: u32) -> (found: bool)
    ensures
        found == pool@.contains(room),
{
    let mut i: usize = 0;
    while i < pool.len()
        invariant
            i <= pool.len(),
            forall|j: int| 0 <= j < i ==> pool@[j] != room,
        decreases pool.len() - i,
    {
        if pool[i] == room {
            return true;
        }
        i += 1;
    }
    false
}

/// Takes `room` out of the pool and keeps the other rooms in their order.
pub fn remove_room(pool: &mut Vec<u32>, room: u32)
    ensures
        final(pool)@ == without(old(pool)@, room),
{
    let mut kept: Vec<u32> = Vec::new();
    let mut i: usize = 0;
    proof {
        reveal(Seq::filter);
        assert(pool@.take(0) =~= Seq::<u32>::empty());
    }
    while i < pool.len()
        invariant
            i <= pool.len(),
            *pool == *old(pool),
            kept@ == without(pool@.take(i as int), room),
        decreases pool.len() - i,
    {
        proof {
            reveal(Seq::filter);
            assert(pool@.take(i + 1).drop_last() =~= pool@.take(i as int));
        }
        let r: u32 = pool[i];
        if r != room {
            kept.push(r);
        }
        i += 1;
    }
    proof {
        assert(pool@.take(pool.len() as int) =~= pool@);
    }
    *pool = kept;
}

/// Whether two pools hold the same rooms, in whatever order.
pub open spec fn same_rooms(a: Seq<u32>, b: Seq<u32>) -> bool {
    forall|x: u32| a.contains(x) <==> b.contains(x)
}

/// Tells whether the pool repeats no room.
pub fn is_distinct(pool: &Vec<u32>) -> (ok: bool)
    ensures
        ok == pool@.no_duplicates(),
{
    let mut i: usize = 0;
    while i < pool.len()
        invariant
            i <= pool.len(),
            forall|a: int, b: int| 0 <= a < b < i ==> pool@[a] != pool@[b],
        decreases pool.len() - i,
    {
        let mut j: usize = 0;
        while j < i
            invariant
                j <= i < pool.len(),
                forall|a: int| 0 <= a < j ==> pool@[a] != pool@[i as int],
            decreases i - j,
        {
            if pool[j] == pool[i] {
                return false;
            }
            j += 1;
        }
        i += 1;
    }
    true
}

/// Tells whether every room of `part` is in `whole`.
pub fn is_subset(part: &Vec<u32>, whole: &Vec<u32>) -> (ok: bool)
    ensures
        ok == (forall|x: u32| part@.contains(x) ==> whole@.contains(x)),
{
    let mut i: usize = 0;
    while i < part.len()
        invariant
            i <= part.len(),
            forall|k: int| 0 <= k < i ==> whole@.contains(#[trigger] part@[k]),
        decreases part.len() - i,
    {
        if !contains_room(whole, part[i]) {
            assert(part@.contains(part@[i as int]));
            return false;
        }
        i += 1;
    }
    true
}

/// The pool of a hotel in which nobody stays: every room, ascending.
pub fn full_pool() -> (pool: Vec<u32>)
    ensures
        pool@ == all_rooms(),
{
    let mut pool: Vec<u32> = Vec::new();
    let mut room: u32 = 1;
    while room <= ROOM_COUNT
        invariant
            1 <= room <= 21,
            pool@.len() == room - 1,
            forall|i: int| 0 <= i < pool@.len() ==> pool@[i] == i + 1,
        decreases 21 - room,
    {
        pool.push(room);
        room += 1;
    }
    assert(pool@ =~= all_rooms());
    pool
}

} // verus!
