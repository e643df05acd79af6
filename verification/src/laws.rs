//! What holds of every registry state, and of every step between states.

use crate::guest::{valid_id, Guest, PaymentMethod};
use crate::pool::{
    is_room, lemma_push, lemma_without, lemma_without_push, same_rooms, without,
};
use crate::registry::{add_refusal, checked_in, revised, update_refusal, HotelState};
use vstd::prelude::*;

verus! {

/// The state of a hotel in which nobody stays is consistent.
pub proof fn lemma_vacant_consistent()
    ensures
        HotelState::vacant().consistent(),
{
    let s = HotelState::vacant();
    assert forall|room: u32| is_room(room) implies #[trigger] s.rooms.contains(room) by {
        assert(s.rooms[room - 1] == room);
    }
    assert forall|room: u32| !#[trigger] s.occupied(room) by {}
}

/// Storing a guest with a valid, new identifier in a free room keeps the
/// state consistent.
pub proof fn lemma_check_in_consistent(s: HotelState, guest: Guest)
    requires
        s.consistent(),
        s.rooms.contains(guest.room),
        valid_id(guest.id),
        !s.guests.contains_key(guest.id),
    ensures
        s.check_in(guest).consistent(),
{
    let t = s.check_in(guest);
    lemma_without(s.rooms, guest.room);
    assert forall|room: u32| #[trigger] t.occupied(room) <==> (s.occupied(room) || room == guest.room) by {
        if s.occupied(room) {
            let w = choose|id: u32| #[trigger] s.guests.contains_key(id) && s.guests[id].room == room;
            assert(t.guests.contains_key(w) && t.guests[w].room == room);
        }
        if room == guest.room {
            assert(t.guests.contains_key(guest.id) && t.guests[guest.id].room == room);
        }
        if t.occupied(room) {
            let w = choose|id: u32| #[trigger] t.guests.contains_key(id) && t.guests[id].room == room;
            if w != guest.id {
                assert(s.guests.contains_key(w) && s.guests[w].room == room);
            }
        }
    }
    assert(!s.occupied(guest.room));
    assert forall|a: u32, b: u32|
        t.guests.contains_key(a) && t.guests.contains_key(b) && a != b implies t.guests[a].room
        != t.guests[b].room by {
        if a == guest.id {
            assert(s.guests.contains_key(b));
        } else if b == guest.id {
            assert(s.guests.contains_key(a));
        } else {
            assert(s.guests.contains_key(a) && s.guests.contains_key(b));
        }
    }
}

/// Removing a stored guest and returning their room to the pool keeps the
/// state consistent.
pub proof fn lemma_check_out_consistent(s: HotelState, id: u32)
    requires
        s.consistent(),
        s.guests.contains_key(id),
    ensures
        s.check_out(id).consistent(),
{
    let t = s.check_out(id);
    let freed = s.guests[id].room;
    lemma_push(s.rooms, freed);
    assert(s.occupied(freed));
    assert forall|room: u32| #[trigger] t.occupied(room) <==> (s.occupied(room) && room != freed) by {
        if s.occupied(room) && room != freed {
            let w = choose|w: u32| #[trigger] s.guests.contains_key(w) && s.guests[w].room == room;
            assert(t.guests.contains_key(w) && t.guests[w].room == room);
        }
        if t.occupied(room) {
            let w = choose|w: u32| #[trigger] t.guests.contains_key(w) && t.guests[w].room == room;
            assert(s.guests.contains_key(w) && s.guests[w].room == room);
            assert(s.guests.contains_key(id));
        }
    }
    assert forall|a: u32, b: u32|
        t.guests.contains_key(a) && t.guests.contains_key(b) && a != b implies t.guests[a].room
        != t.guests[b].room by {
        assert(s.guests.contains_key(a) && s.guests.contains_key(b));
    }
}

/// A revision is a check-out followed by a check-in: replacing a stored
/// record leaves the state that removing it and storing the new record
/// would leave, the pool's order included.
pub proof fn lemma_revise_is_check_out_then_check_in(s: HotelState, id: u32, revised: Guest)
    requires
        s.consistent(),
        s.guests.contains_key(id),
        revised.room == s.guests[id].room || s.rooms.contains(revised.room),
    ensures
        s.revise(id, revised) == s.check_out(id).check_in(revised),
{
    let prior = s.guests[id].room;
    assert(s.occupied(prior));
    lemma_without_push(s.rooms, prior, revised.room);
    lemma_without(s.rooms, revised.room);
    assert(s.revise(id, revised).rooms == s.check_out(id).check_in(revised).rooms);
}

/// Replacing a stored record keeps the state consistent, where the new
/// identifier is valid and belongs to no other guest, and the new room is
/// the old one or a free one.
pub proof fn lemma_revise_consistent(s: HotelState, id: u32, revised: Guest)
    requires
        s.consistent(),
        s.guests.contains_key(id),
        valid_id(revised.id),
        revised.id == id || !s.guests.contains_key(revised.id),
        revised.room == s.guests[id].room || s.rooms.contains(revised.room),
    ensures
        s.revise(id, revised).consistent(),
{
    lemma_revise_is_check_out_then_check_in(s, id, revised);
    lemma_check_out_consistent(s, id);
    lemma_push(s.rooms, s.guests[id].room);
    lemma_check_in_consistent(s.check_out(id), revised);
}

/// Once a guest of a list is refused, the list as a whole cannot check in.
pub proof fn lemma_refusal_is_final(guests: Seq<Guest>, n: int)
    requires
        0 <= n <= guests.len(),
        checked_in(guests.take(n)).is_none(),
    ensures
        checked_in(guests).is_none(),
    decreases guests.len() - n,
{
    if n < guests.len() {
        assert(guests.take(n + 1).drop_last() =~= guests.take(n));
        lemma_refusal_is_final(guests, n + 1);
    } else {
        assert(guests.take(n) =~= guests);
    }
}

/// A consistent state stays consistent when its pool is put in another
/// order.
pub proof fn lemma_reordered_pool_consistent(s: HotelState, rooms: Seq<u32>)
    requires
        s.consistent(),
        rooms.no_duplicates(),
        same_rooms(rooms, s.rooms),
    ensures
        (HotelState { guests: s.guests, rooms: rooms }).consistent(),
{
    let t = HotelState { guests: s.guests, rooms: rooms };
    assert forall|room: u32| #[trigger] t.occupied(room) <==> s.occupied(room) by {
        if s.occupied(room) {
            let w = choose|id: u32| #[trigger] s.guests.contains_key(id) && s.guests[id].room == room;
            assert(t.guests.contains_key(w) && t.guests[w].room == room);
        }
        if t.occupied(room) {
            let w = choose|id: u32| #[trigger] t.guests.contains_key(id) && t.guests[id].room == room;
            assert(s.guests.contains_key(w) && s.guests[w].room == room);
        }
    }
}

/// One mutating call on a registry, with everything it is given.
pub enum Operation {
    /// A check-in of `guest`, whose name and email are blank or not.
    Add { guest: Guest, name_blank: bool, email_blank: bool },
    /// A revision of the guest under `id`.
    Update {
        id: u32,
        new_id: Option<u32>,
        name: Option<String>,
        name_blank: bool,
        email: Option<String>,
        email_blank: bool,
        payment: Option<PaymentMethod>,
        room: Option<u32>,
    },
    /// A check-out of the guest under `id`.
    Delete { id: u32 },
}

/// The state that an operation leaves: a new one where it is accepted, the
/// state it found where it is refused. The registry's mutating functions
/// promise exactly this step.
pub open spec fn step(s: HotelState, op: Operation) -> HotelState {
    match op {
        Operation::Add { guest, name_blank, email_blank } => {
            if add_refusal(s, guest.id, name_blank, email_blank, guest.room).is_none() {
                s.check_in(guest)
            } else {
                s
            }
        },
        Operation::Update { id, new_id, name, name_blank, email, email_blank, payment, room } => {
            if update_refusal(
                s,
                id,
                new_id,
                name.is_some() && name_blank,
                email.is_some() && email_blank,
                room,
            ).is_none() {
                s.revise(id, revised(s.guests[id], new_id, name, email, payment, room))
            } else {
                s
            }
        },
        Operation::Delete { id } => {
            if s.guests.contains_key(id) {
                s.check_out(id)
            } else {
                s
            }
        },
    }
}

/// The state after a run of operations on a hotel in which nobody stayed.
pub open spec fn run(ops: Seq<Operation>) -> HotelState
    decreases ops.len(),
{
    if ops.len() == 0 {
        HotelState::vacant()
    } else {
        step(run(ops.drop_last()), ops.last())
    }
}

/// Every operation, accepted or refused, keeps a consistent state
/// consistent.
pub proof fn lemma_step_consistent(s: HotelState, op: Operation)
    requires
        s.consistent(),
    ensures
        step(s, op).consistent(),
{
    match op {
        Operation::Add { guest, name_blank, email_blank } => {
            if add_refusal(s, guest.id, name_blank, email_blank, guest.room).is_none() {
                lemma_check_in_consistent(s, guest);
            }
        },
        Operation::Update { id, new_id, name, name_blank, email, email_blank, payment, room } => {
            if update_refusal(
                s,
                id,
                new_id,
                name.is_some() && name_blank,
                email.is_some() && email_blank,
                room,
            ).is_none() {
                lemma_revise_consistent(
                    s,
                    id,
                    revised(s.guests[id], new_id, name, email, payment, room),
                );
            }
        },
        Operation::Delete { id } => {
            if s.guests.contains_key(id) {
                lemma_check_out_consistent(s, id);
            }
        },
    }
}

/// After any run of operations the state is consistent.
pub proof fn lemma_run_consistent(ops: Seq<Operation>)
    ensures
        run(ops).consistent(),
    decreases ops.len(),
{
    if ops.len() == 0 {
        lemma_vacant_consistent();
    } else {
        lemma_run_consistent(ops.drop_last());
        lemma_step_consistent(run(ops.drop_last()), ops.last());
    }
}

/// Room exclusivity. In a consistent state the free rooms and the rooms
/// that guests hold have no room in common, and together they are the
/// rooms of the hotel.
pub proof fn lemma_rooms_partition(s: HotelState)
    requires
        s.consistent(),
    ensures
        s.rooms.to_set().disjoint(s.occupied_rooms()),
        s.rooms.to_set().union(s.occupied_rooms()) == Set::new(|room: u32| is_room(room)),
{
    let free = s.rooms.to_set();
    let held = s.occupied_rooms();
    assert forall|room: u32| !(free.contains(room) && held.contains(room)) by {
        if free.contains(room) {
            assert(s.rooms.contains(room));
        }
    }
    assert forall|room: u32| #[trigger] held.contains(room) implies is_room(room) by {
        let w = choose|id: u32| #[trigger] s.guests.contains_key(id) && s.guests[id].room == room;
        assert(is_room(s.guests[w].room));
    }
    assert forall|room: u32| free.union(held).contains(room) <==> is_room(room) by {
        if free.contains(room) {
            assert(s.rooms.contains(room));
        }
        if is_room(room) && !s.rooms.contains(room) {
            assert(s.occupied(room));
        }
    }
    assert(free.union(held) =~= Set::new(|room: u32| is_room(room)));
}

/// The hotel has twenty rooms.
pub proof fn lemma_room_count()
    ensures
        Set::new(|room: u32| is_room(room)).finite(),
        Set::new(|room: u32| is_room(room)).len() == 20,
{
    let numbers = vstd::set_lib::set_int_range(1, 21);
    let rooms = Set::new(|room: u32| is_room(room));
    let f = |i: int| i as u32;
    vstd::set_lib::lemma_int_range(1, 21);
    assert forall|room: u32| rooms.contains(room) implies #[trigger] numbers.map(f).contains(
        room,
    ) by {
        assert(numbers.contains(room as int) && f(room as int) == room);
    }
    assert(numbers.map(f) =~= rooms);
    assert(vstd::relations::injective_on(f, numbers));
    vstd::set_lib::lemma_map_size(numbers, rooms, f);
}

/// Head count. In a consistent state the guests are finitely many, and
/// together with the free rooms they are as many as the hotel has rooms.
pub proof fn lemma_head_count(s: HotelState)
    requires
        s.consistent(),
    ensures
        s.guests.dom().finite(),
        s.guests.dom().len() + s.rooms.len() == 20,
{
    let all = Set::new(|room: u32| is_room(room));
    let free = s.rooms.to_set();
    let held = s.occupied_rooms();
    let holder = |room: u32|
        choose|id: u32| #[trigger] s.guests.contains_key(id) && s.guests[id].room == room;
    lemma_room_count();
    lemma_rooms_partition(s);
    s.rooms.unique_seq_to_set();
    vstd::set_lib::lemma_set_union_finite_implies_sets_finite(free, held);
    vstd::set_lib::lemma_set_disjoint_lens(free, held);
    assert forall|room: u32| held.contains(room) implies s.guests.contains_key(holder(room))
        && s.guests[holder(room)].room == room by {
        assert(s.occupied(room));
    }
    assert forall|id: u32| s.guests.dom().contains(id) implies #[trigger] held.map(
        holder,
    ).contains(id) by {
        let room = s.guests[id].room;
        assert(s.guests.contains_key(id));
        assert(s.occupied(room));
        assert(held.contains(room));
        assert(s.guests.contains_key(holder(room)));
        assert(holder(room) == id);
    }
    assert(held.map(holder) =~= s.guests.dom());
    assert(vstd::relations::injective_on(holder, held));
    vstd::set_lib::lemma_map_size(held, s.guests.dom(), holder);
}

/// Room exclusivity at every observation point: it holds after any run of
/// operations.
pub proof fn lemma_rooms_partition_always(ops: Seq<Operation>)
    ensures
        run(ops).rooms.to_set().disjoint(run(ops).occupied_rooms()),
        run(ops).rooms.to_set().union(run(ops).occupied_rooms()) == Set::new(
            |room: u32| is_room(room),
        ),
{
    lemma_run_consistent(ops);
    lemma_rooms_partition(run(ops));
}

/// Uniqueness. In a consistent state no two stored guests share an
/// identifier: each record carries the identifier it is stored under.
pub proof fn lemma_ids_unique(s: HotelState)
    requires
        s.consistent(),
    ensures
        forall|a: u32, b: u32|
            #![trigger s.guests.contains_key(a), s.guests.contains_key(b)]
            s.guests.contains_key(a) && s.guests.contains_key(b) && a != b ==> s.guests[a].id
                != s.guests[b].id,
{
}

/// Uniqueness after any run of operations.
pub proof fn lemma_ids_unique_always(ops: Seq<Operation>)
    ensures
        forall|a: u32, b: u32|
            #![trigger run(ops).guests.contains_key(a), run(ops).guests.contains_key(b)]
            run(ops).guests.contains_key(a) && run(ops).guests.contains_key(b) && a != b ==> run(
                ops,
            ).guests[a].id != run(ops).guests[b].id,
{
    lemma_run_consistent(ops);
    lemma_ids_unique(run(ops));
}

/// A check-out forgets the guest and puts their room at the end of the
/// pool, where nobody holds it.
pub proof fn lemma_check_out_frees_room(s: HotelState, id: u32)
    requires
        s.consistent(),
        s.guests.contains_key(id),
    ensures
        !s.check_out(id).guests.contains_key(id),
        s.check_out(id).rooms.last() == s.guests[id].room,
        s.check_out(id).rooms.contains(s.guests[id].room),
        !s.check_out(id).occupied(s.guests[id].room),
{
    let t = s.check_out(id);
    lemma_check_out_consistent(s, id);
    assert(t.rooms[t.rooms.len() - 1] == s.guests[id].room);
}

/// A check-in followed by the same guest's check-out leaves the guests as
/// they were and the same rooms free, the guest's room now last in the pool.
pub proof fn lemma_check_in_then_out(s: HotelState, guest: Guest)
    requires
        s.consistent(),
        s.rooms.contains(guest.room),
        !s.guests.contains_key(guest.id),
    ensures
        s.check_in(guest).check_out(guest.id).guests == s.guests,
        same_rooms(s.check_in(guest).check_out(guest.id).rooms, s.rooms),
        s.check_in(guest).check_out(guest.id).rooms == without(s.rooms, guest.room).push(
            guest.room,
        ),
{
    let t = s.check_in(guest).check_out(guest.id);
    assert(t.guests =~= s.guests);
    lemma_without(s.rooms, guest.room);
    lemma_push(without(s.rooms, guest.room), guest.room);
}

/// A revision moves the record: the new record is found under its own
/// identifier, nothing is left under the old one where the identifier
/// changed, and no other guest's record is touched.
pub proof fn lemma_revise_moves_record(s: HotelState, id: u32, revised: Guest)
    requires
        s.guests.contains_key(id),
    ensures
        s.revise(id, revised).guests.contains_key(revised.id),
        s.revise(id, revised).guests[revised.id] == revised,
        revised.id != id ==> !s.revise(id, revised).guests.contains_key(id),
        forall|other: u32|
            other != id && other != revised.id ==> {
                &&& #[trigger] s.revise(id, revised).guests.contains_key(other)
                    == s.guests.contains_key(other)
                &&& s.revise(id, revised).guests[other] == s.guests[other]
            },
{
}

/// A revision never touches the check-in instant.
pub proof fn lemma_revised_keeps_checkin(
    prior: Guest,
    new_id: Option<u32>,
    name: Option<String>,
    email: Option<String>,
    payment: Option<PaymentMethod>,
    room: Option<u32>,
)
    ensures
        revised(prior, new_id, name, email, payment, room).checkin == prior.checkin,
{
}

} // verus!
