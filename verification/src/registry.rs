//! The registry: guests by identifier, and the pool of free rooms.

use crate::guest::{is_valid_id, valid_id, Guest, HotelError, PaymentMethod};
use crate::laws::{
    lemma_check_in_consistent, lemma_check_out_consistent, lemma_revise_consistent, step, Operation,
};
use crate::pool::{
    all_rooms, contains_room, full_pool, is_distinct, is_room, is_subset, remove_room, same_rooms,
    without,
};
use crate::text::{blank, is_blank};
use crate::timestamp::{convert_timestamp, timestamp_text};
use std::collections::HashMap;
use vstd::prelude::*;

verus! {

broadcast use vstd::std_specs::hash::group_hash_axioms;

/// What a registry holds, as mathematics: the guests by identifier and the
/// free rooms in pool order.
pub struct HotelState {
    pub guests: Map<u32, Guest>,
    pub rooms: Seq<u32>,
}

impl HotelState {
    /// The state of a hotel in which nobody stays.
    pub open spec fn vacant() -> HotelState {
        HotelState { guests: Map::empty(), rooms: all_rooms() }
    }

    /// Whether some stored guest holds `room`.
    pub open spec fn occupied(self, room: u32) -> bool {
        exists|id: u32| #[trigger] self.guests.contains_key(id) && self.guests[id].room == room
    }

    /// The rooms that stored guests hold.
    pub open spec fn occupied_rooms(self) -> Set<u32> {
        Set::new(|room: u32| self.occupied(room))
    }

    /// The registry's invariant. The pool repeats no room and holds only
    /// rooms of the hotel; a room of the hotel is in the pool exactly when
    /// no guest holds it; every guest is stored under their own valid
    /// identifier and holds a room of the hotel; no two guests share a room.
    pub open spec fn consistent(self) -> bool {
        &&& self.rooms.no_duplicates()
        &&& forall|room: u32| #[trigger] self.rooms.contains(room) ==> is_room(room)
        &&& forall|room: u32|
            #![trigger self.rooms.contains(room)]
            #![trigger self.occupied(room)]
            is_room(room) ==> (self.rooms.contains(room) <==> !self.occupied(room))
        &&& forall|id: u32| #[trigger]
            self.guests.contains_key(id) ==> {
                &&& self.guests[id].id == id
                &&& valid_id(id)
                &&& is_room(self.guests[id].room)
            }
        &&& forall|a: u32, b: u32|
            #![trigger self.guests.contains_key(a), self.guests.contains_key(b)]
            self.guests.contains_key(a) && self.guests.contains_key(b) && a != b
                ==> self.guests[a].room != self.guests[b].room
    }

    /// The state after `guest` was stored and their room left the pool.
    pub open spec fn check_in(self, guest: Guest) -> HotelState {
        HotelState {
            guests: self.guests.insert(guest.id, guest),
            rooms: without(self.rooms, guest.room),
        }
    }

    /// The state after the guest under `id` left and their room joined the
    /// end of the pool.
    pub open spec fn check_out(self, id: u32) -> HotelState {
        HotelState {
            guests: self.guests.remove(id),
            rooms: self.rooms.push(self.guests[id].room),
        }
    }

    /// The state after the record under `id` was replaced by `revised`,
    /// stored under its own identifier. Where the room changed, the new one
    /// left the pool and the old one joined its end.
    pub open spec fn revise(self, id: u32, revised: Guest) -> HotelState {
        HotelState {
            guests: self.guests.remove(id).insert(revised.id, revised),
            rooms: if revised.room != self.guests[id].room {
                without(self.rooms, revised.room).push(self.guests[id].room)
            } else {
                self.rooms
            },
        }
    }
}

/// Why a check-in is refused, if it is. The checks come in this order:
/// the room, the identifier's digits, the name, the email, and last whether
/// the identifier is already stored.
pub open spec fn add_refusal(
    state: HotelState,
    id: u32,
    name_blank: bool,
    email_blank: bool,
    room: u32,
) -> Option<HotelError> {
    if !state.rooms.contains(room) {
        Some(HotelError::RoomUnavailable)
    } else if !valid_id(id) {
        Some(HotelError::InvalidIdentifier)
    } else if name_blank {
        Some(HotelError::EmptyName)
    } else if email_blank {
        Some(HotelError::EmptyEmail)
    } else if state.guests.contains_key(id) {
        Some(HotelError::DuplicateIdentifier)
    } else {
        None
    }
}

/// Why a revision is refused, if it is. The checks come in this order: the
/// guest's presence, then each supplied field: the new identifier's digits,
/// the name, the email, the room, and last whether the new identifier
/// belongs to another guest.
pub open spec fn update_refusal(
    state: HotelState,
    id: u32,
    new_id: Option<u32>,
    name_blank: bool,
    email_blank: bool,
    room: Option<u32>,
) -> Option<HotelError> {
    if !state.guests.contains_key(id) {
        Some(HotelError::GuestNotFound)
    } else if new_id.is_some() && !valid_id(new_id.unwrap()) {
        Some(HotelError::InvalidIdentifier)
    } else if name_blank {
        Some(HotelError::EmptyName)
    } else if email_blank {
        Some(HotelError::EmptyEmail)
    } else if room.is_some() && !state.rooms.contains(room.unwrap()) {
        Some(HotelError::RoomUnavailable)
    } else if new_id.is_some() && new_id.unwrap() != id && state.guests.contains_key(
        new_id.unwrap(),
    ) {
        Some(HotelError::DuplicateIdentifier)
    } else {
        None
    }
}

/// The record that a revision makes of `prior`: each supplied field
/// replaces the stored one, and the check-in instant stays.
pub open spec fn revised(
    prior: Guest,
    new_id: Option<u32>,
    name: Option<String>,
    email: Option<String>,
    payment: Option<PaymentMethod>,
    room: Option<u32>,
) -> Guest {
    Guest {
        id: if new_id.is_some() { new_id.unwrap() } else { prior.id },
        name: if name.is_some() { name.unwrap() } else { prior.name },
        email: if email.is_some() { email.unwrap() } else { prior.email },
        payment: if payment.is_some() { payment.unwrap() } else { prior.payment },
        checkin: prior.checkin,
        room: if room.is_some() { room.unwrap() } else { prior.room },
    }
}

/// Whether `shown` is the displayed form of `guest`: the fields as stored,
/// and the check-in instant rendered as text.
pub open spec fn shows(
    shown: (u32, String, String, PaymentMethod, String, u32),
    guest: Guest,
) -> bool {
    &&& shown.0 == guest.id
    &&& shown.1@ == guest.name@
    &&& shown.2@ == guest.email@
    &&& shown.3 == guest.payment
    &&& shown.4@ == timestamp_text(guest.checkin)
    &&& shown.5 == guest.room
}

/// The state after the guests checked in, one after another, to a hotel in
/// which nobody stayed; `None` where one of them is refused.
pub open spec fn checked_in(guests: Seq<Guest>) -> Option<HotelState>
    decreases guests.len(),
{
    if guests.len() == 0 {
        Some(HotelState::vacant())
    } else {
        match checked_in(guests.drop_last()) {
            Some(s) => {
                if add_refusal(s, guests.last().id, false, false, guests.last().room).is_none() {
                    Some(s.check_in(guests.last()))
                } else {
                    None
                }
            },
            None => None,
        }
    }
}

/// Whether stored records and a stored pool make up a registry: the guests
/// can check in one after another, and the pool holds the rooms that are
/// left, each once, in any order.
pub open spec fn restorable(guests: Seq<Guest>, rooms: Seq<u32>) -> bool {
    &&& checked_in(guests).is_some()
    &&& rooms.no_duplicates()
    &&& same_rooms(rooms, checked_in(guests).unwrap().rooms)
}

/// The hotel's registry.
pub struct HotelInk {
    guests: HashMap<u32, Guest>,
    rooms: Vec<u32>,
}

impl View for HotelInk {
    type V = HotelState;

    closed spec fn view(&self) -> HotelState {
        HotelState { guests: self.guests@, rooms: self.rooms@ }
    }
}

impl HotelInk {
    /// Whether the registry is consistent. Every operation keeps it so.
    pub open spec fn wf(&self) -> bool {
        self@.consistent()
    }

    /// A registry without guests, whose pool holds every room in ascending
    /// order.
    pub fn default() -> (hotel: Self)
        ensures
            hotel.wf(),
            hotel@ == HotelState::vacant(),
    {
        let hotel = HotelInk { guests: HashMap::new(), rooms: full_pool() };
        proof {
            crate::laws::lemma_vacant_consistent();
        }
        hotel
    }

    /// Rebuilds a registry from stored records and a stored pool, or tells
    /// that they do not make up one.
    pub fn restore(guests: &Vec<Guest>, rooms: Vec<u32>) -> (res: Option<Self>)
        ensures
            match res {
                Some(hotel) => {
                    &&& restorable(guests@, rooms@)
                    &&& hotel.wf()
                    &&& hotel@.guests == checked_in(guests@).unwrap().guests
                    &&& hotel@.rooms == rooms@
                },
                None => !restorable(guests@, rooms@),
            },
    {
        let mut hotel = HotelInk::default();
        let mut i: usize = 0;
        assert(guests@.take(0) =~= Seq::<Guest>::empty());
        while i < guests.len()
            invariant
                i <= guests.len(),
                hotel.wf(),
                checked_in(guests@.take(i as int)) == Some(hotel@),
            decreases guests.len() - i,
        {
            let stored = &guests[i];
            let guest = Guest {
                id: stored.id,
                name: stored.name.clone(),
                email: stored.email.clone(),
                payment: stored.payment,
                checkin: stored.checkin,
                room: stored.room,
            };
            proof {
                assert(guests@.take(i + 1).drop_last() =~= guests@.take(i as int));
                assert(guests@.take(i + 1).last() == guest);
            }
            if hotel.check_in(guest, false, false).is_err() {
                proof {
                    crate::laws::lemma_refusal_is_final(guests@, i + 1);
                }
                return None;
            }
            i += 1;
        }
        assert(guests@.take(guests.len() as int) =~= guests@);
        if !is_distinct(&rooms) || !is_subset(&rooms, &hotel.rooms) || !is_subset(
            &hotel.rooms,
            &rooms,
        ) {
            return None;
        }
        proof {
            crate::laws::lemma_reordered_pool_consistent(hotel@, rooms@);
        }
        hotel.rooms = rooms;
        Some(hotel)
    }

    /// The record stored under `id`, if there is one.
    pub fn guest(&self, id: u32) -> (found: Option<Guest>)
        ensures
            match found {
                Some(guest) => self@.guests.contains_key(id) && guest == self@.guests[id],
                None => !self@.guests.contains_key(id),
            },
    {
        match self.guests.get(&id) {
            Some(stored) => Some(
                Guest {
                    id: stored.id,
                    name: stored.name.clone(),
                    email: stored.email.clone(),
                    payment: stored.payment,
                    checkin: stored.checkin,
                    room: stored.room,
                },
            ),
            None => None,
        }
    }

    /// Stores `guest` and takes their room out of the pool, given whether
    /// their name and email are blank. A refused guest changes nothing.
    pub fn check_in(&mut self, guest: Guest, name_blank: bool, email_blank: bool) -> (res: Result<
        (),
        HotelError,
    >)
        requires
            old(self).wf(),
        ensures
            final(self).wf(),
            match add_refusal(old(self)@, guest.id, name_blank, email_blank, guest.room) {
                Some(e) => res == Err::<(), HotelError>(e) && final(self)@ == old(self)@,
                None => res.is_ok() && final(self)@ == old(self)@.check_in(guest),
            },
            final(self)@ == step(old(self)@, (Operation::Add { guest, name_blank, email_blank })),
    {
        if !contains_room(&self.rooms, guest.room) {
            return Err(HotelError::RoomUnavailable);
        }
        if !is_valid_id(guest.id) {
            return Err(HotelError::InvalidIdentifier);
        }
        if name_blank {
            return Err(HotelError::EmptyName);
        }
        if email_blank {
            return Err(HotelError::EmptyEmail);
        }
        if self.guests.contains_key(&guest.id) {
            return Err(HotelError::DuplicateIdentifier);
        }
        proof {
            lemma_check_in_consistent(self@, guest);
        }
        let id: u32 = guest.id;
        let room: u32 = guest.room;
        remove_room(&mut self.rooms, room);
        self.guests.insert(id, guest);
        Ok(())
    }

    /// Adds a guest who checks in at `checkin`, in milliseconds since the
    /// Unix epoch. The room must be free, the identifier must have nine
    /// digits, name and email must not be blank, and the identifier must not
    /// be stored already; the first of these that fails, in this order, is
    /// the error.
    pub fn add_guest(
        &mut self,
        id: u32,
        name: String,
        email: String,
        payment: PaymentMethod,
        room: u32,
        checkin: u64,
    ) -> (res: Result<(), HotelError>)
        requires
            old(self).wf(),
        ensures
            final(self).wf(),
            match add_refusal(old(self)@, id, blank(name@), blank(email@), room) {
                Some(e) => res == Err::<(), HotelError>(e) && final(self)@ == old(self)@,
                None => res.is_ok() && final(self)@ == old(self)@.check_in(
                    Guest { id, name, email, payment, checkin, room },
                ),
            },
            final(self)@ == step(
                old(self)@,
                (Operation::Add {
                    guest: Guest { id, name, email, payment, checkin, room },
                    name_blank: blank(name@),
                    email_blank: blank(email@),
                }),
            ),
    {
        let name_blank = is_blank(name.as_str());
        let email_blank = is_blank(email.as_str());
        self.check_in(Guest { id, name, email, payment, checkin, room }, name_blank, email_blank)
    }

    /// The displayed form of the guest under `id`, if there is one.
    pub fn get_guest(&self, id: u32) -> (found: Option<
        (u32, String, String, PaymentMethod, String, u32),
    >)
        ensures
            match found {
                Some(shown) => self@.guests.contains_key(id) && shows(shown, self@.guests[id]),
                None => !self@.guests.contains_key(id),
            },
    {
        match self.guests.get(&id) {
            Some(guest) => {
                let text = convert_timestamp(guest.checkin);
                Some(
                    (
                        guest.id,
                        guest.name.clone(),
                        guest.email.clone(),
                        guest.payment,
                        text,
                        guest.room,
                    ),
                )
            },
            None => None,
        }
    }

    /// Replaces the supplied fields of the guest under `id`, given whether
    /// the supplied name and email are blank (`false` where none is
    /// supplied). Every field is checked before any is stored, so a refused
    /// revision changes nothing.
    pub fn revise(
        &mut self,
        id: u32,
        new_id: Option<u32>,
        name: Option<String>,
        name_blank: bool,
        email: Option<String>,
        email_blank: bool,
        payment: Option<PaymentMethod>,
        room: Option<u32>,
    ) -> (res: Result<bool, HotelError>)
        requires
            old(self).wf(),
        ensures
            final(self).wf(),
            match update_refusal(
                old(self)@,
                id,
                new_id,
                name.is_some() && name_blank,
                email.is_some() && email_blank,
                room,
            ) {
                Some(e) => res == Err::<bool, HotelError>(e) && final(self)@ == old(self)@,
                None => res == Ok::<bool, HotelError>(true) && final(self)@ == old(self)@.revise(
                    id,
                    revised(old(self)@.guests[id], new_id, name, email, payment, room),
                ),
            },
            final(self)@ == step(
                old(self)@,
                (Operation::Update {
                    id,
                    new_id,
                    name,
                    name_blank,
                    email,
                    email_blank,
                    payment,
                    room,
                }),
            ),
    {
        if !self.guests.contains_key(&id) {
            return Err(HotelError::GuestNotFound);
        }
        if let Some(n) = new_id {
            if !is_valid_id(n) {
                return Err(HotelError::InvalidIdentifier);
            }
        }
        if name.is_some() && name_blank {
            return Err(HotelError::EmptyName);
        }
        if email.is_some() && email_blank {
            return Err(HotelError::EmptyEmail);
        }
        if let Some(r) = room {
            if !contains_room(&self.rooms, r) {
                return Err(HotelError::RoomUnavailable);
            }
        }
        if let Some(n) = new_id {
            if n != id && self.guests.contains_key(&n) {
                return Err(HotelError::DuplicateIdentifier);
            }
        }
        let ghost target = revised(old(self)@.guests[id], new_id, name, email, payment, room);
        proof {
            lemma_revise_consistent(self@, id, target);
        }
        match self.guests.remove(&id) {
            Some(stored) => {
                let mut guest = stored;
                let prior_room: u32 = guest.room;
                if let Some(n) = new_id {
                    guest.id = n;
                }
                if let Some(n) = name {
                    guest.name = n;
                }
                if let Some(e) = email {
                    guest.email = e;
                }
                if let Some(p) = payment {
                    guest.payment = p;
                }
                if let Some(r) = room {
                    remove_room(&mut self.rooms, r);
                    self.rooms.push(prior_room);
                    guest.room = r;
                }
                assert(guest == target);
                let key: u32 = guest.id;
                self.guests.insert(key, guest);
                Ok(true)
            },
            None => Err(HotelError::GuestNotFound),
        }
    }

    /// Replaces the supplied fields of the guest under `id`. A new
    /// identifier must have nine digits, a supplied name or email must not
    /// be blank, a supplied room must be free, and a new identifier must
    /// belong to no other guest; the first of these that fails, in this
    /// order, is the error. The check-in instant never changes.
    pub fn update_guest(
        &mut self,
        id: u32,
        new_id: Option<u32>,
        name: Option<String>,
        email: Option<String>,
        payment: Option<PaymentMethod>,
        room: Option<u32>,
    ) -> (res: Result<bool, HotelError>)
        requires
            old(self).wf(),
        ensures
            final(self).wf(),
            match update_refusal(
                old(self)@,
                id,
                new_id,
                name.is_some() && blank(name.unwrap()@),
                email.is_some() && blank(email.unwrap()@),
                room,
            ) {
                Some(e) => res == Err::<bool, HotelError>(e) && final(self)@ == old(self)@,
                None => res == Ok::<bool, HotelError>(true) && final(self)@ == old(self)@.revise(
                    id,
                    revised(old(self)@.guests[id], new_id, name, email, payment, room),
                ),
            },
            final(self)@ == step(
                old(self)@,
                (Operation::Update {
                    id,
                    new_id,
                    name,
                    name_blank: name.is_some() && blank(name.unwrap()@),
                    email,
                    email_blank: email.is_some() && blank(email.unwrap()@),
                    payment,
                    room,
                }),
            ),
    {
        let name_blank = match &name {
            Some(n) => is_blank(n.as_str()),
            None => false,
        };
        let email_blank = match &email {
            Some(e) => is_blank(e.as_str()),
            None => false,
        };
        self.revise(id, new_id, name, name_blank, email, email_blank, payment, room)
    }

    /// Removes the guest under `id` and puts their room at the end of the
    /// pool.
    pub fn delete_guest(&mut self, id: u32) -> (res: Result<bool, HotelError>)
        requires
            old(self).wf(),
        ensures
            final(self).wf(),
            match res {
                Ok(done) => done && old(self)@.guests.contains_key(id) && final(self)@
                    == old(self)@.check_out(id),
                Err(e) => e == HotelError::GuestNotFound && !old(self)@.guests.contains_key(id)
                    && final(self)@ == old(self)@,
            },
            final(self)@ == step(old(self)@, (Operation::Delete { id })),
    {
        proof {
            if self@.guests.contains_key(id) {
                lemma_check_out_consistent(self@, id);
            }
        }
        match self.guests.remove(&id) {
            Some(guest) => {
                self.rooms.push(guest.room);
                Ok(true)
            },
            None => {
                assert(self.guests@ =~= old(self).guests@);
                Err(HotelError::GuestNotFound)
            },
        }
    }

    /// A copy of the pool: the free rooms, in pool order.
    pub fn list_available_rooms(&self) -> (rooms: Vec<u32>)
        ensures
            rooms@ == self@.rooms,
    {
        let rooms = self.rooms.clone();
        assert(rooms@ =~= self.rooms@);
        rooms
    }
}

} // verus!
