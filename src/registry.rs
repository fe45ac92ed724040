//! The table of rooms, keyed by room id.

use vstd::prelude::*;
use crate::room::{connected_count, disconnect_view, Room, RoomView};

verus! {

/// Rooms by id; each id at most once.
pub struct RoomTable {
    ids: Vec<String>,
    rooms: Vec<Room>,
    table: Ghost<Map<Seq<char>, RoomView>>,
}

impl View for RoomTable {
    type V = Map<Seq<char>, RoomView>;

    closed spec fn view(&self) -> Map<Seq<char>, RoomView> {
        self.table@
    }
}

/// Whether the table keeps a room in this state under some id.
pub open spec fn kept_in(m: Map<Seq<char>, RoomView>, v: RoomView) -> bool {
    exists|k: Seq<char>| m.contains_key(k) && m[k] == v
}

impl RoomTable {
    /// The ids and rooms agree with the table, ids are distinct and every room
    /// is well formed.
    pub closed spec fn wf(&self) -> bool {
        &&& self.ids@.len() == self.rooms@.len()
        &&& forall|i: int, j: int|
            0 <= i < j < self.ids@.len() ==> #[trigger] self.ids@[i]@ != #[trigger] self.ids@[j]@
        &&& forall|k: Seq<char>|
            self.table@.contains_key(k) <==> exists|i: int|
                0 <= i < self.ids@.len() && #[trigger] self.ids@[i]@ == k
        &&& forall|i: int|
            0 <= i < self.ids@.len() ==> self.table@[#[trigger] self.ids@[i]@] == self.rooms@[i]@
        &&& forall|i: int| 0 <= i < self.rooms@.len() ==> (#[trigger] self.rooms@[i]).wf()
    }

    /// An empty table.
    pub fn new() -> (r: Self)
        ensures
            r.wf(),
            r@ == Map::<Seq<char>, RoomView>::empty(),
    {
        RoomTable { ids: Vec::new(), rooms: Vec::new(), table: Ghost(Map::empty()) }
    }

    /// Where `id` is kept.
    fn find(&self, id: &String) -> (r: Option<usize>)
        requires
            self.wf(),
        ensures
            r matches Some(i) ==> i < self.ids@.len() && self.ids@[i as int]@ == id@,
            r.is_none() ==> !self@.contains_key(id@),
    {
        let mut i: usize = 0;
        while i < self.ids.len()
            invariant
                self.wf(),
                i <= self.ids@.len(),
                forall|j: int| 0 <= j < i ==> self.ids@[j]@ != id@,
            decreases self.ids@.len() - i,
        {
            if self.ids[i] == *id {
                return Some(i);
            }
            i = i + 1;
        }
        None
    }

    /// Whether a room is kept under `id`.
    pub fn contains(&self, id: &String) -> (r: bool)
        requires
            self.wf(),
        ensures
            r == self@.contains_key(id@),
    {
        self.find(id).is_some()
    }

    /// Adds a room under a new id; refused (`false`, nothing changed) when the
    /// id is taken.
    pub fn add(&mut self, id: String, room: Room) -> (r: bool)
        requires
            old(self).wf(),
            room.wf(),
        ensures
            final(self).wf(),
            r == !old(self)@.contains_key(id@),
            r ==> final(self)@ == old(self)@.insert(id@, room@),
            !r ==> final(self)@ == old(self)@,
    {
        if self.find(&id).is_some() {
            return false;
        }
        self.put_new(id, room);
        true
    }

    fn put_new(&mut self, id: String, room: Room)
        requires
            old(self).wf(),
            room.wf(),
            !old(self)@.contains_key(id@),
        ensures
            final(self).wf(),
            final(self)@ == old(self)@.insert(id@, room@),
    {
        let ghost old_ids = self.ids@;
        let ghost k = id@;
        let ghost rv = room@;
        self.ids.push(id);
        self.rooms.push(room);
        self.table = Ghost(self.table@.insert(k, rv));
        assert forall|i: int| 0 <= i < old_ids.len() implies #[trigger] old_ids[i]@ != k by {
            if old_ids[i]@ == k {
                assert(old(self)@.contains_key(k));
            }
        }
        assert(self.ids@[old_ids.len() as int]@ == k);
        assert forall|kk: Seq<char>| self.table@.contains_key(kk) implies exists|i: int|
            0 <= i < self.ids@.len() && #[trigger] self.ids@[i]@ == kk by {
            if kk == k {
                assert(self.ids@[old_ids.len() as int]@ == kk);
            } else {
                let i = choose|i: int| 0 <= i < old_ids.len() && #[trigger] old_ids[i]@ == kk;
                assert(self.ids@[i]@ == kk);
            }
        }
    }

    /// Keeps `room` under `id`, replacing any room kept there.
    pub fn update(&mut self, id: String, room: Room)
        requires
            old(self).wf(),
            room.wf(),
        ensures
            final(self).wf(),
            final(self)@ == old(self)@.insert(id@, room@),
    {
        match self.find(&id) {
            Some(i) => {
                let ghost k = id@;
                let ghost rv = room@;
                self.rooms.set(i, room);
                self.table = Ghost(self.table@.insert(k, rv));
                assert forall|j: int| 0 <= j < self.ids@.len() implies self.table@[
                    #[trigger] self.ids@[j]@
                ] == self.rooms@[j]@ by {
                    if j != i {
                        assert(self.ids@[j]@ != self.ids@[i as int]@);
                    }
                }
            },
            None => {
                self.put_new(id, room);
            },
        }
    }

    /// Drops the room kept under `id`, if any.
    pub fn remove(&mut self, id: String)
        requires
            old(self).wf(),
        ensures
            final(self).wf(),
            final(self)@ == old(self)@.remove(id@),
    {
        match self.find(&id) {
            Some(i) => {
                let ghost old_ids = self.ids@;
                let ghost old_rooms = self.rooms@;
                let ghost k = id@;
                self.ids.remove(i);
                self.rooms.remove(i);
                self.table = Ghost(self.table@.remove(k));
                assert forall|j: int| 0 <= j < self.ids@.len() implies self.ids@[j] == old_ids[if j
                    < i {
                    j
                } else {
                    j + 1
                }] && self.rooms@[j] == old_rooms[if j < i {
                    j
                } else {
                    j + 1
                }] by {}
                assert forall|j: int| 0 <= j < self.ids@.len() implies #[trigger] self.ids@[j]@
                    != k by {
                    let jj = if j < i { j } else { j + 1 };
                    assert(old_ids[jj]@ != old_ids[i as int]@);
                }
                assert forall|kk: Seq<char>| self.table@.contains_key(kk) implies exists|j: int|
                    0 <= j < self.ids@.len() && #[trigger] self.ids@[j]@ == kk by {
                    let x = choose|x: int| 0 <= x < old_ids.len() && #[trigger] old_ids[x]@ == kk;
                    assert(x != i);
                    let j = if x < i { x } else { x - 1 };
                    assert(self.ids@[j]@ == kk);
                }
                assert forall|j: int| 0 <= j < self.ids@.len() implies self.table@[
                    #[trigger] self.ids@[j]@
                ] == self.rooms@[j]@ by {
                    let jj = if j < i { j } else { j + 1 };
                    assert(old_ids[jj] == self.ids@[j]);
                }
                assert forall|j1: int, j2: int|
                    0 <= j1 < j2 < self.ids@.len() implies #[trigger] self.ids@[j1]@
                    != #[trigger] self.ids@[j2]@ by {
                    let a = if j1 < i { j1 } else { j1 + 1 };
                    let b = if j2 < i { j2 } else { j2 + 1 };
                    assert(old_ids[a]@ != old_ids[b]@);
                }
                assert forall|j: int| 0 <= j < self.rooms@.len() implies (
                #[trigger] self.rooms@[j]).wf() by {
                    let jj = if j < i { j } else { j + 1 };
                    assert(old_rooms[jj].wf());
                }
            },
            None => {
                assert(self.table@.remove(id@) =~= self.table@);
            },
        }
    }

    /// Marks the player on connection `p` disconnected in the room kept under
    /// `id`, and returns how many players are still connected there (`None`,
    /// nothing changed, when no room is kept under `id`).
    pub fn disconnect_player(&mut self, id: String, p: String) -> (r: Option<u32>)
        requires
            old(self).wf(),
        ensures
            final(self).wf(),
            r.is_some() == old(self)@.contains_key(id@),
            !old(self)@.contains_key(id@) ==> final(self)@ == old(self)@,
            old(self)@.contains_key(id@) ==> final(self)@ == old(self)@.insert(
                id@,
                disconnect_view(old(self)@[id@], p@),
            ) && r == Some(connected_count(disconnect_view(old(self)@[id@], p@)) as u32),
    {
        match self.get(id.clone()) {
            Some(mut room) => {
                room.disconnect_player(p);
                let n = room.player_count();
                self.update(id, room);
                Some(n)
            },
            None => None,
        }
    }

    /// Drops the room kept under `id` when nobody is connected to it; returns
    /// whether it was dropped.
    pub fn drop_if_empty(&mut self, id: String) -> (r: bool)
        requires
            old(self).wf(),
        ensures
            final(self).wf(),
            r == (old(self)@.contains_key(id@) && connected_count(old(self)@[id@]) == 0),
            r ==> final(self)@ == old(self)@.remove(id@),
            !r ==> final(self)@ == old(self)@,
    {
        match self.get(id.clone()) {
            Some(room) => {
                if room.player_count() == 0 {
                    self.remove(id);
                    true
                } else {
                    false
                }
            },
            None => false,
        }
    }

    /// A copy of the room kept under `id`.
    pub fn get(&self, id: String) -> (r: Option<Room>)
        requires
            self.wf(),
        ensures
            r.is_some() == self@.contains_key(id@),
            r matches Some(room) ==> room@ == self@[id@] && room.wf(),
    {
        match self.find(&id) {
            Some(i) => Some(self.rooms[i].snapshot()),
            None => None,
        }
    }

    /// Copies of all the rooms kept, each with its id.
    pub fn list_all(&self) -> (r: Vec<(String, Room)>)
        requires
            self.wf(),
        ensures
            forall|i: int|
                0 <= i < r@.len() ==> self@.contains_key((#[trigger] r@[i]).0@) && self@[r@[i].0@]
                    == r@[i].1@,
            forall|i: int, j: int| 0 <= i < j < r@.len() ==> #[trigger] r@[i].0@ != #[trigger] r@[j].0@,
            forall|k: Seq<char>|
                self@.contains_key(k) ==> exists|i: int| 0 <= i < r@.len() && #[trigger] r@[i].0@ == k,
    {
        let mut r: Vec<(String, Room)> = Vec::new();
        let mut i: usize = 0;
        while i < self.ids.len()
            invariant
                self.wf(),
                i <= self.ids@.len(),
                r@.len() == i,
                forall|j: int| 0 <= j < i ==> (#[trigger] r@[j]).0@ == self.ids@[j]@ && r@[j].1@ == self.rooms@[j]@,
            decreases self.ids@.len() - i,
        {
            r.push((self.ids[i].clone(), self.rooms[i].snapshot()));
            i = i + 1;
        }
        assert forall|k: Seq<char>| self@.contains_key(k) implies exists|j: int|
            0 <= j < r@.len() && #[trigger] r@[j].0@ == k by {
            let j = choose|j: int| 0 <= j < self.ids@.len() && #[trigger] self.ids@[j]@ == k;
            assert(r@[j].0@ == k);
        }
        assert forall|a: int, b: int| 0 <= a < b < r@.len() implies #[trigger] r@[a].0@ != #[trigger] r@[b].0@ by {
            assert(self.ids@[a]@ != self.ids@[b]@);
        }
        r
    }

    /// Copies of all the rooms kept.
    pub fn get_all(&self) -> (r: Vec<Room>)
        requires
            self.wf(),
        ensures
            forall|i: int| 0 <= i < r@.len() ==> kept_in(self@, #[trigger] r@[i]@),
            forall|k: Seq<char>|
                self@.contains_key(k) ==> exists|i: int| 0 <= i < r@.len() && (#[trigger] r@[i])@ == self@[k],
    {
        let all = self.list_all();
        let mut r: Vec<Room> = Vec::new();
        let mut i: usize = 0;
        while i < all.len()
            invariant
                i <= all@.len(),
                r@.len() == i,
                forall|j: int| 0 <= j < i ==> (#[trigger] r@[j])@ == all@[j].1@,
            decreases all@.len() - i,
        {
            r.push(all[i].1.snapshot());
            i = i + 1;
        }
        assert forall|j: int| 0 <= j < r@.len() implies kept_in(self@, #[trigger] r@[j]@) by {
            let k = all@[j].0@;
            assert(self@.contains_key(k) && self@[k] == r@[j]@);
        }
        assert forall|k: Seq<char>| self@.contains_key(k) implies exists|j: int|
            0 <= j < r@.len() && (#[trigger] r@[j])@ == self@[k] by {
            let j = choose|j: int| 0 <= j < all@.len() && #[trigger] all@[j].0@ == k;
            assert(r@[j]@ == self@[k]);
        }
        r
    }
}

} // verus!
