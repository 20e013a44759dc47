//! Rooms: the table of the rooms that are open, the game that a room
//! hosts and the runtime that drives it.
use crate::deps::random_u64;
use vstd::prelude::*;

pub mod model;
pub mod runtime;

verus! {

/// A room in the table: the slot it holds and its password.
#[derive(Debug, Clone, Copy, PartialEq, Eq, Structural)]
pub struct RoomData {
    pub id: usize,
    pub pass: u64,
}

/// The table of the rooms that are open. A room holds the slot of its
/// number; the slot of a room that was removed is given out again.
#[derive(Debug)]
pub struct RoomsRepository {
    rooms: Vec<Option<RoomData>>,
}

/// The first slot of `s` at or after `k` that holds no room; the length of
/// `s` when there is none.
pub open spec fn empty_from(s: Seq<Option<RoomData>>, k: int) -> int
    decreases s.len() - k,
{
    if k >= s.len() {
        s.len() as int
    } else if s[k] is None {
        k
    } else {
        empty_from(s, k + 1)
    }
}

/// The first slot of `s` at or after `k` that holds the room `rd`; the
/// length of `s` when there is none.
pub open spec fn holding_from(s: Seq<Option<RoomData>>, rd: RoomData, k: int) -> int
    decreases s.len() - k,
{
    if k >= s.len() {
        s.len() as int
    } else if s[k] == Some(rd) {
        k
    } else {
        holding_from(s, rd, k + 1)
    }
}

/// The slot that the next room is given: the first empty one, or a new
/// one at the end.
pub open spec fn next_slot(s: Seq<Option<RoomData>>) -> int {
    empty_from(s, 0)
}

/// The first slot of `s` that holds no room, if there is one.
pub open spec fn first_empty(s: Seq<Option<RoomData>>) -> Option<int> {
    if next_slot(s) < s.len() {
        Some(next_slot(s))
    } else {
        None
    }
}

/// The first slot of `s` that holds the room `rd`, if there is one.
pub open spec fn first_holding(s: Seq<Option<RoomData>>, rd: RoomData) -> Option<int> {
    if holding_from(s, rd, 0) < s.len() {
        Some(holding_from(s, rd, 0))
    } else {
        None
    }
}

/// The table `s` with the room `rd` in the slot of its number.
pub open spec fn with_room(s: Seq<Option<RoomData>>, rd: RoomData) -> Seq<Option<RoomData>> {
    if rd.id < s.len() {
        s.update(rd.id as int, Some(rd))
    } else {
        s.push(Some(rd))
    }
}

/// The table `s` without the room `rd`: the first slot that holds it is
/// empty. The table is as it was when no slot holds it.
pub open spec fn without_room(s: Seq<Option<RoomData>>, rd: RoomData) -> Seq<Option<RoomData>> {
    match first_holding(s, rd) {
        Some(i) => s.update(i, None),
        None => s,
    }
}

/// Every room of the table `s` holds the slot of its number.
pub open spec fn slots_match(s: Seq<Option<RoomData>>) -> bool {
    forall|i: int| 0 <= i < s.len() && (#[trigger] s[i]) is Some ==> s[i]->0.id == i
}

/// `empty_from(s, k)` is a slot from `k` on or the end, every slot from
/// `k` up to it is full, and it is empty unless it is the end.
pub proof fn lemma_empty_from(s: Seq<Option<RoomData>>, k: int)
    requires
        0 <= k <= s.len(),
    ensures
        k <= empty_from(s, k) <= s.len(),
        forall|j: int| k <= j < empty_from(s, k) ==> #[trigger] s[j] is Some,
        empty_from(s, k) < s.len() ==> s[empty_from(s, k)] is None,
    decreases s.len() - k,
{
    if k < s.len() && s[k] is Some {
        lemma_empty_from(s, k + 1);
    }
}

/// `holding_from(s, rd, k)` is a slot from `k` on or the end, no slot from
/// `k` up to it holds `rd`, and it holds `rd` unless it is the end.
pub proof fn lemma_holding_from(s: Seq<Option<RoomData>>, rd: RoomData, k: int)
    requires
        0 <= k <= s.len(),
    ensures
        k <= holding_from(s, rd, k) <= s.len(),
        forall|j: int| k <= j < holding_from(s, rd, k) ==> #[trigger] s[j] != Some(rd),
        holding_from(s, rd, k) < s.len() ==> s[holding_from(s, rd, k)] == Some(rd),
    decreases s.len() - k,
{
    if k < s.len() && s[k] != Some(rd) {
        lemma_holding_from(s, rd, k + 1);
    }
}

/// A slot that holds `rd` after slots that do not is the first to hold it.
proof fn lemma_first_holding(s: Seq<Option<RoomData>>, rd: RoomData, k: int)
    requires
        0 <= k <= s.len(),
        forall|j: int| 0 <= j < k ==> #[trigger] s[j] != Some(rd),
        k < s.len() ==> s[k] == Some(rd),
    ensures
        holding_from(s, rd, 0) == k,
{
    lemma_holding_from(s, rd, 0);
    let h = holding_from(s, rd, 0);
    if h < k {
        assert(s[h] != Some(rd));
    }
    if k < h {
        assert(s[k] != Some(rd));
    }
}

/// A room that is put into the table is found in it, in the slot of its
/// number, and the other slots are as they were.
pub proof fn lemma_created_is_held(s: Seq<Option<RoomData>>, pass: u64)
    requires
        slots_match(s),
        s.len() <= usize::MAX,
    ensures
        ({
            let rd = RoomData { id: next_slot(s) as usize, pass };
            &&& slots_match(with_room(s, rd))
            &&& first_holding(with_room(s, rd), rd) == Some(rd.id as int)
            &&& forall|i: int|
                0 <= i < s.len() && i != rd.id ==> with_room(s, rd)[i] == #[trigger] s[i]
        }),
{
    lemma_empty_from(s, 0);
    let rd = RoomData { id: next_slot(s) as usize, pass };
    let t = with_room(s, rd);
    assert forall|j: int| 0 <= j < rd.id implies #[trigger] t[j] != Some(rd) by {
        assert(t[j] == s[j]);
        assert(s[j] is Some);
        assert(s[j]->0.id == j);
    }
    lemma_first_holding(t, rd, rd.id as int);
}

/// A room that is taken out of the table is held by it no more, and the
/// slots of the other rooms are as they were.
pub proof fn lemma_removed_is_gone(s: Seq<Option<RoomData>>, rd: RoomData)
    ensures
        slots_match(s) ==> first_holding(without_room(s, rd), rd) is None,
        slots_match(s) ==> slots_match(without_room(s, rd)),
        forall|i: int|
            0 <= i < s.len() && s[i] != Some(rd) ==> without_room(s, rd)[i] == #[trigger] s[i],
{
    lemma_holding_from(s, rd, 0);
    let t = without_room(s, rd);
    if slots_match(s) {
        assert forall|j: int| 0 <= j < t.len() implies #[trigger] t[j] != Some(rd) by {
            if t[j] == Some(rd) {
                let i = holding_from(s, rd, 0);
                assert(s[j] == Some(rd));
                assert(s[j]->0.id == j);
                assert(s[i]->0.id == i);
            }
        }
        lemma_first_holding(t, rd, t.len() as int);
    }
}

/// A room that is created and removed again leaves every other slot as it
/// was, and its own slot empty.
pub proof fn lemma_create_then_remove(s: Seq<Option<RoomData>>, pass: u64)
    requires
        slots_match(s),
        s.len() <= usize::MAX,
    ensures
        ({
            let rd = RoomData { id: next_slot(s) as usize, pass };
            let t = without_room(with_room(s, rd), rd);
            &&& t.len() == with_room(s, rd).len()
            &&& t[rd.id as int] is None
            &&& forall|i: int| 0 <= i < s.len() && i != rd.id ==> t[i] == #[trigger] s[i]
        }),
{
    lemma_created_is_held(s, pass);
}

impl RoomData {
    /// The room of slot `id`, under a password drawn at random.
    pub fn new(id: usize) -> (rd: Self)
        ensures
            rd.id == id,
    {
        Self::with_pass(id, Self::gen_random_pass())
    }

    /// The room of slot `id` under the password `pass`.
    pub fn with_pass(id: usize, pass: u64) -> (rd: Self)
        ensures
            rd == (RoomData { id, pass }),
    {
        Self { id, pass }
    }

    fn gen_random_pass() -> u64 {
        random_u64()
    }
}

impl View for RoomsRepository {
    type V = Seq<Option<RoomData>>;

    closed spec fn view(&self) -> Seq<Option<RoomData>> {
        self.rooms@
    }
}

impl RoomsRepository {
    /// An empty table.
    pub fn new() -> (rep: Self)
        ensures
            rep@ == Seq::<Option<RoomData>>::empty(),
    {
        Self { rooms: Vec::new() }
    }

    /// How many slots the table has, empty ones included.
    pub fn slots(&self) -> (n: usize)
        ensures
            n == self@.len(),
    {
        self.rooms.len()
    }

    /// What the slot `i` holds.
    pub fn slot(&self, i: usize) -> (r: Option<RoomData>)
        ensures
            r == if i < self@.len() {
                self@[i as int]
            } else {
                None
            },
    {
        if i < self.rooms.len() {
            self.rooms[i]
        } else {
            None
        }
    }

    /// Takes `room` out of the table.
    pub fn remove(&mut self, room: RoomData)
        ensures
            final(self)@ == without_room(old(self)@, room),
            slots_match(old(self)@) ==> slots_match(final(self)@),
    {
        proof {
            lemma_removed_is_gone(self@, room);
        }
        let i = match self.find_room_index(room) {
            Some(i) => i,
            None => return ,
        };
        self.rooms[i] = None;
    }

    /// Puts a new room into the table, in the first empty slot or in a
    /// new one, under a password drawn at random.
    pub fn create_room(&mut self) -> (rd: RoomData)
        ensures
            rd.id == next_slot(old(self)@),
            final(self)@ == with_room(old(self)@, rd),
            slots_match(old(self)@) ==> slots_match(final(self)@),
    {
        let pass = RoomData::gen_random_pass();
        self.create_room_with(pass)
    }

    /// Puts a new room into the table, in the first empty slot or in a
    /// new one, under the password `pass`.
    pub fn create_room_with(&mut self, pass: u64) -> (rd: RoomData)
        ensures
            rd == (RoomData { id: next_slot(old(self)@) as usize, pass }),
            rd.id == next_slot(old(self)@),
            final(self)@ == with_room(old(self)@, rd),
            slots_match(old(self)@) ==> slots_match(final(self)@),
    {
        proof {
            lemma_empty_from(self@, 0);
            assert(self@.len() == self.rooms.len());
            if slots_match(self@) {
                lemma_created_is_held(self@, pass);
            }
        }
        match self.find_empy_space() {
            Some(i) => {
                let rd = RoomData::with_pass(i, pass);
                self.rooms[i] = Some(rd);
                rd
            },
            None => {
                let rd = RoomData::with_pass(self.rooms.len(), pass);
                self.rooms.push(Some(rd));
                rd
            },
        }
    }

    fn find_empy_space(&self) -> (r: Option<usize>)
        ensures
            match r {
                Some(i) => first_empty(self@) == Some(i as int) && i < self@.len(),
                None => first_empty(self@) is None,
            },
    {
        let mut i: usize = 0;
        while i < self.rooms.len()
            invariant
                i <= self.rooms.len(),
                empty_from(self@, 0) == empty_from(self@, i as int),
            decreases self.rooms.len() - i,
        {
            if self.rooms[i].is_none() {
                return Some(i);
            }
            i = i + 1;
        }
        None
    }

    fn find_room_index(&self, rd: RoomData) -> (r: Option<usize>)
        ensures
            match r {
                Some(i) => first_holding(self@, rd) == Some(i as int) && i < self@.len(),
                None => first_holding(self@, rd) is None,
            },
    {
        let mut i: usize = 0;
        while i < self.rooms.len()
            invariant
                i <= self.rooms.len(),
                holding_from(self@, rd, 0) == holding_from(self@, rd, i as int),
            decreases self.rooms.len() - i,
        {
            match self.rooms[i] {
                Some(el) => {
                    if el == rd {
                        return Some(i);
                    }
                },
                None => {},
            }
            i = i + 1;
        }
        None
    }
}

} // verus!
