use vstd::prelude::*;

verus! {

/// The key under which a player's connection is kept: its room and its
/// order of arrival in that room.
pub struct Quickinfo {
    pub roomid: String,
    pub order: i32,
}

impl Quickinfo {
    pub open spec fn key(&self) -> (Seq<char>, i32) {
        (self.roomid@, self.order)
    }
}

/// The registry of seated players. Slot `i` of the registry holds the key of
/// the `i`-th connection that was stored; a key occurs at most once.
pub struct Shared {
    lazydata: Vec<Quickinfo>,
}

/// Whether `key` is one of the registered keys.
pub open spec fn has_key(seats: Seq<(Seq<char>, i32)>, key: (Seq<char>, i32)) -> bool {
    exists|i: int| 0 <= i < seats.len() && seats[i] == key
}

/// The slot that holds `key` (meaningful when the key is registered).
pub open spec fn slot_of(seats: Seq<(Seq<char>, i32)>, key: (Seq<char>, i32)) -> int {
    choose|i: int| 0 <= i < seats.len() && seats[i] == key
}

/// How many registered keys belong to room `room`.
pub open spec fn room_count(seats: Seq<(Seq<char>, i32)>, room: Seq<char>) -> nat
    decreases seats.len(),
{
    if seats.len() == 0 {
        0
    } else {
        room_count(seats.drop_last(), room) + if seats.last().0 == room {
            1nat
        } else {
            0nat
        }
    }
}

/// The slots of the players of room `room` whose orders are 1 to `upto`, by
/// increasing order, skipping orders that nobody holds.
pub open spec fn room_slots(seats: Seq<(Seq<char>, i32)>, room: Seq<char>, upto: int) -> Seq<usize>
    decreases upto,
{
    if upto <= 0 {
        seq![]
    } else {
        let before = room_slots(seats, room, upto - 1);
        if has_key(seats, (room, upto as i32)) {
            before.push(slot_of(seats, (room, upto as i32)) as usize)
        } else {
            before
        }
    }
}

/// The room holds exactly the orders 1 to its count.
pub open spec fn seated_in_order(seats: Seq<(Seq<char>, i32)>, room: Seq<char>) -> bool {
    forall|o: i32| has_key(seats, (room, o)) <==> 1 <= o <= room_count(seats, room)
}

impl View for Shared {
    type V = Seq<(Seq<char>, i32)>;

    closed spec fn view(&self) -> Seq<(Seq<char>, i32)> {
        self.lazydata@.map_values(|q: Quickinfo| q.key())
    }
}

impl Shared {
    #[verifier::type_invariant]
    closed spec fn keys_distinct(self) -> bool {
        self@.no_duplicates()
    }

    /// An empty registry.
    pub fn new() -> (s: Shared)
        ensures
            s@ == Seq::<(Seq<char>, i32)>::empty(),
    {
        let s = Shared { lazydata: Vec::new() };
        assert(s@ =~= Seq::<(Seq<char>, i32)>::empty());
        s
    }

    /// The number of registered keys.
    pub fn len(&self) -> (n: usize)
        ensures
            n == self@.len(),
    {
        self.lazydata.len()
    }

    /// How many players are seated in room `roomid`.
    pub fn getnum(&self, roomid: &String) -> (n: i32)
        requires
            room_count(self@, roomid@) <= i32::MAX,
        ensures
            n == room_count(self@, roomid@),
    {
        let mut num: i32 = 0;
        let mut i: usize = 0;
        while i < self.lazydata.len()
            invariant
                i <= self.lazydata@.len(),
                self@.len() == self.lazydata@.len(),
                room_count(self@, roomid@) <= i32::MAX,
                num == room_count(self@.take(i as int), roomid@),
            decreases self.lazydata@.len() - i,
        {
            assert(self@.take(i + 1).drop_last() =~= self@.take(i as int));
            proof {
                lemma_room_count_prefix(self@, i + 1, roomid@);
            }
            if self.lazydata[i].roomid == *roomid {
                num = num + 1;
            }
            i = i + 1;
        }
        assert(self@.take(i as int) =~= self@);
        num
    }

    /// The slot that holds the connection of player `order` of room `roomid`, if any.
    pub fn dm_target(&self, roomid: &String, order: i32) -> (r: Option<usize>)
        ensures
            match r {
                Some(i) => i < self@.len() && self@[i as int] == (roomid@, order) && i
                    == slot_of(self@, (roomid@, order)),
                None => !has_key(self@, (roomid@, order)),
            },
    {
        proof {
            use_type_invariant(self);
        }
        let mut i: usize = 0;
        while i < self.lazydata.len()
            invariant
                i <= self.lazydata@.len(),
                self@.len() == self.lazydata@.len(),
                forall|j: int| 0 <= j < i ==> self@[j] != (roomid@, order),
            decreases self.lazydata@.len() - i,
        {
            if self.lazydata[i].roomid == *roomid && self.lazydata[i].order == order {
                proof {
                    use_type_invariant(self);
                    assert(self@[i as int] == (roomid@, order));
                }
                return Some(i);
            }
            i = i + 1;
        }
        None
    }

    /// The slots of the players of room `roomid` that a message to the room
    /// reaches: those of orders 1 to 5 that are seated, by increasing order.
    pub fn message_targets(&self, roomid: &String) -> (r: Vec<usize>)
        ensures
            r@ == room_slots(self@, roomid@, 5),
    {
        let mut r: Vec<usize> = Vec::new();
        let mut order: i32 = 1;
        while order <= 5
            invariant
                1 <= order <= 6,
                r@ == room_slots(self@, roomid@, order - 1),
            decreases 6 - order,
        {
            match self.dm_target(roomid, order) {
                Some(i) => {
                    r.push(i);
                },
                None => {},
            }
            order = order + 1;
        }
        r
    }

    /// Stores the key of player `order` of room `roomid`, and returns its
    /// slot: the slot that already holds that key, or a new last slot.
    pub fn movedata(&mut self, roomid: String, order: i32) -> (slot: usize)
        ensures
            has_key(old(self)@, (roomid@, order)) ==> final(self)@ == old(self)@ && slot
                == slot_of(old(self)@, (roomid@, order)),
            !has_key(old(self)@, (roomid@, order)) ==> final(self)@ == old(self)@.push(
                (roomid@, order),
            ) && slot == old(self)@.len(),
            slot < final(self)@.len(),
            final(self)@[slot as int] == (roomid@, order),
    {
        match self.dm_target(&roomid, order) {
            Some(i) => i,
            None => {
                proof {
                    use_type_invariant(&*self);
                }
                let ghost before = self@;
                let n = self.lazydata.len();
                let mut keys: Vec<Quickinfo> = Vec::new();
                std::mem::swap(&mut keys, &mut self.lazydata);
                keys.push(Quickinfo { roomid, order });
                proof {
                    let pushed = keys@.map_values(|q: Quickinfo| q.key());
                    assert(pushed =~= before.push((roomid@, order)));
                    assert forall|a: int, b: int|
                        0 <= a < pushed.len() && 0 <= b < pushed.len() && a != b implies pushed[a]
                        != pushed[b] by {
                        if a == before.len() as int {
                            assert(before[b] == pushed[b]);
                        } else if b == before.len() as int {
                            assert(before[a] == pushed[a]);
                        }
                    }
                }
                self.lazydata = keys;
                n
            },
        }
    }

    /// Seats a newcomer in room `roomid`. Its order is one more than the
    /// number of players already in the room; returns the order and the slot
    /// that holds its connection.
    pub fn join(&mut self, roomid: String) -> (r: (i32, usize))
        requires
            room_count(old(self)@, roomid@) < i32::MAX,
        ensures
            r.0 == room_count(old(self)@, roomid@) + 1,
            has_key(old(self)@, (roomid@, r.0)) ==> final(self)@ == old(self)@ && r.1 == slot_of(
                old(self)@,
                (roomid@, r.0),
            ),
            !has_key(old(self)@, (roomid@, r.0)) ==> final(self)@ == old(self)@.push(
                (roomid@, r.0),
            ) && r.1 == old(self)@.len(),
            r.1 < final(self)@.len(),
            final(self)@[r.1 as int] == (roomid@, r.0),
    {
        let ord = self.getnum(&roomid) + 1;
        let slot = self.movedata(roomid, ord);
        (ord, slot)
    }

    /// How many players are seated in room `roomid`, as a machine size.
    pub fn room_size(&self, roomid: &String) -> (r: usize)
        ensures
            r == room_count(self@, roomid@),
    {
        let mut num: usize = 0;
        let mut i: usize = 0;
        while i < self.lazydata.len()
            invariant
                i <= self.lazydata@.len(),
                self@.len() == self.lazydata@.len(),
                num == room_count(self@.take(i as int), roomid@),
                num <= i,
            decreases self.lazydata@.len() - i,
        {
            assert(self@.take(i + 1).drop_last() =~= self@.take(i as int));
            if self.lazydata[i].roomid == *roomid {
                num = num + 1;
            }
            i = i + 1;
        }
        assert(self@.take(i as int) =~= self@);
        num
    }

    /// Whether room `roomid` has its five players, which starts the game.
    pub fn room_is_full(&self, roomid: &String) -> (r: bool)
        requires
            room_count(self@, roomid@) <= i32::MAX,
        ensures
            r == (room_count(self@, roomid@) == 5),
    {
        self.getnum(roomid) == 5
    }
}

/// A prefix of the registry counts no more players of a room than the whole.
proof fn lemma_room_count_prefix(seats: Seq<(Seq<char>, i32)>, n: int, room: Seq<char>)
    requires
        0 <= n <= seats.len(),
    ensures
        room_count(seats.take(n), room) <= room_count(seats, room),
    decreases seats.len() - n,
{
    if n < seats.len() {
        assert(seats.take(n + 1).drop_last() =~= seats.take(n));
        lemma_room_count_prefix(seats, n + 1, room);
    } else {
        assert(seats.take(n) =~= seats);
    }
}

/// Keys present after a push are those present before, and the pushed one.
proof fn lemma_has_key_push(seats: Seq<(Seq<char>, i32)>, x: (Seq<char>, i32), y: (Seq<char>, i32))
    ensures
        has_key(seats.push(x), y) <==> (has_key(seats, y) || x == y),
{
    let s2 = seats.push(x);
    if has_key(s2, y) {
        let i = choose|i: int| 0 <= i < s2.len() && s2[i] == y;
        if i < seats.len() {
            assert(seats[i] == y);
        }
    }
    if has_key(seats, y) {
        let i = choose|i: int| 0 <= i < seats.len() && seats[i] == y;
        assert(s2[i] == y);
    }
    if x == y {
        assert(s2[seats.len() as int] == y);
    }
}

/// Joining a room whose players hold the orders 1 to k seats the newcomer as
/// player k + 1 under a new key; afterwards the room holds the orders 1 to
/// k + 1 and counts k + 1 players, and every other room keeps its count.
pub proof fn lemma_join_seats_next(seats: Seq<(Seq<char>, i32)>, room: Seq<char>, other: Seq<char>)
    requires
        seated_in_order(seats, room),
        room_count(seats, room) < i32::MAX,
        other != room,
    ensures
        !has_key(seats, (room, (room_count(seats, room) + 1) as i32)),
        ({
            let joined = seats.push((room, (room_count(seats, room) + 1) as i32));
            &&& room_count(joined, room) == room_count(seats, room) + 1
            &&& seated_in_order(joined, room)
            &&& room_count(joined, other) == room_count(seats, other)
        }),
{
    let k = room_count(seats, room);
    let x = (room, (k + 1) as i32);
    let joined = seats.push(x);
    assert(joined.drop_last() =~= seats);
    assert forall|o: i32| has_key(joined, (room, o)) <==> 1 <= o <= room_count(joined, room) by {
        lemma_has_key_push(seats, x, (room, o));
    }
}

} // verus!