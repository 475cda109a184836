//! Lobbies and the rooms inside them.

use vstd::prelude::*;
use crate::fields::copy_vec;
use crate::packet::{LobbyData, Packet19};

verus! {

/// The game modes a client can be in; only `VS` and `Competition` have lobbies.
#[derive(Clone, Copy, Debug, PartialEq, Eq, Structural)]
pub enum Mode {
    Unset,
    Main,
    VS,
    Competition,
    Quick,
    Mode4,
    Single,
}

/// The wire value of a mode.
pub open spec fn mode_value(m: Mode) -> i8 {
    match m {
        Mode::Unset => -1i8,
        Mode::Main => 0,
        Mode::VS => 1,
        Mode::Competition => 2,
        Mode::Quick => 3,
        Mode::Mode4 => 4,
        Mode::Single => 5,
    }
}

/// The mode with wire value `v`, if any.
pub open spec fn mode_of(v: i8) -> Option<Mode> {
    if v == -1 {
        Some(Mode::Unset)
    } else if v == 0 {
        Some(Mode::Main)
    } else if v == 1 {
        Some(Mode::VS)
    } else if v == 2 {
        Some(Mode::Competition)
    } else if v == 3 {
        Some(Mode::Quick)
    } else if v == 4 {
        Some(Mode::Mode4)
    } else if v == 5 {
        Some(Mode::Single)
    } else {
        None
    }
}

impl Mode {
    pub fn to_i8(self) -> (r: i8)
        ensures
            r == mode_value(self),
    {
        match self {
            Mode::Unset => -1,
            Mode::Main => 0,
            Mode::VS => 1,
            Mode::Competition => 2,
            Mode::Quick => 3,
            Mode::Mode4 => 4,
            Mode::Single => 5,
        }
    }

    pub fn from_i8(v: i8) -> (r: Option<Mode>)
        ensures
            r == mode_of(v),
            r is Some <==> -1 <= v <= 5,
            r is Some ==> mode_value(r.unwrap()) == v,
    {
        match v {
            -1 => Some(Mode::Unset),
            0 => Some(Mode::Main),
            1 => Some(Mode::VS),
            2 => Some(Mode::Competition),
            3 => Some(Mode::Quick),
            4 => Some(Mode::Mode4),
            5 => Some(Mode::Single),
            _ => None,
        }
    }
}

/// A player-made room inside a lobby.
#[derive(Clone, Debug)]
pub struct Room {
    /// Unique within the lobby, from 0 to 127.
    pub room_num: i8,
    /// The connection ids of the members, in order of entry.
    pub members: Vec<i32>,
    pub max_members: usize,
    /// The room name as 33 UTF-16 units, null-padded.
    pub name: Vec<u16>,
    /// The password's UTF-16 units before the first null, if one is set.
    pub password: Option<Vec<u16>>,
    pub allow_spectators: bool,
    pub rules: i8,
    pub course: i8,
    pub season: i8,
    pub time_limit: i8,
    pub num_holes: i8,
    pub course_setting: i8,
    /// Packed entry limits, carried as the creator sent them.
    pub limits: Vec<u8>,
    /// The member whose shot is in flight, or -1.
    pub current_player: i32,
}

/// The units of `s` before its first null.
pub open spec fn until_null(s: Seq<u16>) -> Seq<u16>
    decreases s.len(),
{
    if s.len() == 0 {
        s
    } else if s[0] == 0 {
        Seq::empty()
    } else {
        seq![s[0]] + until_null(s.drop_first())
    }
}

/// The units of `s` before its first null.
pub fn terminated(s: &Vec<u16>) -> (r: Vec<u16>)
    ensures
        r@ == until_null(s@),
{
    let mut k: usize = 0;
    while k < s.len() && s[k] != 0
        invariant
            k <= s@.len(),
            forall|m: int| 0 <= m < k ==> s@[m] != 0,
        decreases s@.len() - k,
    {
        k += 1;
    }
    let mut r: Vec<u16> = Vec::new();
    let mut j: usize = 0;
    while j < k
        invariant
            j <= k <= s@.len(),
            r@ == s@.subrange(0, j as int),
        decreases k - j,
    {
        r.push(s[j]);
        j += 1;
        assert(r@ =~= s@.subrange(0, j as int));
    }
    proof {
        lemma_until_null(s@, k as int);
    }
    r
}

proof fn lemma_until_null(s: Seq<u16>, k: int)
    requires
        0 <= k <= s.len(),
        forall|m: int| 0 <= m < k ==> s[m] != 0,
        k == s.len() || s[k] == 0,
    ensures
        until_null(s) == s.subrange(0, k),
    decreases s.len(),
{
    if s.len() == 0 {
        assert(s.subrange(0, 0) =~= s);
    } else if k == 0 {
        assert(s.subrange(0, 0) =~= Seq::<u16>::empty());
    } else {
        let t = s.drop_first();
        assert forall|m: int| 0 <= m < k - 1 implies t[m] != 0 by {
            assert(t[m] == s[m + 1]);
        }
        lemma_until_null(t, k - 1);
        assert(s.subrange(0, k) =~= seq![s[0]] + t.subrange(0, k - 1));
    }
}

/// Whether two unit sequences are equal.
pub fn units_equal(a: &Vec<u16>, b: &Vec<u16>) -> (r: bool)
    ensures
        r == (a@ == b@),
{
    if a.len() != b.len() {
        return false;
    }
    let mut k: usize = 0;
    while k < a.len()
        invariant
            a@.len() == b@.len(),
            k <= a@.len(),
            forall|m: int| 0 <= m < k ==> a@[m] == b@[m],
        decreases a@.len() - k,
    {
        if a[k] != b[k] {
            return false;
        }
        k += 1;
    }
    assert(a@ =~= b@);
    true
}

/// Whether `v` holds `x`.
pub fn contains_cid(v: &Vec<i32>, x: i32) -> (r: bool)
    ensures
        r == v@.contains(x),
{
    let mut k: usize = 0;
    while k < v.len()
        invariant
            k <= v@.len(),
            forall|m: int| 0 <= m < k ==> v@[m] != x,
        decreases v@.len() - k,
    {
        if v[k] == x {
            return true;
        }
        k += 1;
    }
    false
}

/// `v` without any occurrence of `x`, order kept.
pub open spec fn without(v: Seq<i32>, x: i32) -> Seq<i32> {
    v.filter(other_than(x))
}

/// The test that keeps every value but `x`.
pub open spec fn other_than(x: i32) -> spec_fn(i32) -> bool {
    |y: i32| y != x
}

/// Removes every occurrence of `x` from `v`, keeping the order of the rest.
pub fn remove_cid(v: &mut Vec<i32>, x: i32)
    ensures
        final(v)@ == without(old(v)@, x),
        !final(v)@.contains(x),
{
    let mut r: Vec<i32> = Vec::new();
    let mut k: usize = 0;
    while k < v.len()
        invariant
            k <= v@.len(),
            v@ == old(v)@,
            r@ == without(old(v)@.subrange(0, k as int), x),
        decreases v@.len() - k,
    {
        let y = v[k];
        proof {
            let s = old(v)@.subrange(0, k as int);
            assert(old(v)@.subrange(0, k + 1) == s.push(y));
            s.lemma_filter_push(y, other_than(x));
        }
        if y != x {
            r.push(y);
        }
        k += 1;
    }
    assert(old(v)@.subrange(0, old(v)@.len() as int) == old(v)@);
    proof {
        broadcast use vstd::seq_lib::group_filter_ensures;

        if r@.contains(x) {
            let i = choose|i: int| 0 <= i < r@.len() && r@[i] == x;
            assert(r@[i] != x);
        }
    }
    *v = r;
}

/// The first `n` units of `s`, null-padded to length `n`.
pub open spec fn padded(s: Seq<u16>, n: nat) -> Seq<u16> {
    Seq::new(n, |i: int| if i < s.len() { s[i] } else { 0u16 })
}

/// The first `n` units of `s`, null-padded to length `n`.
pub fn pad_units(s: &Vec<u16>, n: usize) -> (r: Vec<u16>)
    ensures
        r@ == padded(s@, n as nat),
{
    let mut r: Vec<u16> = Vec::new();
    let mut k: usize = 0;
    while k < n
        invariant
            k <= n,
            r@ == padded(s@, k as nat),
        decreases n - k,
    {
        if k < s.len() {
            r.push(s[k]);
        } else {
            r.push(0);
        }
        k += 1;
        assert(r@ =~= padded(s@, k as nat));
    }
    r
}

impl Room {
    /// Whether the room's fields have their wire sizes and its counts fit a byte.
    pub open spec fn wf(&self) -> bool {
        &&& 0 <= self.room_num <= 127
        &&& self.members@.len() <= 50
        &&& self.max_members <= 50
        &&& self.name@.len() == 33
        &&& self.limits@.len() == 7
        &&& (self.password matches Some(p) ==> p@.len() <= 17)
    }

    /// A new, empty room numbered `room_num`, configured as the creator asked:
    /// bit 2 of the flag sets the password, bit 1 allows spectators, and the
    /// capacity is taken within 0 to 50 (a round has at most 50 places).
    pub fn new(room_num: i8, data: &Packet19) -> (r: Room)
        requires
            0 <= room_num <= 127,
            data.room_name@.len() == 33,
            data.room_password@.len() == 17,
            data.limits@.len() == 7,
        ensures
            r.wf(),
            r.room_num == room_num,
            r.members@.len() == 0,
            r.max_members == if data.member_max < 0 { 0 } else if data.member_max > 50 { 50 } else { data.member_max as usize },
            r.name@ == data.room_name@,
            r.password is Some <==> data.flag & 4 != 0,
            r.password matches Some(p) ==> p@ == until_null(data.room_password@),
            r.allow_spectators == (data.flag & 2 != 0),
            r.current_player == -1,
            r.rules == data.rules && r.course == data.course && r.season == data.season,
            r.time_limit == data.time_limit && r.num_holes == data.num_holes,
            r.course_setting == data.course_setting && r.limits@ == data.limits@,
    {
        let password = if (data.flag & 4) != 0 {
            let p = terminated(&data.room_password);
            proof {
                lemma_until_null_len(data.room_password@);
            }
            Some(p)
        } else {
            None
        };
        Room {
            room_num,
            members: Vec::new(),
            max_members: if data.member_max < 0 { 0 } else if data.member_max > 50 { 50 } else { data.member_max as usize },
            name: copy_vec(&data.room_name),
            password,
            allow_spectators: (data.flag & 2) != 0,
            rules: data.rules,
            course: data.course,
            season: data.season,
            time_limit: data.time_limit,
            num_holes: data.num_holes,
            course_setting: data.course_setting,
            limits: copy_vec(&data.limits),
            current_player: -1,
        }
    }

    /// The room as listed to clients, in lobby `lobby` of mode `mode`.
    pub fn describe(&self, mode: i8, lobby: i8) -> (r: Packet19)
        requires
            self.wf(),
        ensures
            r.mode == mode,
            r.lobby == lobby,
            r.room == self.room_num,
            r.member == self.members@.len(),
            r.member_max == self.max_members,
            r.flag == (if self.allow_spectators { 2i8 } else { 0i8 }) | (if self.password is Some {
                4i8
            } else {
                0i8
            }),
            r.room_name@ == self.name@,
            r.room_password@ == padded(
                match self.password {
                    Some(p) => p@,
                    None => Seq::empty(),
                },
                17,
            ),
            r.room_name@.len() == 33 && r.room_password@.len() == 17 && r.limits@.len() == 7,
    {
        let password = match &self.password {
            Some(p) => pad_units(p, 17),
            None => pad_units(&Vec::new(), 17),
        };
        let flag: i8 = (if self.allow_spectators { 2i8 } else { 0i8 }) | (if self.password.is_some() {
            4i8
        } else {
            0i8
        });
        Packet19 {
            mode,
            lobby,
            room: self.room_num,
            flag,
            member_max: self.max_members as i8,
            member: self.members.len() as i8,
            watcher: 0,
            rules: self.rules,
            time_limit: self.time_limit,
            course: self.course,
            season: self.season,
            num_holes: self.num_holes,
            course_setting: self.course_setting,
            limits: copy_vec(&self.limits),
            room_name: copy_vec(&self.name),
            room_password: password,
        }
    }
}

proof fn lemma_until_null_len(s: Seq<u16>)
    ensures
        until_null(s).len() <= s.len(),
    decreases s.len(),
{
    if s.len() > 0 {
        lemma_until_null_len(s.drop_first());
    }
}

/// Whether room number `n` is taken in `rooms`.
pub open spec fn room_used(rooms: Seq<Room>, n: int) -> bool {
    exists|i: int| 0 <= i < rooms.len() && rooms[i].room_num == n
}

/// Rooms are kept sorted by number, numbers unique and within 0 to 127.
pub open spec fn rooms_sorted(rooms: Seq<Room>) -> bool {
    &&& forall|i: int| 0 <= i < rooms.len() ==> 0 <= #[trigger] rooms[i].room_num <= 127
    &&& forall|i: int, j: int|
        0 <= i < j < rooms.len() ==> (#[trigger] rooms[i]).room_num < (#[trigger] rooms[j]).room_num
}

/// A fixed-size, mode-scoped container of rooms.
#[derive(Clone, Debug)]
pub struct Lobby {
    pub mode: Mode,
    pub num: i8,
    /// The lobby name as 17 UTF-16 units, null-padded.
    pub name: Vec<u16>,
    pub members: Vec<i32>,
    pub max_members: usize,
    pub rooms: Vec<Room>,
}

impl Lobby {
    pub open spec fn wf(&self) -> bool {
        &&& rooms_sorted(self.rooms@)
        &&& forall|i: int| 0 <= i < self.rooms@.len() ==> (#[trigger] self.rooms@[i]).wf()
        &&& self.name@.len() == 17
        &&& self.max_members <= 0x7FFF
        &&& self.members@.len() <= self.max_members
    }

    /// The smallest room number from 0 to 127 that no room of this lobby has,
    /// or none when all 128 are taken.
    pub fn pick_free_room_num(&self) -> (r: Option<i8>)
        requires
            rooms_sorted(self.rooms@),
        ensures
            r matches Some(n) ==> 0 <= n <= 127 && !room_used(self.rooms@, n as int) && forall|
                m: int,
            |
                0 <= m < n ==> room_used(self.rooms@, m),
            r is None ==> forall|m: int| 0 <= m <= 127 ==> room_used(self.rooms@, m),
    {
        let ghost rooms = self.rooms@;
        let mut candidate: i8 = 0;
        let mut i: usize = 0;
        while i < self.rooms.len()
            invariant
                i <= rooms.len(),
                rooms == self.rooms@,
                rooms_sorted(rooms),
                0 <= candidate <= 127,
                forall|m: int| 0 <= m < candidate ==> room_used(rooms, m),
                i > 0 ==> rooms[i - 1].room_num == candidate - 1,
                i == 0 ==> candidate == 0,
            decreases rooms.len() - i,
        {
            let n = self.rooms[i].room_num;
            if n > candidate {
                proof {
                    assert forall|k: int| 0 <= k < rooms.len() implies rooms[k].room_num
                        != candidate by {
                        if k < i {
                            if k < i - 1 {
                                assert(rooms[k].room_num < rooms[i - 1].room_num);
                            }
                        } else if k > i {
                            assert(rooms[i as int].room_num < rooms[k].room_num);
                        }
                    }
                }
                return Some(candidate);
            }
            proof {
                if i > 0 {
                    assert(rooms[i - 1].room_num < rooms[i as int].room_num);
                }
                assert(n == candidate);
            }
            if n == 127 {
                proof {
                    assert forall|m: int| 0 <= m <= 127 implies room_used(rooms, m) by {
                        if m == 127 {
                            assert(rooms[i as int].room_num == 127);
                        }
                    }
                }
                return None;
            }
            proof {
                assert(rooms[i as int].room_num == candidate);
            }
            candidate = n + 1;
            i += 1;
        }
        proof {
            assert forall|k: int| 0 <= k < rooms.len() implies rooms[k].room_num != candidate by {
                if k < i - 1 {
                    assert(rooms[k].room_num < rooms[i - 1].room_num);
                }
            }
        }
        Some(candidate)
    }

    /// The index of the room numbered `n`, if there is one.
    pub fn find_room(&self, n: i8) -> (r: Option<usize>)
        ensures
            r matches Some(i) ==> i < self.rooms@.len() && self.rooms@[i as int].room_num == n,
            r is None ==> !room_used(self.rooms@, n as int),
    {
        let mut i: usize = 0;
        while i < self.rooms.len()
            invariant
                i <= self.rooms@.len(),
                forall|k: int| 0 <= k < i ==> self.rooms@[k].room_num != n,
            decreases self.rooms@.len() - i,
        {
            if self.rooms[i].room_num == n {
                return Some(i);
            }
            i += 1;
        }
        None
    }

    /// Adds a room at its place in number order.
    pub fn insert_room(&mut self, room: Room)
        requires
            rooms_sorted(old(self).rooms@),
            0 <= room.room_num <= 127,
            !room_used(old(self).rooms@, room.room_num as int),
        ensures
            rooms_sorted(final(self).rooms@),
            exists|pos: int|
                0 <= pos <= old(self).rooms@.len() && final(self).rooms@ == old(self).rooms@.insert(
                    pos,
                    room,
                ),
            final(self).mode == old(self).mode,
            final(self).num == old(self).num,
            final(self).name == old(self).name,
            final(self).members == old(self).members,
            final(self).max_members == old(self).max_members,
    {
        let ghost rooms = self.rooms@;
        let mut pos: usize = 0;
        while pos < self.rooms.len() && self.rooms[pos].room_num < room.room_num
            invariant
                pos <= rooms.len(),
                rooms == self.rooms@,
                forall|k: int| 0 <= k < pos ==> rooms[k].room_num < room.room_num,
            decreases rooms.len() - pos,
        {
            pos += 1;
        }
        proof {
            if pos < rooms.len() {
                assert(rooms[pos as int].room_num != room.room_num);
                assert forall|k: int| pos <= k < rooms.len() implies rooms[k].room_num
                    > room.room_num by {
                    if k > pos {
                        assert(rooms[pos as int].room_num < rooms[k].room_num);
                    }
                }
            }
        }
        self.rooms.insert(pos, room);
        proof {
            let after = self.rooms@;
            assert forall|i: int| 0 <= i < after.len() implies 0 <= #[trigger] after[i].room_num
                <= 127 by {
                if i < pos {
                    assert(after[i] == rooms[i]);
                } else if i > pos {
                    assert(after[i] == rooms[i - 1]);
                }
            }
            assert forall|i: int, j: int|
                0 <= i < j < after.len() implies (#[trigger] after[i]).room_num < (
                #[trigger] after[j]).room_num by {
                if i < pos && j < pos {
                    assert(after[i] == rooms[i] && after[j] == rooms[j]);
                } else if i < pos && j == pos {
                    assert(after[i] == rooms[i]);
                } else if i < pos && j > pos {
                    assert(after[i] == rooms[i] && after[j] == rooms[j - 1]);
                } else if i == pos {
                    assert(after[j] == rooms[j - 1]);
                } else {
                    assert(after[i] == rooms[i - 1] && after[j] == rooms[j - 1]);
                }
            }
        }
    }

    /// The lobby as listed to clients.
    pub fn make_lobby_data(&self) -> (r: LobbyData)
        requires
            self.wf(),
        ensures
            r.num == self.num,
            r.member_max == self.max_members,
            r.member == self.members@.len(),
            r.name@ == self.name@,
            r.mode == mode_value(self.mode),
            r.unk@.len() == 32,
    {
        let mut unk: Vec<u8> = Vec::new();
        let mut k: usize = 0;
        while k < 32
            invariant
                k <= 32,
                unk@.len() == k,
            decreases 32 - k,
        {
            unk.push(0);
            k += 1;
        }
        LobbyData {
            num: self.num,
            member_max: self.max_members as i16,
            member: self.members.len() as i16,
            name: copy_vec(&self.name),
            unk,
            mode: self.mode.to_i8(),
        }
    }
}

} // verus!

