//! The session actor's state and decisions: every connected player, every lobby
//! and room. Each handler takes the state and one request, changes the state,
//! and returns the messages to send; the caller owns the connections.

use vstd::prelude::*;
use crate::appearance::Appearance;
use crate::character::{Character, Class, class_value, settings_halves, settings_from_halves};
use crate::appearance::{appearance_fits, appearance_words};
use crate::item::{Item, ItemCategory, CountedItem, counted_code, item_code};
use crate::lobby::{
    mode_of, other_than, Lobby, Room, Mode, mode_value, remove_cid, without, room_used, rooms_sorted, pad_units,
    padded,
};
use crate::login::AckIDPassResult;
use crate::fields::{fields_match, field_has_kind};
use crate::record::{CRecord, crecord_fits};
use crate::game::{participants, three_holes};
use crate::packet::{GameStart, CRecordReply, schema_of, udata_schema, udata_fields, lemma_packet19_lengths, Packet, Packet19, BallPos, Shot, PCommand, UData, UList, UListL, ColorResult, duplicate, packet_wf, packet_id, packet_fields};
use crate::user::{User, amount_in};
use crate::shop::{buy_outcome, buy_effect, listing_words, listings_to_words, SellItem, BuyItemResult, build_sell_list, build_salon_list, do_buy_item};

verus! {

/// A connected, authenticated player.
#[derive(Debug)]
pub struct Player {
    /// Connection id, from 600 to 999, unique among connected players.
    pub cid: i32,
    /// Account id.
    pub uid: i32,
    /// Display name as UTF-16 units.
    pub name: Vec<u16>,
    pub user: User,
    /// The player's characters with their ids.
    pub characters: Vec<(i32, Character)>,
    /// The lobby the player is in, or -1.
    pub cur_lobby: i8,
    /// The room the player is in, or -1.
    pub cur_room: i8,
    /// Presence bits.
    pub stat: u32,
    pub mode: Mode,
}

/// One message to send: to connection `cid`, as an answer to `pid` if given.
#[derive(Debug)]
pub struct Outbound {
    pub cid: i32,
    pub pid: Option<i16>,
    pub packet: Packet,
}

/// The connections that a list of messages goes to, in order.
pub open spec fn targets(out: Seq<Outbound>) -> Seq<i32> {
    Seq::new(out.len(), |i: int| out[i].cid)
}

/// What the store gives for an account that passed its credential check.
#[derive(Debug)]
pub struct Account {
    pub uid: i32,
    /// Display name as UTF-16 units.
    pub name: Vec<u16>,
    pub user: User,
    /// The account's characters with their ids.
    pub characters: Vec<(i32, Character)>,
}

/// The session actor's answer to a login.
#[derive(Debug, PartialEq, Eq)]
pub enum LoginResult {
    Success { cid: i32 },
    Fail(AckIDPassResult),
}

/// All player, lobby and room state.
pub struct GameServer {
    /// Where the search for a free connection id starts.
    pub next_cid: i32,
    pub conns: Vec<Player>,
    pub lobbies: Vec<Lobby>,
    /// The regular shop's listings.
    pub shop_items: Vec<SellItem>,
    /// The salon's listings.
    pub salon_items: Vec<SellItem>,
}

/// The first connection id of the pool.
pub const FIRST_CID: i32 = 600;

/// The last connection id of the pool.
pub const LAST_CID: i32 = 999;

/// Whether connection id `c` belongs to a connected player.
pub open spec fn cid_in_use(conns: Seq<Player>, c: i32) -> bool {
    exists|i: int| 0 <= i < conns.len() && conns[i].cid == c
}

/// Whether account `uid` is logged in.
pub open spec fn logged_in(conns: Seq<Player>, uid: i32) -> bool {
    exists|i: int| 0 <= i < conns.len() && conns[i].uid == uid
}

/// Whether every connection id of the pool is taken.
pub open spec fn pool_full(conns: Seq<Player>) -> bool {
    forall|c: i32| FIRST_CID <= c <= LAST_CID ==> cid_in_use(conns, c)
}

/// How a login for account `uid` is answered: an account may be logged in once,
/// and a login needs a free connection id.
pub open spec fn login_verdict(conns: Seq<Player>, uid: i32) -> Option<AckIDPassResult> {
    if logged_in(conns, uid) {
        Some(AckIDPassResult::MultiLoginError)
    } else if pool_full(conns) {
        Some(AckIDPassResult::AccountNotError)
    } else {
        None
    }
}

/// Whether a player's own data has its wire sizes.
pub open spec fn player_wf(p: Player) -> bool {
    &&& FIRST_CID <= p.cid <= LAST_CID
    &&& p.user.class.wf()
    &&& p.user.golfbag@.len() == 8
    &&& p.user.holdbox@.len() == 8
    &&& forall|k: int| 0 <= k < p.characters@.len() ==> character_fits(#[trigger] p.characters@[k].1)
}

/// Whether a character can be sent: its appearance fits and it has eight settings.
pub open spec fn character_fits(c: Character) -> bool {
    appearance_fits(c.appearance) && c.settings@.len() == 8
}

/// Whether `x` is a member of lobby `lob` or of one of its rooms.
pub open spec fn member_of(lob: Lobby, x: i32) -> bool {
    lob.members@.contains(x) || exists|r: int| 0 <= r < lob.rooms@.len() && #[trigger] lob.rooms@[r].members@.contains(x)
}

/// Every member of a lobby or room is a connected player.
pub open spec fn members_connected(lobbies: Seq<Lobby>, conns: Seq<Player>) -> bool {
    forall|l: int, x: i32| 0 <= l < lobbies.len() && #[trigger] member_of(lobbies[l], x) ==> cid_in_use(conns, x)
}

/// A lobby of this state with mode `mode` and number `num`, if any.
pub open spec fn lobby_at(lobbies: Seq<Lobby>, mode: Mode, num: i8) -> Option<int> {
    if exists|l: int| 0 <= l < lobbies.len() && lobbies[l].mode == mode && lobbies[l].num == num {
        Some(choose|l: int| 0 <= l < lobbies.len() && lobbies[l].mode == mode && lobbies[l].num == num)
    } else {
        None
    }
}

impl GameServer {
    pub open spec fn wf(&self) -> bool {
        &&& FIRST_CID <= self.next_cid <= LAST_CID
        &&& forall|i: int| 0 <= i < self.conns@.len() ==> player_wf(#[trigger] self.conns@[i])
        &&& forall|i: int, j: int|
            0 <= i < j < self.conns@.len() ==> (#[trigger] self.conns@[i]).cid != (
            #[trigger] self.conns@[j]).cid
        &&& forall|l: int| 0 <= l < self.lobbies@.len() ==> (#[trigger] self.lobbies@[l]).wf()
        &&& forall|l: int, k: int|
            0 <= l < k < self.lobbies@.len() ==> !((#[trigger] self.lobbies@[l]).mode == (
            #[trigger] self.lobbies@[k]).mode && self.lobbies@[l].num == self.lobbies@[k].num)
        &&& members_connected(self.lobbies@, self.conns@)
    }

    /// A server with no players, and one lobby of ten places in each of the two
    /// lobby modes.
    pub fn new() -> (r: GameServer)
        ensures
            r.wf(),
            r.conns@.len() == 0,
            r.lobbies@.len() == 2,
            r.lobbies@[0].mode == Mode::VS && r.lobbies@[0].num == 0,
            r.lobbies@[1].mode == Mode::Competition && r.lobbies@[1].num == 0,
            forall|l: int|
                0 <= l < 2 ==> r.lobbies@[l].members@.len() == 0 && r.lobbies@[l].rooms@.len() == 0
                    && r.lobbies@[l].max_members == 10,
    {
        let vs = Lobby {
            mode: Mode::VS,
            num: 0,
            name: pad_units(&vec![0x46u16, 0x6f, 0x6f], 17),
            members: Vec::new(),
            max_members: 10,
            rooms: Vec::new(),
        };
        let compe = Lobby {
            mode: Mode::Competition,
            num: 0,
            name: pad_units(&vec![0x42u16, 0x61, 0x72], 17),
            members: Vec::new(),
            max_members: 10,
            rooms: Vec::new(),
        };
        GameServer {
            next_cid: FIRST_CID,
            conns: Vec::new(),
            lobbies: vec![vs, compe],
            shop_items: build_sell_list(),
            salon_items: build_salon_list(),
        }
    }

    /// The index of the player with connection id `cid`.
    pub fn find_conn(&self, cid: i32) -> (r: Option<usize>)
        ensures
            r matches Some(i) ==> i < self.conns@.len() && self.conns@[i as int].cid == cid,
            r is None ==> !cid_in_use(self.conns@, cid),
    {
        let mut i: usize = 0;
        while i < self.conns.len()
            invariant
                i <= self.conns@.len(),
                forall|k: int| 0 <= k < i ==> self.conns@[k].cid != cid,
            decreases self.conns@.len() - i,
        {
            if self.conns[i].cid == cid {
                return Some(i);
            }
            i += 1;
        }
        None
    }

    /// The index of the lobby of mode `mode` numbered `num`.
    pub fn find_lobby(&self, mode: Mode, num: i8) -> (r: Option<usize>)
        ensures
            r matches Some(l) ==> l < self.lobbies@.len() && self.lobbies@[l as int].mode == mode
                && self.lobbies@[l as int].num == num,
            r is None ==> lobby_at(self.lobbies@, mode, num) is None,
    {
        let mut l: usize = 0;
        while l < self.lobbies.len()
            invariant
                l <= self.lobbies@.len(),
                forall|k: int| 0 <= k < l ==> !(self.lobbies@[k].mode == mode && self.lobbies@[k].num == num),
            decreases self.lobbies@.len() - l,
        {
            if self.lobbies[l].mode == mode && self.lobbies[l].num == num {
                return Some(l);
            }
            l += 1;
        }
        None
    }

    /// The number of lobbies of mode `mode`.
    pub fn lobby_count(&self, mode: Mode) -> (r: usize)
        ensures
            r == self.lobbies@.filter(|x: Lobby| x.mode == mode).len(),
    {
        let mut n: usize = 0;
        let mut l: usize = 0;
        while l < self.lobbies.len()
            invariant
                l <= self.lobbies@.len(),
                n == self.lobbies@.subrange(0, l as int).filter(|x: Lobby| x.mode == mode).len(),
                n <= l,
            decreases self.lobbies@.len() - l,
        {
            proof {
                let s = self.lobbies@.subrange(0, l as int);
                assert(self.lobbies@.subrange(0, l + 1) == s.push(self.lobbies@[l as int]));
                s.lemma_filter_push(self.lobbies@[l as int], |x: Lobby| x.mode == mode);
            }
            if self.lobbies[l].mode == mode {
                n += 1;
            }
            l += 1;
        }
        assert(self.lobbies@.subrange(0, self.lobbies@.len() as int) == self.lobbies@);
        n
    }

    /// A free connection id: the first one not in use from `next_cid` on, wrapping
    /// from 999 back to 600; none when all 400 are taken.
    pub fn generate_cid(&mut self) -> (r: Option<i32>)
        requires
            old(self).wf(),
        ensures
            final(self).wf(),
            final(self).conns@ == old(self).conns@,
            final(self).lobbies@ == old(self).lobbies@,
            r matches Some(c) ==> FIRST_CID <= c <= LAST_CID && !cid_in_use(old(self).conns@, c)
                && first_free_from(old(self).conns@, old(self).next_cid, c)
                && final(self).next_cid == (if c == LAST_CID { FIRST_CID as int } else { c + 1 }),
            r is None <==> pool_full(old(self).conns@),
            r is None ==> *final(self) == *old(self),
            final(self).conns == old(self).conns,
            final(self).lobbies == old(self).lobbies,
            final(self).shop_items == old(self).shop_items,
            final(self).salon_items == old(self).salon_items,
    {
        let start = self.next_cid;
        let mut c: i32 = start;
        while c <= LAST_CID
            invariant
                FIRST_CID <= start <= c <= LAST_CID + 1,
                self.wf(),
                self.conns@ == old(self).conns@,
                self.lobbies@ == old(self).lobbies@,
                self.next_cid == start,
                start == old(self).next_cid,
                *self == *old(self),
                forall|x: i32| start <= x < c ==> cid_in_use(self.conns@, x),
            decreases LAST_CID + 1 - c,
        {
            if self.find_conn(c).is_none() {
                self.next_cid = if c + 1 > LAST_CID { FIRST_CID } else { c + 1 };
                return Some(c);
            }
            c += 1;
        }
        let mut c: i32 = FIRST_CID;
        while c < start
            invariant
                FIRST_CID <= c <= start <= LAST_CID,
                self.wf(),
                self.conns@ == old(self).conns@,
                self.lobbies@ == old(self).lobbies@,
                forall|x: i32| start <= x <= LAST_CID ==> cid_in_use(self.conns@, x),
                forall|x: i32| FIRST_CID <= x < c ==> cid_in_use(self.conns@, x),
                *self == *old(self),
                start == old(self).next_cid,
            decreases start - c,
        {
            if self.find_conn(c).is_none() {
                self.next_cid = c + 1;
                return Some(c);
            }
            c += 1;
        }
        None
    }

    /// Admits account `account` unless it is already logged in or no connection id
    /// is free; a new player starts outside any lobby, in no mode, and is sent its
    /// account snapshot and a no-element notice.
    pub fn handle_login(&mut self, account: Account) -> (r: (LoginResult, Vec<Outbound>))
        requires
            old(self).wf(),
            account.user.class.wf(),
            account.user.golfbag@.len() == 8,
            account.user.holdbox@.len() == 8,
            forall|k: int| 0 <= k < account.characters@.len() ==> character_fits(#[trigger] account.characters@[k].1),
        ensures
            final(self).wf(),
            final(self).lobbies@ == old(self).lobbies@,
            login_verdict(old(self).conns@, account.uid) matches Some(e) ==> r.0 == LoginResult::Fail(e)
                && *final(self) == *old(self) && r.1@.len() == 0,
            final(self).shop_items == old(self).shop_items,
            final(self).salon_items == old(self).salon_items,
            login_verdict(old(self).conns@, account.uid) is None ==> (r.0 matches LoginResult::Success {
                cid,
            } && {
                &&& !cid_in_use(old(self).conns@, cid)
                &&& FIRST_CID <= cid <= LAST_CID
                &&& final(self).conns@.len() == old(self).conns@.len() + 1
                &&& final(self).conns@.drop_last() == old(self).conns@
                &&& final(self).conns@.last().cid == cid
                &&& final(self).conns@.last().uid == account.uid
                &&& final(self).conns@.last().cur_lobby == -1
                &&& final(self).conns@.last().cur_room == -1
                &&& final(self).conns@.last().mode == Mode::Unset
                &&& targets(r.1@) == seq![cid, cid]
                &&& r.1@[0].packet matches Packet::ACK_IDPASS_G(u) && u.cid == cid && u.uid == account.uid
                    && u.chr_uid == account.user.default_chr_uid
                &&& r.1@[1].packet == Packet::ORD_COLOR_RESULT(ColorResult {
                    element: -1i8,
                    last_element: -1i8,
                    color_result: 0,
                    rank_in_color: 0,
                    gp: 0,
                    item: 0,
                })
                &&& final(self).conns@.last().user == account.user
                &&& final(self).conns@.last().name == account.name
            }),
    {
        let mut i: usize = 0;
        while i < self.conns.len()
            invariant
                i <= self.conns@.len(),
                self.wf(),
                *self == *old(self),
                forall|k: int| 0 <= k < i ==> self.conns@[k].uid != account.uid,
            decreases self.conns@.len() - i,
        {
            if self.conns[i].uid == account.uid {
                return (LoginResult::Fail(AckIDPassResult::MultiLoginError), Vec::new());
            }
            i += 1;
        }
        let cid = match self.generate_cid() {
            Some(c) => c,
            None => return (LoginResult::Fail(AckIDPassResult::AccountNotError), Vec::new()),
        };
        let player = Player {
            cid,
            uid: account.uid,
            name: account.name,
            user: account.user,
            characters: account.characters,
            cur_lobby: -1,
            cur_room: -1,
            stat: 0,
            mode: Mode::Unset,
        };
        let udata = make_udata(&player);
        let color = ColorResult {
            element: -1,
            last_element: -1,
            color_result: 0,
            rank_in_color: 0,
            gp: 0,
            item: 0,
        };
        let out = vec![
            Outbound { cid, pid: None, packet: Packet::ACK_IDPASS_G(udata) },
            Outbound { cid, pid: None, packet: Packet::ORD_COLOR_RESULT(color) },
        ];
        let ghost before = self.conns@;
        self.conns.push(player);
        proof {
            assert forall|l: int, x: i32| 0 <= l < self.lobbies@.len() && #[trigger] member_of(self.lobbies@[l], x) implies cid_in_use(self.conns@, x) by {
                let i = choose|i: int| 0 <= i < before.len() && before[i].cid == x;
                assert(self.conns@[i] == before[i]);
            }
            assert(self.conns@.drop_last() == before);
            assert forall|i: int, j: int|
                0 <= i < j < self.conns@.len() implies (#[trigger] self.conns@[i]).cid != (
                #[trigger] self.conns@[j]).cid by {
                if j == before.len() {
                    assert(self.conns@[i] == before[i]);
                }
            }
            assert forall|i: int| 0 <= i < self.conns@.len() implies player_wf(
                #[trigger] self.conns@[i],
            ) by {
                if i < before.len() {
                    assert(self.conns@[i] == before[i]);
                }
            }
        }
        assert(targets(out@) =~= seq![cid, cid]);
        (LoginResult::Success { cid }, out)
    }
}

/// A player's account snapshot, as sent at login.
pub fn make_udata(p: &Player) -> (r: UData)
    requires
        p.user.class.wf(),
        p.user.golfbag@.len() == 8,
        p.user.holdbox@.len() == 8,
    ensures
        r.cid == p.cid,
        r.uid == p.uid,
        r.chr_uid == p.user.default_chr_uid,
        r.name@ == padded(p.name@, 19),
{
    UData {
        cid: p.cid,
        uid: p.uid,
        chr_uid: p.user.default_chr_uid,
        golfbag: item_words(&p.user.golfbag),
        holdbox: item_words(&p.user.holdbox),
        medals: vec_of(0u16, 16),
        awards: vec_of(0u32, 20),
        rank_score_item_on: 0,
        rank_score_item_off: 0,
        mp: 0,
        year: 2023,
        month: 8,
        day: 23,
        name: pad_units(&p.name, 19),
        element: p.user.element.to_i8(),
        class: p.user.class.to_i8(),
        rank_bits: 0,
        x_f4: 0,
        debug: 0,
    }
}

/// `n` copies of `x`.
pub fn vec_of<T: Copy>(x: T, n: usize) -> (r: Vec<T>)
    ensures
        r@.len() == n,
        forall|i: int| 0 <= i < n ==> r@[i] == x,
{
    let mut r: Vec<T> = Vec::new();
    let mut k: usize = 0;
    while k < n
        invariant
            k <= n,
            r@.len() == k,
            forall|i: int| 0 <= i < k ==> r@[i] == x,
        decreases n - k,
    {
        r.push(x);
        k += 1;
    }
    r
}

/// The identifier words of a list of items.
pub fn item_words(items: &Vec<Item>) -> (r: Vec<u32>)
    ensures
        r@.len() == items@.len(),
        forall|i: int| 0 <= i < items@.len() ==> r@[i] == items@[i].0,
{
    let mut r: Vec<u32> = Vec::new();
    let mut k: usize = 0;
    while k < items.len()
        invariant
            k <= items@.len(),
            r@.len() == k,
            forall|i: int| 0 <= i < k ==> r@[i] == items@[i].0,
        decreases items@.len() - k,
    {
        r.push(items[k].0);
        k += 1;
    }
    r
}

/// A room member as listed to other members.
pub fn make_ulist(p: &Player) -> (r: UList)
    requires
        p.user.class.wf(),
    ensures
        r.cid == p.cid,
        r.uid == p.uid,
        r.lobby == p.cur_lobby,
        r.room == p.cur_room,
        r.mode == mode_value(p.mode),
        r.name@ == padded(p.name@, 19),
{
    UList {
        cid: p.cid,
        uid: p.uid,
        stat: p.stat as u16,
        team_word: 0,
        mode: p.mode.to_i8(),
        lobby: p.cur_lobby,
        room: p.cur_room,
        pclass: p.user.class.class().to_i8(),
        element: p.user.element.to_i8(),
        title: 0,
        sv_no: 0,
        circle: 0,
        name: pad_units(&p.name, 19),
    }
}

/// A lobby member as listed to other members.
pub fn make_ulist_l(p: &Player) -> (r: UListL)
    requires
        p.user.class.wf(),
    ensures
        r.cid == p.cid,
        r.uid == p.uid,
        r.lobby == p.cur_lobby,
        r.room == p.cur_room,
        r.mode == mode_value(p.mode),
        r.name@ == padded(p.name@, 17),
{
    UListL {
        cid: p.cid,
        uid: p.uid,
        stat: p.stat as u16,
        team_word: 0,
        mode: p.mode.to_i8(),
        lobby: p.cur_lobby,
        room: p.cur_room,
        pclass: p.user.class.class().to_i8(),
        element: p.user.element.to_i8(),
        title: 0,
        circle: 0,
        name: pad_units(&p.name, 17),
    }
}

/// An account is admitted only once at a time: while a session of the account
/// exists, any other login for it, whichever came first, is refused as a second
/// login; and an account not logged in is admitted while a connection id is free.
pub proof fn lemma_single_login(conns: Seq<Player>, p: Player, uid: i32)
    requires
        p.uid == uid,
    ensures
        login_verdict(conns.push(p), uid) == Some(AckIDPassResult::MultiLoginError),
        !logged_in(conns, uid) && !pool_full(conns) ==> login_verdict(conns, uid) is None,
{
    assert(conns.push(p)[conns.len() as int].uid == uid);
}

/// Room `b` is room `a` with `cid` taken out of its members.
pub open spec fn room_purged(a: Room, b: Room, cid: i32) -> bool {
    &&& b.members@ == without(a.members@, cid)
    &&& b.room_num == a.room_num
    &&& b.max_members == a.max_members
    &&& b.name == a.name
    &&& b.password == a.password
    &&& b.allow_spectators == a.allow_spectators
    &&& b.rules == a.rules
    &&& b.course == a.course
    &&& b.season == a.season
    &&& b.time_limit == a.time_limit
    &&& b.num_holes == a.num_holes
    &&& b.course_setting == a.course_setting
    &&& b.limits == a.limits
    &&& b.current_player == a.current_player
}

/// Lobby `b` is lobby `a` with `cid` taken out of its members and its rooms' members.
pub open spec fn lobby_purged(a: Lobby, b: Lobby, cid: i32) -> bool {
    &&& b.members@ == without(a.members@, cid)
    &&& b.mode == a.mode
    &&& b.num == a.num
    &&& b.name == a.name
    &&& b.max_members == a.max_members
    &&& b.rooms@.len() == a.rooms@.len()
    &&& forall|r: int| 0 <= r < a.rooms@.len() ==> room_purged(a.rooms@[r], #[trigger] b.rooms@[r], cid)
}

/// Whether `cid` is a member of no lobby and no room.
pub open spec fn nowhere(lobbies: Seq<Lobby>, cid: i32) -> bool {
    forall|l: int|
        0 <= l < lobbies.len() ==> !(#[trigger] lobbies[l]).members@.contains(cid) && forall|r: int|
            0 <= r < lobbies[l].rooms@.len() ==> !(#[trigger] lobbies[l].rooms@[r]).members@.contains(cid)
}

impl GameServer {
    /// Takes `cid` out of every lobby and every room.
    pub fn purge_cid(&mut self, cid: i32)
        requires
            old(self).wf(),
        ensures
            final(self).wf(),
            final(self).conns@ == old(self).conns@,
            final(self).next_cid == old(self).next_cid,
            final(self).lobbies@.len() == old(self).lobbies@.len(),
            forall|l: int|
                0 <= l < old(self).lobbies@.len() ==> lobby_purged(
                    old(self).lobbies@[l],
                    #[trigger] final(self).lobbies@[l],
                    cid,
                ),
            nowhere(final(self).lobbies@, cid),
    {
        broadcast use vstd::seq_lib::group_filter_ensures;

        let mut l: usize = 0;
        while l < self.lobbies.len()
            invariant
                l <= self.lobbies@.len(),
                self.lobbies@.len() == old(self).lobbies@.len(),
                self.conns@ == old(self).conns@,
                self.next_cid == old(self).next_cid,
                old(self).wf(),
                forall|k: int|
                    0 <= k < l ==> lobby_purged(old(self).lobbies@[k], #[trigger] self.lobbies@[k], cid),
                forall|k: int| l <= k < self.lobbies@.len() ==> #[trigger] self.lobbies@[k] == old(self).lobbies@[k],
            decreases self.lobbies@.len() - l,
        {
            let ghost before = self.lobbies@[l as int];
            remove_cid(&mut self.lobbies[l].members, cid);
            let mut r: usize = 0;
            while r < self.lobbies[l].rooms.len()
                invariant
                    l < self.lobbies@.len(),
                    r <= self.lobbies@[l as int].rooms@.len(),
                    self.lobbies@.len() == old(self).lobbies@.len(),
                    self.conns@ == old(self).conns@,
                    self.next_cid == old(self).next_cid,
                    before == old(self).lobbies@[l as int],
                    self.lobbies@[l as int].members@ == without(before.members@, cid),
                    self.lobbies@[l as int].mode == before.mode,
                    self.lobbies@[l as int].num == before.num,
                    self.lobbies@[l as int].name == before.name,
                    self.lobbies@[l as int].max_members == before.max_members,
                    self.lobbies@[l as int].rooms@.len() == before.rooms@.len(),
                    forall|q: int|
                        0 <= q < r ==> room_purged(before.rooms@[q], #[trigger] self.lobbies@[l as int].rooms@[q], cid),
                    forall|q: int|
                        r <= q < before.rooms@.len() ==> #[trigger] self.lobbies@[l as int].rooms@[q] == before.rooms@[q],
                    forall|k: int|
                        0 <= k < l ==> lobby_purged(old(self).lobbies@[k], #[trigger] self.lobbies@[k], cid),
                    forall|k: int| l < k < self.lobbies@.len() ==> #[trigger] self.lobbies@[k] == old(self).lobbies@[k],
                decreases self.lobbies@[l as int].rooms@.len() - r,
            {
                remove_cid(&mut self.lobbies[l].rooms[r].members, cid);
                r += 1;
            }
            l += 1;
        }
        proof {
            assert forall|l: int| 0 <= l < self.lobbies@.len() implies (#[trigger] self.lobbies@[l]).wf() by {
                let a = old(self).lobbies@[l];
                let b = self.lobbies@[l];
                assert(lobby_purged(a, b, cid));
                assert(a.wf());
                assert forall|r: int| 0 <= r < b.rooms@.len() implies (#[trigger] b.rooms@[r]).wf() by {
                    assert(room_purged(a.rooms@[r], b.rooms@[r], cid));
                    assert(a.rooms@[r].wf());
                }
                assert forall|i: int, j: int| 0 <= i < j < b.rooms@.len() implies (#[trigger] b.rooms@[i]).room_num < (#[trigger] b.rooms@[j]).room_num by {
                    assert(room_purged(a.rooms@[i], b.rooms@[i], cid));
                    assert(room_purged(a.rooms@[j], b.rooms@[j], cid));
                }
                assert forall|i: int| 0 <= i < b.rooms@.len() implies 0 <= #[trigger] b.rooms@[i].room_num <= 127 by {
                    assert(room_purged(a.rooms@[i], b.rooms@[i], cid));
                }
            }
            assert forall|l: int, k: int|
                0 <= l < k < self.lobbies@.len() implies !((#[trigger] self.lobbies@[l]).mode == (
                #[trigger] self.lobbies@[k]).mode && self.lobbies@[l].num == self.lobbies@[k].num) by {
                assert(lobby_purged(old(self).lobbies@[l], self.lobbies@[l], cid));
                assert(lobby_purged(old(self).lobbies@[k], self.lobbies@[k], cid));
            }
            assert forall|l: int, x: i32| 0 <= l < self.lobbies@.len() && #[trigger] member_of(self.lobbies@[l], x) implies cid_in_use(self.conns@, x) by {
                let a = old(self).lobbies@[l];
                let b = self.lobbies@[l];
                assert(lobby_purged(a, b, cid));
                assert forall|y: i32| #[trigger] b.members@.contains(y) implies y == cid || member_of(a, y) by {
                    lemma_without_sub(a.members@, cid, y);
                }
                assert forall|r: int, y: i32| 0 <= r < b.rooms@.len() && #[trigger] b.rooms@[r].members@.contains(y) implies y == cid || member_of(a, y) by {
                    assert(room_purged(a.rooms@[r], b.rooms@[r], cid));
                    lemma_without_sub(a.rooms@[r].members@, cid, y);
                    assert(a.rooms@[r].members@.contains(y));
                }
                lemma_member_grow(a, b, cid);
                if x == cid {
                    if b.members@.contains(x) {
                        lemma_without_sub(a.members@, cid, x);
                    } else {
                        let r = choose|r: int| 0 <= r < b.rooms@.len() && #[trigger] b.rooms@[r].members@.contains(x);
                        assert(room_purged(a.rooms@[r], b.rooms@[r], cid));
                        lemma_without_sub(a.rooms@[r].members@, cid, x);
                    }
                }
                assert(member_of(a, x));
            }
            assert forall|l: int| 0 <= l < self.lobbies@.len() implies !(#[trigger] self.lobbies@[l]).members@.contains(cid) && forall|r: int|
                0 <= r < self.lobbies@[l].rooms@.len() ==> !(#[trigger] self.lobbies@[l].rooms@[r]).members@.contains(cid) by {
                assert(lobby_purged(old(self).lobbies@[l], self.lobbies@[l], cid));
                assert forall|r: int| 0 <= r < self.lobbies@[l].rooms@.len() implies !(#[trigger] self.lobbies@[l].rooms@[r]).members@.contains(cid) by {
                    assert(room_purged(old(self).lobbies@[l].rooms@[r], self.lobbies@[l].rooms@[r], cid));
                    if self.lobbies@[l].rooms@[r].members@.contains(cid) {
                        let i = choose|i: int| 0 <= i < self.lobbies@[l].rooms@[r].members@.len() && self.lobbies@[l].rooms@[r].members@[i] == cid;
                        assert(other_than_holds(self.lobbies@[l].rooms@[r].members@, old(self).lobbies@[l].rooms@[r].members@, cid, i));
                    }
                }
                if self.lobbies@[l].members@.contains(cid) {
                    let i = choose|i: int| 0 <= i < self.lobbies@[l].members@.len() && self.lobbies@[l].members@[i] == cid;
                    assert(other_than_holds(self.lobbies@[l].members@, old(self).lobbies@[l].members@, cid, i));
                }
            }
        }
    }
}

spec fn other_than_holds(b: Seq<i32>, a: Seq<i32>, cid: i32, i: int) -> bool {
    b == without(a, cid) ==> (0 <= i < b.len() ==> b[i] != cid)
}

/// Adds one copy of `packet` for each member of `members` but `skip`, in member order.
pub fn relay(members: &Vec<i32>, skip: i32, packet: &Packet, out: &mut Vec<Outbound>)
    requires
        packet_wf(*packet),
        !(packet is Unknown),
    ensures
        targets(final(out)@) == targets(old(out)@) + without(members@, skip),
        final(out)@.len() >= old(out)@.len(),
        final(out)@.subrange(0, old(out)@.len() as int) == old(out)@,
        forall|k: int|
            old(out)@.len() <= k < final(out)@.len() ==> (#[trigger] final(out)@[k]).pid is None
                && packet_id(final(out)@[k].packet) == packet_id(*packet) && packet_fields(
                final(out)@[k].packet,
            ) == packet_fields(*packet),
{
    let ghost start = out@;
    let mut i: usize = 0;
    while i < members.len()
        invariant
            i <= members@.len(),
            packet_wf(*packet),
            !(packet is Unknown),
            out@.len() >= start.len(),
            out@.subrange(0, start.len() as int) == start,
            targets(out@) == targets(start) + without(members@.subrange(0, i as int), skip),
            forall|k: int|
                start.len() <= k < out@.len() ==> (#[trigger] out@[k]).pid is None && packet_id(
                    out@[k].packet,
                ) == packet_id(*packet) && packet_fields(out@[k].packet) == packet_fields(*packet),
        decreases members@.len() - i,
    {
        let c = members[i];
        proof {
            let s = members@.subrange(0, i as int);
            assert(members@.subrange(0, i + 1) == s.push(c));
            s.lemma_filter_push(c, other_than(skip));
        }
        if c != skip {
            let ghost before = out@;
            out.push(Outbound { cid: c, pid: None, packet: duplicate(packet) });
            assert(targets(out@) =~= targets(before).push(c));
            assert(out@.subrange(0, start.len() as int) =~= before.subrange(0, start.len() as int));
        }
        i += 1;
    }
    assert(members@.subrange(0, members@.len() as int) == members@);
}

impl GameServer {
    /// Takes the player at `who` out of its room and lobby (and every other one),
    /// leaving it ungrouped, and sends its updated entry to the members who remain
    /// in that lobby.
    pub fn eject_from_lobby(&mut self, who: usize) -> (out: Vec<Outbound>)
        requires
            old(self).wf(),
            who < old(self).conns@.len(),
        ensures
            final(self).wf(),
            final(self).conns@.len() == old(self).conns@.len(),
            forall|i: int| 0 <= i < old(self).conns@.len() && i != who ==> #[trigger] final(self).conns@[i] == old(self).conns@[i],
            final(self).conns@[who as int].cid == old(self).conns@[who as int].cid,
            final(self).conns@[who as int].uid == old(self).conns@[who as int].uid,
            final(self).conns@[who as int].mode == old(self).conns@[who as int].mode,
            final(self).conns@[who as int].cur_lobby == -1,
            final(self).conns@[who as int].cur_room == -1,
            nowhere(final(self).lobbies@, old(self).conns@[who as int].cid),
            final(self).lobbies@.len() == old(self).lobbies@.len(),
            forall|l: int|
                0 <= l < old(self).lobbies@.len() ==> lobby_purged(
                    old(self).lobbies@[l],
                    #[trigger] final(self).lobbies@[l],
                    old(self).conns@[who as int].cid,
                ),
            match lobby_at(old(self).lobbies@, old(self).conns@[who as int].mode, old(self).conns@[who as int].cur_lobby) {
                Some(l) => targets(out@) == final(self).lobbies@[l].members@ && exists|u: UListL|
                    u.cid == old(self).conns@[who as int].cid && u.lobby == -1 && u.room == -1
                    && #[trigger] carries(out@, 0, out@.len() as int, Packet::SEND_ULIST_L(u)),
                None => out@.len() == 0,
            },
    {
        let cid = self.conns[who].cid;
        let found = self.find_lobby(self.conns[who].mode, self.conns[who].cur_lobby);
        self.purge_cid(cid);
        let ghost mid = *self;
        self.conns[who].cur_lobby = -1;
        self.conns[who].cur_room = -1;
        let mut out: Vec<Outbound> = Vec::new();
        proof {
            assert(player_wf(mid.conns@[who as int]));
            lemma_replaced_wf(mid, *self, 0, who as int);
        }
        if let Some(l) = found {
            proof {
                lemma_lobby_at_unique(old(self).lobbies@, l as int, old(self).conns@[who as int].mode, old(self).conns@[who as int].cur_lobby);
                assert(lobby_purged(old(self).lobbies@[l as int], self.lobbies@[l as int], cid));
            }
            let entry = make_ulist_l(&self.conns[who]);
            let ghost e = entry;
            let packet = Packet::SEND_ULIST_L(entry);
            let ghost members = self.lobbies@[l as int].members@;
            relay(&self.lobbies[l].members, cid, &packet, &mut out);
            proof {
                assert(carries(out@, 0, out@.len() as int, Packet::SEND_ULIST_L(e)));
                assert(!members.contains(cid));
                lemma_without_absent(members, cid);
                assert(targets(Seq::<Outbound>::empty()) =~= Seq::<i32>::empty());
                assert(targets(out@) =~= members);
            }
        }
        out
    }

    /// Logs out connection `cid`: takes it out of every lobby and room, tells the
    /// members left in its lobby, and forgets the player. An unknown `cid` changes
    /// nothing.
    pub fn remove_player(&mut self, cid: i32) -> (out: Vec<Outbound>)
        requires
            old(self).wf(),
        ensures
            final(self).wf(),
            !cid_in_use(old(self).conns@, cid) ==> final(self).conns@ == old(self).conns@
                && final(self).lobbies@ == old(self).lobbies@ && out@.len() == 0,
            !cid_in_use(final(self).conns@, cid),
            forall|c: i32| c != cid ==> (cid_in_use(final(self).conns@, c) <==> cid_in_use(old(self).conns@, c)),
            cid_in_use(old(self).conns@, cid) ==> nowhere(final(self).lobbies@, cid),
            forall|k: int| 0 <= k < out@.len() ==> (#[trigger] out@[k]).cid != cid,
            final(self).lobbies@.len() == old(self).lobbies@.len(),
            cid_in_use(old(self).conns@, cid) ==> forall|l: int|
                0 <= l < old(self).lobbies@.len() ==> lobby_purged(old(self).lobbies@[l], #[trigger] final(self).lobbies@[l], cid),
            forall|j: int| 0 <= j < old(self).conns@.len() && #[trigger] old(self).conns@[j].cid != cid
                ==> final(self).conns@.contains(old(self).conns@[j]),
            forall|i: int| 0 <= i < final(self).conns@.len() ==> old(self).conns@.contains(#[trigger] final(self).conns@[i]),
    {
        let who = match self.find_conn(cid) {
            Some(w) => w,
            None => return Vec::new(),
        };
        let out = self.eject_from_lobby(who);
        let ghost mid = self.conns@;
        let ghost lobbies = self.lobbies@;
        proof {
            if let Some(l) = lobby_at(old(self).lobbies@, old(self).conns@[who as int].mode, old(self).conns@[who as int].cur_lobby) {
                assert forall|k: int| 0 <= k < out@.len() implies (#[trigger] out@[k]).cid != cid by {
                    assert(targets(out@)[k] == out@[k].cid);
                    assert(lobbies[l].members@.contains(out@[k].cid));
                }
            }
        }
        proof {
            assert forall|c: i32| cid_in_use(mid, c) <==> cid_in_use(old(self).conns@, c) by {
                if cid_in_use(mid, c) {
                    let i = choose|i: int| 0 <= i < mid.len() && mid[i].cid == c;
                    assert(old(self).conns@[i].cid == c);
                }
                if cid_in_use(old(self).conns@, c) {
                    let i = choose|i: int| 0 <= i < old(self).conns@.len() && old(self).conns@[i].cid == c;
                    assert(mid[i].cid == c);
                }
            }
        }
        let _gone = self.conns.swap_remove(who);
        proof {
            let n = mid.len() - 1;
            assert forall|j: int| 0 <= j < old(self).conns@.len() && #[trigger] old(self).conns@[j].cid != cid
                implies self.conns@.contains(old(self).conns@[j]) by {
                assert(j != who);
                assert(mid[j] == old(self).conns@[j]);
                if j == n {
                    assert(self.conns@[who as int] == mid[j]);
                } else {
                    assert(self.conns@[j] == mid[j]);
                }
            }
            assert forall|i: int| 0 <= i < self.conns@.len() implies old(self).conns@.contains(#[trigger] self.conns@[i]) by {
                if i == who {
                    assert(self.conns@[i] == mid[n]);
                    assert(mid[n] == old(self).conns@[n]);
                } else {
                    assert(self.conns@[i] == mid[i]);
                    assert(mid[i] == old(self).conns@[i]);
                }
            }
            lemma_swap_remove_cids(mid, who as int, cid);
            assert forall|i: int| 0 <= i < self.conns@.len() implies player_wf(#[trigger] self.conns@[i]) by {
                if i == who {
                    assert(self.conns@[i] == mid[mid.len() - 1]);
                    assert(player_wf(mid[mid.len() - 1]));
                } else {
                    assert(self.conns@[i] == mid[i]);
                    assert(player_wf(mid[i]));
                }
            }
        }
        out
    }
}

proof fn lemma_lobby_at_unique(lobbies: Seq<Lobby>, l: int, mode: Mode, num: i8)
    requires
        0 <= l < lobbies.len(),
        lobbies[l].mode == mode,
        lobbies[l].num == num,
        forall|a: int, b: int|
            0 <= a < b < lobbies.len() ==> !((#[trigger] lobbies[a]).mode == (#[trigger] lobbies[b]).mode
                && lobbies[a].num == lobbies[b].num),
    ensures
        lobby_at(lobbies, mode, num) == Some(l),
{
    let k = lobby_at(lobbies, mode, num).unwrap();
    if k < l {
        assert(!(lobbies[k].mode == lobbies[l].mode && lobbies[k].num == lobbies[l].num));
    } else if k > l {
        assert(!(lobbies[l].mode == lobbies[k].mode && lobbies[l].num == lobbies[k].num));
    }
}

proof fn lemma_without_absent(s: Seq<i32>, x: i32)
    requires
        !s.contains(x),
    ensures
        without(s, x) == s,
    decreases s.len(),
{
    if s.len() > 0 {
        let t = s.drop_last();
        assert(!t.contains(x)) by {
            if t.contains(x) {
                let i = choose|i: int| 0 <= i < t.len() && t[i] == x;
                assert(s[i] == x);
            }
        }
        lemma_without_absent(t, x);
        assert(s == t.push(s.last()));
        t.lemma_filter_push(s.last(), other_than(x));
        assert(s.last() != x) by {
            assert(s[s.len() - 1] == s.last());
        }
    } else {
        assert(s.filter(other_than(x)) =~= s) by {
            broadcast use vstd::seq_lib::group_filter_ensures;
        }
    }
}

proof fn lemma_swap_remove_cids(mid: Seq<Player>, who: int, cid: i32)
    requires
        0 <= who < mid.len(),
        mid[who].cid == cid,
        forall|i: int, j: int| 0 <= i < j < mid.len() ==> (#[trigger] mid[i]).cid != (#[trigger] mid[j]).cid,
    ensures
        ({
            let after = mid.update(who, mid.last()).drop_last();
            &&& !cid_in_use(after, cid)
            &&& forall|c: i32| c != cid ==> (cid_in_use(after, c) <==> cid_in_use(mid, c))
            &&& forall|i: int, j: int| 0 <= i < j < after.len() ==> (#[trigger] after[i]).cid != (#[trigger] after[j]).cid
        }),
{
    let after = mid.update(who, mid.last()).drop_last();
    let n = mid.len() - 1;
    assert forall|i: int| 0 <= i < after.len() implies (#[trigger] after[i]).cid != cid by {
        if i == who {
            assert(after[i] == mid[n]);
            assert(mid[who].cid != mid[n].cid);
        } else {
            assert(after[i] == mid[i]);
            if i < who {
                assert(mid[i].cid != mid[who].cid);
            } else {
                assert(mid[who].cid != mid[i].cid);
            }
        }
    }
    assert forall|c: i32| c != cid implies (cid_in_use(after, c) <==> cid_in_use(mid, c)) by {
        if cid_in_use(mid, c) {
            let i = choose|i: int| 0 <= i < mid.len() && mid[i].cid == c;
            if i == n && who != n {
                assert(after[who].cid == c);
            } else if i != who {
                assert(after[i].cid == c);
            }
        }
        if cid_in_use(after, c) {
            let i = choose|i: int| 0 <= i < after.len() && after[i].cid == c;
            if i == who && who != n {
                assert(mid[n].cid == c);
            } else {
                assert(mid[i].cid == c);
            }
        }
    }
    assert forall|i: int, j: int| 0 <= i < j < after.len() implies (#[trigger] after[i]).cid != (#[trigger] after[j]).cid by {
        let mi = if i == who { n } else { i };
        let mj = if j == who { n } else { j };
        assert(after[i] == mid[mi]);
        assert(after[j] == mid[mj]);
        if mi < mj {
            assert(mid[mi].cid != mid[mj].cid);
        } else {
            assert(mid[mj].cid != mid[mi].cid);
        }
    }
}

/// The lobbies `b` are the lobbies `a` with lobby `l` replaced by a well-formed
/// lobby of the same mode and number.
pub open spec fn lobbies_replaced(a: Seq<Lobby>, b: Seq<Lobby>, l: int) -> bool {
    &&& b.len() == a.len()
    &&& 0 <= l < a.len()
    &&& forall|k: int| 0 <= k < a.len() && k != l ==> #[trigger] b[k] == a[k]
    &&& b[l].mode == a[l].mode
    &&& b[l].num == a[l].num
    &&& b[l].wf()
}

/// The players `b` are the players `a` with player `w` replaced by one with the
/// same connection id.
pub open spec fn conns_replaced(a: Seq<Player>, b: Seq<Player>, w: int) -> bool {
    &&& b.len() == a.len()
    &&& 0 <= w < a.len()
    &&& forall|k: int| 0 <= k < a.len() && k != w ==> #[trigger] b[k] == a[k]
    &&& b[w].cid == a[w].cid
    &&& player_wf(b[w])
}

proof fn lemma_replaced_wf(s: GameServer, t: GameServer, l: int, w: int)
    requires
        s.wf(),
        t.next_cid == s.next_cid,
        t.lobbies@ == s.lobbies@ || (lobbies_replaced(s.lobbies@, t.lobbies@, l) && forall|x: i32|
            #[trigger] member_of(t.lobbies@[l], x) ==> member_of(s.lobbies@[l], x) || cid_in_use(t.conns@, x)),
        t.conns@ == s.conns@ || conns_replaced(s.conns@, t.conns@, w),
    ensures
        t.wf(),
        forall|c: i32| cid_in_use(t.conns@, c) <==> cid_in_use(s.conns@, c),
{
    lemma_replaced_cids(s, t, w);
    assert forall|k: int, x: i32| 0 <= k < t.lobbies@.len() && #[trigger] member_of(t.lobbies@[k], x) implies cid_in_use(t.conns@, x) by {
        if t.lobbies@ != s.lobbies@ && k == l {
            if member_of(s.lobbies@[l], x) {
                assert(cid_in_use(s.conns@, x));
            }
        } else {
            assert(t.lobbies@[k] == s.lobbies@[k]);
            assert(cid_in_use(s.conns@, x));
        }
    }
    lemma_replaced_wf_rest(s, t, l, w);
}

proof fn lemma_replaced_cids(s: GameServer, t: GameServer, w: int)
    requires
        t.conns@ == s.conns@ || conns_replaced(s.conns@, t.conns@, w),
    ensures
        forall|c: i32| cid_in_use(t.conns@, c) <==> cid_in_use(s.conns@, c),
{
    assert forall|c: i32| cid_in_use(t.conns@, c) <==> cid_in_use(s.conns@, c) by {
        if cid_in_use(t.conns@, c) {
            let i = choose|i: int| 0 <= i < t.conns@.len() && t.conns@[i].cid == c;
            assert(s.conns@[i].cid == c);
        }
        if cid_in_use(s.conns@, c) {
            let i = choose|i: int| 0 <= i < s.conns@.len() && s.conns@[i].cid == c;
            assert(t.conns@[i].cid == c);
        }
    }
}

proof fn lemma_replaced_wf_rest(s: GameServer, t: GameServer, l: int, w: int)
    requires
        s.wf(),
        t.next_cid == s.next_cid,
        t.lobbies@ == s.lobbies@ || lobbies_replaced(s.lobbies@, t.lobbies@, l),
        t.conns@ == s.conns@ || conns_replaced(s.conns@, t.conns@, w),
        members_connected(t.lobbies@, t.conns@),
    ensures
        t.wf(),
{
    if t.conns@ != s.conns@ {
        assert forall|i: int| 0 <= i < t.conns@.len() implies player_wf(#[trigger] t.conns@[i]) by {
            if i != w {
                assert(player_wf(s.conns@[i]));
            }
        }
        assert forall|i: int, j: int| 0 <= i < j < t.conns@.len() implies (#[trigger] t.conns@[i]).cid != (
            #[trigger] t.conns@[j]).cid by {
            assert(s.conns@[i].cid != s.conns@[j].cid);
        }
        assert forall|c: i32| cid_in_use(t.conns@, c) <==> cid_in_use(s.conns@, c) by {
            if cid_in_use(t.conns@, c) {
                let i = choose|i: int| 0 <= i < t.conns@.len() && t.conns@[i].cid == c;
                assert(s.conns@[i].cid == c);
            }
            if cid_in_use(s.conns@, c) {
                let i = choose|i: int| 0 <= i < s.conns@.len() && s.conns@[i].cid == c;
                assert(t.conns@[i].cid == c);
            }
        }
    }
    if t.lobbies@ != s.lobbies@ {
        assert forall|k: int| 0 <= k < t.lobbies@.len() implies (#[trigger] t.lobbies@[k]).wf() by {
            if k != l {
                assert(s.lobbies@[k].wf());
            }
        }
        assert forall|a: int, b: int|
            0 <= a < b < t.lobbies@.len() implies !((#[trigger] t.lobbies@[a]).mode == (
            #[trigger] t.lobbies@[b]).mode && t.lobbies@[a].num == t.lobbies@[b].num) by {
            assert(!(s.lobbies@[a].mode == s.lobbies@[b].mode && s.lobbies@[a].num == s.lobbies@[b].num));
        }
    }
}

/// The lobby of the player's mode that it asks to enter, if it can: it must be
/// in no lobby yet and the lobby must have room.
pub open spec fn enter_lobby_target(lobbies: Seq<Lobby>, p: Player, num: i8) -> Option<int> {
    match lobby_at(lobbies, p.mode, num) {
        Some(l) => if p.cur_lobby < 0 && lobbies[l].members@.len() < lobbies[l].max_members {
            Some(l)
        } else {
            None
        },
        None => None,
    }
}

/// Why a room cannot be entered; the wire code is in the comment.
#[derive(Clone, Copy, Debug, PartialEq, Eq, Structural)]
pub enum EnterRoomError {
    /// -1
    AlreadyInRoom,
    /// -2: no such lobby or room.
    RoomNotFound,
    /// -3
    WrongPassword,
    /// -4
    RoomIsFull,
}

/// The wire code of a failure to enter a room.
pub open spec fn enter_room_code(e: EnterRoomError) -> i8 {
    match e {
        EnterRoomError::AlreadyInRoom => -1i8,
        EnterRoomError::RoomNotFound => -2i8,
        EnterRoomError::WrongPassword => -3i8,
        EnterRoomError::RoomIsFull => -4i8,
    }
}

impl EnterRoomError {
    pub fn code(self) -> (r: i8)
        ensures
            r == enter_room_code(self),
    {
        match self {
            EnterRoomError::AlreadyInRoom => -1,
            EnterRoomError::RoomNotFound => -2,
            EnterRoomError::WrongPassword => -3,
            EnterRoomError::RoomIsFull => -4,
        }
    }
}

/// The room index of room `n` in lobby `l`, if there is one.
pub open spec fn room_at(lobbies: Seq<Lobby>, l: int, n: i8) -> Option<int> {
    if exists|r: int| 0 <= r < lobbies[l].rooms@.len() && lobbies[l].rooms@[r].room_num == n {
        Some(choose|r: int| 0 <= r < lobbies[l].rooms@.len() && lobbies[l].rooms@[r].room_num == n)
    } else {
        None
    }
}

/// How a request to enter room `n` with password `pw` is answered: the player
/// must be in no room, the room must exist in the player's lobby, the password
/// must match when one is set, and the room must have a free place.
pub open spec fn enter_room_verdict(lobbies: Seq<Lobby>, p: Player, n: i8, pw: Seq<u16>) -> Result<(int, int), EnterRoomError> {
    if p.cur_room >= 0 {
        Err(EnterRoomError::AlreadyInRoom)
    } else {
        match lobby_at(lobbies, p.mode, p.cur_lobby) {
            None => Err(EnterRoomError::RoomNotFound),
            Some(l) => match room_at(lobbies, l, n) {
                None => Err(EnterRoomError::RoomNotFound),
                Some(r) => {
                    let room = lobbies[l].rooms@[r];
                    if room.password matches Some(x) && x@ != crate::lobby::until_null(pw) {
                        Err(EnterRoomError::WrongPassword)
                    } else if room.members@.len() >= room.max_members {
                        Err(EnterRoomError::RoomIsFull)
                    } else {
                        Ok((l, r))
                    }
                },
            },
        }
    }
}

proof fn lemma_room_at_unique(lobbies: Seq<Lobby>, l: int, r: int, n: i8)
    requires
        0 <= l < lobbies.len(),
        rooms_sorted(lobbies[l].rooms@),
        0 <= r < lobbies[l].rooms@.len(),
        lobbies[l].rooms@[r].room_num == n,
    ensures
        room_at(lobbies, l, n) == Some(r),
{
    let k = room_at(lobbies, l, n).unwrap();
    let rooms = lobbies[l].rooms@;
    if k < r {
        assert(rooms[k].room_num < rooms[r].room_num);
    } else if k > r {
        assert(rooms[r].room_num < rooms[k].room_num);
    }
}

impl GameServer {
    /// Moves the player at `who` to mode `mode_code` (leaving its lobby first when
    /// the mode changes) and acknowledges; an unknown mode is ignored.
    pub fn handle_change_mode(&mut self, who: usize, mode_code: i8) -> (out: Vec<Outbound>)
        requires
            old(self).wf(),
            who < old(self).conns@.len(),
        ensures
            change_mode_post(*old(self), *final(self), who as int, mode_code, out@),
    {
        let new_mode = match Mode::from_i8(mode_code) {
            Some(m) => m,
            None => return Vec::new(),
        };
        let cid = self.conns[who].cid;
        let mut out: Vec<Outbound> = Vec::new();
        if self.conns[who].mode != new_mode {
            if self.conns[who].cur_lobby >= 0 {
                out = self.eject_from_lobby(who);
                proof {
                    assert forall|c: i32| cid_in_use(self.conns@, c) <==> cid_in_use(old(self).conns@, c) by {
                        if cid_in_use(self.conns@, c) {
                            let i = choose|i: int| 0 <= i < self.conns@.len() && self.conns@[i].cid == c;
                            assert(old(self).conns@[i].cid == c);
                        }
                        if cid_in_use(old(self).conns@, c) {
                            let i = choose|i: int| 0 <= i < old(self).conns@.len() && old(self).conns@[i].cid == c;
                            assert(self.conns@[i].cid == c);
                        }
                    }
                }
            }
            let ghost mid = *self;
            self.conns[who].mode = new_mode;
            proof {
                lemma_replaced_wf(mid, *self, 0, who as int);
            }
        }
        out.push(Outbound { cid, pid: None, packet: Packet::ACK_CHG_MODE { mode: mode_code } });
        out
    }

    /// Puts the player at `who` into lobby `num` of its mode when it is in no lobby
    /// and the lobby has room, acknowledges with the lobby number (or -1 when
    /// refused), and sends the newcomer's entry to the other lobby members.
    pub fn handle_enter_lobby(&mut self, who: usize, num: i8) -> (out: Vec<Outbound>)
        requires
            old(self).wf(),
            who < old(self).conns@.len(),
        ensures
            enter_lobby_post(*old(self), *final(self), who as int, num, out@),
    {
        let cid = self.conns[who].cid;
        let found = self.find_lobby(self.conns[who].mode, num);
        let l = match found {
            Some(l) => l,
            None => {
                let out = vec![Outbound { cid, pid: None, packet: Packet::ACK_ENTER_LOBBY { lobby: -1 } }];
                assert(targets(out@) =~= seq![cid]);
                return out;
            },
        };
        proof {
            lemma_lobby_at_unique(self.lobbies@, l as int, self.conns@[who as int].mode, num);
        }
        if self.conns[who].cur_lobby >= 0 || self.lobbies[l].members.len() >= self.lobbies[l].max_members {
            let out = vec![Outbound { cid, pid: None, packet: Packet::ACK_ENTER_LOBBY { lobby: -1 } }];
            assert(targets(out@) =~= seq![cid]);
            return out;
        }
        let ghost s0 = *self;
        let ghost old_members = self.lobbies@[l as int].members@;
        self.lobbies[l].members.push(cid);
        self.conns[who].cur_lobby = num;
        proof {
            lemma_replaced_wf(s0, *self, l as int, who as int);
        }
        let mut out = vec![Outbound { cid, pid: None, packet: Packet::ACK_ENTER_LOBBY { lobby: num } }];
        let entry = make_ulist_l(&self.conns[who]);
        let ghost e = entry;
        let packet = Packet::SEND_ULIST_L(entry);
        let ghost start = out@;
        relay(&self.lobbies[l].members, cid, &packet, &mut out);
        proof {
            assert(carries(out@, 1, out@.len() as int, Packet::SEND_ULIST_L(e)));
            let ms = self.lobbies@[l as int].members@;
            assert(ms == old_members.push(cid));
            old_members.lemma_filter_push(cid, other_than(cid));
            assert(targets(start) =~= seq![cid]);
            assert(out@.subrange(0, 1)[0] == out@[0]);
            assert(out@[0] == start[0]);
        }
        out
    }

    /// Creates a room in the lobby the request names, with the smallest free
    /// number, and puts the requester in it. Refused with -1 when the requester is
    /// not in that lobby and mode, is already in a room, or all 128 numbers are taken.
    pub fn handle_make_room(&mut self, pid: i16, who: usize, data: &Packet19) -> (out: Vec<Outbound>)
        requires
            old(self).wf(),
            who < old(self).conns@.len(),
            data.room_name@.len() == 33,
            data.room_password@.len() == 17,
            data.limits@.len() == 7,
        ensures
            make_room_post(*old(self), *final(self), who as int, pid, *data, out@),
    {
        let cid = self.conns[who].cid;
        let refuse = vec![Outbound { cid, pid: Some(pid), packet: Packet::ACK_MAKE_ROOM { room: -1 } }];
        let mode = match Mode::from_i8(data.mode) {
            Some(m) => m,
            None => return refuse,
        };
        let l = match self.find_lobby(mode, data.lobby) {
            Some(l) => l,
            None => return refuse,
        };
        if self.conns[who].mode != mode || self.conns[who].cur_lobby != data.lobby || self.conns[who].cur_room >= 0 {
            return refuse;
        }
        proof {
            lemma_lobby_at_unique(self.lobbies@, l as int, mode, data.lobby);
        }
        let n = match self.lobbies[l].pick_free_room_num() {
            Some(n) => n,
            None => return refuse,
        };
        let mut room = Room::new(n, data);
        room.members.push(cid);
        let ghost made = room;
        proof {
            assert(room.members@ == seq![cid]);
            assert(made_room(made, n, cid, *data));
        }
        let ghost s0 = *self;
        let ghost old_rooms = self.lobbies@[l as int].rooms@;
        self.lobbies[l].insert_room(room);
        self.conns[who].cur_room = n;
        proof {
            let rooms = self.lobbies@[l as int].rooms@;
            let pos = choose|pos: int| 0 <= pos <= old_rooms.len() && rooms == old_rooms.insert(pos, room);
            assert(made_room(made, n, cid, *data) && rooms == old_rooms.insert(pos, made));
            assert(rooms[pos].room_num == n);
            assert forall|i: int| 0 <= i < rooms.len() implies (#[trigger] rooms[i]).wf() by {
                if i < pos {
                    assert(rooms[i] == old_rooms[i]);
                    assert(s0.lobbies@[l as int].wf());
                } else if i > pos {
                    assert(rooms[i] == old_rooms[i - 1]);
                    assert(s0.lobbies@[l as int].wf());
                }
            }
            lemma_replaced_wf(s0, *self, l as int, who as int);
        }
        vec![Outbound { cid, pid: Some(pid), packet: Packet::ACK_MAKE_ROOM { room: n } }]
    }
}

impl GameServer {
    /// Puts the player at `who` into room `room_num` of its lobby when
    /// `enter_room_verdict` allows it: the player gets an acknowledgment with the
    /// room's description, and each earlier member gets the newcomer's entry.
    /// Otherwise nothing changes and the player gets the failure code.
    pub fn handle_enter_room(&mut self, pid: i16, who: usize, room_num: i8, password: &Vec<u16>) -> (out: Vec<Outbound>)
        requires
            old(self).wf(),
            who < old(self).conns@.len(),
        ensures
            enter_room_post(*old(self), *final(self), who as int, pid, room_num, password@, out@),
    {
        let cid = self.conns[who].cid;
        let mode_code = self.conns[who].mode.to_i8();
        let lobby_num = self.conns[who].cur_lobby;
        let verdict = self.check_enter_room(who, room_num, password);
        let (l, r) = match verdict {
            Ok(lr) => lr,
            Err(e) => {
                let d = Packet19::create_error(mode_code, lobby_num, e.code());
                return vec![Outbound { cid, pid: Some(pid), packet: Packet::ACK_ENTER_ROOM(d) }];
            },
        };
        let ghost s0 = *self;
        let ghost old_members = self.lobbies@[l as int].rooms@[r as int].members@;
        self.lobbies[l].rooms[r].members.push(cid);
        self.conns[who].cur_room = room_num;
        proof {
            let lob = self.lobbies@[l as int];
            assert forall|q: int| 0 <= q < lob.rooms@.len() implies (#[trigger] lob.rooms@[q]).wf() by {
                assert(s0.lobbies@[l as int].wf());
                if q != r {
                    assert(lob.rooms@[q] == s0.lobbies@[l as int].rooms@[q]);
                }
            }
            assert forall|a: int, b: int| 0 <= a < b < lob.rooms@.len() implies (#[trigger] lob.rooms@[a]).room_num < (#[trigger] lob.rooms@[b]).room_num by {
                assert(s0.lobbies@[l as int].wf());
                assert(s0.lobbies@[l as int].rooms@[a].room_num < s0.lobbies@[l as int].rooms@[b].room_num);
            }
            assert forall|a: int| 0 <= a < lob.rooms@.len() implies 0 <= #[trigger] lob.rooms@[a].room_num <= 127 by {
                assert(s0.lobbies@[l as int].wf());
                assert(0 <= s0.lobbies@[l as int].rooms@[a].room_num <= 127);
            }
            let lob0 = s0.lobbies@[l as int];
            assert forall|y: i32| #[trigger] lob.members@.contains(y) implies y == cid || member_of(lob0, y) by {}
            assert forall|q: int, y: i32| 0 <= q < lob.rooms@.len() && #[trigger] lob.rooms@[q].members@.contains(y) implies y == cid || member_of(lob0, y) by {
                if q != r {
                    assert(lob.rooms@[q] == lob0.rooms@[q]);
                    assert(lob0.rooms@[q].members@.contains(y));
                } else if y != cid {
                    let i = choose|i: int| 0 <= i < lob.rooms@[q].members@.len() && lob.rooms@[q].members@[i] == y;
                    assert(old_members[i] == y);
                    assert(lob0.rooms@[q].members@.contains(y));
                }
            }
            lemma_member_grow(lob0, lob, cid);
            assert(self.conns@[who as int].cid == cid);
            lemma_replaced_wf(s0, *self, l as int, who as int);
        }
        let d = self.lobbies[l].rooms[r].describe(mode_code, lobby_num);
        let mut out = vec![Outbound { cid, pid: Some(pid), packet: Packet::ACK_ENTER_ROOM(d) }];
        let entry = make_ulist(&self.conns[who]);
        let ghost e = entry;
        let packet = Packet::SEND_ULIST(entry);
        let ghost start = out@;
        relay(&self.lobbies[l].rooms[r].members, cid, &packet, &mut out);
        proof {
            assert(carries(out@, 1, out@.len() as int, Packet::SEND_ULIST(e)));
            old_members.lemma_filter_push(cid, other_than(cid));
            assert(targets(start) =~= seq![cid]);
            assert(out@.subrange(0, 1)[0] == out@[0]);
            assert(s0 == *old(self));
            assert(lobbies_replaced(old(self).lobbies@, self.lobbies@, l as int));
            assert(enter_room_verdict(old(self).lobbies@, old(self).conns@[who as int], room_num, password@) == Ok::<(int, int), EnterRoomError>((l as int, r as int)));
        }
        out
    }

    /// Decides a request to enter room `room_num`, as `enter_room_verdict` says.
    fn check_enter_room(&self, who: usize, room_num: i8, password: &Vec<u16>) -> (r: Result<(usize, usize), EnterRoomError>)
        requires
            self.wf(),
            who < self.conns@.len(),
        ensures
            match enter_room_verdict(self.lobbies@, self.conns@[who as int], room_num, password@) {
                Ok((l, q)) => r == Ok::<(usize, usize), EnterRoomError>((l as usize, q as usize)) && l == l as usize && q == q as usize,
                Err(e) => r == Err::<(usize, usize), EnterRoomError>(e),
            },
            r matches Ok((l, q)) ==> l < self.lobbies@.len() && q < self.lobbies@[l as int].rooms@.len()
                && self.lobbies@[l as int].rooms@[q as int].members@.len() < self.lobbies@[l as int].rooms@[q as int].max_members,
    {
        if self.conns[who].cur_room >= 0 {
            return Err(EnterRoomError::AlreadyInRoom);
        }
        let l = match self.find_lobby(self.conns[who].mode, self.conns[who].cur_lobby) {
            Some(l) => l,
            None => return Err(EnterRoomError::RoomNotFound),
        };
        proof {
            lemma_lobby_at_unique(self.lobbies@, l as int, self.conns@[who as int].mode, self.conns@[who as int].cur_lobby);
        }
        let q = match self.lobbies[l].find_room(room_num) {
            Some(q) => q,
            None => return Err(EnterRoomError::RoomNotFound),
        };
        proof {
            assert(self.lobbies@[l as int].wf());
            lemma_room_at_unique(self.lobbies@, l as int, q as int, room_num);
        }
        let room = &self.lobbies[l].rooms[q];
        if let Some(pw) = &room.password {
            let supplied = crate::lobby::terminated(password);
            if !crate::lobby::units_equal(pw, &supplied) {
                return Err(EnterRoomError::WrongPassword);
            }
        }
        if room.members.len() >= room.max_members {
            return Err(EnterRoomError::RoomIsFull);
        }
        Ok((l, q))
    }
}

/// The room that player `p` is in, as (lobby index, room index), if any.
pub open spec fn room_of(lobbies: Seq<Lobby>, p: Player) -> Option<(int, int)> {
    match lobby_at(lobbies, p.mode, p.cur_lobby) {
        Some(l) => match room_at(lobbies, l, p.cur_room) {
            Some(q) => Some((l, q)),
            None => None,
        },
        None => None,
    }
}

/// The members of a room other than `cid`: who a relay from `cid` reaches.
pub open spec fn roommates(lobbies: Seq<Lobby>, lq: (int, int), cid: i32) -> Seq<i32> {
    without(lobbies[lq.0].rooms@[lq.1].members@, cid)
}

/// A relay goes to room members only: a connection that is in no room's member
/// list is never reached, whoever sends.
pub proof fn lemma_relay_skips_non_members(lobbies: Seq<Lobby>, lq: (int, int), sender: i32, cid: i32)
    requires
        0 <= lq.0 < lobbies.len(),
        0 <= lq.1 < lobbies[lq.0].rooms@.len(),
        nowhere(lobbies, cid),
    ensures
        !roommates(lobbies, lq, sender).contains(cid),
{
    broadcast use vstd::seq_lib::group_filter_ensures;

    let ms = lobbies[lq.0].rooms@[lq.1].members@;
    assert(!lobbies[lq.0].rooms@[lq.1].members@.contains(cid));
    if roommates(lobbies, lq, sender).contains(cid) {
        ms.lemma_filter_contains_rev(other_than(sender), cid);
    }
}

impl GameServer {
    /// The room that the player at `who` is in, if any.
    pub fn current_room(&self, who: usize) -> (r: Option<(usize, usize)>)
        requires
            self.wf(),
            who < self.conns@.len(),
        ensures
            r matches Some((l, q)) ==> room_of(self.lobbies@, self.conns@[who as int]) == Some((l as int, q as int))
                && l < self.lobbies@.len() && q < self.lobbies@[l as int].rooms@.len(),
            r is None ==> room_of(self.lobbies@, self.conns@[who as int]) is None,
    {
        let l = match self.find_lobby(self.conns[who].mode, self.conns[who].cur_lobby) {
            Some(l) => l,
            None => return None,
        };
        proof {
            lemma_lobby_at_unique(self.lobbies@, l as int, self.conns@[who as int].mode, self.conns@[who as int].cur_lobby);
        }
        match self.lobbies[l].find_room(self.conns[who].cur_room) {
            Some(q) => {
                proof {
                    assert(self.lobbies@[l as int].wf());
                    lemma_room_at_unique(self.lobbies@, l as int, q as int, self.conns@[who as int].cur_room);
                }
                Some((l, q))
            },
            None => None,
        }
    }

    /// Copies of `packet` for every other member of the room that the player at
    /// `who` is in; none when it is in no room.
    pub fn send_packet_to_roommates(&self, who: usize, packet: &Packet) -> (out: Vec<Outbound>)
        requires
            self.wf(),
            who < self.conns@.len(),
            packet_wf(*packet),
            !(packet is Unknown),
        ensures
            match room_of(self.lobbies@, self.conns@[who as int]) {
                Some(lq) => targets(out@) == roommates(self.lobbies@, lq, self.conns@[who as int].cid),
                None => out@.len() == 0,
            },
            forall|k: int| 0 <= k < out@.len() ==> (#[trigger] out@[k]).pid is None && packet_id(out@[k].packet)
                == packet_id(*packet) && packet_fields(out@[k].packet) == packet_fields(*packet),
    {
        let mut out: Vec<Outbound> = Vec::new();
        match self.current_room(who) {
            Some((l, q)) => {
                relay(&self.lobbies[l].rooms[q].members, self.conns[who].cid, packet, &mut out);
                assert(targets(Seq::<Outbound>::empty()) =~= Seq::<i32>::empty());
                assert(targets(out@) =~= roommates(self.lobbies@, (l as int, q as int), self.conns@[who as int].cid));
            },
            None => {},
        }
        out
    }

    /// Relays a load-progress report to the rest of the room.
    pub fn handle_send_loadstat(&self, who: usize, progress: i8) -> (out: Vec<Outbound>)
        requires
            self.wf(),
            who < self.conns@.len(),
        ensures
            send_loadstat_post(*self, who as int, progress, out@),
    {
        let packet = Packet::SEND_LOADSTAT { cid: self.conns[who].cid, progress };
        self.send_packet_to_roommates(who, &packet)
    }

    /// Relays a detailed load-progress report to the rest of the room.
    pub fn handle_send_loadstat2(&self, who: usize, progress: i8) -> (out: Vec<Outbound>)
        requires
            self.wf(),
            who < self.conns@.len(),
        ensures
            send_loadstat2_post(*self, who as int, progress, out@),
    {
        let packet = Packet::SEND_LOADSTAT2 { cid: self.conns[who].cid, progress };
        self.send_packet_to_roommates(who, &packet)
    }

    /// Relays the selected club to the rest of the room.
    pub fn handle_shot_club(&self, who: usize, club: i8) -> (out: Vec<Outbound>)
        requires
            self.wf(),
            who < self.conns@.len(),
        ensures
            shot_club_post(*self, who as int, club, out@),
    {
        let packet = Packet::SEND_CRCLUB { cid: self.conns[who].cid, club };
        self.send_packet_to_roommates(who, &packet)
    }

    /// Relays the shot direction (a float, as its bits) to the rest of the room.
    pub fn handle_shot_dir(&self, who: usize, dir: u32) -> (out: Vec<Outbound>)
        requires
            self.wf(),
            who < self.conns@.len(),
        ensures
            shot_dir_post(*self, who as int, dir, out@),
    {
        let packet = Packet::SEND_DIRECTION { cid: self.conns[who].cid, dir };
        self.send_packet_to_roommates(who, &packet)
    }

    /// Relays a ball position to the rest of the room, stamped with the sender.
    pub fn handle_ballpos(&self, who: usize, bp: &BallPos) -> (out: Vec<Outbound>)
        requires
            self.wf(),
            who < self.conns@.len(),
        ensures
            ballpos_post(*self, who as int, *bp, out@),
    {
        let packet = Packet::SEND_BALLPOS(BallPos { cid: self.conns[who].cid, hole: bp.hole, stat: bp.stat, x: bp.x, y: bp.y, z: bp.z });
        self.send_packet_to_roommates(who, &packet)
    }

    /// Records the sender as the room's shot authority and relays the shot to the
    /// rest of the room, stamped with the sender.
    pub fn handle_shot_info(&mut self, who: usize, shot: &Shot) -> (out: Vec<Outbound>)
        requires
            old(self).wf(),
            who < old(self).conns@.len(),
        ensures
            shot_info_post(*old(self), *final(self), who as int, *shot, out@),
    {
        let cid = self.conns[who].cid;
        if let Some((l, q)) = self.current_room(who) {
            let ghost s0 = *self;
            self.lobbies[l].rooms[q].current_player = cid;
            proof {
                let lob = self.lobbies@[l as int];
                let lob0 = s0.lobbies@[l as int];
                assert(lob0.wf());
                assert forall|i: int| 0 <= i < lob.rooms@.len() implies (#[trigger] lob.rooms@[i]).wf() by {
                    assert(lob0.rooms@[i].wf());
                }
                assert forall|a: int, b: int| 0 <= a < b < lob.rooms@.len() implies (#[trigger] lob.rooms@[a]).room_num < (#[trigger] lob.rooms@[b]).room_num by {
                    assert(lob0.rooms@[a].room_num < lob0.rooms@[b].room_num);
                }
                assert forall|a: int| 0 <= a < lob.rooms@.len() implies 0 <= #[trigger] lob.rooms@[a].room_num <= 127 by {
                    assert(0 <= lob0.rooms@[a].room_num <= 127);
                }
                lemma_replaced_wf(s0, *self, l as int, 0);
                assert(roommates(self.lobbies@, (l as int, q as int), cid) == roommates(s0.lobbies@, (l as int, q as int), cid));
                assert(room_of(self.lobbies@, self.conns@[who as int]) == Some((l as int, q as int))) by {
                    lemma_lobby_at_unique(self.lobbies@, l as int, self.conns@[who as int].mode, self.conns@[who as int].cur_lobby);
                    lemma_room_at_unique(self.lobbies@, l as int, q as int, self.conns@[who as int].cur_room);
                }
            }
        }
        let packet = Packet::SEND_SHOT(Shot {
            clock: shot.clock,
            cid,
            dir: shot.dir,
            power: shot.power,
            impact: shot.impact,
            hit_x: shot.hit_x,
            hit_y: shot.hit_y,
            club: shot.club,
        });
        self.send_packet_to_roommates(who, &packet)
    }

    /// Relays where a ball stopped: refused (nothing sent) when the sender is in a
    /// room whose shot authority is someone else; otherwise sent back to the sender
    /// first and then to the rest of the room.
    pub fn handle_stop_ballpos(&self, who: usize, bp: &BallPos) -> (out: Vec<Outbound>)
        requires
            self.wf(),
            who < self.conns@.len(),
        ensures
            stop_ballpos_post(*self, who as int, *bp, out@),
    {
        let cid = self.conns[who].cid;
        if let Some((l, q)) = self.current_room(who) {
            if self.lobbies[l].rooms[q].current_player != cid {
                return Vec::new();
            }
        }
        let packet = Packet::SEND_STOP_BALLPOS(BallPos { cid, hole: bp.hole, stat: bp.stat, x: bp.x, y: bp.y, z: bp.z });
        let mut out = vec![Outbound { cid, pid: None, packet: duplicate(&packet) }];
        let rest = self.send_packet_to_roommates(who, &packet);
        let ghost first = out@;
        let ghost rest0 = rest@;
        let mut rest = rest;
        out.append(&mut rest);
        assert(targets(out@) =~= targets(first) + targets(rest0));
        assert(targets(first) =~= seq![cid]);
        proof {
            assert forall|k: int| 0 <= k < out@.len() implies packet_id((#[trigger] out@[k]).packet) == 235 by {
                if k >= 1 {
                    assert(out@[k] == rest0[k - 1]);
                }
            }
        }
        out
    }
}

impl GameServer {
    /// Starts a round. In single mode the player gets a fresh game-start order and
    /// an acknowledgment. In VS mode every member of the player's room gets the
    /// game-start order, in member order, and the player an acknowledgment; a
    /// player in no room gets a failure status. Other modes get no answer.
    pub fn handle_start_game(&self, who: usize, order: &Vec<i8>) -> (out: Vec<Outbound>)
        requires
            self.wf(),
            who < self.conns@.len(),
            order@.len() >= 3,
        ensures
            start_game_post(*self, who as int, order@, out@),
    {
        let cid = self.conns[who].cid;
        let mut out: Vec<Outbound> = Vec::new();
        if self.conns[who].mode == Mode::Single {
            let g = crate::game::generate_single_mode_game(cid, order);
            out.push(Outbound { cid, pid: None, packet: Packet::ORD_GAMESTART(g) });
            out.push(Outbound { cid, pid: None, packet: Packet::ACK_GAMESTART { status: 0 } });
            assert(targets(out@) =~= seq![cid, cid]);
        } else if self.conns[who].mode == Mode::VS {
            match self.current_room(who) {
                Some((l, q)) => {
                    let room = &self.lobbies[l].rooms[q];
                    proof {
                        assert(self.lobbies@[l as int].wf());
                        assert(self.lobbies@[l as int].rooms@[q as int].wf());
                    }
                    let g = crate::game::generate_game(1, &room.members, room.max_members as i8, order);
                    let ghost gg = g;
                    let packet = Packet::ORD_GAMESTART(g);
                    let ok = packet.fits();
                    proof {
                        assert(ok);
                    }
                    relay_all(&room.members, &packet, &mut out);
                    let ghost before = out@;
                    out.push(Outbound { cid, pid: None, packet: Packet::ACK_GAMESTART { status: 0 } });
                    proof {
                        assert(targets(Seq::<Outbound>::empty()) =~= Seq::<i32>::empty());
                        assert(targets(out@) =~= targets(before).push(cid));
                        assert forall|k: int| 0 <= k < out@.len() - 1 implies packet_id((#[trigger] out@[k]).packet) == packet_id(Packet::ORD_GAMESTART(gg))
                            && packet_fields(out@[k].packet) == packet_fields(Packet::ORD_GAMESTART(gg)) by {
                            assert(out@[k] == before[k]);
                        }
                        assert(carries(out@, 0, out@.len() - 1, Packet::ORD_GAMESTART(gg)));
                    }
                },
                None => {
                    out.push(Outbound { cid, pid: None, packet: Packet::ACK_GAMESTART { status: -1 } });
                    assert(targets(out@) =~= seq![cid]);
                },
            }
        }
        out
    }
}


/// Adds one copy of `packet` for each member of `members`, in member order.
pub fn relay_all(members: &Vec<i32>, packet: &Packet, out: &mut Vec<Outbound>)
    requires
        packet_wf(*packet),
        !(packet is Unknown),
    ensures
        targets(final(out)@) == targets(old(out)@) + members@,
        final(out)@.len() >= old(out)@.len(),
        final(out)@.subrange(0, old(out)@.len() as int) == old(out)@,
        forall|k: int|
            old(out)@.len() <= k < final(out)@.len() ==> (#[trigger] final(out)@[k]).pid is None
                && packet_id(final(out)@[k].packet) == packet_id(*packet) && packet_fields(
                final(out)@[k].packet,
            ) == packet_fields(*packet),
{
    let ghost start = out@;
    let mut i: usize = 0;
    while i < members.len()
        invariant
            i <= members@.len(),
            packet_wf(*packet),
            !(packet is Unknown),
            out@.len() == start.len() + i,
            out@.subrange(0, start.len() as int) == start,
            targets(out@) == targets(start) + members@.subrange(0, i as int),
            forall|k: int|
                start.len() <= k < out@.len() ==> (#[trigger] out@[k]).pid is None && packet_id(
                    out@[k].packet,
                ) == packet_id(*packet) && packet_fields(out@[k].packet) == packet_fields(*packet),
        decreases members@.len() - i,
    {
        let ghost before = out@;
        out.push(Outbound { cid: members[i], pid: None, packet: duplicate(packet) });
        assert(targets(out@) =~= targets(before).push(members@[i as int]));
        assert(members@.subrange(0, i + 1) =~= members@.subrange(0, i as int).push(members@[i as int]));
        assert(out@.subrange(0, start.len() as int) =~= before.subrange(0, start.len() as int));
        i += 1;
    }
    assert(members@.subrange(0, members@.len() as int) == members@);
}

/// Whether every message goes to connection `cid` as an answer to `pid`.
pub open spec fn all_to(out: Seq<Outbound>, cid: i32, pid: Option<i16>) -> bool {
    forall|k: int| 0 <= k < out.len() ==> (#[trigger] out[k]).cid == cid && out[k].pid == pid
}

impl GameServer {
    /// Lists the rooms of the player's lobby to it, one description per room in
    /// number order; nothing when it is in no lobby.
    pub fn handle_get_rooms(&self, pid: i16, who: usize) -> (out: Vec<Outbound>)
        requires
            self.wf(),
            who < self.conns@.len(),
        ensures
            get_rooms_post(*self, who as int, pid, out@),
    {
        let cid = self.conns[who].cid;
        let mode = self.conns[who].mode;
        let lobby_num = self.conns[who].cur_lobby;
        let mut out: Vec<Outbound> = Vec::new();
        let l = match self.find_lobby(mode, lobby_num) {
            Some(l) => l,
            None => return out,
        };
        proof {
            lemma_lobby_at_unique(self.lobbies@, l as int, mode, lobby_num);
            assert(self.lobbies@[l as int].wf());
        }
        let mut q: usize = 0;
        while q < self.lobbies[l].rooms.len()
            invariant
                self.wf(),
                l < self.lobbies@.len(),
                self.lobbies@[l as int].wf(),
                q <= self.lobbies@[l as int].rooms@.len(),
                out@.len() == q,
                all_to(out@, cid, Some(pid)),
                forall|k: int| 0 <= k < q ==> ((#[trigger] out@[k]).packet matches Packet::PKT_19(d) && d.room == self.lobbies@[l as int].rooms@[k].room_num),
            decreases self.lobbies@[l as int].rooms@.len() - q,
        {
            proof {
                assert(self.lobbies@[l as int].rooms@[q as int].wf());
            }
            let d = self.lobbies[l].rooms[q].describe(mode.to_i8(), lobby_num);
            out.push(Outbound { cid, pid: Some(pid), packet: Packet::PKT_19(d) });
            q += 1;
        }
        out
    }

    /// Lists the members of a room to the player, then a status (0 when the room
    /// exists, -1 when it does not).
    pub fn handle_get_room_members(&self, pid: i16, who: usize, mode: i8, lobby_num: i8, room_num: i8) -> (out: Vec<Outbound>)
        requires
            self.wf(),
            who < self.conns@.len(),
        ensures
            get_room_members_post(*self, who as int, pid, mode, lobby_num, room_num, out@),
    {
        let cid = self.conns[who].cid;
        let mut out: Vec<Outbound> = Vec::new();
        let found = match Mode::from_i8(mode) {
            Some(m) => self.find_lobby(m, lobby_num),
            None => None,
        };
        let l = match found {
            Some(l) => l,
            None => {
                out.push(Outbound { cid, pid: Some(pid), packet: Packet::ACK_ULIST_R { status: -1 } });
                return out;
            },
        };
        proof {
            lemma_lobby_at_unique(self.lobbies@, l as int, mode_of(mode).unwrap(), lobby_num);
        }
        let q = match self.lobbies[l].find_room(room_num) {
            Some(q) => q,
            None => {
                out.push(Outbound { cid, pid: Some(pid), packet: Packet::ACK_ULIST_R { status: -1 } });
                return out;
            },
        };
        proof {
            assert(self.lobbies@[l as int].wf());
            lemma_room_at_unique(self.lobbies@, l as int, q as int, room_num);
        }
        let ghost ms = self.lobbies@[l as int].rooms@[q as int].members@;
        let mut i: usize = 0;
        while i < self.lobbies[l].rooms[q].members.len()
            invariant
                self.wf(),
                l < self.lobbies@.len(),
                q < self.lobbies@[l as int].rooms@.len(),
                ms == self.lobbies@[l as int].rooms@[q as int].members@,
                i <= ms.len(),
                out@.len() == i,
                all_to(out@, cid, Some(pid)),
                cid == self.conns@[who as int].cid,
                forall|k: int| 0 <= k < out@.len() ==> ((#[trigger] out@[k]).packet matches Packet::SEND_ULIST(u) && u.cid == ms[k]),
            decreases ms.len() - i,
        {
            let member = self.lobbies[l].rooms[q].members[i];
            proof {
                assert(self.lobbies@[l as int].rooms@[q as int].members@.contains(member));
                assert(member_of(self.lobbies@[l as int], member));
            }
            match self.find_conn(member) {
                Some(m) => {
                    proof {
                        assert(player_wf(self.conns@[m as int]));
                    }
                    out.push(Outbound { cid, pid: Some(pid), packet: Packet::SEND_ULIST(make_ulist(&self.conns[m])) });
                },
                None => {
                    return out;
                },
            }
            i += 1;
        }
        let ghost before = out@;
        out.push(Outbound { cid, pid: Some(pid), packet: Packet::ACK_ULIST_R { status: 0 } });
        proof {
            assert forall|k: int| 0 <= k < out@.len() - 1 implies ((#[trigger] out@[k]).packet matches Packet::SEND_ULIST(u) && u.cid == ms[k]) by {
                assert(out@[k] == before[k]);
            }
        }
        out
    }

    /// Lists the members of a lobby to the player; nothing for an unknown lobby.
    pub fn handle_req_lobby_members(&self, pid: i16, who: usize, num: i8, mode: i8) -> (out: Vec<Outbound>)
        requires
            self.wf(),
            who < self.conns@.len(),
        ensures
            req_lobby_members_post(*self, who as int, pid, num, mode, out@),
    {
        let cid = self.conns[who].cid;
        let mut out: Vec<Outbound> = Vec::new();
        let m = match Mode::from_i8(mode) {
            Some(m) => m,
            None => return out,
        };
        let l = match self.find_lobby(m, num) {
            Some(l) => l,
            None => return out,
        };
        proof {
            lemma_lobby_at_unique(self.lobbies@, l as int, m, num);
        }
        let mut i: usize = 0;
        while i < self.lobbies[l].members.len()
            invariant
                self.wf(),
                l < self.lobbies@.len(),
                i <= self.lobbies@[l as int].members@.len(),
                out@.len() == i,
                all_to(out@, cid, Some(pid)),
                cid == self.conns@[who as int].cid,
                forall|k: int| 0 <= k < out@.len() ==> ((#[trigger] out@[k]).packet matches Packet::SEND_ULIST_L(u)
                    && u.cid == self.lobbies@[l as int].members@[k]),
            decreases self.lobbies@[l as int].members@.len() - i,
        {
            let member = self.lobbies[l].members[i];
            proof {
                assert(self.lobbies@[l as int].members@.contains(member));
                assert(member_of(self.lobbies@[l as int], member));
            }
            match self.find_conn(member) {
                Some(x) => {
                    proof {
                        assert(player_wf(self.conns@[x as int]));
                    }
                    out.push(Outbound { cid, pid: Some(pid), packet: Packet::SEND_ULIST_L(make_ulist_l(&self.conns[x])) });
                },
                None => {
                    return out;
                },
            }
            i += 1;
        }
        out
    }

    /// Tells the player how many lobbies its mode has; nothing in a mode without lobbies.
    pub fn handle_get_lobby_num(&self, who: usize) -> (out: Vec<Outbound>)
        requires
            self.wf(),
            who < self.conns@.len(),
        ensures
            get_lobby_num_post(*self, who as int, out@),
    {
        let m = self.conns[who].mode;
        if m != Mode::VS && m != Mode::Competition {
            return Vec::new();
        }
        let n = self.lobby_count(m);
        if n > 127 {
            return Vec::new();
        }
        vec![Outbound { cid: self.conns[who].cid, pid: None, packet: Packet::SEND_LOBBY_NUM { count: n as i8 } }]
    }

    /// Describes lobby `num` of mode `mode` to the player; nothing when there is none.
    pub fn handle_get_lobby_data(&self, pid: i16, who: usize, num: i8, mode: i8) -> (out: Vec<Outbound>)
        requires
            self.wf(),
            who < self.conns@.len(),
        ensures
            get_lobby_data_post(*self, who as int, pid, num, mode, out@),
    {
        let cid = self.conns[who].cid;
        let m = match Mode::from_i8(mode) {
            Some(m) => m,
            None => return Vec::new(),
        };
        match self.find_lobby(m, num) {
            Some(l) => {
                proof {
                    lemma_lobby_at_unique(self.lobbies@, l as int, m, num);
                    assert(self.lobbies@[l as int].wf());
                }
                let d = self.lobbies[l].make_lobby_data();
                vec![Outbound { cid, pid: Some(pid), packet: Packet::SEND_LOBBY_DATA(d) }]
            },
            None => Vec::new(),
        }
    }

    /// Tells the player its two balances.
    pub fn handle_get_money(&self, pid: i16, who: usize) -> (out: Vec<Outbound>)
        requires
            who < self.conns@.len(),
        ensures
            get_money_post(*self, who as int, pid, out@),
    {
        vec![Outbound {
            cid: self.conns[who].cid,
            pid: Some(pid),
            packet: Packet::REP_MONEY { gp: self.conns[who].user.gp, sc: self.conns[who].user.sc },
        }]
    }

    /// Sets the player's presence bits when the request names the player itself,
    /// and tells every other player in the same mode and lobby; any other request
    /// changes nothing.
    pub fn handle_send_ustat(&mut self, who: usize, cid: i32, uid: i32, stat: u32) -> (out: Vec<Outbound>)
        requires
            old(self).wf(),
            who < old(self).conns@.len(),
        ensures
            send_ustat_post(*old(self), *final(self), who as int, cid, uid, stat, out@),
    {
        let mut out: Vec<Outbound> = Vec::new();
        if self.conns[who].cid != cid || self.conns[who].uid != uid {
            return out;
        }
        let ghost s0 = *self;
        self.conns[who].stat = stat;
        proof {
            lemma_replaced_wf(s0, *self, 0, who as int);
        }
        let my_mode = self.conns[who].mode;
        let my_lobby = self.conns[who].cur_lobby;
        let mut i: usize = 0;
        while i < self.conns.len()
            invariant
                i <= self.conns@.len(),
                forall|k: int| 0 <= k < out@.len() ==> (#[trigger] out@[k]).cid != cid
                    && (out@[k].packet == Packet::SEND_USTAT { cid, uid, stat }),
            decreases self.conns@.len() - i,
        {
            let other = &self.conns[i];
            if other.cid != cid && my_mode == other.mode && my_lobby >= 0 && my_lobby == other.cur_lobby {
                out.push(Outbound { cid: other.cid, pid: None, packet: Packet::SEND_USTAT { cid, uid, stat } });
            }
            i += 1;
        }
        out
    }

    /// Takes the player out of its room, back into its lobby, and acknowledges
    /// (status 0, or -1 when it was in no room).
    pub fn handle_leave_room(&mut self, pid: i16, who: usize) -> (out: Vec<Outbound>)
        requires
            old(self).wf(),
            who < old(self).conns@.len(),
        ensures
            leave_room_post(*old(self), *final(self), who as int, pid, out@),
    {
        broadcast use vstd::seq_lib::group_filter_ensures;

        let cid = self.conns[who].cid;
        match self.current_room(who) {
            Some((l, q)) => {
                let ghost s0 = *self;
                remove_cid(&mut self.lobbies[l].rooms[q].members, cid);
                self.conns[who].cur_room = -1;
                proof {
                    let lob = self.lobbies@[l as int];
                    let lob0 = s0.lobbies@[l as int];
                    assert(lob0.wf());
                    assert forall|i: int| 0 <= i < lob.rooms@.len() implies (#[trigger] lob.rooms@[i]).wf() by {
                        assert(lob0.rooms@[i].wf());
                    }
                    assert forall|a: int, b: int| 0 <= a < b < lob.rooms@.len() implies (#[trigger] lob.rooms@[a]).room_num < (#[trigger] lob.rooms@[b]).room_num by {
                        assert(lob0.rooms@[a].room_num < lob0.rooms@[b].room_num);
                    }
                    assert forall|a: int| 0 <= a < lob.rooms@.len() implies 0 <= #[trigger] lob.rooms@[a].room_num <= 127 by {
                        assert(0 <= lob0.rooms@[a].room_num <= 127);
                    }
                    assert forall|y: i32| #[trigger] lob.members@.contains(y) implies y == cid || member_of(lob0, y) by {}
                    assert forall|q2: int, y: i32| 0 <= q2 < lob.rooms@.len() && #[trigger] lob.rooms@[q2].members@.contains(y) implies y == cid || member_of(lob0, y) by {
                        if q2 != q {
                            assert(lob.rooms@[q2] == lob0.rooms@[q2]);
                            assert(lob0.rooms@[q2].members@.contains(y));
                        } else {
                            lemma_without_sub(lob0.rooms@[q2].members@, cid, y);
                        }
                    }
                    lemma_member_grow(lob0, lob, cid);
                    assert(self.conns@[who as int].cid == cid);
                    lemma_replaced_wf(s0, *self, l as int, who as int);
                }
                vec![Outbound { cid, pid: Some(pid), packet: Packet::ACK_EXIT_ROOM { status: 0 } }]
            },
            None => vec![Outbound { cid, pid: Some(pid), packet: Packet::ACK_EXIT_ROOM { status: -1 } }],
        }
    }

    /// Relays a player command to the rest of the room, stamped with the sender; the
    /// sender gets it back too unless bit 15 of the command is set.
    pub fn handle_send_pcommand(&self, who: usize, pc: &PCommand) -> (out: Vec<Outbound>)
        requires
            self.wf(),
            who < self.conns@.len(),
        ensures
            send_pcommand_post(*self, who as int, *pc, out@),
    {
        let cid = self.conns[who].cid;
        let packet = Packet::SEND_PCOMMAND(PCommand { cid, p0: pc.p0, p1: pc.p1, cmd_and_flag: pc.cmd_and_flag, reserved: 0 });
        let mut out: Vec<Outbound> = Vec::new();
        if (pc.cmd_and_flag & 0x8000) == 0 {
            out.push(Outbound { cid, pid: None, packet: duplicate(&packet) });
        }
        let ghost first = out@;
        let rest = self.send_packet_to_roommates(who, &packet);
        let ghost rest0 = rest@;
        let mut rest = rest;
        out.append(&mut rest);
        proof {
            assert(targets(out@) =~= targets(first) + targets(rest0));
            if pc.cmd_and_flag & 0x8000 == 0 {
                assert(targets(first) =~= seq![cid]);
            } else {
                assert(targets(first) =~= Seq::<i32>::empty());
            }
            assert forall|k: int| 0 <= k < out@.len() implies packet_id((#[trigger] out@[k]).packet) == 136 by {
                if k >= first.len() {
                    assert(out@[k] == rest0[k - first.len()]);
                }
            }
        }
        out
    }

    /// Lists the carry items available in single mode: environment items 1, 3, 5
    /// and 7 and power-gauge items 1 to 4, a hundred of each.
    pub fn handle_init_single_mode(&self, who: usize) -> (out: Vec<Outbound>)
        requires
            who < self.conns@.len(),
        ensures
            init_single_mode_post(*self, who as int, out@),
    {
        let env = ItemCategory::CarryItemEnvironment;
        let gauge = ItemCategory::CarryItemPowerGauge;
        let items = vec![
            CountedItem::new(Item::new(env, 1), 100).0,
            CountedItem::new(Item::new(env, 3), 100).0,
            CountedItem::new(Item::new(env, 5), 100).0,
            CountedItem::new(Item::new(env, 7), 100).0,
            CountedItem::new(Item::new(gauge, 1), 100).0,
            CountedItem::new(Item::new(gauge, 2), 100).0,
            CountedItem::new(Item::new(gauge, 3), 100).0,
            CountedItem::new(Item::new(gauge, 4), 100).0,
        ];
        vec![Outbound { cid: self.conns[who].cid, pid: None, packet: Packet::PKT_275 { count: 8, items } }]
    }
}

/// The mode switches: all 92 on, most significant bit first, padded to 12 bytes.
pub fn all_modes_enabled() -> (r: Vec<u8>)
    ensures
        r@.len() == 12,
{
    vec![0xFFu8, 0xFF, 0xFF, 0xFF, 0xFF, 0xFF, 0xFF, 0xFF, 0xFF, 0xFF, 0xFF, 0xF0]
}

impl GameServer {
    /// Handles one message from connection `cid`, answering `pid` where the
    /// message asks for it. A message from an unknown connection, and one that the
    /// server has no handler for, changes nothing and is answered by nothing.
    pub fn handle_player_data(&mut self, cid: i32, pid: i16, packet: Packet) -> (out: Vec<Outbound>)
        requires
            old(self).wf(),
            packet_wf(packet),
        ensures
            final(self).wf(),
            forall|c: i32| cid_in_use(final(self).conns@, c) <==> cid_in_use(old(self).conns@, c),
            !cid_in_use(old(self).conns@, cid) ==> *final(self) == *old(self) && out@.len() == 0,
            cid_in_use(old(self).conns@, cid) ==> dispatch_post(
                *old(self),
                *final(self),
                conn_index(old(self).conns@, cid),
                pid,
                packet,
                out@,
            ),
    {
        let who = match self.find_conn(cid) {
            Some(w) => w,
            None => return Vec::new(),
        };
        proof {
            lemma_same_player(self.conns@, who as int, cid);
            assert(conn_index(self.conns@, cid) == who as int);
        }
        match packet {
            Packet::REQ_CHG_MODE { mode } => self.handle_change_mode(who, mode),
            Packet::GET_LOBBY_NUM => self.handle_get_lobby_num(who),
            Packet::GET_LOBBY_DATA { index, mode } => self.handle_get_lobby_data(pid, who, index, mode),
            Packet::REQ_ENTER_LOBBY { lobby } => self.handle_enter_lobby(who, lobby),
            Packet::REQ_MAKE_ROOM(d) => {
                proof {
                    lemma_packet19_lengths(d);
                }
                self.handle_make_room(pid, who, &d)
            },
            Packet::GET_ROOMS => self.handle_get_rooms(pid, who),
            Packet::REQ_ENTER_ROOM { room, room_flag: _, room_password } => self.handle_enter_room(
                pid,
                who,
                room,
                &room_password,
            ),
            Packet::REQ_ULIST { mode, lobby, room } => self.handle_get_room_members(pid, who, mode, lobby, room),
            Packet::PKT_24 => self.handle_leave_room(pid, who),
            Packet::SEND_USTAT { cid, uid, stat } => self.handle_send_ustat(who, cid, uid, stat),
            Packet::REQ_GAMESTART => {
                let order = crate::game::random_hole_order();
                let out = self.handle_start_game(who, &order);
                proof {
                    assert(hole_order(order@) && start_game_post(*self, who as int, order@, out@));
                }
                out
            },
            Packet::CLIENT_CRCLUB { club } => self.handle_shot_club(who, club),
            Packet::CLIENT_DIRECTION { dir } => self.handle_shot_dir(who, dir),
            Packet::CLIENT_SHOT(shot) => self.handle_shot_info(who, &shot),
            Packet::CLIENT_LOADSTAT { progress } => self.handle_send_loadstat(who, progress),
            Packet::CLIENT_BALLPOS(bp) => self.handle_ballpos(who, &bp),
            Packet::REQ_ULIST_L { mode, lobby } => self.handle_req_lobby_members(pid, who, lobby, mode),
            Packet::PKT_93 => self.handle_get_money(pid, who),
            Packet::REQ_BUY_ITEM { item } => self.handle_buy_item(who, item),
            Packet::CLIENT_PCOMMAND(pc) => self.handle_send_pcommand(who, &pc),
            Packet::CLIENT_LOADSTAT2 { progress } => self.handle_send_loadstat2(who, progress),
            Packet::CLIENT_STOP_BALLPOS(bp) => self.handle_stop_ballpos(who, &bp),
            Packet::GET_MODECTRL => vec![Outbound {
                cid,
                pid: None,
                packet: Packet::SEND_MODECTRL { flags: all_modes_enabled() },
            }],
            Packet::PKT_274 => self.handle_init_single_mode(who),
            Packet::PKT_137 { cid: target } => self.handle_get_curr_chr_uid(pid, who, target),
            Packet::PKT_133 { .. } => self.handle_get_golfbag(who),
            Packet::PKT_89 => self.handle_get_sell_items(who),
            Packet::PKT_166 => self.handle_get_salon_items(who),
            Packet::PKT_131 { .. } => self.handle_get_inventory(who),
            Packet::REQ_CHG_CHR_PARAM { chr_uid, cr_class, params, club, ball, caddie, .. } => {
                proof {
                    assert(field_has_kind(packet_fields(packet)[4], schema_of(145).unwrap()[4]));
                }
                self.handle_req_chg_chr_param(who, chr_uid, cr_class, &params, club, ball, caddie)
            },
            Packet::REQ_CHRDATA { cid, chr_uid } => self.handle_req_chrdata(pid, who, cid, chr_uid),
            Packet::GET_CHRDATA { cid } => self.handle_get_chrdata(who, cid),
            Packet::REQ_APPEAR { cid: target } => self.get_active_appearance(pid, who, target),
            Packet::REQ_CHG_APPEAR { cid, chr_uid, appear } => self.handle_req_chg_appear(who, cid, chr_uid, appear),
            Packet::REQ_UDATA { uid } => self.handle_req_udata(pid, who, uid),
            Packet::PKT_189 { hold_item } => {
                proof {
                    assert(field_has_kind(packet_fields(packet)[0], schema_of(189).unwrap()[0]));
                }
                self.handle_chg_holdbox(who, &hold_item)
            },
            _ => Vec::new(),
        }
    }
}

/// The wire value of a purchase answer.
pub open spec fn buy_result_value(r: BuyItemResult) -> i8 {
    match r {
        BuyItemResult::OK => 0i8,
        BuyItemResult::Balance => -1i8,
        BuyItemResult::NoItem => -2i8,
        BuyItemResult::InvalidCount => -3i8,
        BuyItemResult::InvalidItemType => -4i8,
        BuyItemResult::Error => -5i8,
        BuyItemResult::NoTicket => -6i8,
    }
}

/// The wire value of a purchase answer.
pub fn buy_result_code(r: BuyItemResult) -> (v: i8)
    ensures
        v == buy_result_value(r),
{
    match r {
        BuyItemResult::OK => 0,
        BuyItemResult::Balance => -1,
        BuyItemResult::NoItem => -2,
        BuyItemResult::InvalidCount => -3,
        BuyItemResult::InvalidItemType => -4,
        BuyItemResult::Error => -5,
        BuyItemResult::NoTicket => -6,
    }
}

impl GameServer {
    /// Buys a counted item from the regular shop for the player (see
    /// `do_buy_item`), answers with the result, then with the balances.
    pub fn handle_buy_item(&mut self, who: usize, item: u32) -> (out: Vec<Outbound>)
        requires
            old(self).wf(),
            who < old(self).conns@.len(),
        ensures
            buy_item_post(*old(self), *final(self), who as int, item, out@),
    {
        let ghost s0 = *self;
        let result = do_buy_item(&self.shop_items, &mut self.conns[who].user, CountedItem(item));
        proof {
            assert(self.conns@[who as int].user.class == s0.conns@[who as int].user.class);
            lemma_replaced_wf(s0, *self, 0, who as int);
        }
        let cid = self.conns[who].cid;
        let mut out = vec![Outbound { cid, pid: None, packet: Packet::ACK_BUY_ITEM { result: buy_result_code(result) } }];
        let money = self.handle_get_money(-1, who);
        let ghost m = money@;
        let mut money = money;
        out.append(&mut money);
        proof {
            assert(out@[1] == m[0]);
            assert(targets(out@) =~= seq![cid, cid]);
        }
        out
    }
}

/// The snapshot that tells a client its login failed: all zero but for the
/// failure code in `cid`.
pub fn failed_login_udata(code: AckIDPassResult) -> (r: UData)
    ensures
        r.cid == crate::login::ack_value(code) as i32,
        r.uid == 0,
        fields_match(udata_schema(), udata_fields(r)),
{
    let r = UData {
        cid: code.to_i8() as i32,
        uid: 0,
        chr_uid: 0,
        golfbag: vec_of(0u32, 8),
        holdbox: vec_of(0u32, 8),
        medals: vec_of(0u16, 16),
        awards: vec_of(0u32, 20),
        rank_score_item_on: 0,
        rank_score_item_off: 0,
        mp: 0,
        year: 0,
        month: 0,
        day: 0,
        name: vec_of(0u16, 19),
        element: -1,
        class: 0,
        rank_bits: 0,
        x_f4: 0,
        debug: 0,
    };
    let ok = r.fits();
    assert(ok);
    r
}

impl GameServer {
    /// Tells the player which character connection `target` plays; nothing for an
    /// unknown connection.
    pub fn handle_get_curr_chr_uid(&self, pid: i16, who: usize, target: i32) -> (out: Vec<Outbound>)
        requires
            who < self.conns@.len(),
        ensures
            get_curr_chr_uid_post(*self, who as int, pid, target, out@),
    {
        match self.find_conn(target) {
            Some(v) => vec![Outbound {
                cid: self.conns[who].cid,
                pid: Some(pid),
                packet: Packet::SEND_CRCHRUID { cid: target, now_chr_uid: self.conns[v].user.default_chr_uid },
            }],
            None => Vec::new(),
        }
    }

    /// Whether connection `cid` may create its first character: it must be
    /// connected and have none yet. Gives the account id the store needs.
    pub fn begin_create_first_character(&self, cid: i32) -> (r: Option<i32>)
        requires
            self.wf(),
        ensures
            r matches Some(uid) ==> exists|i: int| 0 <= i < self.conns@.len() && self.conns@[i].cid == cid
                && self.conns@[i].uid == uid && self.conns@[i].user.default_chr_uid == -1,
            r is None ==> forall|i: int| 0 <= i < self.conns@.len() && self.conns@[i].cid == cid ==> self.conns@[i].user.default_chr_uid != -1,
    {
        match self.find_conn(cid) {
            Some(w) => {
                proof {
                    assert forall|i: int| 0 <= i < self.conns@.len() && self.conns@[i].cid == cid implies i == w by {
                        if i < w {
                            assert(self.conns@[i].cid != self.conns@[w as int].cid);
                        } else if i > w {
                            assert(self.conns@[w as int].cid != self.conns@[i].cid);
                        }
                    }
                }
                if self.conns[w].user.default_chr_uid == -1 { Some(self.conns[w].uid) } else { None }
            },
            None => None,
        }
    }
}

impl GameServer {
    /// Completes a first-character creation once the store has answered:
    /// `created` holds the new character and its id, or none when the store
    /// failed. The character becomes the player's current one and the player is
    /// told the status (0, or -1 on failure).
    pub fn finish_create_first_character(&mut self, cid: i32, created: Option<(i32, Character)>) -> (out: Vec<Outbound>)
        requires
            old(self).wf(),
        ensures
            final(self).wf(),
            final(self).lobbies@ == old(self).lobbies@,
            forall|c: i32| cid_in_use(final(self).conns@, c) <==> cid_in_use(old(self).conns@, c),
            !cid_in_use(old(self).conns@, cid) ==> out@.len() == 0 && final(self).conns@ == old(self).conns@,
            cid_in_use(old(self).conns@, cid) ==> targets(out@) == seq![cid] && match created {
                Some((chr_uid, c)) => if character_fits(c) {
                    out@[0].packet == (Packet::ACK_FIRST_CHARACTER_APPEARANCE { status: 0 })
                        && exists|i: int| 0 <= i < final(self).conns@.len() && final(self).conns@[i].cid == cid
                            && final(self).conns@[i].user.default_chr_uid == chr_uid
                            && #[trigger] final(self).conns@[i].characters@ == old(self).conns@[i].characters@.push((chr_uid, c))
                } else {
                    out@[0].packet == (Packet::ACK_FIRST_CHARACTER_APPEARANCE { status: -1i8 })
                        && final(self).conns@ == old(self).conns@
                },
                None => out@[0].packet == (Packet::ACK_FIRST_CHARACTER_APPEARANCE { status: -1i8 })
                    && final(self).conns@ == old(self).conns@,
            },
    {
        let w = match self.find_conn(cid) {
            Some(w) => w,
            None => return Vec::new(),
        };
        let status: i8 = match created {
            Some((chr_uid, character)) => {
                if character.fits() {
                    let ghost s0 = *self;
                    self.conns[w].user.default_chr_uid = chr_uid;
                    self.conns[w].characters.push((chr_uid, character));
                    proof {
                        assert(player_wf(s0.conns@[w as int]));
                        assert forall|m: int| 0 <= m < self.conns@[w as int].characters@.len() implies character_fits(#[trigger] self.conns@[w as int].characters@[m].1) by {
                            if m < s0.conns@[w as int].characters@.len() {
                                assert(character_fits(s0.conns@[w as int].characters@[m].1));
                            }
                        }
                        lemma_replaced_wf(s0, *self, 0, w as int);
                    }
                    0
                } else {
                    -1
                }
            },
            None => -1,
        };
        let out = vec![Outbound { cid, pid: None, packet: Packet::ACK_FIRST_CHARACTER_APPEARANCE { status } }];
        assert(targets(out@) =~= seq![cid]);
        out
    }
}

impl GameServer {
    /// Shows the player its golf bag.
    pub fn handle_get_golfbag(&self, who: usize) -> (out: Vec<Outbound>)
        requires
            self.wf(),
            who < self.conns@.len(),
        ensures
            get_golfbag_post(*self, who as int, out@),
    {
        proof {
            assert(player_wf(self.conns@[who as int]));
        }
        let p = &self.conns[who];
        vec![Outbound {
            cid: p.cid,
            pid: None,
            packet: Packet::PKT_134 { x4: 0, cid: p.cid, items: item_words(&p.user.golfbag), unk: vec_of(0u8, 4060) },
        }]
    }

    /// Replaces the player's hold box with eight item identifiers and acknowledges.
    pub fn handle_chg_holdbox(&mut self, who: usize, hold_item: &Vec<u32>) -> (out: Vec<Outbound>)
        requires
            old(self).wf(),
            who < old(self).conns@.len(),
            hold_item@.len() == 8,
        ensures
            chg_holdbox_post(*old(self), *final(self), who as int, hold_item@, out@),
    {
        let mut items: Vec<Item> = Vec::new();
        let mut i: usize = 0;
        while i < hold_item.len()
            invariant
                i <= hold_item@.len(),
                items@.len() == i,
                forall|k: int| 0 <= k < i ==> items@[k].0 == hold_item@[k],
            decreases hold_item@.len() - i,
        {
            items.push(Item(hold_item[i]));
            i += 1;
        }
        let ghost s0 = *self;
        self.conns[who].user.holdbox = items;
        proof {
            lemma_replaced_wf(s0, *self, 0, who as int);
        }
        let out = vec![Outbound { cid: self.conns[who].cid, pid: None, packet: Packet::ACK_CHG_HOLDBOX { status: 0 } }];
        assert(targets(out@) =~= seq![self.conns@[who as int].cid]);
        out
    }
}

impl GameServer {
    /// Completes a name change once the store has answered: `name` is the new
    /// display name, or none when the store refused it (taken, empty, or failed).
    /// The player is told the status (0, or -1 on refusal).
    pub fn finish_set_player_name(&mut self, cid: i32, name: Option<Vec<u16>>) -> (out: Vec<Outbound>)
        requires
            old(self).wf(),
        ensures
            final(self).wf(),
            final(self).lobbies@ == old(self).lobbies@,
            forall|c: i32| cid_in_use(final(self).conns@, c) <==> cid_in_use(old(self).conns@, c),
            !cid_in_use(old(self).conns@, cid) ==> out@.len() == 0 && final(self).conns@ == old(self).conns@,
            cid_in_use(old(self).conns@, cid) ==> targets(out@) == seq![cid] && match name {
                Some(n) => out@[0].packet == (Packet::ACK_SET_CHARACTER_NAME { status: 0 })
                    && exists|i: int| 0 <= i < final(self).conns@.len() && final(self).conns@[i].cid == cid
                        && final(self).conns@[i].name@ == n@,
                None => out@[0].packet == (Packet::ACK_SET_CHARACTER_NAME { status: -1i8 })
                    && final(self).conns@ == old(self).conns@,
            },
    {
        let w = match self.find_conn(cid) {
            Some(w) => w,
            None => return Vec::new(),
        };
        let status: i8 = match name {
            Some(n) => {
                let ghost s0 = *self;
                self.conns[w].name = n;
                proof {
                    lemma_replaced_wf(s0, *self, 0, w as int);
                }
                0
            },
            None => -1,
        };
        let out = vec![Outbound { cid, pid: None, packet: Packet::ACK_SET_CHARACTER_NAME { status } }];
        assert(targets(out@) =~= seq![cid]);
        out
    }
}

impl GameServer {
    /// Answers a request for a course record once the store has answered:
    /// `record` is the stored record (a never-played course gets the empty one),
    /// or none when it could not be read, which is answered with the empty record
    /// and status -1. A record whose fields do not fit is treated as unreadable.
    pub fn finish_get_c_record(&self, pid: i16, who: usize, uid: i32, course: i8, season: i8, hole_idx: i8, record: Option<CRecord>) -> (out: Vec<Outbound>)
        requires
            who < self.conns@.len(),
        ensures
            out@.len() == 1,
            out@[0].cid == self.conns@[who as int].cid,
            out@[0].pid == Some(pid),
            out@[0].packet matches Packet::SEND_CRECORD(d) && d.uid == uid && d.course == course && d.season == season
                && d.hole_idx == hole_idx && d.array@.len() == 18 && (d.status == 0 <==> (record matches Some(c) && crecord_fits(c)))
                && (d.status == 0 ==> (record matches Some(c) && d.max_drive == c.max_drive && d.chip_putt == c.max_chipin | (c.max_putt << 18)))
                && (d.status != 0 ==> d.status == -1 && d.lowest_score == -99 && d.total_score == 99),
    {
        let (c, status): (CRecord, i8) = match record {
            Some(c) => {
                if c.fits() {
                    (c, 0)
                } else {
                    (CRecord::new(), -1)
                }
            },
            None => (CRecord::new(), -1),
        };
        let w = c.to_wire();
        let d = CRecordReply {
            uid,
            course,
            season,
            hole_idx,
            mx_score: w.mx_score,
            lowest_score: w.lowest_score,
            total_score: w.total_score,
            array: w.array,
            num_rounds: w.num_rounds,
            max_gp: w.max_gp,
            total_gp: w.total_gp,
            max_exp: w.max_exp,
            total_exp: w.total_exp,
            max_drive: w.max_drive,
            chip_putt: w.chip_putt,
            unk: w.unk,
            status,
        };
        vec![Outbound { cid: self.conns[who].cid, pid: Some(pid), packet: Packet::SEND_CRECORD(d) }]
    }
}

impl GameServer {
    /// Sends the player the snapshot of a connected account; nothing when the
    /// account is not connected.
    pub fn handle_req_udata(&self, pid: i16, who: usize, uid: i32) -> (out: Vec<Outbound>)
        requires
            self.wf(),
            who < self.conns@.len(),
        ensures
            req_udata_post(*self, who as int, pid, uid, out@),
    {
        let mut i: usize = 0;
        while i < self.conns.len()
            invariant
                self.wf(),
                who < self.conns@.len(),
                i <= self.conns@.len(),
                forall|k: int| 0 <= k < i ==> self.conns@[k].uid != uid,
            decreases self.conns@.len() - i,
        {
            if self.conns[i].uid == uid {
                proof {
                    assert(player_wf(self.conns@[i as int]));
                }
                let u = make_udata(&self.conns[i]);
                return vec![Outbound { cid: self.conns[who].cid, pid: Some(pid), packet: Packet::PKT_181(u) }];
            }
            i += 1;
        }
        Vec::new()
    }
}

impl GameServer {
    /// Sends the player the appearance of the character that connection `target`
    /// plays; nothing when the connection is unknown or plays no stored character.
    pub fn get_active_appearance(&self, pid: i16, who: usize, target: i32) -> (out: Vec<Outbound>)
        requires
            self.wf(),
            who < self.conns@.len(),
        ensures
            get_active_appearance_post(*self, who as int, pid, target, out@),
    {
        let v = match self.find_conn(target) {
            Some(v) => v,
            None => return Vec::new(),
        };
        let current = self.conns[v].user.default_chr_uid;
        let mut k: usize = 0;
        while k < self.conns[v].characters.len()
            invariant
                v < self.conns@.len(),
                who < self.conns@.len(),
                self.conns@[v as int].cid == target,
                current == self.conns@[v as int].user.default_chr_uid,
                self.wf(),
                k <= self.conns@[v as int].characters@.len(),
                forall|m: int| 0 <= m < k ==> self.conns@[v as int].characters@[m].0 != current,
            decreases self.conns@[v as int].characters@.len() - k,
        {
            if self.conns[v].characters[k].0 == current {
                let appear = self.conns[v].characters[k].1.appearance;
                let out = vec![Outbound {
                    cid: self.conns[who].cid,
                    pid: Some(pid),
                    packet: Packet::SEND_APPEAR { cid: target, unk: 0, appear },
                }];
                proof {
                    let i = v as int;
                    let kk = k as int;
                    assert(0 <= i < self.conns@.len() && self.conns@[i].cid == target && 0 <= kk
                        < self.conns@[i].characters@.len() && self.conns@[i].characters@[kk].0
                        == self.conns@[i].user.default_chr_uid && out@[0].packet == (Packet::SEND_APPEAR {
                        cid: target,
                        unk: 0,
                        appear: self.conns@[i].characters@[kk].1.appearance,
                    }));
                }
                return out;
            }
            k += 1;
        }
        proof {
            lemma_same_player(self.conns@, v as int, target);
        }
        Vec::new()
    }

    /// Changes the appearance of character `chr_uid` of the sender; refused
    /// (status -1) when `cid` is not the sender's own connection or the sender has
    /// no such character, otherwise acknowledged with status 0.
    pub fn handle_req_chg_appear(&mut self, who: usize, cid: i32, chr_uid: i32, appear: Appearance) -> (out: Vec<Outbound>)
        requires
            old(self).wf(),
            appearance_fits(appear),
            who < old(self).conns@.len(),
        ensures
            req_chg_appear_post(*old(self), *final(self), who as int, cid, chr_uid, appear, out@),
    {
        let me = self.conns[who].cid;
        let refuse = vec![Outbound { cid: me, pid: None, packet: Packet::PKT_104 { status: -1 } }];
        assert(targets(refuse@) =~= seq![me]);
        if cid != me {
            return refuse;
        }
        let mut k: usize = 0;
        while k < self.conns[who].characters.len()
            invariant
                self.wf(),
                self.conns@ == old(self).conns@,
                self.lobbies@ == old(self).lobbies@,
                self.next_cid == old(self).next_cid,
                who < self.conns@.len(),
                me == old(self).conns@[who as int].cid,
                cid == me,
                appearance_fits(appear),
                refuse@.len() == 1 && targets(refuse@) == seq![me] && refuse@[0].packet == (Packet::PKT_104 { status: -1i8 }),
                k <= self.conns@[who as int].characters@.len(),
                forall|m: int| 0 <= m < k ==> self.conns@[who as int].characters@[m].0 != chr_uid,
            decreases self.conns@[who as int].characters@.len() - k,
        {
            if self.conns[who].characters[k].0 == chr_uid {
                let ghost s0 = *self;
                self.conns[who].characters[k].1.appearance = appear;
                proof {
                    assert(player_wf(s0.conns@[who as int]));
                    assert forall|m: int| 0 <= m < self.conns@[who as int].characters@.len() implies character_fits(#[trigger] self.conns@[who as int].characters@[m].1) by {
                        assert(character_fits(s0.conns@[who as int].characters@[m].1));
                    }
                    lemma_replaced_wf(s0, *self, 0, who as int);
                    let kk = k as int;
                    assert(0 <= kk < self.conns@[who as int].characters@.len()
                        && self.conns@[who as int].characters@[kk].0 == chr_uid
                        && self.conns@[who as int].characters@[kk].1.appearance == appear);
                    assert(0 <= kk < s0.conns@[who as int].characters@.len() && s0.conns@[who as int].characters@[kk].0 == chr_uid);
                }
                let out = vec![Outbound { cid: me, pid: None, packet: Packet::PKT_104 { status: 0 } }];
                assert(targets(out@) =~= seq![me]);
                return out;
            }
            k += 1;
        }
        refuse
    }
}

impl GameServer {
    /// Sends the player character `chr_uid` of connection `target`; nothing when
    /// there is no such connection or character.
    pub fn handle_req_chrdata(&self, pid: i16, who: usize, target: i32, chr_uid: i32) -> (out: Vec<Outbound>)
        requires
            self.wf(),
            who < self.conns@.len(),
        ensures
            req_chrdata_post(*self, who as int, pid, target, chr_uid, out@),
    {
        let v = match self.find_conn(target) {
            Some(v) => v,
            None => return Vec::new(),
        };
        let mut k: usize = 0;
        while k < self.conns[v].characters.len()
            invariant
                self.wf(),
                v < self.conns@.len(),
                who < self.conns@.len(),
                self.conns@[v as int].cid == target,
                k <= self.conns@[v as int].characters@.len(),
                forall|m: int| 0 <= m < k ==> self.conns@[v as int].characters@[m].0 != chr_uid,
            decreases self.conns@[v as int].characters@.len() - k,
        {
            if self.conns[v].characters[k].0 == chr_uid {
                proof {
                    assert(player_wf(self.conns@[v as int]));
                    assert(character_fits(self.conns@[v as int].characters@[k as int].1));
                }
                return match self.conns[v].characters[k].1.to_chr_data(target, self.conns[v].uid, chr_uid) {
                    Ok(d) => vec![Outbound { cid: self.conns[who].cid, pid: Some(pid), packet: Packet::SEND_CHRDATA(d) }],
                    Err(_) => Vec::new(),
                };
            }
            k += 1;
        }
        proof {
            lemma_same_player(self.conns@, v as int, target);
        }
        Vec::new()
    }

    /// Sends the player every character of connection `target`, in order.
    pub fn handle_get_chrdata(&self, who: usize, target: i32) -> (out: Vec<Outbound>)
        requires
            self.wf(),
            who < self.conns@.len(),
        ensures
            get_chrdata_post(*self, who as int, target, out@),
    {
        let mut out: Vec<Outbound> = Vec::new();
        let v = match self.find_conn(target) {
            Some(v) => v,
            None => return out,
        };
        let mut k: usize = 0;
        while k < self.conns[v].characters.len()
            invariant
                self.wf(),
                v < self.conns@.len(),
                who < self.conns@.len(),
                self.conns@[v as int].cid == target,
                k <= self.conns@[v as int].characters@.len(),
                out@.len() == k,
                all_to(out@, self.conns@[who as int].cid, None),
                forall|m: int| 0 <= m < out@.len() ==> ((#[trigger] out@[m]).packet matches Packet::SEND_CHRDATA(d) && d.cid == target
                    && d.uid == self.conns@[v as int].uid && d.chr_uid == self.conns@[v as int].characters@[m].0),
            decreases self.conns@[v as int].characters@.len() - k,
        {
            let chr_uid = self.conns[v].characters[k].0;
            proof {
                assert(player_wf(self.conns@[v as int]));
                assert(character_fits(self.conns@[v as int].characters@[k as int].1));
            }
            match self.conns[v].characters[k].1.to_chr_data(target, self.conns[v].uid, chr_uid) {
                Ok(d) => {
                    out.push(Outbound { cid: self.conns[who].cid, pid: None, packet: Packet::SEND_CHRDATA(d) });
                },
                Err(_) => {
                    return out;
                },
            }
            k += 1;
        }
        proof {
            lemma_same_player(self.conns@, v as int, target);
        }
        out
    }
}

/// Members of lobby `b` that are not `c` were members of lobby `a`.
proof fn lemma_member_grow(a: Lobby, b: Lobby, c: i32)
    requires
        forall|x: i32| #[trigger] b.members@.contains(x) ==> x == c || member_of(a, x),
        forall|r: int, x: i32|
            0 <= r < b.rooms@.len() && #[trigger] b.rooms@[r].members@.contains(x) ==> x == c || member_of(a, x),
    ensures
        forall|x: i32| #[trigger] member_of(b, x) ==> x == c || member_of(a, x),
{
    assert forall|x: i32| #[trigger] member_of(b, x) implies x == c || member_of(a, x) by {
        if !b.members@.contains(x) {
            let r = choose|r: int| 0 <= r < b.rooms@.len() && #[trigger] b.rooms@[r].members@.contains(x);
            assert(b.rooms@[r].members@.contains(x));
        }
    }
}

/// What is left after taking `x` out of a list was in the list.
proof fn lemma_without_sub(s: Seq<i32>, c: i32, x: i32)
    requires
        without(s, c).contains(x),
    ensures
        s.contains(x),
        x != c,
{
    broadcast use vstd::seq_lib::group_filter_ensures;

    s.lemma_filter_contains_rev(other_than(c), x);
    let i = choose|i: int| 0 <= i < without(s, c).len() && without(s, c)[i] == x;
    assert(without(s, c)[i] != c);
}

/// The (lobby index, room index) of room `room_num` of lobby `lobby_num` of the
/// mode with wire value `mode`, if there is one.
pub open spec fn listed_room(lobbies: Seq<Lobby>, mode: i8, lobby_num: i8, room_num: i8) -> Option<(int, int)> {
    match mode_of(mode) {
        Some(m) => match lobby_at(lobbies, m, lobby_num) {
            Some(l) => match room_at(lobbies, l, room_num) {
                Some(q) => Some((l, q)),
                None => None,
            },
            None => None,
        },
        None => None,
    }
}

/// Connection ids are unique, so the player with id `c` is the one at `v`.
proof fn lemma_same_player(conns: Seq<Player>, v: int, c: i32)
    requires
        0 <= v < conns.len(),
        conns[v].cid == c,
        forall|i: int, j: int| 0 <= i < j < conns.len() ==> (#[trigger] conns[i]).cid != (#[trigger] conns[j]).cid,
    ensures
        forall|i: int| 0 <= i < conns.len() && #[trigger] conns[i].cid == c ==> i == v,
{
    assert forall|i: int| 0 <= i < conns.len() && #[trigger] conns[i].cid == c implies i == v by {
        if i < v {
            assert(conns[i].cid != conns[v].cid);
        } else if i > v {
            assert(conns[v].cid != conns[i].cid);
        }
    }
}

/// What `handle_change_mode` guarantees, for the player at `who`.
pub open spec fn change_mode_post(s: GameServer, t: GameServer, who: int, mode_code: i8, out: Seq<Outbound>) -> bool {
    &&& (t.wf())
    &&& (forall|c: i32| cid_in_use(t.conns@, c) <==> cid_in_use(s.conns@, c))
    &&& (t.conns@.len() == s.conns@.len())
    &&& (mode_of(mode_code) is None ==> out.len() == 0 && t.conns@ == s.conns@
            && t.lobbies@ == s.lobbies@)
    &&& (mode_of(mode_code) matches Some(m) ==> t.conns@[who].mode == m
            && targets(out).last() == s.conns@[who].cid
            && out.last().packet == (Packet::ACK_CHG_MODE { mode: mode_code }))
    &&& (mode_of(mode_code) matches Some(m) && m != s.conns@[who].mode
            && s.conns@[who].cur_lobby >= 0 ==> t.conns@[who].cur_lobby == -1
            && nowhere(t.lobbies@, s.conns@[who].cid))
}

/// What `handle_get_lobby_num` guarantees, for the player at `who`.
pub open spec fn get_lobby_num_post(s: GameServer, who: int, out: Seq<Outbound>) -> bool {
    &&& (({
            let m = s.conns@[who].mode;
            if m == Mode::VS || m == Mode::Competition {
                out.len() <= 1 && (out.len() == 1 ==> out[0].cid == s.conns@[who].cid
                    && (out[0].packet matches Packet::SEND_LOBBY_NUM { count }
                    && count as int == s.lobbies@.filter(|x: Lobby| x.mode == m).len()))
                    && (s.lobbies@.filter(|x: Lobby| x.mode == m).len() <= 127 ==> out.len() == 1)
            } else {
                out.len() == 0
            }
        }))
}

/// What `handle_get_lobby_data` guarantees, for the player at `who`.
pub open spec fn get_lobby_data_post(s: GameServer, who: int, pid: i16, num: i8, mode: i8, out: Seq<Outbound>) -> bool {
    &&& (all_to(out, s.conns@[who].cid, Some(pid)))
    &&& (out.len() <= 1)
    &&& (match mode_of(mode) {
            Some(m) => match lobby_at(s.lobbies@, m, num) {
                Some(l) => out.len() == 1 && (out[0].packet matches Packet::SEND_LOBBY_DATA(d) && d.num == num
                    && d.member == s.lobbies@[l].members@.len()),
                None => out.len() == 0,
            },
            None => out.len() == 0,
        })
}

/// What `handle_enter_lobby` guarantees, for the player at `who`.
pub open spec fn enter_lobby_post(s: GameServer, t: GameServer, who: int, num: i8, out: Seq<Outbound>) -> bool {
    &&& (t.wf())
    &&& (forall|c: i32| cid_in_use(t.conns@, c) <==> cid_in_use(s.conns@, c))
    &&& (({
            let p = s.conns@[who];
            match enter_lobby_target(s.lobbies@, p, num) {
                Some(l) => {
                    &&& t.lobbies@[l].members@ == s.lobbies@[l].members@.push(p.cid)
                    &&& lobbies_replaced(s.lobbies@, t.lobbies@, l)
                    &&& t.lobbies@[l].rooms == s.lobbies@[l].rooms
                    &&& t.conns@[who].cur_lobby == num
                    &&& targets(out) == seq![p.cid] + without(s.lobbies@[l].members@, p.cid)
                    &&& out[0].packet == (Packet::ACK_ENTER_LOBBY { lobby: num })
                    &&& exists|u: UListL| u.cid == p.cid && u.uid == p.uid && u.lobby == num && u.room == p.cur_room
                        && #[trigger] carries(out, 1, out.len() as int, Packet::SEND_ULIST_L(u))
                },
                None => {
                    &&& t.conns@ == s.conns@
                    &&& t.lobbies@ == s.lobbies@
                    &&& targets(out) == seq![p.cid]
                    &&& out[0].packet == (Packet::ACK_ENTER_LOBBY { lobby: -1i8 })
                },
            }
        }))
}

/// What `handle_make_room` guarantees, for the player at `who`.
pub open spec fn make_room_post(s: GameServer, t: GameServer, who: int, pid: i16, data: Packet19, out: Seq<Outbound>) -> bool {
    &&& (t.wf())
    &&& (forall|c: i32| cid_in_use(t.conns@, c) <==> cid_in_use(s.conns@, c))
    &&& (out.len() == 1)
    &&& (out[0].cid == s.conns@[who].cid)
    &&& (out[0].pid == Some(pid))
    &&& (out[0].packet matches Packet::ACK_MAKE_ROOM { room } && ({
            let p = s.conns@[who];
            if room >= 0 {
                &&& mode_of(data.mode) == Some(p.mode)
                &&& p.cur_lobby == data.lobby
                &&& p.cur_room < 0
                &&& lobby_at(s.lobbies@, p.mode, data.lobby) matches Some(l) && {
                    &&& lobbies_replaced(s.lobbies@, t.lobbies@, l)
                    &&& !room_used(s.lobbies@[l].rooms@, room as int)
                    &&& room <= 127
                    &&& forall|m: int| 0 <= m < room ==> room_used(s.lobbies@[l].rooms@, m)
                    &&& room_used(t.lobbies@[l].rooms@, room as int)
                    &&& t.lobbies@[l].rooms@.len() == s.lobbies@[l].rooms@.len() + 1
                    &&& t.lobbies@[l].members == s.lobbies@[l].members
                    &&& exists|pos: int, r: Room| 0 <= pos <= s.lobbies@[l].rooms@.len()
                        && #[trigger] t.lobbies@[l].rooms@ == #[trigger] s.lobbies@[l].rooms@.insert(pos, r) && made_room(r, room, p.cid, data)
                }
                &&& t.conns@[who].cur_room == room
            } else {
                &&& room == -1
                &&& t.conns@ == s.conns@
                &&& t.lobbies@ == s.lobbies@
            }
        }))
    &&& (({
            let p = s.conns@[who];
            (mode_of(data.mode) == Some(p.mode) && p.cur_lobby == data.lobby && p.cur_room < 0
                && (lobby_at(s.lobbies@, p.mode, data.lobby) matches Some(l)
                && exists|m: int| 0 <= m <= 127 && !room_used(s.lobbies@[l].rooms@, m)))
                ==> (out[0].packet matches Packet::ACK_MAKE_ROOM { room } && room >= 0)
        }))
}

/// What `handle_get_rooms` guarantees, for the player at `who`.
pub open spec fn get_rooms_post(s: GameServer, who: int, pid: i16, out: Seq<Outbound>) -> bool {
    &&& (all_to(out, s.conns@[who].cid, Some(pid)))
    &&& (match lobby_at(s.lobbies@, s.conns@[who].mode, s.conns@[who].cur_lobby) {
            Some(l) => out.len() == s.lobbies@[l].rooms@.len() && forall|k: int| 0 <= k < out.len()
                ==> ((#[trigger] out[k]).packet matches Packet::PKT_19(d) && d.room == s.lobbies@[l].rooms@[k].room_num),
            None => out.len() == 0,
        })
}

/// What `handle_enter_room` guarantees, for the player at `who`.
pub open spec fn enter_room_post(s: GameServer, t: GameServer, who: int, pid: i16, room_num: i8, password: Seq<u16>, out: Seq<Outbound>) -> bool {
    &&& (t.wf())
    &&& (forall|c: i32| cid_in_use(t.conns@, c) <==> cid_in_use(s.conns@, c))
    &&& (out.len() >= 1)
    &&& (out[0].cid == s.conns@[who].cid)
    &&& (out[0].pid == Some(pid))
    &&& (({
            let p = s.conns@[who];
            match enter_room_verdict(s.lobbies@, p, room_num, password) {
                Ok((l, r)) => {
                    &&& lobbies_replaced(s.lobbies@, t.lobbies@, l)
                    &&& t.lobbies@[l].members == s.lobbies@[l].members
                    &&& t.lobbies@[l].rooms@.len() == s.lobbies@[l].rooms@.len()
                    &&& forall|q: int| 0 <= q < s.lobbies@[l].rooms@.len() && q != r
                        ==> #[trigger] t.lobbies@[l].rooms@[q] == s.lobbies@[l].rooms@[q]
                    &&& t.lobbies@[l].rooms@[r].members@ == s.lobbies@[l].rooms@[r].members@.push(p.cid)
                    &&& t.lobbies@[l].rooms@[r].room_num == room_num
                    &&& t.conns@[who].cur_room == room_num
                    &&& targets(out) == seq![p.cid] + without(s.lobbies@[l].rooms@[r].members@, p.cid)
                    &&& out[0].packet matches Packet::ACK_ENTER_ROOM(d) && d.room == room_num
                        && d.member == s.lobbies@[l].rooms@[r].members@.len() + 1
                    &&& exists|u: UList| u.cid == p.cid && u.uid == p.uid && u.room == room_num && u.lobby == p.cur_lobby
                        && #[trigger] carries(out, 1, out.len() as int, Packet::SEND_ULIST(u))
                },
                Err(e) => {
                    &&& t.conns@ == s.conns@
                    &&& t.lobbies@ == s.lobbies@
                    &&& out.len() == 1
                    &&& out[0].packet matches Packet::ACK_ENTER_ROOM(d) && d.room == enter_room_code(e)
                },
            }
        }))
}

/// What `handle_get_room_members` guarantees, for the player at `who`.
pub open spec fn get_room_members_post(s: GameServer, who: int, pid: i16, mode: i8, lobby_num: i8, room_num: i8, out: Seq<Outbound>) -> bool {
    &&& (out.len() >= 1)
    &&& (all_to(out, s.conns@[who].cid, Some(pid)))
    &&& (match listed_room(s.lobbies@, mode, lobby_num, room_num) {
            Some((l, q)) => {
                &&& out.len() == s.lobbies@[l].rooms@[q].members@.len() + 1
                &&& forall|k: int| 0 <= k < out.len() - 1 ==> ((#[trigger] out[k]).packet matches Packet::SEND_ULIST(u)
                    && u.cid == s.lobbies@[l].rooms@[q].members@[k])
                &&& out.last().packet == (Packet::ACK_ULIST_R { status: 0 })
            },
            None => out.len() == 1 && out[0].packet == (Packet::ACK_ULIST_R { status: -1i8 }),
        })
}

/// What `handle_leave_room` guarantees, for the player at `who`.
pub open spec fn leave_room_post(s: GameServer, t: GameServer, who: int, pid: i16, out: Seq<Outbound>) -> bool {
    &&& (t.wf())
    &&& (forall|c: i32| cid_in_use(t.conns@, c) <==> cid_in_use(s.conns@, c))
    &&& (out.len() == 1)
    &&& (out[0].cid == s.conns@[who].cid)
    &&& (out[0].pid == Some(pid))
    &&& (match room_of(s.lobbies@, s.conns@[who]) {
            Some(lq) => {
                &&& out[0].packet == (Packet::ACK_EXIT_ROOM { status: 0 })
                &&& t.conns@[who].cur_room == -1
                &&& t.conns@[who].cur_lobby == s.conns@[who].cur_lobby
                &&& lobbies_replaced(s.lobbies@, t.lobbies@, lq.0)
                &&& t.lobbies@[lq.0].members == s.lobbies@[lq.0].members
                &&& t.lobbies@[lq.0].rooms@[lq.1].members@ == without(
                    s.lobbies@[lq.0].rooms@[lq.1].members@,
                    s.conns@[who].cid,
                )
            },
            None => {
                &&& out[0].packet == (Packet::ACK_EXIT_ROOM { status: -1i8 })
                &&& t.conns@ == s.conns@
                &&& t.lobbies@ == s.lobbies@
            },
        })
}

/// What `handle_send_ustat` guarantees, for the player at `who`.
pub open spec fn send_ustat_post(s: GameServer, t: GameServer, who: int, cid: i32, uid: i32, stat: u32, out: Seq<Outbound>) -> bool {
    &&& (t.wf())
    &&& (t.lobbies@ == s.lobbies@)
    &&& (forall|c: i32| cid_in_use(t.conns@, c) <==> cid_in_use(s.conns@, c))
    &&& (({
            let p = s.conns@[who];
            if p.cid == cid && p.uid == uid {
                &&& t.conns@[who].stat == stat
                &&& forall|k: int| 0 <= k < out.len() ==> (#[trigger] out[k]).cid != cid
                    && (out[k].packet == Packet::SEND_USTAT { cid, uid, stat })
            } else {
                t.conns@ == s.conns@ && out.len() == 0
            }
        }))
}

/// What `handle_start_game` guarantees, for the player at `who`.
pub open spec fn start_game_post(s: GameServer, who: int, order: Seq<i8>, out: Seq<Outbound>) -> bool {
    &&& (({
            let p = s.conns@[who];
            if p.mode == Mode::Single {
                &&& targets(out) == seq![p.cid, p.cid]
                &&& out[0].packet matches Packet::ORD_GAMESTART(g) && g.mode == 5 && g.cid@.len() == 50
                    && g.cid@[0] == #[verifier::truncate] (p.cid as u32)
                    && forall|i: int| 0 <= i < 18 ==> g.hole_no@[i] == three_holes(order)[i]
                &&& out[1].packet == (Packet::ACK_GAMESTART { status: 0 })
            } else if p.mode == Mode::VS {
                match room_of(s.lobbies@, p) {
                    Some(lq) => {
                        &&& targets(out) == s.lobbies@[lq.0].rooms@[lq.1].members@.push(p.cid)
                        &&& exists|g: GameStart| g.mode == 1 && g.member == s.lobbies@[lq.0].rooms@[lq.1].members@.len()
                            && g.member_max == s.lobbies@[lq.0].rooms@[lq.1].max_members && (forall|i: int| 0 <= i < 50 ==> g.cid@[i]
                            == participants(s.lobbies@[lq.0].rooms@[lq.1].members@)[i]) && (forall|i: int| 0 <= i < 18
                            ==> g.hole_no@[i] == three_holes(order)[i]) && #[trigger] carries(out, 0, out.len() - 1, Packet::ORD_GAMESTART(g))
                        &&& out.last().packet == (Packet::ACK_GAMESTART { status: 0 })
                    },
                    None => targets(out) == seq![p.cid] && out[0].packet == (Packet::ACK_GAMESTART { status: -1i8 }),
                }
            } else {
                out.len() == 0
            }
        }))
}

/// What `handle_shot_club` guarantees, for the player at `who`.
pub open spec fn shot_club_post(s: GameServer, who: int, club: i8, out: Seq<Outbound>) -> bool {
    &&& (match room_of(s.lobbies@, s.conns@[who]) {
            Some(lq) => targets(out) == roommates(s.lobbies@, lq, s.conns@[who].cid),
            None => out.len() == 0,
        })
    &&& (forall|k: int| 0 <= k < out.len() ==> packet_fields((#[trigger] out[k]).packet) == packet_fields(
            Packet::SEND_CRCLUB { cid: s.conns@[who].cid, club },
        ) && packet_id(out[k].packet) == 34)
}

/// What `handle_shot_dir` guarantees, for the player at `who`.
pub open spec fn shot_dir_post(s: GameServer, who: int, dir: u32, out: Seq<Outbound>) -> bool {
    &&& (match room_of(s.lobbies@, s.conns@[who]) {
            Some(lq) => targets(out) == roommates(s.lobbies@, lq, s.conns@[who].cid),
            None => out.len() == 0,
        })
    &&& (forall|k: int| 0 <= k < out.len() ==> packet_fields((#[trigger] out[k]).packet) == packet_fields(
            Packet::SEND_DIRECTION { cid: s.conns@[who].cid, dir },
        ) && packet_id(out[k].packet) == 36)
}

/// What `handle_shot_info` guarantees, for the player at `who`.
pub open spec fn shot_info_post(s: GameServer, t: GameServer, who: int, shot: Shot, out: Seq<Outbound>) -> bool {
    &&& (t.wf())
    &&& (t.conns@ == s.conns@)
    &&& (match room_of(s.lobbies@, s.conns@[who]) {
            Some(lq) => {
                &&& t.lobbies@[lq.0].rooms@[lq.1].current_player == s.conns@[who].cid
                &&& t.lobbies@[lq.0].rooms@[lq.1].members == s.lobbies@[lq.0].rooms@[lq.1].members
                &&& lobbies_replaced(s.lobbies@, t.lobbies@, lq.0)
                &&& targets(out) == roommates(s.lobbies@, lq, s.conns@[who].cid)
            },
            None => t.lobbies@ == s.lobbies@ && out.len() == 0,
        })
    &&& (carries(out, 0, out.len() as int, Packet::SEND_SHOT(Shot { cid: s.conns@[who].cid, ..shot })))
    &&& (match room_of(s.lobbies@, s.conns@[who]) {
            Some(lq) => {
                &&& t.lobbies@[lq.0].rooms@.len() == s.lobbies@[lq.0].rooms@.len()
                &&& t.lobbies@[lq.0].members == s.lobbies@[lq.0].members
                &&& forall|q: int| 0 <= q < s.lobbies@[lq.0].rooms@.len() && q != lq.1
                    ==> #[trigger] t.lobbies@[lq.0].rooms@[q] == s.lobbies@[lq.0].rooms@[q]
                &&& t.lobbies@[lq.0].rooms@[lq.1] == (Room { current_player: s.conns@[who].cid, ..s.lobbies@[lq.0].rooms@[lq.1] })
            },
            None => true,
        })
}

/// What `handle_send_loadstat` guarantees, for the player at `who`.
pub open spec fn send_loadstat_post(s: GameServer, who: int, progress: i8, out: Seq<Outbound>) -> bool {
    &&& (match room_of(s.lobbies@, s.conns@[who]) {
            Some(lq) => targets(out) == roommates(s.lobbies@, lq, s.conns@[who].cid),
            None => out.len() == 0,
        })
    &&& (forall|k: int| 0 <= k < out.len() ==> packet_fields((#[trigger] out[k]).packet) == packet_fields(
            Packet::SEND_LOADSTAT { cid: s.conns@[who].cid, progress },
        ) && packet_id(out[k].packet) == 45)
}

/// What `handle_ballpos` guarantees, for the player at `who`.
pub open spec fn ballpos_post(s: GameServer, who: int, bp: BallPos, out: Seq<Outbound>) -> bool {
    &&& (match room_of(s.lobbies@, s.conns@[who]) {
            Some(lq) => targets(out) == roommates(s.lobbies@, lq, s.conns@[who].cid),
            None => out.len() == 0,
        })
    &&& (carries(out, 0, out.len() as int, Packet::SEND_BALLPOS(BallPos { cid: s.conns@[who].cid, ..bp })))
}

/// What `handle_req_lobby_members` guarantees, for the player at `who`.
pub open spec fn req_lobby_members_post(s: GameServer, who: int, pid: i16, num: i8, mode: i8, out: Seq<Outbound>) -> bool {
    &&& (all_to(out, s.conns@[who].cid, Some(pid)))
    &&& (match mode_of(mode) {
            Some(m) => match lobby_at(s.lobbies@, m, num) {
                Some(l) => out.len() == s.lobbies@[l].members@.len() && forall|k: int| 0 <= k < out.len()
                    ==> ((#[trigger] out[k]).packet matches Packet::SEND_ULIST_L(u) && u.cid == s.lobbies@[l].members@[k]),
                None => out.len() == 0,
            },
            None => out.len() == 0,
        })
}

/// What `handle_get_money` guarantees, for the player at `who`.
pub open spec fn get_money_post(s: GameServer, who: int, pid: i16, out: Seq<Outbound>) -> bool {
    &&& (out.len() == 1)
    &&& (out[0].cid == s.conns@[who].cid)
    &&& (out[0].pid == Some(pid))
    &&& (out[0].packet == (Packet::REP_MONEY { gp: s.conns@[who].user.gp, sc: s.conns@[who].user.sc }))
}

/// What `handle_buy_item` guarantees, for the player at `who`.
pub open spec fn buy_item_post(s: GameServer, t: GameServer, who: int, item: u32, out: Seq<Outbound>) -> bool {
    &&& (t.wf())
    &&& (forall|c: i32| cid_in_use(t.conns@, c) <==> cid_in_use(s.conns@, c))
    &&& (t.lobbies@ == s.lobbies@)
    &&& (targets(out) == seq![s.conns@[who].cid, s.conns@[who].cid])
    &&& ({
            let r = buy_outcome(s.shop_items@, s.conns@[who].user, CountedItem(item));
            &&& out[0].packet == (Packet::ACK_BUY_ITEM { result: buy_result_value(r) })
            &&& buy_effect(s.shop_items@, s.conns@[who].user, t.conns@[who].user, CountedItem(item), r)
            &&& forall|i: int| 0 <= i < s.conns@.len() && i != who ==> #[trigger] t.conns@[i] == s.conns@[i]
        })
    &&& (out[1].packet == (Packet::REP_MONEY {
            gp: t.conns@[who].user.gp,
            sc: t.conns@[who].user.sc,
        }))
}

/// What `handle_send_pcommand` guarantees, for the player at `who`.
pub open spec fn send_pcommand_post(s: GameServer, who: int, pc: PCommand, out: Seq<Outbound>) -> bool {
    &&& (({
            let cid = s.conns@[who].cid;
            let mates = match room_of(s.lobbies@, s.conns@[who]) {
                Some(lq) => roommates(s.lobbies@, lq, cid),
                None => Seq::empty(),
            };
            targets(out) == if pc.cmd_and_flag & 0x8000 == 0 { seq![cid] + mates } else { mates }
        }))
    &&& (carries(out, 0, out.len() as int, Packet::SEND_PCOMMAND(PCommand {
            cid: s.conns@[who].cid,
            p0: pc.p0,
            p1: pc.p1,
            cmd_and_flag: pc.cmd_and_flag,
            reserved: 0,
        })))
}

/// What `handle_send_loadstat2` guarantees, for the player at `who`.
pub open spec fn send_loadstat2_post(s: GameServer, who: int, progress: i8, out: Seq<Outbound>) -> bool {
    &&& (match room_of(s.lobbies@, s.conns@[who]) {
            Some(lq) => targets(out) == roommates(s.lobbies@, lq, s.conns@[who].cid),
            None => out.len() == 0,
        })
    &&& (forall|k: int| 0 <= k < out.len() ==> packet_fields((#[trigger] out[k]).packet) == packet_fields(
            Packet::SEND_LOADSTAT2 { cid: s.conns@[who].cid, progress },
        ) && packet_id(out[k].packet) == 186)
}

/// What `handle_stop_ballpos` guarantees, for the player at `who`.
pub open spec fn stop_ballpos_post(s: GameServer, who: int, bp: BallPos, out: Seq<Outbound>) -> bool {
    &&& (({
            let cid = s.conns@[who].cid;
            match room_of(s.lobbies@, s.conns@[who]) {
                Some(lq) => if s.lobbies@[lq.0].rooms@[lq.1].current_player != cid {
                    out.len() == 0
                } else {
                    targets(out) == seq![cid] + roommates(s.lobbies@, lq, cid)
                },
                None => targets(out) == seq![cid],
            }
        }))
    &&& (carries(out, 0, out.len() as int, Packet::SEND_STOP_BALLPOS(BallPos { cid: s.conns@[who].cid, ..bp })))
}

/// What `handle_init_single_mode` guarantees, for the player at `who`.
pub open spec fn init_single_mode_post(s: GameServer, who: int, out: Seq<Outbound>) -> bool {
    &&& (out.len() == 1)
    &&& (out[0].cid == s.conns@[who].cid)
    &&& (out[0].packet matches Packet::PKT_275 { count, items } && count == 8 && items@ == seq![
            counted_code(item_code(ItemCategory::CarryItemEnvironment, 1), 100),
            counted_code(item_code(ItemCategory::CarryItemEnvironment, 3), 100),
            counted_code(item_code(ItemCategory::CarryItemEnvironment, 5), 100),
            counted_code(item_code(ItemCategory::CarryItemEnvironment, 7), 100),
            counted_code(item_code(ItemCategory::CarryItemPowerGauge, 1), 100),
            counted_code(item_code(ItemCategory::CarryItemPowerGauge, 2), 100),
            counted_code(item_code(ItemCategory::CarryItemPowerGauge, 3), 100),
            counted_code(item_code(ItemCategory::CarryItemPowerGauge, 4), 100),
        ])
}

/// What `handle_get_curr_chr_uid` guarantees, for the player at `who`.
pub open spec fn get_curr_chr_uid_post(s: GameServer, who: int, pid: i16, target: i32, out: Seq<Outbound>) -> bool {
    &&& (all_to(out, s.conns@[who].cid, Some(pid)))
    &&& (!cid_in_use(s.conns@, target) ==> out.len() == 0)
    &&& (cid_in_use(s.conns@, target) ==> out.len() == 1 && exists|i: int|
            0 <= i < s.conns@.len() && s.conns@[i].cid == target && out[0].packet == (Packet::SEND_CRCHRUID {
                cid: target,
                now_chr_uid: s.conns@[i].user.default_chr_uid,
            }))
}

/// What `handle_get_golfbag` guarantees, for the player at `who`.
pub open spec fn get_golfbag_post(s: GameServer, who: int, out: Seq<Outbound>) -> bool {
    &&& (out.len() == 1)
    &&& (out[0].cid == s.conns@[who].cid)
    &&& (out[0].packet matches Packet::PKT_134 { x4, cid, items, unk } && x4 == 0 && cid == s.conns@[who].cid
            && items@.len() == 8 && unk@.len() == 4060
            && forall|i: int| 0 <= i < 8 ==> items@[i] == s.conns@[who].user.golfbag@[i].0)
}

/// What `handle_req_udata` guarantees, for the player at `who`.
pub open spec fn req_udata_post(s: GameServer, who: int, pid: i16, uid: i32, out: Seq<Outbound>) -> bool {
    &&& (all_to(out, s.conns@[who].cid, Some(pid)))
    &&& (!logged_in(s.conns@, uid) ==> out.len() == 0)
    &&& (logged_in(s.conns@, uid) ==> out.len() == 1 && (out[0].packet matches Packet::PKT_181(u) && exists|i: int|
            0 <= i < s.conns@.len() && #[trigger] s.conns@[i].uid == uid && u.uid == uid && u.cid == s.conns@[i].cid
                && u.chr_uid == s.conns@[i].user.default_chr_uid && u.name@ == padded(s.conns@[i].name@, 19)))
}

/// What `get_active_appearance` guarantees, for the player at `who`.
pub open spec fn get_active_appearance_post(s: GameServer, who: int, pid: i16, target: i32, out: Seq<Outbound>) -> bool {
    &&& ((exists|i: int, k: int| 0 <= i < s.conns@.len() && s.conns@[i].cid == target && 0 <= k
            < s.conns@[i].characters@.len() && #[trigger] s.conns@[i].characters@[k].0
            == s.conns@[i].user.default_chr_uid) ==> out.len() == 1)
    &&& (all_to(out, s.conns@[who].cid, Some(pid)))
    &&& (out.len() <= 1)
    &&& (out.len() == 1 ==> exists|i: int, k: int|
            0 <= i < s.conns@.len() && s.conns@[i].cid == target && 0 <= k < s.conns@[i].characters@.len()
                && s.conns@[i].characters@[k].0 == s.conns@[i].user.default_chr_uid
                && out[0].packet == (Packet::SEND_APPEAR { cid: target, unk: 0, appear: s.conns@[i].characters@[k].1.appearance }))
}

/// What `handle_req_chg_appear` guarantees, for the player at `who`.
pub open spec fn req_chg_appear_post(s: GameServer, t: GameServer, who: int, cid: i32, chr_uid: i32, appear: Appearance, out: Seq<Outbound>) -> bool {
    &&& (t.wf())
    &&& (t.lobbies@ == s.lobbies@)
    &&& (forall|c: i32| cid_in_use(t.conns@, c) <==> cid_in_use(s.conns@, c))
    &&& (targets(out) == seq![s.conns@[who].cid])
    &&& (out[0].packet matches Packet::PKT_104 { status } && (status == 0 || status == -1)
            && (status == 0 <==> cid == s.conns@[who].cid && exists|k: int|
                0 <= k < s.conns@[who].characters@.len() && s.conns@[who].characters@[k].0 == chr_uid)
            && (status == 0 ==> exists|k: int| 0 <= k < t.conns@[who].characters@.len()
                && t.conns@[who].characters@[k].0 == chr_uid
                && t.conns@[who].characters@[k].1.appearance == appear)
            && (status != 0 ==> t.conns@ == s.conns@))
}

/// What `handle_chg_holdbox` guarantees, for the player at `who`.
pub open spec fn chg_holdbox_post(s: GameServer, t: GameServer, who: int, hold_item: Seq<u32>, out: Seq<Outbound>) -> bool {
    &&& (t.wf())
    &&& (t.lobbies@ == s.lobbies@)
    &&& (forall|c: i32| cid_in_use(t.conns@, c) <==> cid_in_use(s.conns@, c))
    &&& (forall|i: int| 0 <= i < 8 ==> t.conns@[who].user.holdbox@[i].0 == hold_item[i])
    &&& (targets(out) == seq![s.conns@[who].cid])
    &&& (out[0].packet == (Packet::ACK_CHG_HOLDBOX { status: 0 }))
}

/// What `handle_req_chrdata` guarantees, for the player at `who`.
pub open spec fn req_chrdata_post(s: GameServer, who: int, pid: i16, target: i32, chr_uid: i32, out: Seq<Outbound>) -> bool {
    &&& ((exists|i: int, k: int| 0 <= i < s.conns@.len() && s.conns@[i].cid == target && 0 <= k
            < s.conns@[i].characters@.len() && #[trigger] s.conns@[i].characters@[k].0 == chr_uid) ==> out.len() == 1)
    &&& (all_to(out, s.conns@[who].cid, Some(pid)))
    &&& (out.len() <= 1)
    &&& (out.len() == 1 ==> (out[0].packet matches Packet::SEND_CHRDATA(d) && d.cid == target && d.chr_uid == chr_uid
            && exists|i: int, k: int| 0 <= i < s.conns@.len() && s.conns@[i].cid == target && 0 <= k < s.conns@[i].characters@.len()
                && #[trigger] s.conns@[i].characters@[k].0 == chr_uid && d.uid == s.conns@[i].uid && {
                    let c = s.conns@[i].characters@[k].1;
                    &&& d.appearance@ == appearance_words(c.appearance)
                    &&& d.param_settings@ == settings_halves(c.settings@)
                    &&& d.class == class_value(c.class_cap)
                    &&& d.club == c.club.0 && d.ball == c.ball.0 && d.caddie == c.caddie.0
                }))
}

/// What `handle_get_chrdata` guarantees, for the player at `who`.
pub open spec fn get_chrdata_post(s: GameServer, who: int, target: i32, out: Seq<Outbound>) -> bool {
    &&& (all_to(out, s.conns@[who].cid, None))
    &&& (!cid_in_use(s.conns@, target) ==> out.len() == 0)
    &&& (forall|i: int| 0 <= i < s.conns@.len() && #[trigger] s.conns@[i].cid == target ==> {
            &&& out.len() == s.conns@[i].characters@.len()
            &&& forall|k: int| 0 <= k < out.len() ==> ((#[trigger] out[k]).packet matches Packet::SEND_CHRDATA(d)
                && d.cid == target && d.uid == s.conns@[i].uid && d.chr_uid == s.conns@[i].characters@[k].0)
        })
}

/// The index of the player with connection id `cid`.
pub open spec fn conn_index(conns: Seq<Player>, cid: i32) -> int {
    choose|i: int| 0 <= i < conns.len() && conns[i].cid == cid
}

/// Whether `order` is the eighteen holes in some order.
pub open spec fn hole_order(order: Seq<i8>) -> bool {
    order.len() == 18 && order.to_multiset() == crate::game::all_holes().to_multiset()
}

/// What handling message `p` from the player at `w` does: the guarantee of the
/// handler its opcode maps to; a handler that only answers leaves the state as
/// it was; an opcode without a handler changes nothing and sends nothing.
pub open spec fn dispatch_post(s: GameServer, t: GameServer, w: int, pid: i16, p: Packet, out: Seq<Outbound>) -> bool {
    match p {
        Packet::REQ_CHG_MODE { mode } => change_mode_post(s, t, w, mode, out),
        Packet::GET_LOBBY_NUM => t == s && get_lobby_num_post(s, w, out),
        Packet::GET_LOBBY_DATA { index, mode } => t == s && get_lobby_data_post(s, w, pid, index, mode, out),
        Packet::REQ_ENTER_LOBBY { lobby } => enter_lobby_post(s, t, w, lobby, out),
        Packet::REQ_MAKE_ROOM(d) => make_room_post(s, t, w, pid, d, out),
        Packet::GET_ROOMS => t == s && get_rooms_post(s, w, pid, out),
        Packet::REQ_ENTER_ROOM { room, room_password, .. } => enter_room_post(s, t, w, pid, room, room_password@, out),
        Packet::REQ_ULIST { mode, lobby, room } => t == s && get_room_members_post(s, w, pid, mode, lobby, room, out),
        Packet::PKT_24 => leave_room_post(s, t, w, pid, out),
        Packet::SEND_USTAT { cid, uid, stat } => send_ustat_post(s, t, w, cid, uid, stat, out),
        Packet::REQ_GAMESTART => t == s && exists|order: Seq<i8>| hole_order(order) && #[trigger] start_game_post(s, w, order, out),
        Packet::CLIENT_CRCLUB { club } => t == s && shot_club_post(s, w, club, out),
        Packet::CLIENT_DIRECTION { dir } => t == s && shot_dir_post(s, w, dir, out),
        Packet::CLIENT_SHOT(shot) => shot_info_post(s, t, w, shot, out),
        Packet::CLIENT_LOADSTAT { progress } => t == s && send_loadstat_post(s, w, progress, out),
        Packet::CLIENT_BALLPOS(bp) => t == s && ballpos_post(s, w, bp, out),
        Packet::REQ_ULIST_L { mode, lobby } => t == s && req_lobby_members_post(s, w, pid, lobby, mode, out),
        Packet::PKT_93 => t == s && get_money_post(s, w, pid, out),
        Packet::REQ_BUY_ITEM { item } => buy_item_post(s, t, w, item, out),
        Packet::CLIENT_PCOMMAND(pc) => t == s && send_pcommand_post(s, w, pc, out),
        Packet::CLIENT_LOADSTAT2 { progress } => t == s && send_loadstat2_post(s, w, progress, out),
        Packet::CLIENT_STOP_BALLPOS(bp) => t == s && stop_ballpos_post(s, w, bp, out),
        Packet::GET_MODECTRL => t == s && out.len() == 1 && out[0].cid == s.conns@[w].cid && (out[0].packet matches Packet::SEND_MODECTRL {
            flags,
        } && flags@.len() == 12),
        Packet::PKT_274 => t == s && init_single_mode_post(s, w, out),
        Packet::PKT_137 { cid } => t == s && get_curr_chr_uid_post(s, w, pid, cid, out),
        Packet::PKT_133 { .. } => t == s && get_golfbag_post(s, w, out),
        Packet::PKT_89 => t == s && get_sell_items_post(s, w, out),
        Packet::PKT_166 => t == s && get_salon_items_post(s, w, out),
        Packet::PKT_131 { .. } => t == s && get_inventory_post(s, w, out),
        Packet::REQ_CHG_CHR_PARAM { chr_uid, cr_class, params, club, ball, caddie, .. } => req_chg_chr_param_post(
            s,
            t,
            w,
            chr_uid,
            cr_class,
            params@,
            club,
            ball,
            caddie,
            out,
        ),
        Packet::REQ_CHRDATA { cid, chr_uid } => t == s && req_chrdata_post(s, w, pid, cid, chr_uid, out),
        Packet::GET_CHRDATA { cid } => t == s && get_chrdata_post(s, w, cid, out),
        Packet::REQ_APPEAR { cid } => t == s && get_active_appearance_post(s, w, pid, cid, out),
        Packet::REQ_CHG_APPEAR { cid, chr_uid, appear } => req_chg_appear_post(s, t, w, cid, chr_uid, appear, out),
        Packet::REQ_UDATA { uid } => t == s && req_udata_post(s, w, pid, uid, out),
        Packet::PKT_189 { hold_item } => chg_holdbox_post(s, t, w, hold_item@, out),
        _ => t == s && out.len() == 0,
    }
}

/// Whether `c` is the first connection id not in use when scanning up from
/// `start`, going on from 600 after 999.
pub open spec fn first_free_from(conns: Seq<Player>, start: i32, c: i32) -> bool {
    if c >= start {
        forall|x: i32| start <= x < c ==> cid_in_use(conns, x)
    } else {
        (forall|x: i32| start <= x <= LAST_CID ==> cid_in_use(conns, x)) && forall|x: i32|
            FIRST_CID <= x < c ==> cid_in_use(conns, x)
    }
}

/// Whether `r` is the room that `data` asks for, numbered `n`, with creator `cid`
/// as its only member.
pub open spec fn made_room(r: Room, n: i8, cid: i32, data: Packet19) -> bool {
    &&& r.room_num == n
    &&& r.members@ == seq![cid]
    &&& r.name@ == data.room_name@
    &&& r.max_members == if data.member_max < 0 { 0 } else if data.member_max > 50 { 50 } else { data.member_max as usize }
    &&& (r.password is Some <==> data.flag & 4 != 0)
    &&& (r.password matches Some(pw) ==> pw@ == crate::lobby::until_null(data.room_password@))
    &&& r.allow_spectators == (data.flag & 2 != 0)
    &&& r.rules == data.rules && r.course == data.course && r.season == data.season
    &&& r.time_limit == data.time_limit && r.num_holes == data.num_holes
    &&& r.course_setting == data.course_setting && r.limits@ == data.limits@
    &&& r.current_player == -1
}

/// Whether every message `out[k]` with `from <= k < to` carries message `p`:
/// the same opcode and the same field values.
pub open spec fn carries(out: Seq<Outbound>, from: int, to: int, p: Packet) -> bool {
    forall|k: int| from <= k < to ==> packet_id((#[trigger] out[k]).packet) == packet_id(p)
        && packet_fields(out[k].packet) == packet_fields(p)
}

/// What `handle_get_sell_items` guarantees, for the player at `who`.
pub open spec fn get_sell_items_post(s: GameServer, who: int, out: Seq<Outbound>) -> bool {
    if s.shop_items@.len() < 0x8000 {
        &&& out.len() == 1
        &&& out[0].cid == s.conns@[who].cid
        &&& out[0].pid is None
        &&& out[0].packet matches Packet::SEND_SELLITEMLIST { count, items } && count == s.shop_items@.len()
            && items@ == listing_words(s.shop_items@)
    } else {
        out.len() == 0
    }
}

/// What `handle_get_salon_items` guarantees, for the player at `who`.
pub open spec fn get_salon_items_post(s: GameServer, who: int, out: Seq<Outbound>) -> bool {
    if s.salon_items@.len() < 0x8000 {
        &&& out.len() == 1
        &&& out[0].cid == s.conns@[who].cid
        &&& out[0].pid is None
        &&& out[0].packet matches Packet::SEND_SALON_ITEM_LIST { count, items } && count == s.salon_items@.len()
            && items@ == listing_words(s.salon_items@)
    } else {
        out.len() == 0
    }
}

/// What `handle_get_inventory` guarantees, for the player at `who`.
pub open spec fn get_inventory_post(s: GameServer, who: int, out: Seq<Outbound>) -> bool {
    let inv = s.conns@[who].user.inventory@;
    if inv.len() < 0x8000_0000 {
        &&& out.len() == 1
        &&& out[0].cid == s.conns@[who].cid
        &&& out[0].pid is None
        &&& out[0].packet matches Packet::PKT_132 { count, items } && count == inv.len()
            && items@ == Seq::new(inv.len(), |i: int| inv[i].0)
    } else {
        out.len() == 0
    }
}

/// What `handle_req_chg_chr_param` guarantees, for the player at `who`.
pub open spec fn req_chg_chr_param_post(
    s: GameServer,
    t: GameServer,
    who: int,
    chr_uid: i32,
    cr_class: i8,
    params: Seq<u16>,
    club: u32,
    ball: u32,
    caddie: u32,
    out: Seq<Outbound>,
) -> bool {
    let chars = s.conns@[who].characters@;
    let owned = exists|k: int| 0 <= k < chars.len() && #[trigger] chars[k].0 == chr_uid;
    &&& t.wf()
    &&& t.lobbies@ == s.lobbies@
    &&& forall|c: i32| cid_in_use(t.conns@, c) <==> cid_in_use(s.conns@, c)
    &&& targets(out) == seq![s.conns@[who].cid]
    &&& out[0].packet matches Packet::ACK_CHG_CHR_PARAM { status } && (status == 0 || status == -1)
        && (status == 0 <==> owned && 0 <= cr_class <= 7)
        && (status == 0 ==> exists|k: int| 0 <= k < t.conns@[who].characters@.len()
            && #[trigger] t.conns@[who].characters@[k].0 == chr_uid && {
                let c = t.conns@[who].characters@[k].1;
                &&& class_value(c.class_cap) == cr_class
                &&& settings_halves(c.settings@) == params
                &&& c.club.0 == club && c.ball.0 == ball && c.caddie.0 == caddie
                &&& c.appearance == chars[k].1.appearance
            })
        && (status != 0 ==> t.conns@ == s.conns@)
}

impl GameServer {
    /// Lists the regular shop's listings to the player.
    pub fn handle_get_sell_items(&self, who: usize) -> (out: Vec<Outbound>)
        requires
            who < self.conns@.len(),
        ensures
            get_sell_items_post(*self, who as int, out@),
    {
        let n = self.shop_items.len();
        if n >= 0x8000 {
            return Vec::new();
        }
        let items = listings_to_words(&self.shop_items);
        vec![Outbound { cid: self.conns[who].cid, pid: None, packet: Packet::SEND_SELLITEMLIST { count: n as u16, items } }]
    }

    /// Lists the salon's listings to the player.
    pub fn handle_get_salon_items(&self, who: usize) -> (out: Vec<Outbound>)
        requires
            who < self.conns@.len(),
        ensures
            get_salon_items_post(*self, who as int, out@),
    {
        let n = self.salon_items.len();
        if n >= 0x8000 {
            return Vec::new();
        }
        let items = listings_to_words(&self.salon_items);
        vec![Outbound { cid: self.conns[who].cid, pid: None, packet: Packet::SEND_SALON_ITEM_LIST { count: n as u16, items } }]
    }

    /// Shows the player its inventory.
    pub fn handle_get_inventory(&self, who: usize) -> (out: Vec<Outbound>)
        requires
            who < self.conns@.len(),
        ensures
            get_inventory_post(*self, who as int, out@),
    {
        let inv = &self.conns[who].user.inventory;
        let n = inv.len();
        if n >= 0x8000_0000 {
            return Vec::new();
        }
        let mut items: Vec<u32> = Vec::new();
        let mut k: usize = 0;
        while k < n
            invariant
                k <= n,
                n == inv@.len(),
                items@ == Seq::new(k as nat, |i: int| inv@[i].0),
            decreases n - k,
        {
            items.push(inv[k].0);
            k += 1;
            assert(items@ =~= Seq::new(k as nat, |i: int| inv@[i].0));
        }
        vec![Outbound { cid: self.conns[who].cid, pid: None, packet: Packet::PKT_132 { count: n as u32, items } }]
    }

    /// Changes a character's class cap, settings and equipment; refused (status
    /// -1) when the player has no such character or the class is not 0 to 7.
    pub fn handle_req_chg_chr_param(
        &mut self,
        who: usize,
        chr_uid: i32,
        cr_class: i8,
        params: &Vec<u16>,
        club: u32,
        ball: u32,
        caddie: u32,
    ) -> (out: Vec<Outbound>)
        requires
            old(self).wf(),
            who < old(self).conns@.len(),
            params@.len() == 32,
        ensures
            req_chg_chr_param_post(*old(self), *final(self), who as int, chr_uid, cr_class, params@, club, ball, caddie, out@),
    {
        let me = self.conns[who].cid;
        let refuse = vec![Outbound { cid: me, pid: None, packet: Packet::ACK_CHG_CHR_PARAM { status: -1 } }];
        assert(targets(refuse@) =~= seq![me]);
        let class = match Class::from_i8(cr_class) {
            Some(c) => c,
            None => return refuse,
        };
        let mut k: usize = 0;
        while k < self.conns[who].characters.len()
            invariant
                self.wf(),
                *self == *old(self),
                who < self.conns@.len(),
                me == old(self).conns@[who as int].cid,
                params@.len() == 32,
                class_value(class) == cr_class,
                0 <= cr_class <= 7,
                refuse@.len() == 1 && targets(refuse@) == seq![me] && refuse@[0].packet == (Packet::ACK_CHG_CHR_PARAM { status: -1i8 }),
                k <= self.conns@[who as int].characters@.len(),
                forall|m: int| 0 <= m < k ==> self.conns@[who as int].characters@[m].0 != chr_uid,
            decreases self.conns@[who as int].characters@.len() - k,
        {
            if self.conns[who].characters[k].0 == chr_uid {
                let settings = settings_from_halves(params);
                let ghost s0 = *self;
                self.conns[who].characters[k].1.class_cap = class;
                self.conns[who].characters[k].1.settings = settings;
                self.conns[who].characters[k].1.club = Item(club);
                self.conns[who].characters[k].1.ball = Item(ball);
                self.conns[who].characters[k].1.caddie = Item(caddie);
                proof {
                    assert(player_wf(s0.conns@[who as int]));
                    assert forall|m: int| 0 <= m < self.conns@[who as int].characters@.len() implies character_fits(#[trigger] self.conns@[who as int].characters@[m].1) by {
                        assert(character_fits(s0.conns@[who as int].characters@[m].1));
                    }
                    lemma_replaced_wf(s0, *self, 0, who as int);
                    let kk = k as int;
                    assert(0 <= kk < self.conns@[who as int].characters@.len() && self.conns@[who as int].characters@[kk].0 == chr_uid);
                    assert(0 <= kk < s0.conns@[who as int].characters@.len() && s0.conns@[who as int].characters@[kk].0 == chr_uid);
                }
                let out = vec![Outbound { cid: me, pid: None, packet: Packet::ACK_CHG_CHR_PARAM { status: 0 } }];
                assert(targets(out@) =~= seq![me]);
                return out;
            }
            k += 1;
        }
        refuse
    }
}

} // verus!
