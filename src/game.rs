//! Round set-up: the hole order and the game-start order sent to players.

use vstd::prelude::*;
use rand::seq::SliceRandom;
use crate::packet::GameStart;
use crate::server::vec_of;

verus! {

/// Relies on rand's `SliceRandom::shuffle` with the thread-local generator: it
/// only swaps elements, so the result is a permutation of the input.
#[verifier::external_body]
fn shuffle(v: &mut Vec<i8>)
    ensures
        final(v)@.to_multiset() == old(v)@.to_multiset(),
        final(v)@.len() == old(v)@.len(),
{
    v.shuffle(&mut rand::thread_rng());
}

/// The numbers 0 to 17 in order.
pub open spec fn all_holes() -> Seq<i8> {
    Seq::new(18, |i: int| i as i8)
}

/// The 18 holes in a random order.
pub fn random_hole_order() -> (r: Vec<i8>)
    ensures
        r@.len() == 18,
        r@.to_multiset() == all_holes().to_multiset(),
{
    let mut v: Vec<i8> = Vec::new();
    let mut i: i8 = 0;
    while i < 18
        invariant
            0 <= i <= 18,
            v@ == Seq::new(i as nat, |k: int| k as i8),
        decreases 18 - i,
    {
        v.push(i);
        i += 1;
        assert(v@ =~= Seq::new(i as nat, |k: int| k as i8));
    }
    shuffle(&mut v);
    v
}

/// The hole bytes of a three-hole round: the first three of `order`, then -1 (0xFF).
pub open spec fn three_holes(order: Seq<i8>) -> Seq<u8> {
    Seq::new(18, |i: int| if i < 3 { #[verifier::truncate] (order[i] as u8) } else { 0xFFu8 })
}

/// The participant words: `members` in order, then -1 (0xFFFFFFFF) up to 50 places.
pub open spec fn participants(members: Seq<i32>) -> Seq<u32> {
    Seq::new(50, |i: int| if i < members.len() { #[verifier::truncate] (members[i] as u32) } else { 0xFFFF_FFFFu32 })
}

fn holes_bytes(order: &Vec<i8>) -> (r: Vec<u8>)
    requires
        order@.len() >= 3,
    ensures
        r@.len() == 18,
        forall|i: int| 0 <= i < 18 ==> r@[i] == three_holes(order@)[i],
{
    let mut r: Vec<u8> = Vec::new();
    let mut k: usize = 0;
    while k < 18
        invariant
            k <= 18,
            order@.len() >= 3,
            r@.len() == k,
            forall|i: int| 0 <= i < k ==> r@[i] == three_holes(order@)[i],
        decreases 18 - k,
    {
        if k < 3 {
            r.push(order[k] as u8);
        } else {
            r.push(0xFF);
        }
        k += 1;
    }
    r
}

fn cid_words(members: &Vec<i32>) -> (r: Vec<u32>)
    requires
        members@.len() <= 50,
    ensures
        r@.len() == 50,
        forall|i: int| 0 <= i < 50 ==> r@[i] == participants(members@)[i],
{
    let mut r: Vec<u32> = Vec::new();
    let mut k: usize = 0;
    while k < 50
        invariant
            k <= 50,
            members@.len() <= 50,
            r@.len() == k,
            forall|i: int| 0 <= i < k ==> r@[i] == participants(members@)[i],
        decreases 50 - k,
    {
        if k < members.len() {
            r.push(members[k] as u32);
        } else {
            r.push(0xFFFF_FFFF);
        }
        k += 1;
    }
    r
}

/// The game-start order of a three-hole stroke round on the first course in
/// daytime, for `members` in shot order, in mode `mode` with `member_max` places.
pub fn generate_game(mode: i8, members: &Vec<i32>, member_max: i8, order: &Vec<i8>) -> (r: GameStart)
    requires
        order@.len() >= 3,
        members@.len() <= 50,
    ensures
        r.mode == mode,
        r.member == members@.len(),
        r.member_max == member_max,
        r.holes == 3,
        r.rule == 0 && r.time == 0 && r.course == 0 && r.season == 1,
        forall|i: int| 0 <= i < 18 ==> r.hole_no@[i] == three_holes(order@)[i],
        forall|i: int| 0 <= i < 50 ==> r.cid@[i] == participants(members@)[i],
        r.hole_no@.len() == 18 && r.cid@.len() == 50,
        r.wind_dir@.len() == 18 && r.wind_pow@.len() == 18 && r.weather@.len() == 18 && r.cup_pos@.len() == 18,
        r.caddies@.len() == 50 && r.caddie_reliance@.len() == 50 && r.ball_array@.len() == 50,
        r.hold_box@.len() == 400,
{
    GameStart {
        mode,
        rule: 0,
        time: 0,
        member: members.len() as i8,
        member_max,
        course: 0,
        season: 1,
        holes: 3,
        hole_no: holes_bytes(order),
        wind_dir: vec_of(0u8, 18),
        wind_pow: vec_of(0u8, 18),
        weather: vec_of(0u8, 18),
        cup_pos: vec_of(0u8, 18),
        cid: cid_words(members),
        caddies: vec_of(0u16, 50),
        caddie_reliance: vec_of(0u32, 50),
        ball_array: vec_of(0u32, 50),
        hold_box: vec_of(0u32, 400),
    }
}

/// A single-player round for connection `cid`.
pub fn generate_single_mode_game(cid: i32, order: &Vec<i8>) -> (r: GameStart)
    requires
        order@.len() >= 3,
    ensures
        r.mode == 5,
        r.member == 1 && r.member_max == 1,
        r.cid@.len() == 50 && r.cid@[0] == #[verifier::truncate] (cid as u32),
        forall|i: int| 1 <= i < 50 ==> r.cid@[i] == 0xFFFF_FFFFu32,
        forall|i: int| 0 <= i < 18 ==> r.hole_no@[i] == three_holes(order@)[i],
{
    let members = vec![cid];
    let r = generate_game(5, &members, 1, order);
    assert(r.cid@[0] == participants(members@)[0]);
    r
}

} // verus!
