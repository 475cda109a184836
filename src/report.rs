//! The result of a round as the client reports it: twelve words of bit-packed
//! statistics, two scores and eighteen hole reports.

use vstd::prelude::*;
use crate::bytes::CodecError;
use crate::fields::{
    Field, FieldV, Kind, fields_view, fields_match, field_has_kind, fields_bytes, parse_fields,
    encode_fields, decode_fields, lemma_fields_round_trip, lemma_parse_matches, fb, get_i8,
    get_words,
};

verus! {

/// How a round or a hole ended; the wire value is the position (0 to 6).
#[derive(Clone, Copy, Debug, PartialEq, Eq, Structural)]
pub enum Outcome {
    Invalid,
    Aborted,
    Lose,
    Draw,
    Win,
    UnearnedWin,
    Conv,
}

/// The wire value of an outcome.
pub open spec fn outcome_code(o: Outcome) -> u32 {
    match o {
        Outcome::Invalid => 0,
        Outcome::Aborted => 1,
        Outcome::Lose => 2,
        Outcome::Draw => 3,
        Outcome::Win => 4,
        Outcome::UnearnedWin => 5,
        Outcome::Conv => 6,
    }
}

/// The outcome with wire value `v`; unknown values are `Invalid`.
pub open spec fn outcome_of(v: u32) -> Outcome {
    if v == 1 {
        Outcome::Aborted
    } else if v == 2 {
        Outcome::Lose
    } else if v == 3 {
        Outcome::Draw
    } else if v == 4 {
        Outcome::Win
    } else if v == 5 {
        Outcome::UnearnedWin
    } else if v == 6 {
        Outcome::Conv
    } else {
        Outcome::Invalid
    }
}

proof fn lemma_outcome_round_trip(o: Outcome)
    ensures
        outcome_of(outcome_code(o)) == o,
        outcome_code(o) <= 7,
{
}

impl Outcome {
    pub fn from_u32(val: u32) -> (r: Outcome)
        ensures
            r == outcome_of(val),
    {
        match val {
            1 => Outcome::Aborted,
            2 => Outcome::Lose,
            3 => Outcome::Draw,
            4 => Outcome::Win,
            5 => Outcome::UnearnedWin,
            6 => Outcome::Conv,
            _ => Outcome::Invalid,
        }
    }

    pub fn to_u32(self) -> (r: u32)
        ensures
            r == outcome_code(self),
    {
        match self {
            Outcome::Invalid => 0,
            Outcome::Aborted => 1,
            Outcome::Lose => 2,
            Outcome::Draw => 3,
            Outcome::Win => 4,
            Outcome::UnearnedWin => 5,
            Outcome::Conv => 6,
        }
    }
}

/// The result of one hole.
#[derive(Clone, Copy, Debug, PartialEq, Eq, Structural)]
pub struct HoleReport {
    pub score: i8,
    /// GP gained (12 bits).
    pub gp: u32,
    pub is_hole_in_one: bool,
    /// In 1/100 yards (18 bits).
    pub maximum_flight_distance: u32,
    /// In 1/100 yards (18 bits).
    pub longest_chip_in: u32,
    /// In 1/100 yards (14 bits).
    pub longest_putt: u32,
    pub outcome: Outcome,
    /// Points under point rules (3 bits).
    pub vs_point: u32,
}

/// Every field of a hole report fits its bit range.
pub open spec fn hole_fits(h: HoleReport) -> bool {
    &&& h.gp <= 0xFFF
    &&& h.maximum_flight_distance <= 0x3FFFF
    &&& h.longest_chip_in <= 0x3FFFF
    &&& h.longest_putt <= 0x3FFF
    &&& h.vs_point <= 7
}

/// The result of a round. Each count has the bit width its word gives it.
#[derive(Clone, Debug)]
pub struct GameReport {
    pub outcome: Outcome,
    pub num_strokes: u32,
    pub num_cup_ins: u32,
    pub maximum_distance: u32,
    pub longest_putt_distance: u32,
    pub maximum_tip_in_distance: u32,
    pub num_putts: u32,
    pub num_nice_shots: u32,
    pub num_tip_ins: u32,
    pub num_fairway_keep: u32,
    pub num_ob: u32,
    pub num_water_hazard: u32,
    pub num_4_or_more: u32,
    pub num_t_bogeys: u32,
    pub num_d_bogeys: u32,
    pub num_bogeys: u32,
    pub num_pars: u32,
    pub num_birdies: u32,
    pub num_eagles: u32,
    pub num_albatross: u32,
    pub num_hole_in_ones: u32,
    pub num_total_distance: u32,
    /// In seconds.
    pub play_time: u32,
    pub obtained_gp_round: u32,
    pub obtained_gp_all: u32,
    pub acquired_experience: u32,
    pub num_direct_tip_ins: u32,
    pub num_rough: u32,
    pub num_bunkers: u32,
    pub num_obstacle_hits: u32,
    pub num_pinshots: u32,
    pub num_flag_wraps: u32,
    pub num_consumable_item_usage: u32,
    pub longest_tee_shot: u32,
    pub total_putt_distance_at_cup_in: u32,
    pub num_top_or_backspin_successes: u32,
    pub num_fade_or_draw_usage: u32,
    pub num_clubs_used: u32,
    pub num_times_cooperating_with_caddy: u32,
    pub num_special_shots_used: u32,
    pub vs_rank: u32,
    pub halfway_score: i8,
    pub score: i8,
    /// Eighteen hole reports.
    pub holes: Vec<HoleReport>,
}

/// Every field fits its bit range.
pub open spec fn report_fits(r: GameReport) -> bool {
    &&& r.num_strokes <= 0xFF
    &&& r.num_cup_ins <= 0x1F
    &&& r.maximum_distance <= 0x3FFFF
    &&& r.longest_putt_distance <= 0x3FFF
    &&& r.maximum_tip_in_distance <= 0x3FFFF
    &&& r.num_putts <= 0x7F
    &&& r.num_nice_shots <= 0x7F
    &&& r.num_tip_ins <= 0x1F
    &&& r.num_fairway_keep <= 0xFF
    &&& r.num_ob <= 0x3F
    &&& r.num_water_hazard <= 0x3F
    &&& r.num_4_or_more <= 0x1F
    &&& r.num_t_bogeys <= 0x1F
    &&& r.num_d_bogeys <= 0x1F
    &&& r.num_bogeys <= 0x1F
    &&& r.num_pars <= 0x1F
    &&& r.num_birdies <= 0x1F
    &&& r.num_eagles <= 0xF
    &&& r.num_albatross <= 0x7
    &&& r.num_hole_in_ones <= 0x7
    &&& r.num_total_distance <= 0x3FFFF
    &&& r.play_time <= 0x3FFF
    &&& r.obtained_gp_round <= 0x7FFF
    &&& r.obtained_gp_all <= 0x7FFF
    &&& r.acquired_experience <= 0xFF
    &&& r.num_direct_tip_ins <= 0x1F
    &&& r.num_rough <= 0xFF
    &&& r.num_bunkers <= 0x7F
    &&& r.num_obstacle_hits <= 0x7F
    &&& r.num_pinshots <= 0x1F
    &&& r.num_flag_wraps <= 0x1F
    &&& r.num_consumable_item_usage <= 0xFF
    &&& r.longest_tee_shot <= 0x3FFFF
    &&& r.total_putt_distance_at_cup_in <= 0xFFFF
    &&& r.num_top_or_backspin_successes <= 0x7F
    &&& r.num_fade_or_draw_usage <= 0x7F
    &&& r.num_clubs_used <= 0xF
    &&& r.num_times_cooperating_with_caddy <= 0x7F
    &&& r.num_special_shots_used <= 0x1F
    &&& r.vs_rank <= 0x7
    &&& r.holes@.len() == 18
    &&& forall|i: int| 0 <= i < 18 ==> hole_fits(#[trigger] r.holes@[i])
}

/// The twelve summary words of a report.
pub open spec fn report_words(r: GameReport) -> Seq<u32> {
    seq![
        outcome_code(r.outcome) | (r.num_strokes << 3) | (r.num_cup_ins << 11),
        r.maximum_distance | (r.longest_putt_distance << 18),
        r.maximum_tip_in_distance | (r.num_putts << 18) | (r.num_nice_shots << 25),
        r.num_tip_ins | (r.num_fairway_keep << 5) | (r.num_ob << 13) | (r.num_water_hazard << 19) | (r.num_4_or_more << 25),
        r.num_t_bogeys | (r.num_d_bogeys << 5) | (r.num_bogeys << 10) | (r.num_pars << 15) | (r.num_birdies << 20) | (r.num_eagles << 25) | (r.num_albatross << 29),
        r.num_hole_in_ones | (r.num_total_distance << 3),
        r.play_time | (r.obtained_gp_round << 14),
        r.obtained_gp_all | (r.acquired_experience << 15) | (r.num_direct_tip_ins << 23),
        r.num_rough | (r.num_bunkers << 8) | (r.num_obstacle_hits << 15) | (r.num_pinshots << 22) | (r.num_flag_wraps << 27),
        r.num_consumable_item_usage | (r.longest_tee_shot << 8),
        r.total_putt_distance_at_cup_in | (r.num_top_or_backspin_successes << 16) | (r.num_fade_or_draw_usage << 23),
        r.num_clubs_used | (r.num_times_cooperating_with_caddy << 4) | (r.num_special_shots_used << 11) | (r.vs_rank << 16),
    ]
}

/// The report whose summary words are `w`, with the given scores and holes.
pub open spec fn report_of_words(w: Seq<u32>, halfway_score: i8, score: i8, holes: Vec<HoleReport>) -> GameReport {
    GameReport {
        outcome: outcome_of((w[0] & 0x7)),
        num_strokes: ((w[0] >> 3) & 0xFF),
        num_cup_ins: ((w[0] >> 11) & 0x1F),
        maximum_distance: (w[1] & 0x3FFFF),
        longest_putt_distance: ((w[1] >> 18) & 0x3FFF),
        maximum_tip_in_distance: (w[2] & 0x3FFFF),
        num_putts: ((w[2] >> 18) & 0x7F),
        num_nice_shots: ((w[2] >> 25) & 0x7F),
        num_tip_ins: (w[3] & 0x1F),
        num_fairway_keep: ((w[3] >> 5) & 0xFF),
        num_ob: ((w[3] >> 13) & 0x3F),
        num_water_hazard: ((w[3] >> 19) & 0x3F),
        num_4_or_more: ((w[3] >> 25) & 0x1F),
        num_t_bogeys: (w[4] & 0x1F),
        num_d_bogeys: ((w[4] >> 5) & 0x1F),
        num_bogeys: ((w[4] >> 10) & 0x1F),
        num_pars: ((w[4] >> 15) & 0x1F),
        num_birdies: ((w[4] >> 20) & 0x1F),
        num_eagles: ((w[4] >> 25) & 0xF),
        num_albatross: ((w[4] >> 29) & 0x7),
        num_hole_in_ones: (w[5] & 0x7),
        num_total_distance: ((w[5] >> 3) & 0x3FFFF),
        play_time: (w[6] & 0x3FFF),
        obtained_gp_round: ((w[6] >> 14) & 0x7FFF),
        obtained_gp_all: (w[7] & 0x7FFF),
        acquired_experience: ((w[7] >> 15) & 0xFF),
        num_direct_tip_ins: ((w[7] >> 23) & 0x1F),
        num_rough: (w[8] & 0xFF),
        num_bunkers: ((w[8] >> 8) & 0x7F),
        num_obstacle_hits: ((w[8] >> 15) & 0x7F),
        num_pinshots: ((w[8] >> 22) & 0x1F),
        num_flag_wraps: ((w[8] >> 27) & 0x1F),
        num_consumable_item_usage: (w[9] & 0xFF),
        longest_tee_shot: ((w[9] >> 8) & 0x3FFFF),
        total_putt_distance_at_cup_in: (w[10] & 0xFFFF),
        num_top_or_backspin_successes: ((w[10] >> 16) & 0x7F),
        num_fade_or_draw_usage: ((w[10] >> 23) & 0x7F),
        num_clubs_used: (w[11] & 0xF),
        num_times_cooperating_with_caddy: ((w[11] >> 4) & 0x7F),
        num_special_shots_used: ((w[11] >> 11) & 0x1F),
        vs_rank: ((w[11] >> 16) & 0x7),
        halfway_score,
        score,
        holes,
    }
}

proof fn lemma_report_words_bits(outcome: u32, num_strokes: u32, num_cup_ins: u32, maximum_distance: u32, longest_putt_distance: u32, maximum_tip_in_distance: u32, num_putts: u32, num_nice_shots: u32, num_tip_ins: u32, num_fairway_keep: u32, num_ob: u32, num_water_hazard: u32, num_4_or_more: u32, num_t_bogeys: u32, num_d_bogeys: u32, num_bogeys: u32, num_pars: u32, num_birdies: u32, num_eagles: u32, num_albatross: u32, num_hole_in_ones: u32, num_total_distance: u32, play_time: u32, obtained_gp_round: u32, obtained_gp_all: u32, acquired_experience: u32, num_direct_tip_ins: u32, num_rough: u32, num_bunkers: u32, num_obstacle_hits: u32, num_pinshots: u32, num_flag_wraps: u32, num_consumable_item_usage: u32, longest_tee_shot: u32, total_putt_distance_at_cup_in: u32, num_top_or_backspin_successes: u32, num_fade_or_draw_usage: u32, num_clubs_used: u32, num_times_cooperating_with_caddy: u32, num_special_shots_used: u32, vs_rank: u32)
    requires
        outcome <= 0x7,
        num_strokes <= 0xFF,
        num_cup_ins <= 0x1F,
        maximum_distance <= 0x3FFFF,
        longest_putt_distance <= 0x3FFF,
        maximum_tip_in_distance <= 0x3FFFF,
        num_putts <= 0x7F,
        num_nice_shots <= 0x7F,
        num_tip_ins <= 0x1F,
        num_fairway_keep <= 0xFF,
        num_ob <= 0x3F,
        num_water_hazard <= 0x3F,
        num_4_or_more <= 0x1F,
        num_t_bogeys <= 0x1F,
        num_d_bogeys <= 0x1F,
        num_bogeys <= 0x1F,
        num_pars <= 0x1F,
        num_birdies <= 0x1F,
        num_eagles <= 0xF,
        num_albatross <= 0x7,
        num_hole_in_ones <= 0x7,
        num_total_distance <= 0x3FFFF,
        play_time <= 0x3FFF,
        obtained_gp_round <= 0x7FFF,
        obtained_gp_all <= 0x7FFF,
        acquired_experience <= 0xFF,
        num_direct_tip_ins <= 0x1F,
        num_rough <= 0xFF,
        num_bunkers <= 0x7F,
        num_obstacle_hits <= 0x7F,
        num_pinshots <= 0x1F,
        num_flag_wraps <= 0x1F,
        num_consumable_item_usage <= 0xFF,
        longest_tee_shot <= 0x3FFFF,
        total_putt_distance_at_cup_in <= 0xFFFF,
        num_top_or_backspin_successes <= 0x7F,
        num_fade_or_draw_usage <= 0x7F,
        num_clubs_used <= 0xF,
        num_times_cooperating_with_caddy <= 0x7F,
        num_special_shots_used <= 0x1F,
        vs_rank <= 0x7,
    ensures
        ((outcome | (num_strokes << 3) | (num_cup_ins << 11)) & 0x7) == outcome,
        (((outcome | (num_strokes << 3) | (num_cup_ins << 11)) >> 3) & 0xFF) == num_strokes,
        (((outcome | (num_strokes << 3) | (num_cup_ins << 11)) >> 11) & 0x1F) == num_cup_ins,
        ((maximum_distance | (longest_putt_distance << 18)) & 0x3FFFF) == maximum_distance,
        (((maximum_distance | (longest_putt_distance << 18)) >> 18) & 0x3FFF) == longest_putt_distance,
        ((maximum_tip_in_distance | (num_putts << 18) | (num_nice_shots << 25)) & 0x3FFFF) == maximum_tip_in_distance,
        (((maximum_tip_in_distance | (num_putts << 18) | (num_nice_shots << 25)) >> 18) & 0x7F) == num_putts,
        (((maximum_tip_in_distance | (num_putts << 18) | (num_nice_shots << 25)) >> 25) & 0x7F) == num_nice_shots,
        ((num_tip_ins | (num_fairway_keep << 5) | (num_ob << 13) | (num_water_hazard << 19) | (num_4_or_more << 25)) & 0x1F) == num_tip_ins,
        (((num_tip_ins | (num_fairway_keep << 5) | (num_ob << 13) | (num_water_hazard << 19) | (num_4_or_more << 25)) >> 5) & 0xFF) == num_fairway_keep,
        (((num_tip_ins | (num_fairway_keep << 5) | (num_ob << 13) | (num_water_hazard << 19) | (num_4_or_more << 25)) >> 13) & 0x3F) == num_ob,
        (((num_tip_ins | (num_fairway_keep << 5) | (num_ob << 13) | (num_water_hazard << 19) | (num_4_or_more << 25)) >> 19) & 0x3F) == num_water_hazard,
        (((num_tip_ins | (num_fairway_keep << 5) | (num_ob << 13) | (num_water_hazard << 19) | (num_4_or_more << 25)) >> 25) & 0x1F) == num_4_or_more,
        ((num_t_bogeys | (num_d_bogeys << 5) | (num_bogeys << 10) | (num_pars << 15) | (num_birdies << 20) | (num_eagles << 25) | (num_albatross << 29)) & 0x1F) == num_t_bogeys,
        (((num_t_bogeys | (num_d_bogeys << 5) | (num_bogeys << 10) | (num_pars << 15) | (num_birdies << 20) | (num_eagles << 25) | (num_albatross << 29)) >> 5) & 0x1F) == num_d_bogeys,
        (((num_t_bogeys | (num_d_bogeys << 5) | (num_bogeys << 10) | (num_pars << 15) | (num_birdies << 20) | (num_eagles << 25) | (num_albatross << 29)) >> 10) & 0x1F) == num_bogeys,
        (((num_t_bogeys | (num_d_bogeys << 5) | (num_bogeys << 10) | (num_pars << 15) | (num_birdies << 20) | (num_eagles << 25) | (num_albatross << 29)) >> 15) & 0x1F) == num_pars,
        (((num_t_bogeys | (num_d_bogeys << 5) | (num_bogeys << 10) | (num_pars << 15) | (num_birdies << 20) | (num_eagles << 25) | (num_albatross << 29)) >> 20) & 0x1F) == num_birdies,
        (((num_t_bogeys | (num_d_bogeys << 5) | (num_bogeys << 10) | (num_pars << 15) | (num_birdies << 20) | (num_eagles << 25) | (num_albatross << 29)) >> 25) & 0xF) == num_eagles,
        (((num_t_bogeys | (num_d_bogeys << 5) | (num_bogeys << 10) | (num_pars << 15) | (num_birdies << 20) | (num_eagles << 25) | (num_albatross << 29)) >> 29) & 0x7) == num_albatross,
        ((num_hole_in_ones | (num_total_distance << 3)) & 0x7) == num_hole_in_ones,
        (((num_hole_in_ones | (num_total_distance << 3)) >> 3) & 0x3FFFF) == num_total_distance,
        ((play_time | (obtained_gp_round << 14)) & 0x3FFF) == play_time,
        (((play_time | (obtained_gp_round << 14)) >> 14) & 0x7FFF) == obtained_gp_round,
        ((obtained_gp_all | (acquired_experience << 15) | (num_direct_tip_ins << 23)) & 0x7FFF) == obtained_gp_all,
        (((obtained_gp_all | (acquired_experience << 15) | (num_direct_tip_ins << 23)) >> 15) & 0xFF) == acquired_experience,
        (((obtained_gp_all | (acquired_experience << 15) | (num_direct_tip_ins << 23)) >> 23) & 0x1F) == num_direct_tip_ins,
        ((num_rough | (num_bunkers << 8) | (num_obstacle_hits << 15) | (num_pinshots << 22) | (num_flag_wraps << 27)) & 0xFF) == num_rough,
        (((num_rough | (num_bunkers << 8) | (num_obstacle_hits << 15) | (num_pinshots << 22) | (num_flag_wraps << 27)) >> 8) & 0x7F) == num_bunkers,
        (((num_rough | (num_bunkers << 8) | (num_obstacle_hits << 15) | (num_pinshots << 22) | (num_flag_wraps << 27)) >> 15) & 0x7F) == num_obstacle_hits,
        (((num_rough | (num_bunkers << 8) | (num_obstacle_hits << 15) | (num_pinshots << 22) | (num_flag_wraps << 27)) >> 22) & 0x1F) == num_pinshots,
        (((num_rough | (num_bunkers << 8) | (num_obstacle_hits << 15) | (num_pinshots << 22) | (num_flag_wraps << 27)) >> 27) & 0x1F) == num_flag_wraps,
        ((num_consumable_item_usage | (longest_tee_shot << 8)) & 0xFF) == num_consumable_item_usage,
        (((num_consumable_item_usage | (longest_tee_shot << 8)) >> 8) & 0x3FFFF) == longest_tee_shot,
        ((total_putt_distance_at_cup_in | (num_top_or_backspin_successes << 16) | (num_fade_or_draw_usage << 23)) & 0xFFFF) == total_putt_distance_at_cup_in,
        (((total_putt_distance_at_cup_in | (num_top_or_backspin_successes << 16) | (num_fade_or_draw_usage << 23)) >> 16) & 0x7F) == num_top_or_backspin_successes,
        (((total_putt_distance_at_cup_in | (num_top_or_backspin_successes << 16) | (num_fade_or_draw_usage << 23)) >> 23) & 0x7F) == num_fade_or_draw_usage,
        ((num_clubs_used | (num_times_cooperating_with_caddy << 4) | (num_special_shots_used << 11) | (vs_rank << 16)) & 0xF) == num_clubs_used,
        (((num_clubs_used | (num_times_cooperating_with_caddy << 4) | (num_special_shots_used << 11) | (vs_rank << 16)) >> 4) & 0x7F) == num_times_cooperating_with_caddy,
        (((num_clubs_used | (num_times_cooperating_with_caddy << 4) | (num_special_shots_used << 11) | (vs_rank << 16)) >> 11) & 0x1F) == num_special_shots_used,
        (((num_clubs_used | (num_times_cooperating_with_caddy << 4) | (num_special_shots_used << 11) | (vs_rank << 16)) >> 16) & 0x7) == vs_rank,
{
    assert(((outcome | (num_strokes << 3) | (num_cup_ins << 11)) & 0x7) == outcome && (((outcome | (num_strokes << 3) | (num_cup_ins << 11)) >> 3) & 0xFF) == num_strokes && (((outcome | (num_strokes << 3) | (num_cup_ins << 11)) >> 11) & 0x1F) == num_cup_ins && ((maximum_distance | (longest_putt_distance << 18)) & 0x3FFFF) == maximum_distance && (((maximum_distance | (longest_putt_distance << 18)) >> 18) & 0x3FFF) == longest_putt_distance && ((maximum_tip_in_distance | (num_putts << 18) | (num_nice_shots << 25)) & 0x3FFFF) == maximum_tip_in_distance && (((maximum_tip_in_distance | (num_putts << 18) | (num_nice_shots << 25)) >> 18) & 0x7F) == num_putts && (((maximum_tip_in_distance | (num_putts << 18) | (num_nice_shots << 25)) >> 25) & 0x7F) == num_nice_shots && ((num_tip_ins | (num_fairway_keep << 5) | (num_ob << 13) | (num_water_hazard << 19) | (num_4_or_more << 25)) & 0x1F) == num_tip_ins && (((num_tip_ins | (num_fairway_keep << 5) | (num_ob << 13) | (num_water_hazard << 19) | (num_4_or_more << 25)) >> 5) & 0xFF) == num_fairway_keep && (((num_tip_ins | (num_fairway_keep << 5) | (num_ob << 13) | (num_water_hazard << 19) | (num_4_or_more << 25)) >> 13) & 0x3F) == num_ob && (((num_tip_ins | (num_fairway_keep << 5) | (num_ob << 13) | (num_water_hazard << 19) | (num_4_or_more << 25)) >> 19) & 0x3F) == num_water_hazard && (((num_tip_ins | (num_fairway_keep << 5) | (num_ob << 13) | (num_water_hazard << 19) | (num_4_or_more << 25)) >> 25) & 0x1F) == num_4_or_more && ((num_t_bogeys | (num_d_bogeys << 5) | (num_bogeys << 10) | (num_pars << 15) | (num_birdies << 20) | (num_eagles << 25) | (num_albatross << 29)) & 0x1F) == num_t_bogeys && (((num_t_bogeys | (num_d_bogeys << 5) | (num_bogeys << 10) | (num_pars << 15) | (num_birdies << 20) | (num_eagles << 25) | (num_albatross << 29)) >> 5) & 0x1F) == num_d_bogeys && (((num_t_bogeys | (num_d_bogeys << 5) | (num_bogeys << 10) | (num_pars << 15) | (num_birdies << 20) | (num_eagles << 25) | (num_albatross << 29)) >> 10) & 0x1F) == num_bogeys && (((num_t_bogeys | (num_d_bogeys << 5) | (num_bogeys << 10) | (num_pars << 15) | (num_birdies << 20) | (num_eagles << 25) | (num_albatross << 29)) >> 15) & 0x1F) == num_pars && (((num_t_bogeys | (num_d_bogeys << 5) | (num_bogeys << 10) | (num_pars << 15) | (num_birdies << 20) | (num_eagles << 25) | (num_albatross << 29)) >> 20) & 0x1F) == num_birdies && (((num_t_bogeys | (num_d_bogeys << 5) | (num_bogeys << 10) | (num_pars << 15) | (num_birdies << 20) | (num_eagles << 25) | (num_albatross << 29)) >> 25) & 0xF) == num_eagles && (((num_t_bogeys | (num_d_bogeys << 5) | (num_bogeys << 10) | (num_pars << 15) | (num_birdies << 20) | (num_eagles << 25) | (num_albatross << 29)) >> 29) & 0x7) == num_albatross && ((num_hole_in_ones | (num_total_distance << 3)) & 0x7) == num_hole_in_ones && (((num_hole_in_ones | (num_total_distance << 3)) >> 3) & 0x3FFFF) == num_total_distance && ((play_time | (obtained_gp_round << 14)) & 0x3FFF) == play_time && (((play_time | (obtained_gp_round << 14)) >> 14) & 0x7FFF) == obtained_gp_round && ((obtained_gp_all | (acquired_experience << 15) | (num_direct_tip_ins << 23)) & 0x7FFF) == obtained_gp_all && (((obtained_gp_all | (acquired_experience << 15) | (num_direct_tip_ins << 23)) >> 15) & 0xFF) == acquired_experience && (((obtained_gp_all | (acquired_experience << 15) | (num_direct_tip_ins << 23)) >> 23) & 0x1F) == num_direct_tip_ins && ((num_rough | (num_bunkers << 8) | (num_obstacle_hits << 15) | (num_pinshots << 22) | (num_flag_wraps << 27)) & 0xFF) == num_rough && (((num_rough | (num_bunkers << 8) | (num_obstacle_hits << 15) | (num_pinshots << 22) | (num_flag_wraps << 27)) >> 8) & 0x7F) == num_bunkers && (((num_rough | (num_bunkers << 8) | (num_obstacle_hits << 15) | (num_pinshots << 22) | (num_flag_wraps << 27)) >> 15) & 0x7F) == num_obstacle_hits && (((num_rough | (num_bunkers << 8) | (num_obstacle_hits << 15) | (num_pinshots << 22) | (num_flag_wraps << 27)) >> 22) & 0x1F) == num_pinshots && (((num_rough | (num_bunkers << 8) | (num_obstacle_hits << 15) | (num_pinshots << 22) | (num_flag_wraps << 27)) >> 27) & 0x1F) == num_flag_wraps && ((num_consumable_item_usage | (longest_tee_shot << 8)) & 0xFF) == num_consumable_item_usage && (((num_consumable_item_usage | (longest_tee_shot << 8)) >> 8) & 0x3FFFF) == longest_tee_shot && ((total_putt_distance_at_cup_in | (num_top_or_backspin_successes << 16) | (num_fade_or_draw_usage << 23)) & 0xFFFF) == total_putt_distance_at_cup_in && (((total_putt_distance_at_cup_in | (num_top_or_backspin_successes << 16) | (num_fade_or_draw_usage << 23)) >> 16) & 0x7F) == num_top_or_backspin_successes && (((total_putt_distance_at_cup_in | (num_top_or_backspin_successes << 16) | (num_fade_or_draw_usage << 23)) >> 23) & 0x7F) == num_fade_or_draw_usage && ((num_clubs_used | (num_times_cooperating_with_caddy << 4) | (num_special_shots_used << 11) | (vs_rank << 16)) & 0xF) == num_clubs_used && (((num_clubs_used | (num_times_cooperating_with_caddy << 4) | (num_special_shots_used << 11) | (vs_rank << 16)) >> 4) & 0x7F) == num_times_cooperating_with_caddy && (((num_clubs_used | (num_times_cooperating_with_caddy << 4) | (num_special_shots_used << 11) | (vs_rank << 16)) >> 11) & 0x1F) == num_special_shots_used && (((num_clubs_used | (num_times_cooperating_with_caddy << 4) | (num_special_shots_used << 11) | (vs_rank << 16)) >> 16) & 0x7) == vs_rank) by (bit_vector)
        requires
            outcome <= 0x7,
            num_strokes <= 0xFF,
            num_cup_ins <= 0x1F,
            maximum_distance <= 0x3FFFF,
            longest_putt_distance <= 0x3FFF,
            maximum_tip_in_distance <= 0x3FFFF,
            num_putts <= 0x7F,
            num_nice_shots <= 0x7F,
            num_tip_ins <= 0x1F,
            num_fairway_keep <= 0xFF,
            num_ob <= 0x3F,
            num_water_hazard <= 0x3F,
            num_4_or_more <= 0x1F,
            num_t_bogeys <= 0x1F,
            num_d_bogeys <= 0x1F,
            num_bogeys <= 0x1F,
            num_pars <= 0x1F,
            num_birdies <= 0x1F,
            num_eagles <= 0xF,
            num_albatross <= 0x7,
            num_hole_in_ones <= 0x7,
            num_total_distance <= 0x3FFFF,
            play_time <= 0x3FFF,
            obtained_gp_round <= 0x7FFF,
            obtained_gp_all <= 0x7FFF,
            acquired_experience <= 0xFF,
            num_direct_tip_ins <= 0x1F,
            num_rough <= 0xFF,
            num_bunkers <= 0x7F,
            num_obstacle_hits <= 0x7F,
            num_pinshots <= 0x1F,
            num_flag_wraps <= 0x1F,
            num_consumable_item_usage <= 0xFF,
            longest_tee_shot <= 0x3FFFF,
            total_putt_distance_at_cup_in <= 0xFFFF,
            num_top_or_backspin_successes <= 0x7F,
            num_fade_or_draw_usage <= 0x7F,
            num_clubs_used <= 0xF,
            num_times_cooperating_with_caddy <= 0x7F,
            num_special_shots_used <= 0x1F,
            vs_rank <= 0x7,
    ;
}

impl GameReport {
    /// Whether every field fits its bit range.
    pub fn fits(&self) -> (r: bool)
        ensures
            r == report_fits(*self),
    {
        if !(self.num_strokes <= 0xFF && self.num_cup_ins <= 0x1F && self.maximum_distance <= 0x3FFFF && self.longest_putt_distance <= 0x3FFF && self.maximum_tip_in_distance <= 0x3FFFF && self.num_putts <= 0x7F && self.num_nice_shots <= 0x7F && self.num_tip_ins <= 0x1F && self.num_fairway_keep <= 0xFF && self.num_ob <= 0x3F && self.num_water_hazard <= 0x3F && self.num_4_or_more <= 0x1F && self.num_t_bogeys <= 0x1F && self.num_d_bogeys <= 0x1F && self.num_bogeys <= 0x1F && self.num_pars <= 0x1F && self.num_birdies <= 0x1F && self.num_eagles <= 0xF && self.num_albatross <= 0x7 && self.num_hole_in_ones <= 0x7 && self.num_total_distance <= 0x3FFFF && self.play_time <= 0x3FFF && self.obtained_gp_round <= 0x7FFF && self.obtained_gp_all <= 0x7FFF && self.acquired_experience <= 0xFF && self.num_direct_tip_ins <= 0x1F && self.num_rough <= 0xFF && self.num_bunkers <= 0x7F && self.num_obstacle_hits <= 0x7F && self.num_pinshots <= 0x1F && self.num_flag_wraps <= 0x1F && self.num_consumable_item_usage <= 0xFF && self.longest_tee_shot <= 0x3FFFF && self.total_putt_distance_at_cup_in <= 0xFFFF && self.num_top_or_backspin_successes <= 0x7F && self.num_fade_or_draw_usage <= 0x7F && self.num_clubs_used <= 0xF && self.num_times_cooperating_with_caddy <= 0x7F && self.num_special_shots_used <= 0x1F && self.vs_rank <= 0x7) {
            return false;
        }
        if self.holes.len() != 18 {
            return false;
        }
        let mut i: usize = 0;
        while i < 18
            invariant
                i <= 18,
                self.holes@.len() == 18,
                forall|k: int| 0 <= k < i ==> hole_fits(#[trigger] self.holes@[k]),
            decreases 18 - i,
        {
            if !self.holes[i].fits() {
                return false;
            }
            i += 1;
        }
        true
    }

    /// The twelve summary words.
    pub fn words(&self) -> (r: Vec<u32>)
        ensures
            r@ == report_words(*self),
    {
        let r = vec![
            self.outcome.to_u32() | (self.num_strokes << 3) | (self.num_cup_ins << 11),
            self.maximum_distance | (self.longest_putt_distance << 18),
            self.maximum_tip_in_distance | (self.num_putts << 18) | (self.num_nice_shots << 25),
            self.num_tip_ins | (self.num_fairway_keep << 5) | (self.num_ob << 13) | (self.num_water_hazard << 19) | (self.num_4_or_more << 25),
            self.num_t_bogeys | (self.num_d_bogeys << 5) | (self.num_bogeys << 10) | (self.num_pars << 15) | (self.num_birdies << 20) | (self.num_eagles << 25) | (self.num_albatross << 29),
            self.num_hole_in_ones | (self.num_total_distance << 3),
            self.play_time | (self.obtained_gp_round << 14),
            self.obtained_gp_all | (self.acquired_experience << 15) | (self.num_direct_tip_ins << 23),
            self.num_rough | (self.num_bunkers << 8) | (self.num_obstacle_hits << 15) | (self.num_pinshots << 22) | (self.num_flag_wraps << 27),
            self.num_consumable_item_usage | (self.longest_tee_shot << 8),
            self.total_putt_distance_at_cup_in | (self.num_top_or_backspin_successes << 16) | (self.num_fade_or_draw_usage << 23),
            self.num_clubs_used | (self.num_times_cooperating_with_caddy << 4) | (self.num_special_shots_used << 11) | (self.vs_rank << 16),
        ];
        assert(r@ =~= report_words(*self));
        r
    }

    /// The report whose summary words are `w`.
    pub fn from_words(w: &Vec<u32>, halfway_score: i8, score: i8, holes: Vec<HoleReport>) -> (r: GameReport)
        requires
            w@.len() == 12,
        ensures
            r == report_of_words(w@, halfway_score, score, holes),
    {
        GameReport {
            outcome: Outcome::from_u32((w[0] & 0x7)),
            num_strokes: ((w[0] >> 3) & 0xFF),
            num_cup_ins: ((w[0] >> 11) & 0x1F),
            maximum_distance: (w[1] & 0x3FFFF),
            longest_putt_distance: ((w[1] >> 18) & 0x3FFF),
            maximum_tip_in_distance: (w[2] & 0x3FFFF),
            num_putts: ((w[2] >> 18) & 0x7F),
            num_nice_shots: ((w[2] >> 25) & 0x7F),
            num_tip_ins: (w[3] & 0x1F),
            num_fairway_keep: ((w[3] >> 5) & 0xFF),
            num_ob: ((w[3] >> 13) & 0x3F),
            num_water_hazard: ((w[3] >> 19) & 0x3F),
            num_4_or_more: ((w[3] >> 25) & 0x1F),
            num_t_bogeys: (w[4] & 0x1F),
            num_d_bogeys: ((w[4] >> 5) & 0x1F),
            num_bogeys: ((w[4] >> 10) & 0x1F),
            num_pars: ((w[4] >> 15) & 0x1F),
            num_birdies: ((w[4] >> 20) & 0x1F),
            num_eagles: ((w[4] >> 25) & 0xF),
            num_albatross: ((w[4] >> 29) & 0x7),
            num_hole_in_ones: (w[5] & 0x7),
            num_total_distance: ((w[5] >> 3) & 0x3FFFF),
            play_time: (w[6] & 0x3FFF),
            obtained_gp_round: ((w[6] >> 14) & 0x7FFF),
            obtained_gp_all: (w[7] & 0x7FFF),
            acquired_experience: ((w[7] >> 15) & 0xFF),
            num_direct_tip_ins: ((w[7] >> 23) & 0x1F),
            num_rough: (w[8] & 0xFF),
            num_bunkers: ((w[8] >> 8) & 0x7F),
            num_obstacle_hits: ((w[8] >> 15) & 0x7F),
            num_pinshots: ((w[8] >> 22) & 0x1F),
            num_flag_wraps: ((w[8] >> 27) & 0x1F),
            num_consumable_item_usage: (w[9] & 0xFF),
            longest_tee_shot: ((w[9] >> 8) & 0x3FFFF),
            total_putt_distance_at_cup_in: (w[10] & 0xFFFF),
            num_top_or_backspin_successes: ((w[10] >> 16) & 0x7F),
            num_fade_or_draw_usage: ((w[10] >> 23) & 0x7F),
            num_clubs_used: (w[11] & 0xF),
            num_times_cooperating_with_caddy: ((w[11] >> 4) & 0x7F),
            num_special_shots_used: ((w[11] >> 11) & 0x1F),
            vs_rank: ((w[11] >> 16) & 0x7),
            halfway_score,
            score,
            holes,
        }
    }
}

/// Decoding the summary words of a report whose fields fit gives the report back.
pub proof fn lemma_report_words_round_trip(r: GameReport)
    requires
        report_fits(r),
    ensures
        report_of_words(report_words(r), r.halfway_score, r.score, r.holes) == r,
{
    lemma_outcome_round_trip(r.outcome);
    lemma_report_words_bits(outcome_code(r.outcome), r.num_strokes, r.num_cup_ins, r.maximum_distance, r.longest_putt_distance, r.maximum_tip_in_distance, r.num_putts, r.num_nice_shots, r.num_tip_ins, r.num_fairway_keep, r.num_ob, r.num_water_hazard, r.num_4_or_more, r.num_t_bogeys, r.num_d_bogeys, r.num_bogeys, r.num_pars, r.num_birdies, r.num_eagles, r.num_albatross, r.num_hole_in_ones, r.num_total_distance, r.play_time, r.obtained_gp_round, r.obtained_gp_all, r.acquired_experience, r.num_direct_tip_ins, r.num_rough, r.num_bunkers, r.num_obstacle_hits, r.num_pinshots, r.num_flag_wraps, r.num_consumable_item_usage, r.longest_tee_shot, r.total_putt_distance_at_cup_in, r.num_top_or_backspin_successes, r.num_fade_or_draw_usage, r.num_clubs_used, r.num_times_cooperating_with_caddy, r.num_special_shots_used, r.vs_rank);
}

/// The three words of a hole report.
pub open spec fn hole_words(h: HoleReport) -> Seq<u32> {
    seq![
        h.gp | ((if h.is_hole_in_one { 1u32 } else { 0u32 }) << 12) | (h.maximum_flight_distance << 13),
        h.longest_chip_in | (h.longest_putt << 18),
        outcome_code(h.outcome) | (h.vs_point << 3),
    ]
}

/// The hole report with score `score` whose words are `w`.
pub open spec fn hole_of(score: i8, w: Seq<u32>) -> HoleReport {
    HoleReport {
        score,
        gp: (w[0] & 0xFFF),
        is_hole_in_one: ((w[0] >> 12) & 0x1) == 1,
        maximum_flight_distance: ((w[0] >> 13) & 0x3FFFF),
        longest_chip_in: (w[1] & 0x3FFFF),
        longest_putt: ((w[1] >> 18) & 0x3FFF),
        outcome: outcome_of((w[2] & 0x7)),
        vs_point: ((w[2] >> 3) & 0x7),
    }
}

proof fn lemma_hole_words_bits(gp: u32, hio: u32, maximum_flight_distance: u32, longest_chip_in: u32, longest_putt: u32, outcome: u32, vs_point: u32)
    requires
        gp <= 0xFFF,
        hio <= 0x1,
        maximum_flight_distance <= 0x3FFFF,
        longest_chip_in <= 0x3FFFF,
        longest_putt <= 0x3FFF,
        outcome <= 0x7,
        vs_point <= 0x7,
    ensures
        ((gp | (hio << 12) | (maximum_flight_distance << 13)) & 0xFFF) == gp,
        (((gp | (hio << 12) | (maximum_flight_distance << 13)) >> 12) & 0x1) == hio,
        (((gp | (hio << 12) | (maximum_flight_distance << 13)) >> 13) & 0x3FFFF) == maximum_flight_distance,
        ((longest_chip_in | (longest_putt << 18)) & 0x3FFFF) == longest_chip_in,
        (((longest_chip_in | (longest_putt << 18)) >> 18) & 0x3FFF) == longest_putt,
        ((outcome | (vs_point << 3)) & 0x7) == outcome,
        (((outcome | (vs_point << 3)) >> 3) & 0x7) == vs_point,
{
    assert(((gp | (hio << 12) | (maximum_flight_distance << 13)) & 0xFFF) == gp && (((gp | (hio << 12) | (maximum_flight_distance << 13)) >> 12) & 0x1) == hio && (((gp | (hio << 12) | (maximum_flight_distance << 13)) >> 13) & 0x3FFFF) == maximum_flight_distance && ((longest_chip_in | (longest_putt << 18)) & 0x3FFFF) == longest_chip_in && (((longest_chip_in | (longest_putt << 18)) >> 18) & 0x3FFF) == longest_putt && ((outcome | (vs_point << 3)) & 0x7) == outcome && (((outcome | (vs_point << 3)) >> 3) & 0x7) == vs_point) by (bit_vector)
        requires
            gp <= 0xFFF,
            hio <= 0x1,
            maximum_flight_distance <= 0x3FFFF,
            longest_chip_in <= 0x3FFFF,
            longest_putt <= 0x3FFF,
            outcome <= 0x7,
            vs_point <= 0x7,
    ;
}

impl HoleReport {
    /// Whether every field fits its bit range.
    pub fn fits(&self) -> (r: bool)
        ensures
            r == hole_fits(*self),
    {
        self.gp <= 0xFFF && self.maximum_flight_distance <= 0x3FFFF && self.longest_chip_in <= 0x3FFFF && self.longest_putt <= 0x3FFF && self.vs_point <= 0x7
    }

    /// The three words.
    pub fn words(&self) -> (r: Vec<u32>)
        ensures
            r@ == hole_words(*self),
    {
        let r = vec![
            self.gp | ((if self.is_hole_in_one { 1u32 } else { 0u32 }) << 12) | (self.maximum_flight_distance << 13),
            self.longest_chip_in | (self.longest_putt << 18),
            self.outcome.to_u32() | (self.vs_point << 3),
        ];
        assert(r@ =~= hole_words(*self));
        r
    }

    /// The hole report with score `score` whose words are `w`.
    pub fn from_words(score: i8, w: &Vec<u32>) -> (r: HoleReport)
        requires
            w@.len() == 3,
        ensures
            r == hole_of(score, w@),
    {
        HoleReport {
            score,
            gp: (w[0] & 0xFFF),
            is_hole_in_one: ((w[0] >> 12) & 0x1) == 1,
            maximum_flight_distance: ((w[0] >> 13) & 0x3FFFF),
            longest_chip_in: (w[1] & 0x3FFFF),
            longest_putt: ((w[1] >> 18) & 0x3FFF),
            outcome: Outcome::from_u32((w[2] & 0x7)),
            vs_point: ((w[2] >> 3) & 0x7),
        }
    }
}

/// Decoding the words of a hole report whose fields fit gives it back.
pub proof fn lemma_hole_words_round_trip(h: HoleReport)
    requires
        hole_fits(h),
    ensures
        hole_of(h.score, hole_words(h)) == h,
{
    lemma_outcome_round_trip(h.outcome);
    lemma_hole_words_bits(h.gp, if h.is_hole_in_one { 1u32 } else { 0u32 }, h.maximum_flight_distance, h.longest_chip_in, h.longest_putt, outcome_code(h.outcome), h.vs_point);
}

/// The wire layout of a report: the summary words, two scores, then a score
/// and three words for each of the eighteen holes.
pub open spec fn report_schema() -> Seq<Kind> {
    seq![Kind::Words(12), Kind::Byte, Kind::Byte] + Seq::new(
        36,
        |i: int| if i % 2 == 0 { Kind::Byte } else { Kind::Words(3) },
    )
}

/// The wire fields of a report.
pub open spec fn report_fields(r: GameReport) -> Seq<FieldV> {
    seq![FieldV::Words(report_words(r)), fb(r.halfway_score), fb(r.score)] + Seq::new(
        36,
        |i: int|
            if i % 2 == 0 {
                fb(r.holes@[i / 2].score)
            } else {
                FieldV::Words(hole_words(r.holes@[i / 2]))
            },
    )
}

/// The wire bytes of a report.
pub open spec fn report_bytes(r: GameReport) -> Seq<u8> {
    fields_bytes(report_fields(r))
}

fn report_schema_exec() -> (r: Vec<Kind>)
    ensures
        r@ == report_schema(),
{
    let mut r = vec![Kind::Words(12), Kind::Byte, Kind::Byte];
    let mut i: usize = 0;
    while i < 36
        invariant
            i <= 36,
            r@ == seq![Kind::Words(12), Kind::Byte, Kind::Byte] + Seq::new(
                i as nat,
                |k: int| if k % 2 == 0 { Kind::Byte } else { Kind::Words(3) },
            ),
        decreases 36 - i,
    {
        if i % 2 == 0 {
            r.push(Kind::Byte);
        } else {
            r.push(Kind::Words(3));
        }
        i += 1;
        assert(r@ =~= seq![Kind::Words(12), Kind::Byte, Kind::Byte] + Seq::new(
            i as nat,
            |k: int| if k % 2 == 0 { Kind::Byte } else { Kind::Words(3) },
        ));
    }
    r
}

proof fn lemma_report_fields_match(r: GameReport)
    requires
        r.holes@.len() == 18,
    ensures
        fields_match(report_schema(), report_fields(r)),
{
    let fs = report_fields(r);
    let sc = report_schema();
    assert forall|j: int| 0 <= j < sc.len() implies field_has_kind(#[trigger] fs[j], sc[j]) by {
        if j >= 3 {
            assert(fs[j] == report_fields(r)[j]);
        }
    }
}

impl GameReport {
    /// The wire bytes, or a range error when a field does not fit (or there are
    /// not eighteen holes).
    pub fn write(&self) -> (r: Result<Vec<u8>, CodecError>)
        ensures
            r is Ok <==> report_fits(*self),
            r is Ok ==> r.unwrap()@ == report_bytes(*self),
            r is Err ==> r == Err::<Vec<u8>, CodecError>(CodecError::OutOfRange),
    {
        if !self.fits() {
            return Err(CodecError::OutOfRange);
        }
        let mut fs: Vec<Field> = vec![
            Field::Words(self.words()),
            Field::Byte(self.halfway_score as u8),
            Field::Byte(self.score as u8),
        ];
        let mut i: usize = 0;
        while i < 18
            invariant
                i <= 18,
                self.holes@.len() == 18,
                fields_view(fs@) == report_fields(*self).subrange(0, 3 + 2 * i),
            decreases 18 - i,
        {
            let h = self.holes[i];
            let ghost before = fields_view(fs@);
            fs.push(Field::Byte(h.score as u8));
            fs.push(Field::Words(h.words()));
            proof {
                let rf = report_fields(*self);
                let k = 2 * i as int;
                assert(k / 2 == i && k % 2 == 0);
                assert((k + 1) / 2 == i && (k + 1) % 2 == 1);
                assert(rf[3 + k] == fb(h.score));
                assert(rf[4 + k] == FieldV::Words(hole_words(h)));
                assert(fields_view(fs@) =~= before.push(fb(h.score)).push(FieldV::Words(hole_words(h))));
            }
            i += 1;
            assert(fields_view(fs@) =~= report_fields(*self).subrange(0, 3 + 2 * i));
        }
        assert(report_fields(*self).subrange(0, 39) =~= report_fields(*self));
        let mut out: Vec<u8> = Vec::new();
        encode_fields(&mut out, &fs);
        assert(out@ =~= report_bytes(*self));
        Ok(out)
    }

    /// Decodes the report at the start of `input`; fails when it is too short.
    pub fn read(input: &[u8]) -> (r: Result<GameReport, CodecError>)
        ensures
            r is Ok <==> parse_fields(report_schema(), input@) is Some,
            r matches Ok(rep) ==> ({
                let fs = parse_fields(report_schema(), input@).unwrap();
                &&& fs[0] matches FieldV::Words(w) && rep == report_of_words(w, rep.halfway_score, rep.score, rep.holes)
                &&& fs[1] == fb(rep.halfway_score)
                &&& fs[2] == fb(rep.score)
                &&& rep.holes@.len() == 18
                &&& forall|i: int| 0 <= i < 18 ==> (fs[3 + 2 * i] == fb((#[trigger] rep.holes@[i]).score)
                    && (fs[4 + 2 * i] matches FieldV::Words(hw) && rep.holes@[i] == hole_of(rep.holes@[i].score, hw)))
            }),
            r is Err ==> r == Err::<GameReport, CodecError>(CodecError::Malformed),
    {
        let sc = report_schema_exec();
        let fs = match decode_fields(&sc, input) {
            Some(fs) => fs,
            None => return Err(CodecError::Malformed),
        };
        let ghost pf = parse_fields(report_schema(), input@).unwrap();
        proof {
            lemma_parse_matches(sc@, input@);
            assert(field_has_kind(pf[0], sc@[0]));
            assert(field_has_kind(pf[1], sc@[1]));
            assert(field_has_kind(pf[2], sc@[2]));
        }
        let w = get_words(fs.as_slice(), 0);
        let halfway_score = get_i8(fs.as_slice(), 1);
        let score = get_i8(fs.as_slice(), 2);
        let mut holes: Vec<HoleReport> = Vec::new();
        let mut i: usize = 0;
        while i < 18
            invariant
                i <= 18,
                fs@.len() == 39,
                fields_view(fs@) == pf,
                fields_match(report_schema(), pf),
                holes@.len() == i,
                forall|k: int| 0 <= k < i ==> (pf[3 + 2 * k] == fb((#[trigger] holes@[k]).score)
                    && (pf[4 + 2 * k] matches FieldV::Words(hw) && holes@[k] == hole_of(holes@[k].score, hw))),
            decreases 18 - i,
        {
            proof {
                assert(field_has_kind(pf[3 + 2 * i], report_schema()[3 + 2 * i]));
                assert(field_has_kind(pf[4 + 2 * i], report_schema()[4 + 2 * i]));
            }
            let s = get_i8(fs.as_slice(), 3 + 2 * i);
            let hw = get_words(fs.as_slice(), 4 + 2 * i);
            let h = HoleReport::from_words(s, &hw);
            holes.push(h);
            i += 1;
        }
        let rep = GameReport::from_words(&w, halfway_score, score, holes);
        Ok(rep)
    }
}

/// A report whose fields fit reads back from its bytes, whatever follows them:
/// the summary words decode to the same report and each hole's words to the same
/// hole.
pub proof fn lemma_report_round_trip(r: GameReport, rest: Seq<u8>)
    requires
        report_fits(r),
    ensures
        parse_fields(report_schema(), report_bytes(r) + rest) == Some(report_fields(r)),
        report_of_words(report_words(r), r.halfway_score, r.score, r.holes) == r,
        forall|i: int| 0 <= i < 18 ==> hole_of((#[trigger] r.holes@[i]).score, hole_words(r.holes@[i])) == r.holes@[i],
{
    lemma_report_fields_match(r);
    lemma_fields_round_trip(report_schema(), report_fields(r), rest);
    lemma_report_words_round_trip(r);
    assert forall|i: int| 0 <= i < 18 implies hole_of((#[trigger] r.holes@[i]).score, hole_words(r.holes@[i])) == r.holes@[i] by {
        lemma_hole_words_round_trip(r.holes@[i]);
    }
}

} // verus!
