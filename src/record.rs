//! Statistics records kept by the store and sent to clients.

use vstd::prelude::*;
use crate::bytes::CodecError;
use crate::fields::{
    Field, FieldV, Kind, fields_view, fields_match, field_has_kind, fields_bytes, parse_fields,
    encode_fields, decode_fields, lemma_fields_round_trip, lemma_parse_matches, fb, fh, fw,
    copy_vec, get_i8, get_i16, get_u16, get_i32, get_u32, get_bytes,
};

verus! {

/// A player's lifetime statistics.
#[derive(Clone, Debug, PartialEq, Eq)]
pub struct URecord {
    pub num_rounds: i16,
    pub total_strokes: i32,
    pub total_cup_ins: i32,
    pub max_drive: i32,
    pub max_putt: i16,
    pub max_chip_in: i32,
    pub total_putts: i32,
    pub num_nice_shots: i32,
    pub num_chip_in: i16,
    pub num_fairway_keep: i32,
    pub num_ob: i16,
    pub num_water_hazard: i16,
    pub num_4_or_more: u32,
    pub num_triple_bogies: i16,
    pub num_double_bogies: i16,
    pub num_bogies: i16,
    pub num_pars: i32,
    pub num_birdies: i32,
    pub num_eagles: i16,
    pub num_albatross: i16,
    pub num_hoi: i16,
    pub total_distance: i32,
    pub total_playtime: i32,
    pub total_holes: i32,
    pub highest_score: i8,
    pub lowest_score: i8,
    pub total_score: i16,
    pub num_retirements: i16,
    pub num_direct_chip_ins: i16,
    pub num_rough: i32,
    pub num_bunker: i32,
    pub num_obstacle_hits: i32,
    pub num_pinshots: i16,
    pub num_flagshots: i16,
    pub total_vs_participation: i32,
    pub total_tournament_participation: i32,
    pub total_quick_participation: i32,
    pub num_consumable_item_usage: i32,
    pub x_74: i32,
    pub x_78: i32,
    pub num_logins: i16,
    pub x_7e: i32,
    pub num_1st: i16,
    pub num_2nd: i16,
    pub num_3rd: i16,
    pub num_1st_cafe: i16,
    pub num_2nd_cafe: i16,
    pub num_3rd_cafe: i16,
    pub total_round_gp: i32,
    pub x_92: Vec<u8>,
}

pub open spec fn urecord_schema() -> Seq<Kind> {
    seq![Kind::Half, Kind::Word, Kind::Word, Kind::Word, Kind::Half, Kind::Word, Kind::Word, Kind::Word, Kind::Half, Kind::Word, Kind::Half, Kind::Half, Kind::Word, Kind::Half, Kind::Half, Kind::Half, Kind::Word, Kind::Word, Kind::Half, Kind::Half, Kind::Half, Kind::Word, Kind::Word, Kind::Word, Kind::Byte, Kind::Byte, Kind::Half, Kind::Half, Kind::Half, Kind::Word, Kind::Word, Kind::Word, Kind::Half, Kind::Half, Kind::Word, Kind::Word, Kind::Word, Kind::Word, Kind::Word, Kind::Word, Kind::Half, Kind::Word, Kind::Half, Kind::Half, Kind::Half, Kind::Half, Kind::Half, Kind::Half, Kind::Word, Kind::Bytes(14)]
}

pub open spec fn urecord_fields(s: URecord) -> Seq<FieldV> {
    seq![fh(s.num_rounds), fw(s.total_strokes), fw(s.total_cup_ins), fw(s.max_drive), fh(s.max_putt), fw(s.max_chip_in), fw(s.total_putts), fw(s.num_nice_shots), fh(s.num_chip_in), fw(s.num_fairway_keep), fh(s.num_ob), fh(s.num_water_hazard), FieldV::Word(s.num_4_or_more), fh(s.num_triple_bogies), fh(s.num_double_bogies), fh(s.num_bogies), fw(s.num_pars), fw(s.num_birdies), fh(s.num_eagles), fh(s.num_albatross), fh(s.num_hoi), fw(s.total_distance), fw(s.total_playtime), fw(s.total_holes), fb(s.highest_score), fb(s.lowest_score), fh(s.total_score), fh(s.num_retirements), fh(s.num_direct_chip_ins), fw(s.num_rough), fw(s.num_bunker), fw(s.num_obstacle_hits), fh(s.num_pinshots), fh(s.num_flagshots), fw(s.total_vs_participation), fw(s.total_tournament_participation), fw(s.total_quick_participation), fw(s.num_consumable_item_usage), fw(s.x_74), fw(s.x_78), fh(s.num_logins), fw(s.x_7e), fh(s.num_1st), fh(s.num_2nd), fh(s.num_3rd), fh(s.num_1st_cafe), fh(s.num_2nd_cafe), fh(s.num_3rd_cafe), fw(s.total_round_gp), FieldV::Bytes(s.x_92@)]
}

impl URecord {
    pub fn schema() -> (r: Vec<Kind>)
        ensures
            r@ == urecord_schema(),
    {
        vec![Kind::Half, Kind::Word, Kind::Word, Kind::Word, Kind::Half, Kind::Word, Kind::Word, Kind::Word, Kind::Half, Kind::Word, Kind::Half, Kind::Half, Kind::Word, Kind::Half, Kind::Half, Kind::Half, Kind::Word, Kind::Word, Kind::Half, Kind::Half, Kind::Half, Kind::Word, Kind::Word, Kind::Word, Kind::Byte, Kind::Byte, Kind::Half, Kind::Half, Kind::Half, Kind::Word, Kind::Word, Kind::Word, Kind::Half, Kind::Half, Kind::Word, Kind::Word, Kind::Word, Kind::Word, Kind::Word, Kind::Word, Kind::Half, Kind::Word, Kind::Half, Kind::Half, Kind::Half, Kind::Half, Kind::Half, Kind::Half, Kind::Word, Kind::Bytes(14)]
    }

    pub fn to_fields(&self) -> (r: Vec<Field>)
        ensures
            fields_view(r@) == urecord_fields(*self),
    {
        let r = vec![Field::Half(self.num_rounds as u16), Field::Word(self.total_strokes as u32), Field::Word(self.total_cup_ins as u32), Field::Word(self.max_drive as u32), Field::Half(self.max_putt as u16), Field::Word(self.max_chip_in as u32), Field::Word(self.total_putts as u32), Field::Word(self.num_nice_shots as u32), Field::Half(self.num_chip_in as u16), Field::Word(self.num_fairway_keep as u32), Field::Half(self.num_ob as u16), Field::Half(self.num_water_hazard as u16), Field::Word(self.num_4_or_more), Field::Half(self.num_triple_bogies as u16), Field::Half(self.num_double_bogies as u16), Field::Half(self.num_bogies as u16), Field::Word(self.num_pars as u32), Field::Word(self.num_birdies as u32), Field::Half(self.num_eagles as u16), Field::Half(self.num_albatross as u16), Field::Half(self.num_hoi as u16), Field::Word(self.total_distance as u32), Field::Word(self.total_playtime as u32), Field::Word(self.total_holes as u32), Field::Byte(self.highest_score as u8), Field::Byte(self.lowest_score as u8), Field::Half(self.total_score as u16), Field::Half(self.num_retirements as u16), Field::Half(self.num_direct_chip_ins as u16), Field::Word(self.num_rough as u32), Field::Word(self.num_bunker as u32), Field::Word(self.num_obstacle_hits as u32), Field::Half(self.num_pinshots as u16), Field::Half(self.num_flagshots as u16), Field::Word(self.total_vs_participation as u32), Field::Word(self.total_tournament_participation as u32), Field::Word(self.total_quick_participation as u32), Field::Word(self.num_consumable_item_usage as u32), Field::Word(self.x_74 as u32), Field::Word(self.x_78 as u32), Field::Half(self.num_logins as u16), Field::Word(self.x_7e as u32), Field::Half(self.num_1st as u16), Field::Half(self.num_2nd as u16), Field::Half(self.num_3rd as u16), Field::Half(self.num_1st_cafe as u16), Field::Half(self.num_2nd_cafe as u16), Field::Half(self.num_3rd_cafe as u16), Field::Word(self.total_round_gp as u32), Field::Bytes(copy_vec(&self.x_92))];
        assert(fields_view(r@) =~= urecord_fields(*self));
        r
    }

    pub fn from_fields(fs: &[Field]) -> (r: URecord)
        requires
            fields_match(urecord_schema(), fields_view(fs@)),
        ensures
            urecord_fields(r) == fields_view(fs@),
    {
        proof {
            assert(field_has_kind(fields_view(fs@)[0], urecord_schema()[0]));
            assert(field_has_kind(fields_view(fs@)[1], urecord_schema()[1]));
            assert(field_has_kind(fields_view(fs@)[2], urecord_schema()[2]));
            assert(field_has_kind(fields_view(fs@)[3], urecord_schema()[3]));
            assert(field_has_kind(fields_view(fs@)[4], urecord_schema()[4]));
            assert(field_has_kind(fields_view(fs@)[5], urecord_schema()[5]));
            assert(field_has_kind(fields_view(fs@)[6], urecord_schema()[6]));
            assert(field_has_kind(fields_view(fs@)[7], urecord_schema()[7]));
            assert(field_has_kind(fields_view(fs@)[8], urecord_schema()[8]));
            assert(field_has_kind(fields_view(fs@)[9], urecord_schema()[9]));
            assert(field_has_kind(fields_view(fs@)[10], urecord_schema()[10]));
            assert(field_has_kind(fields_view(fs@)[11], urecord_schema()[11]));
            assert(field_has_kind(fields_view(fs@)[12], urecord_schema()[12]));
            assert(field_has_kind(fields_view(fs@)[13], urecord_schema()[13]));
            assert(field_has_kind(fields_view(fs@)[14], urecord_schema()[14]));
            assert(field_has_kind(fields_view(fs@)[15], urecord_schema()[15]));
            assert(field_has_kind(fields_view(fs@)[16], urecord_schema()[16]));
            assert(field_has_kind(fields_view(fs@)[17], urecord_schema()[17]));
            assert(field_has_kind(fields_view(fs@)[18], urecord_schema()[18]));
            assert(field_has_kind(fields_view(fs@)[19], urecord_schema()[19]));
            assert(field_has_kind(fields_view(fs@)[20], urecord_schema()[20]));
            assert(field_has_kind(fields_view(fs@)[21], urecord_schema()[21]));
            assert(field_has_kind(fields_view(fs@)[22], urecord_schema()[22]));
            assert(field_has_kind(fields_view(fs@)[23], urecord_schema()[23]));
            assert(field_has_kind(fields_view(fs@)[24], urecord_schema()[24]));
            assert(field_has_kind(fields_view(fs@)[25], urecord_schema()[25]));
            assert(field_has_kind(fields_view(fs@)[26], urecord_schema()[26]));
            assert(field_has_kind(fields_view(fs@)[27], urecord_schema()[27]));
            assert(field_has_kind(fields_view(fs@)[28], urecord_schema()[28]));
            assert(field_has_kind(fields_view(fs@)[29], urecord_schema()[29]));
            assert(field_has_kind(fields_view(fs@)[30], urecord_schema()[30]));
            assert(field_has_kind(fields_view(fs@)[31], urecord_schema()[31]));
            assert(field_has_kind(fields_view(fs@)[32], urecord_schema()[32]));
            assert(field_has_kind(fields_view(fs@)[33], urecord_schema()[33]));
            assert(field_has_kind(fields_view(fs@)[34], urecord_schema()[34]));
            assert(field_has_kind(fields_view(fs@)[35], urecord_schema()[35]));
            assert(field_has_kind(fields_view(fs@)[36], urecord_schema()[36]));
            assert(field_has_kind(fields_view(fs@)[37], urecord_schema()[37]));
            assert(field_has_kind(fields_view(fs@)[38], urecord_schema()[38]));
            assert(field_has_kind(fields_view(fs@)[39], urecord_schema()[39]));
            assert(field_has_kind(fields_view(fs@)[40], urecord_schema()[40]));
            assert(field_has_kind(fields_view(fs@)[41], urecord_schema()[41]));
            assert(field_has_kind(fields_view(fs@)[42], urecord_schema()[42]));
            assert(field_has_kind(fields_view(fs@)[43], urecord_schema()[43]));
            assert(field_has_kind(fields_view(fs@)[44], urecord_schema()[44]));
            assert(field_has_kind(fields_view(fs@)[45], urecord_schema()[45]));
            assert(field_has_kind(fields_view(fs@)[46], urecord_schema()[46]));
            assert(field_has_kind(fields_view(fs@)[47], urecord_schema()[47]));
            assert(field_has_kind(fields_view(fs@)[48], urecord_schema()[48]));
            assert(field_has_kind(fields_view(fs@)[49], urecord_schema()[49]));
        }
        let r = URecord {
            num_rounds: get_i16(fs, 0),
            total_strokes: get_i32(fs, 1),
            total_cup_ins: get_i32(fs, 2),
            max_drive: get_i32(fs, 3),
            max_putt: get_i16(fs, 4),
            max_chip_in: get_i32(fs, 5),
            total_putts: get_i32(fs, 6),
            num_nice_shots: get_i32(fs, 7),
            num_chip_in: get_i16(fs, 8),
            num_fairway_keep: get_i32(fs, 9),
            num_ob: get_i16(fs, 10),
            num_water_hazard: get_i16(fs, 11),
            num_4_or_more: get_u32(fs, 12),
            num_triple_bogies: get_i16(fs, 13),
            num_double_bogies: get_i16(fs, 14),
            num_bogies: get_i16(fs, 15),
            num_pars: get_i32(fs, 16),
            num_birdies: get_i32(fs, 17),
            num_eagles: get_i16(fs, 18),
            num_albatross: get_i16(fs, 19),
            num_hoi: get_i16(fs, 20),
            total_distance: get_i32(fs, 21),
            total_playtime: get_i32(fs, 22),
            total_holes: get_i32(fs, 23),
            highest_score: get_i8(fs, 24),
            lowest_score: get_i8(fs, 25),
            total_score: get_i16(fs, 26),
            num_retirements: get_i16(fs, 27),
            num_direct_chip_ins: get_i16(fs, 28),
            num_rough: get_i32(fs, 29),
            num_bunker: get_i32(fs, 30),
            num_obstacle_hits: get_i32(fs, 31),
            num_pinshots: get_i16(fs, 32),
            num_flagshots: get_i16(fs, 33),
            total_vs_participation: get_i32(fs, 34),
            total_tournament_participation: get_i32(fs, 35),
            total_quick_participation: get_i32(fs, 36),
            num_consumable_item_usage: get_i32(fs, 37),
            x_74: get_i32(fs, 38),
            x_78: get_i32(fs, 39),
            num_logins: get_i16(fs, 40),
            x_7e: get_i32(fs, 41),
            num_1st: get_i16(fs, 42),
            num_2nd: get_i16(fs, 43),
            num_3rd: get_i16(fs, 44),
            num_1st_cafe: get_i16(fs, 45),
            num_2nd_cafe: get_i16(fs, 46),
            num_3rd_cafe: get_i16(fs, 47),
            total_round_gp: get_i32(fs, 48),
            x_92: get_bytes(fs, 49),
        };
        assert(urecord_fields(r) =~= fields_view(fs@));
        r
    }
}

impl URecord {
    /// Whether every array field has its fixed length.
    pub fn fits(&self) -> (r: bool)
        ensures
            r == fields_match(urecord_schema(), urecord_fields(*self)),
    {
        let r = self.x_92.len() == 14;
        proof {
            if r {
                assert forall|j: int| 0 <= j < 50 implies field_has_kind(#[trigger] urecord_fields(*self)[j], urecord_schema()[j]) by {
                    if j == 0 {} else if j == 1 {} else if j == 2 {} else if j == 3 {} else if j == 4 {} else if j == 5 {} else if j == 6 {} else if j == 7 {} else if j == 8 {} else if j == 9 {} else if j == 10 {} else if j == 11 {} else if j == 12 {} else if j == 13 {} else if j == 14 {} else if j == 15 {} else if j == 16 {} else if j == 17 {} else if j == 18 {} else if j == 19 {} else if j == 20 {} else if j == 21 {} else if j == 22 {} else if j == 23 {} else if j == 24 {} else if j == 25 {} else if j == 26 {} else if j == 27 {} else if j == 28 {} else if j == 29 {} else if j == 30 {} else if j == 31 {} else if j == 32 {} else if j == 33 {} else if j == 34 {} else if j == 35 {} else if j == 36 {} else if j == 37 {} else if j == 38 {} else if j == 39 {} else if j == 40 {} else if j == 41 {} else if j == 42 {} else if j == 43 {} else if j == 44 {} else if j == 45 {} else if j == 46 {} else if j == 47 {} else if j == 48 {} else if j == 49 {}
                }
            } else {
                if self.x_92.len() != 14 { assert(!field_has_kind(urecord_fields(*self)[49], urecord_schema()[49])); }
            }
        }
        r
    }
}

/// Global records for one course.
#[derive(Clone, Debug, PartialEq, Eq)]
pub struct GCRecord {
    pub course: i8,
    pub season: i8,
    pub unk: i8,
    pub max_score: i32,
    pub max_score_uid: i32,
    pub max_score_title: i16,
    pub max_gp: i32,
    pub max_gp_uid: i32,
    pub max_gp_title: i16,
}

pub open spec fn gc_record_schema() -> Seq<Kind> {
    seq![Kind::Byte, Kind::Byte, Kind::Byte, Kind::Word, Kind::Word, Kind::Half, Kind::Word, Kind::Word, Kind::Half]
}

pub open spec fn gc_record_fields(s: GCRecord) -> Seq<FieldV> {
    seq![fb(s.course), fb(s.season), fb(s.unk), fw(s.max_score), fw(s.max_score_uid), fh(s.max_score_title), fw(s.max_gp), fw(s.max_gp_uid), fh(s.max_gp_title)]
}

impl GCRecord {
    pub fn schema() -> (r: Vec<Kind>)
        ensures
            r@ == gc_record_schema(),
    {
        vec![Kind::Byte, Kind::Byte, Kind::Byte, Kind::Word, Kind::Word, Kind::Half, Kind::Word, Kind::Word, Kind::Half]
    }

    pub fn to_fields(&self) -> (r: Vec<Field>)
        ensures
            fields_view(r@) == gc_record_fields(*self),
    {
        let r = vec![Field::Byte(self.course as u8), Field::Byte(self.season as u8), Field::Byte(self.unk as u8), Field::Word(self.max_score as u32), Field::Word(self.max_score_uid as u32), Field::Half(self.max_score_title as u16), Field::Word(self.max_gp as u32), Field::Word(self.max_gp_uid as u32), Field::Half(self.max_gp_title as u16)];
        assert(fields_view(r@) =~= gc_record_fields(*self));
        r
    }

    pub fn from_fields(fs: &[Field]) -> (r: GCRecord)
        requires
            fields_match(gc_record_schema(), fields_view(fs@)),
        ensures
            gc_record_fields(r) == fields_view(fs@),
    {
        proof {
            assert(field_has_kind(fields_view(fs@)[0], gc_record_schema()[0]));
            assert(field_has_kind(fields_view(fs@)[1], gc_record_schema()[1]));
            assert(field_has_kind(fields_view(fs@)[2], gc_record_schema()[2]));
            assert(field_has_kind(fields_view(fs@)[3], gc_record_schema()[3]));
            assert(field_has_kind(fields_view(fs@)[4], gc_record_schema()[4]));
            assert(field_has_kind(fields_view(fs@)[5], gc_record_schema()[5]));
            assert(field_has_kind(fields_view(fs@)[6], gc_record_schema()[6]));
            assert(field_has_kind(fields_view(fs@)[7], gc_record_schema()[7]));
            assert(field_has_kind(fields_view(fs@)[8], gc_record_schema()[8]));
        }
        let r = GCRecord {
            course: get_i8(fs, 0),
            season: get_i8(fs, 1),
            unk: get_i8(fs, 2),
            max_score: get_i32(fs, 3),
            max_score_uid: get_i32(fs, 4),
            max_score_title: get_i16(fs, 5),
            max_gp: get_i32(fs, 6),
            max_gp_uid: get_i32(fs, 7),
            max_gp_title: get_i16(fs, 8),
        };
        assert(gc_record_fields(r) =~= fields_view(fs@));
        r
    }
}

impl GCRecord {
    /// Whether every array field has its fixed length.
    pub fn fits(&self) -> (r: bool)
        ensures
            r == fields_match(gc_record_schema(), gc_record_fields(*self)),
    {
        let r = true;
        proof {
            if r {
                assert forall|j: int| 0 <= j < 9 implies field_has_kind(#[trigger] gc_record_fields(*self)[j], gc_record_schema()[j]) by {
                    if j == 0 {} else if j == 1 {} else if j == 2 {} else if j == 3 {} else if j == 4 {} else if j == 5 {} else if j == 6 {} else if j == 7 {} else if j == 8 {}
                }
            }
        }
        r
    }
}

/// Global records for one hole of a course.
#[derive(Clone, Debug, PartialEq, Eq)]
pub struct GHRecord {
    pub score: i8,
    pub score_uid: i32,
    pub score_title: i16,
    pub gp: i32,
    pub gp_uid: i32,
    pub gp_title: i16,
    pub hio_uid: i32,
    pub hio_title: i16,
    pub drive: i16,
    pub drive_uid: i32,
    pub drive_title: i16,
    pub chipin: i16,
    pub chipin_uid: i32,
    pub chipin_title: i16,
    pub putt: i16,
    pub putt_uid: i32,
    pub putt_title: i16,
}

pub open spec fn gh_record_schema() -> Seq<Kind> {
    seq![Kind::Byte, Kind::Word, Kind::Half, Kind::Word, Kind::Word, Kind::Half, Kind::Word, Kind::Half, Kind::Half, Kind::Word, Kind::Half, Kind::Half, Kind::Word, Kind::Half, Kind::Half, Kind::Word, Kind::Half]
}

pub open spec fn gh_record_fields(s: GHRecord) -> Seq<FieldV> {
    seq![fb(s.score), fw(s.score_uid), fh(s.score_title), fw(s.gp), fw(s.gp_uid), fh(s.gp_title), fw(s.hio_uid), fh(s.hio_title), fh(s.drive), fw(s.drive_uid), fh(s.drive_title), fh(s.chipin), fw(s.chipin_uid), fh(s.chipin_title), fh(s.putt), fw(s.putt_uid), fh(s.putt_title)]
}

impl GHRecord {
    pub fn schema() -> (r: Vec<Kind>)
        ensures
            r@ == gh_record_schema(),
    {
        vec![Kind::Byte, Kind::Word, Kind::Half, Kind::Word, Kind::Word, Kind::Half, Kind::Word, Kind::Half, Kind::Half, Kind::Word, Kind::Half, Kind::Half, Kind::Word, Kind::Half, Kind::Half, Kind::Word, Kind::Half]
    }

    pub fn to_fields(&self) -> (r: Vec<Field>)
        ensures
            fields_view(r@) == gh_record_fields(*self),
    {
        let r = vec![Field::Byte(self.score as u8), Field::Word(self.score_uid as u32), Field::Half(self.score_title as u16), Field::Word(self.gp as u32), Field::Word(self.gp_uid as u32), Field::Half(self.gp_title as u16), Field::Word(self.hio_uid as u32), Field::Half(self.hio_title as u16), Field::Half(self.drive as u16), Field::Word(self.drive_uid as u32), Field::Half(self.drive_title as u16), Field::Half(self.chipin as u16), Field::Word(self.chipin_uid as u32), Field::Half(self.chipin_title as u16), Field::Half(self.putt as u16), Field::Word(self.putt_uid as u32), Field::Half(self.putt_title as u16)];
        assert(fields_view(r@) =~= gh_record_fields(*self));
        r
    }

    pub fn from_fields(fs: &[Field]) -> (r: GHRecord)
        requires
            fields_match(gh_record_schema(), fields_view(fs@)),
        ensures
            gh_record_fields(r) == fields_view(fs@),
    {
        proof {
            assert(field_has_kind(fields_view(fs@)[0], gh_record_schema()[0]));
            assert(field_has_kind(fields_view(fs@)[1], gh_record_schema()[1]));
            assert(field_has_kind(fields_view(fs@)[2], gh_record_schema()[2]));
            assert(field_has_kind(fields_view(fs@)[3], gh_record_schema()[3]));
            assert(field_has_kind(fields_view(fs@)[4], gh_record_schema()[4]));
            assert(field_has_kind(fields_view(fs@)[5], gh_record_schema()[5]));
            assert(field_has_kind(fields_view(fs@)[6], gh_record_schema()[6]));
            assert(field_has_kind(fields_view(fs@)[7], gh_record_schema()[7]));
            assert(field_has_kind(fields_view(fs@)[8], gh_record_schema()[8]));
            assert(field_has_kind(fields_view(fs@)[9], gh_record_schema()[9]));
            assert(field_has_kind(fields_view(fs@)[10], gh_record_schema()[10]));
            assert(field_has_kind(fields_view(fs@)[11], gh_record_schema()[11]));
            assert(field_has_kind(fields_view(fs@)[12], gh_record_schema()[12]));
            assert(field_has_kind(fields_view(fs@)[13], gh_record_schema()[13]));
            assert(field_has_kind(fields_view(fs@)[14], gh_record_schema()[14]));
            assert(field_has_kind(fields_view(fs@)[15], gh_record_schema()[15]));
            assert(field_has_kind(fields_view(fs@)[16], gh_record_schema()[16]));
        }
        let r = GHRecord {
            score: get_i8(fs, 0),
            score_uid: get_i32(fs, 1),
            score_title: get_i16(fs, 2),
            gp: get_i32(fs, 3),
            gp_uid: get_i32(fs, 4),
            gp_title: get_i16(fs, 5),
            hio_uid: get_i32(fs, 6),
            hio_title: get_i16(fs, 7),
            drive: get_i16(fs, 8),
            drive_uid: get_i32(fs, 9),
            drive_title: get_i16(fs, 10),
            chipin: get_i16(fs, 11),
            chipin_uid: get_i32(fs, 12),
            chipin_title: get_i16(fs, 13),
            putt: get_i16(fs, 14),
            putt_uid: get_i32(fs, 15),
            putt_title: get_i16(fs, 16),
        };
        assert(gh_record_fields(r) =~= fields_view(fs@));
        r
    }
}

impl GHRecord {
    /// Whether every array field has its fixed length.
    pub fn fits(&self) -> (r: bool)
        ensures
            r == fields_match(gh_record_schema(), gh_record_fields(*self)),
    {
        let r = true;
        proof {
            if r {
                assert forall|j: int| 0 <= j < 17 implies field_has_kind(#[trigger] gh_record_fields(*self)[j], gh_record_schema()[j]) by {
                    if j == 0 {} else if j == 1 {} else if j == 2 {} else if j == 3 {} else if j == 4 {} else if j == 5 {} else if j == 6 {} else if j == 7 {} else if j == 8 {} else if j == 9 {} else if j == 10 {} else if j == 11 {} else if j == 12 {} else if j == 13 {} else if j == 14 {} else if j == 15 {} else if j == 16 {}
                }
            }
        }
        r
    }
}

/// The wire form of a course record, before its packed words are split.
#[derive(Clone, Debug, PartialEq, Eq)]
pub struct CRecordWire {
    pub mx_score: i8,
    pub lowest_score: i8,
    pub total_score: i8,
    pub array: Vec<u8>,
    pub num_rounds: u16,
    pub max_gp: u16,
    pub total_gp: u32,
    /// Only the low 8 bits mean something.
    pub max_exp: u32,
    pub total_exp: u32,
    /// Only the low 18 bits mean something.
    pub max_drive: u32,
    /// Longest chip-in in bits 0 to 17, longest putt in bits 18 to 31.
    pub chip_putt: u32,
    /// Only the low 16 bits mean something.
    pub unk: u32,
}

pub open spec fn crecord_wire_schema() -> Seq<Kind> {
    seq![Kind::Byte, Kind::Byte, Kind::Byte, Kind::Bytes(18), Kind::Half, Kind::Half, Kind::Word, Kind::Word, Kind::Word, Kind::Word, Kind::Word, Kind::Word]
}

pub open spec fn crecord_wire_fields(s: CRecordWire) -> Seq<FieldV> {
    seq![fb(s.mx_score), fb(s.lowest_score), fb(s.total_score), FieldV::Bytes(s.array@), FieldV::Half(s.num_rounds), FieldV::Half(s.max_gp), FieldV::Word(s.total_gp), FieldV::Word(s.max_exp), FieldV::Word(s.total_exp), FieldV::Word(s.max_drive), FieldV::Word(s.chip_putt), FieldV::Word(s.unk)]
}

impl CRecordWire {
    pub fn schema() -> (r: Vec<Kind>)
        ensures
            r@ == crecord_wire_schema(),
    {
        vec![Kind::Byte, Kind::Byte, Kind::Byte, Kind::Bytes(18), Kind::Half, Kind::Half, Kind::Word, Kind::Word, Kind::Word, Kind::Word, Kind::Word, Kind::Word]
    }

    pub fn to_fields(&self) -> (r: Vec<Field>)
        ensures
            fields_view(r@) == crecord_wire_fields(*self),
    {
        let r = vec![Field::Byte(self.mx_score as u8), Field::Byte(self.lowest_score as u8), Field::Byte(self.total_score as u8), Field::Bytes(copy_vec(&self.array)), Field::Half(self.num_rounds), Field::Half(self.max_gp), Field::Word(self.total_gp), Field::Word(self.max_exp), Field::Word(self.total_exp), Field::Word(self.max_drive), Field::Word(self.chip_putt), Field::Word(self.unk)];
        assert(fields_view(r@) =~= crecord_wire_fields(*self));
        r
    }

    pub fn from_fields(fs: &[Field]) -> (r: CRecordWire)
        requires
            fields_match(crecord_wire_schema(), fields_view(fs@)),
        ensures
            crecord_wire_fields(r) == fields_view(fs@),
    {
        proof {
            assert(field_has_kind(fields_view(fs@)[0], crecord_wire_schema()[0]));
            assert(field_has_kind(fields_view(fs@)[1], crecord_wire_schema()[1]));
            assert(field_has_kind(fields_view(fs@)[2], crecord_wire_schema()[2]));
            assert(field_has_kind(fields_view(fs@)[3], crecord_wire_schema()[3]));
            assert(field_has_kind(fields_view(fs@)[4], crecord_wire_schema()[4]));
            assert(field_has_kind(fields_view(fs@)[5], crecord_wire_schema()[5]));
            assert(field_has_kind(fields_view(fs@)[6], crecord_wire_schema()[6]));
            assert(field_has_kind(fields_view(fs@)[7], crecord_wire_schema()[7]));
            assert(field_has_kind(fields_view(fs@)[8], crecord_wire_schema()[8]));
            assert(field_has_kind(fields_view(fs@)[9], crecord_wire_schema()[9]));
            assert(field_has_kind(fields_view(fs@)[10], crecord_wire_schema()[10]));
            assert(field_has_kind(fields_view(fs@)[11], crecord_wire_schema()[11]));
        }
        let r = CRecordWire {
            mx_score: get_i8(fs, 0),
            lowest_score: get_i8(fs, 1),
            total_score: get_i8(fs, 2),
            array: get_bytes(fs, 3),
            num_rounds: get_u16(fs, 4),
            max_gp: get_u16(fs, 5),
            total_gp: get_u32(fs, 6),
            max_exp: get_u32(fs, 7),
            total_exp: get_u32(fs, 8),
            max_drive: get_u32(fs, 9),
            chip_putt: get_u32(fs, 10),
            unk: get_u32(fs, 11),
        };
        assert(crecord_wire_fields(r) =~= fields_view(fs@));
        r
    }
}

impl CRecordWire {
    /// Whether every array field has its fixed length.
    pub fn fits(&self) -> (r: bool)
        ensures
            r == fields_match(crecord_wire_schema(), crecord_wire_fields(*self)),
    {
        let r = self.array.len() == 18;
        proof {
            if r {
                assert forall|j: int| 0 <= j < 12 implies field_has_kind(#[trigger] crecord_wire_fields(*self)[j], crecord_wire_schema()[j]) by {
                    if j == 0 {} else if j == 1 {} else if j == 2 {} else if j == 3 {} else if j == 4 {} else if j == 5 {} else if j == 6 {} else if j == 7 {} else if j == 8 {} else if j == 9 {} else if j == 10 {} else if j == 11 {}
                }
            } else {
                if self.array.len() != 18 { assert(!field_has_kind(crecord_wire_fields(*self)[3], crecord_wire_schema()[3])); }
            }
        }
        r
    }
}

/// A player's records for one course, season and hole count.
#[derive(Clone, Debug, PartialEq, Eq)]
pub struct CRecord {
    /// Best score.
    pub mx_score: i8,
    /// Lowest score (-99 when none).
    pub lowest_score: i8,
    /// Total score (99 when none).
    pub total_score: i8,
    /// Eighteen bytes of unknown meaning.
    pub array: Vec<u8>,
    pub num_rounds: u16,
    pub max_gp: u16,
    pub total_gp: u32,
    /// 8 bits.
    pub max_exp: u32,
    pub total_exp: u32,
    /// 18 bits.
    pub max_drive: u32,
    /// 18 bits.
    pub max_chipin: u32,
    /// 14 bits.
    pub max_putt: u32,
    /// 16 bits.
    pub unk: u32,
}

/// Every field of a course record fits its bit range.
pub open spec fn crecord_fits(c: CRecord) -> bool {
    &&& c.array@.len() == 18
    &&& c.max_exp <= 0xFF
    &&& c.max_drive <= 0x3FFFF
    &&& c.max_chipin <= 0x3FFFF
    &&& c.max_putt <= 0x3FFF
    &&& c.unk <= 0xFFFF
}

/// Whether course record `c` is what wire form `w` decodes to.
pub open spec fn crecord_of_wire(w: CRecordWire, c: CRecord) -> bool {
    &&& c.mx_score == w.mx_score
    &&& c.lowest_score == w.lowest_score
    &&& c.total_score == w.total_score
    &&& c.array@ == w.array@
    &&& c.num_rounds == w.num_rounds
    &&& c.max_gp == w.max_gp
    &&& c.total_gp == w.total_gp
    &&& c.max_exp == w.max_exp & 0xFF
    &&& c.total_exp == w.total_exp
    &&& c.max_drive == w.max_drive & 0x3FFFF
    &&& c.max_chipin == w.chip_putt & 0x3FFFF
    &&& c.max_putt == w.chip_putt >> 18
    &&& c.unk == w.unk & 0xFFFF
}

/// Whether wire form `w` is what course record `c` encodes to.
pub open spec fn wire_of_crecord(c: CRecord, w: CRecordWire) -> bool {
    &&& w.mx_score == c.mx_score
    &&& w.lowest_score == c.lowest_score
    &&& w.total_score == c.total_score
    &&& w.array@ == c.array@
    &&& w.num_rounds == c.num_rounds
    &&& w.max_gp == c.max_gp
    &&& w.total_gp == c.total_gp
    &&& w.max_exp == c.max_exp
    &&& w.total_exp == c.total_exp
    &&& w.max_drive == c.max_drive
    &&& w.chip_putt == c.max_chipin | (c.max_putt << 18)
    &&& w.unk == c.unk
}

proof fn lemma_crecord_bits(e: u32, d: u32, ch: u32, p: u32, u: u32)
    requires
        e <= 0xFF,
        d <= 0x3FFFF,
        ch <= 0x3FFFF,
        p <= 0x3FFF,
        u <= 0xFFFF,
    ensures
        e & 0xFF == e,
        d & 0x3FFFF == d,
        (ch | (p << 18)) & 0x3FFFF == ch,
        (ch | (p << 18)) >> 18 == p,
        u & 0xFFFF == u,
{
    assert(e & 0xFF == e && d & 0x3FFFF == d && (ch | (p << 18)) & 0x3FFFF == ch && (ch | (p << 18))
        >> 18 == p && u & 0xFFFF == u) by (bit_vector)
        requires
            e <= 0xFF,
            d <= 0x3FFFF,
            ch <= 0x3FFFF,
            p <= 0x3FFF,
            u <= 0xFFFF,
    ;
}

/// Whether two course records hold the same values.
pub open spec fn crecord_same(a: CRecord, b: CRecord) -> bool {
    &&& a.mx_score == b.mx_score
    &&& a.lowest_score == b.lowest_score
    &&& a.total_score == b.total_score
    &&& a.array@ == b.array@
    &&& a.num_rounds == b.num_rounds
    &&& a.max_gp == b.max_gp
    &&& a.total_gp == b.total_gp
    &&& a.max_exp == b.max_exp
    &&& a.total_exp == b.total_exp
    &&& a.max_drive == b.max_drive
    &&& a.max_chipin == b.max_chipin
    &&& a.max_putt == b.max_putt
    &&& a.unk == b.unk
}

/// A course record whose fields fit reads back from its wire form with the same values.
pub proof fn lemma_crecord_round_trip(c: CRecord, w: CRecordWire, d: CRecord)
    requires
        crecord_fits(c),
        wire_of_crecord(c, w),
        crecord_of_wire(w, d),
    ensures
        crecord_same(d, c),
{
    lemma_crecord_bits(c.max_exp, c.max_drive, c.max_chipin, c.max_putt, c.unk);
}

impl CRecord {
    /// The record of a course never played: lowest score -99, total 99, all else zero.
    pub fn new() -> (r: CRecord)
        ensures
            r.lowest_score == -99 && r.total_score == 99 && r.mx_score == 0,
            r.array@.len() == 18 && r.num_rounds == 0 && r.max_gp == 0 && r.total_gp == 0,
            r.max_exp == 0 && r.total_exp == 0 && r.max_drive == 0 && r.max_chipin == 0,
            r.max_putt == 0 && r.unk == 0,
            crecord_fits(r),
    {
        CRecord {
            mx_score: 0,
            lowest_score: -99,
            total_score: 99,
            array: crate::server::vec_of(0u8, 18),
            num_rounds: 0,
            max_gp: 0,
            total_gp: 0,
            max_exp: 0,
            total_exp: 0,
            max_drive: 0,
            max_chipin: 0,
            max_putt: 0,
            unk: 0,
        }
    }

    /// Whether every field fits its bit range.
    pub fn fits(&self) -> (r: bool)
        ensures
            r == crecord_fits(*self),
    {
        self.array.len() == 18 && self.max_exp <= 0xFF && self.max_drive <= 0x3FFFF
            && self.max_chipin <= 0x3FFFF && self.max_putt <= 0x3FFF && self.unk <= 0xFFFF
    }

    /// The wire form.
    pub fn to_wire(&self) -> (w: CRecordWire)
        ensures
            wire_of_crecord(*self, w),
    {
        CRecordWire {
            mx_score: self.mx_score,
            lowest_score: self.lowest_score,
            total_score: self.total_score,
            array: copy_vec(&self.array),
            num_rounds: self.num_rounds,
            max_gp: self.max_gp,
            total_gp: self.total_gp,
            max_exp: self.max_exp,
            total_exp: self.total_exp,
            max_drive: self.max_drive,
            chip_putt: self.max_chipin | (self.max_putt << 18),
            unk: self.unk,
        }
    }

    /// The record that a wire form holds.
    pub fn from_wire(w: &CRecordWire) -> (c: CRecord)
        ensures
            crecord_of_wire(*w, c),
    {
        CRecord {
            mx_score: w.mx_score,
            lowest_score: w.lowest_score,
            total_score: w.total_score,
            array: copy_vec(&w.array),
            num_rounds: w.num_rounds,
            max_gp: w.max_gp,
            total_gp: w.total_gp,
            max_exp: w.max_exp & 0xFF,
            total_exp: w.total_exp,
            max_drive: w.max_drive & 0x3FFFF,
            max_chipin: w.chip_putt & 0x3FFFF,
            max_putt: w.chip_putt >> 18,
            unk: w.unk & 0xFFFF,
        }
    }

    /// The wire bytes, or a range error when a field does not fit.
    pub fn write(&self) -> (r: Result<Vec<u8>, CodecError>)
        ensures
            r is Ok <==> crecord_fits(*self),
            r matches Ok(b) ==> exists|w: CRecordWire| wire_of_crecord(*self, w) && b@ == fields_bytes(crecord_wire_fields(w)),
            r is Err ==> r == Err::<Vec<u8>, CodecError>(CodecError::OutOfRange),
    {
        if !self.fits() {
            return Err(CodecError::OutOfRange);
        }
        let w = self.to_wire();
        let fs = w.to_fields();
        let mut out: Vec<u8> = Vec::new();
        encode_fields(&mut out, &fs);
        assert(out@ =~= fields_bytes(crecord_wire_fields(w)));
        Ok(out)
    }

    /// Decodes the record at the start of `input`; fails when it is too short.
    pub fn read(input: &[u8]) -> (r: Result<CRecord, CodecError>)
        ensures
            r is Ok <==> parse_fields(crecord_wire_schema(), input@) is Some,
            r matches Ok(c) ==> exists|w: CRecordWire| crecord_wire_fields(w) == parse_fields(crecord_wire_schema(), input@).unwrap()
                && crecord_of_wire(w, c),
            r is Err ==> r == Err::<CRecord, CodecError>(CodecError::Malformed),
    {
        let sc = CRecordWire::schema();
        match decode_fields(&sc, input) {
            Some(fs) => {
                proof {
                    lemma_parse_matches(sc@, input@);
                }
                let w = CRecordWire::from_fields(fs.as_slice());
                Ok(CRecord::from_wire(&w))
            },
            None => Err(CodecError::Malformed),
        }
    }
}

/// A course record whose fields fit reads back from its bytes, whatever follows
/// them, with the same values.
pub proof fn lemma_crecord_bytes_round_trip(c: CRecord, w: CRecordWire, rest: Seq<u8>, v: CRecordWire, d: CRecord)
    requires
        crecord_fits(c),
        wire_of_crecord(c, w),
        crecord_wire_fields(v) == parse_fields(crecord_wire_schema(), fields_bytes(crecord_wire_fields(w)) + rest).unwrap(),
        crecord_of_wire(v, d),
    ensures
        parse_fields(crecord_wire_schema(), fields_bytes(crecord_wire_fields(w)) + rest) is Some,
        crecord_same(d, c),
{
    let sc = crecord_wire_schema();
    let fs = crecord_wire_fields(w);
    assert(fields_match(sc, fs)) by {
        assert forall|j: int| 0 <= j < sc.len() implies field_has_kind(#[trigger] fs[j], sc[j]) by {
            if j == 3 {
                assert(w.array@.len() == 18);
            }
        }
    }
    lemma_fields_round_trip(sc, fs, rest);
    lemma_crecord_bits(c.max_exp, c.max_drive, c.max_chipin, c.max_putt, c.unk);
    assert(crecord_wire_fields(v)[9] == fs[9]);
    assert(crecord_wire_fields(v)[10] == fs[10]);
    assert(crecord_wire_fields(v)[11] == fs[11]);
    assert(crecord_wire_fields(v)[7] == fs[7]);
    assert(crecord_wire_fields(v)[3] == fs[3]);
    assert(crecord_wire_fields(v)[0] == fs[0]);
    assert(crecord_wire_fields(v)[1] == fs[1]);
    assert(crecord_wire_fields(v)[2] == fs[2]);
    lemma_byte_cast_injective(v.mx_score, w.mx_score);
    lemma_byte_cast_injective(v.lowest_score, w.lowest_score);
    lemma_byte_cast_injective(v.total_score, w.total_score);
}

proof fn lemma_byte_cast_injective(a: i8, b: i8)
    requires
        a as u8 == b as u8,
    ensures
        a == b,
{
    assert(a as u8 == b as u8 ==> a == b) by (bit_vector);
}

} // verus!
