//! The message catalog: each message's opcode and body layout, and the
//! conversion between messages and their body fields.

use vstd::prelude::*;
use crate::appearance::{Appearance, appearance_fits, appearance_of_words, appearance_words};
use crate::bytes::CodecError;
use crate::text::{text_part, utf8_valid, valid_text};
use crate::fields::{
    body_match, Unit, lemma_body_match_tail,
    Field, FieldV, Kind, fields_view, fields_match, field_has_kind, fb, fh, fw, copy_vec, get_i8,
    get_u8, get_i16, get_u16, get_i32, get_u32, get_u64, get_bytes, get_halves, get_words,
};

verus! {

/// Whether every value of the message fits its bit field.
pub open spec fn packet_encodable(p: Packet) -> bool {
    match p {
        Packet::SET_FIRST_CHARACTER_APPEARANCE(a) => appearance_fits(a),
        Packet::SEND_APPEAR { appear, .. } => appearance_fits(appear),
        Packet::REQ_CHG_APPEAR { appear, .. } => appearance_fits(appear),
        _ => true,
    }
}

/// Whether the message can be framed: its fields have its opcode's layout and
/// their values fit; an `Unknown` message must have an opcode outside the catalog.
pub open spec fn packet_wf(p: Packet) -> bool {
    match p {
        Packet::Unknown { id } => schema_of(id) is None,
        Packet::SET_FIRST_CHARACTER_APPEARANCE(a) => appearance_fits(a),
        Packet::SEND_APPEAR { appear, .. } => appearance_fits(appear),
        Packet::REQ_CHG_APPEAR { appear, .. } => appearance_fits(appear),
        _ => body_match(schema_of(packet_id(p)).unwrap(), packet_fields(p)) && texts_valid(
            packet_id(p),
            packet_fields(p),
        ),
    }
}

/// Whether the single-byte text fields of a body of opcode `id` hold valid
/// UTF-8 before their first null: the login credentials and the server
/// address and key.
pub open spec fn texts_valid(id: i16, fs: Seq<FieldV>) -> bool {
    if id == 1 || id == 6 {
        text_valid(fs[0]) && text_valid(fs[1])
    } else if id == 4 {
        text_valid(fs[1]) && text_valid(fs[3])
    } else {
        true
    }
}

/// Whether a byte-array field holds valid UTF-8 before its first null.
pub open spec fn text_valid(f: FieldV) -> bool {
    f matches FieldV::Bytes(b) && utf8_valid(text_part(b))
}

/// Whether body fields of opcode `id` describe a message: an appearance must
/// name a character, and text must be valid.
pub open spec fn fields_decodable(id: i16, fs: Seq<FieldV>) -> bool {
    &&& id == 95 ==> (fs[0] matches FieldV::Words(w) && appearance_of_words(w) is Some)
    &&& (id == 84 || id == 103) ==> (fs[2] matches FieldV::Words(w) && appearance_of_words(w) is Some)
    &&& texts_valid(id, fs)
}

/// Whether message `p` is what the body fields `fs` decode to.
pub open spec fn decoded_from(p: Packet, fs: Seq<FieldV>) -> bool {
    match p {
        Packet::SET_FIRST_CHARACTER_APPEARANCE(a) => fs.len() == 1 && (fs[0] matches FieldV::Words(
            w,
        ) && appearance_of_words(w) == Some(a)),
        Packet::SEND_APPEAR { cid, unk, appear } => fs.len() == 3 && fs[0] == fw(cid) && fs[1] == fw(unk)
            && (fs[2] matches FieldV::Words(w) && appearance_of_words(w) == Some(appear)),
        Packet::REQ_CHG_APPEAR { cid, chr_uid, appear } => fs.len() == 3 && fs[0] == fw(cid) && fs[1]
            == fw(chr_uid) && (fs[2] matches FieldV::Words(w) && appearance_of_words(w) == Some(appear)),
        _ => packet_fields(p) == fs,
    }
}

/// Credentials sent at login.
#[derive(Clone, Debug, PartialEq, Eq)]
pub struct IDPass {
    /// Null-padded single-byte text.
    pub username: Vec<u8>,
    /// Null-padded single-byte text.
    pub password: Vec<u8>,
    pub version: u16,
}

pub open spec fn idpass_schema() -> Seq<Kind> {
    seq![Kind::Bytes(17), Kind::Bytes(17), Kind::Half]
}

pub open spec fn idpass_fields(s: IDPass) -> Seq<FieldV> {
    seq![FieldV::Bytes(s.username@), FieldV::Bytes(s.password@), FieldV::Half(s.version)]
}

impl IDPass {
    pub fn schema() -> (r: Vec<Kind>)
        ensures
            r@ == idpass_schema(),
    {
        vec![Kind::Bytes(17), Kind::Bytes(17), Kind::Half]
    }

    pub fn to_fields(&self) -> (r: Vec<Field>)
        ensures
            fields_view(r@) == idpass_fields(*self),
    {
        let r = vec![Field::Bytes(copy_vec(&self.username)), Field::Bytes(copy_vec(&self.password)), Field::Half(self.version)];
        assert(fields_view(r@) =~= idpass_fields(*self));
        r
    }

    pub fn from_fields(fs: &[Field]) -> (r: IDPass)
        requires
            fields_match(idpass_schema(), fields_view(fs@)),
        ensures
            idpass_fields(r) == fields_view(fs@),
    {
        proof {
            assert(field_has_kind(fields_view(fs@)[0], idpass_schema()[0]));
            assert(field_has_kind(fields_view(fs@)[1], idpass_schema()[1]));
            assert(field_has_kind(fields_view(fs@)[2], idpass_schema()[2]));
        }
        let r = IDPass {
            username: get_bytes(fs, 0),
            password: get_bytes(fs, 1),
            version: get_u16(fs, 2),
        };
        assert(idpass_fields(r) =~= fields_view(fs@));
        r
    }
}

impl IDPass {
    /// Whether every array field has its fixed length.
    pub fn fits(&self) -> (r: bool)
        ensures
            r == fields_match(idpass_schema(), idpass_fields(*self)),
    {
        let r = self.username.len() == 17 && self.password.len() == 17;
        proof {
            if r {
                assert forall|j: int| 0 <= j < 3 implies field_has_kind(#[trigger] idpass_fields(*self)[j], idpass_schema()[j]) by {
                    if j == 0 {} else if j == 1 {} else if j == 2 {}
                }
            } else {
                if self.username.len() != 17 { assert(!field_has_kind(idpass_fields(*self)[0], idpass_schema()[0])); } else if self.password.len() != 17 { assert(!field_has_kind(idpass_fields(*self)[1], idpass_schema()[1])); }
            }
        }
        r
    }
}

/// One game server as the login gate lists it.
#[derive(Clone, Debug, PartialEq, Eq)]
pub struct GmsvData {
    pub number: i16,
    pub ip_address: Vec<u8>,
    pub port: u16,
    pub enc_key: Vec<u8>,
    pub name: Vec<u16>,
    pub comment: Vec<u16>,
    pub max: i16,
    pub now: i16,
}

pub open spec fn gmsv_data_schema() -> Seq<Kind> {
    seq![Kind::Half, Kind::Bytes(129), Kind::Half, Kind::Bytes(57), Kind::Halves(13), Kind::Halves(13), Kind::Half, Kind::Half]
}

pub open spec fn gmsv_data_fields(s: GmsvData) -> Seq<FieldV> {
    seq![fh(s.number), FieldV::Bytes(s.ip_address@), FieldV::Half(s.port), FieldV::Bytes(s.enc_key@), FieldV::Halves(s.name@), FieldV::Halves(s.comment@), fh(s.max), fh(s.now)]
}

impl GmsvData {
    pub fn schema() -> (r: Vec<Kind>)
        ensures
            r@ == gmsv_data_schema(),
    {
        vec![Kind::Half, Kind::Bytes(129), Kind::Half, Kind::Bytes(57), Kind::Halves(13), Kind::Halves(13), Kind::Half, Kind::Half]
    }

    pub fn to_fields(&self) -> (r: Vec<Field>)
        ensures
            fields_view(r@) == gmsv_data_fields(*self),
    {
        let r = vec![Field::Half(self.number as u16), Field::Bytes(copy_vec(&self.ip_address)), Field::Half(self.port), Field::Bytes(copy_vec(&self.enc_key)), Field::Halves(copy_vec(&self.name)), Field::Halves(copy_vec(&self.comment)), Field::Half(self.max as u16), Field::Half(self.now as u16)];
        assert(fields_view(r@) =~= gmsv_data_fields(*self));
        r
    }

    pub fn from_fields(fs: &[Field]) -> (r: GmsvData)
        requires
            fields_match(gmsv_data_schema(), fields_view(fs@)),
        ensures
            gmsv_data_fields(r) == fields_view(fs@),
    {
        proof {
            assert(field_has_kind(fields_view(fs@)[0], gmsv_data_schema()[0]));
            assert(field_has_kind(fields_view(fs@)[1], gmsv_data_schema()[1]));
            assert(field_has_kind(fields_view(fs@)[2], gmsv_data_schema()[2]));
            assert(field_has_kind(fields_view(fs@)[3], gmsv_data_schema()[3]));
            assert(field_has_kind(fields_view(fs@)[4], gmsv_data_schema()[4]));
            assert(field_has_kind(fields_view(fs@)[5], gmsv_data_schema()[5]));
            assert(field_has_kind(fields_view(fs@)[6], gmsv_data_schema()[6]));
            assert(field_has_kind(fields_view(fs@)[7], gmsv_data_schema()[7]));
        }
        let r = GmsvData {
            number: get_i16(fs, 0),
            ip_address: get_bytes(fs, 1),
            port: get_u16(fs, 2),
            enc_key: get_bytes(fs, 3),
            name: get_halves(fs, 4),
            comment: get_halves(fs, 5),
            max: get_i16(fs, 6),
            now: get_i16(fs, 7),
        };
        assert(gmsv_data_fields(r) =~= fields_view(fs@));
        r
    }
}

impl GmsvData {
    /// Whether every array field has its fixed length.
    pub fn fits(&self) -> (r: bool)
        ensures
            r == fields_match(gmsv_data_schema(), gmsv_data_fields(*self)),
    {
        let r = self.ip_address.len() == 129 && self.enc_key.len() == 57 && self.name.len() == 13 && self.comment.len() == 13;
        proof {
            if r {
                assert forall|j: int| 0 <= j < 8 implies field_has_kind(#[trigger] gmsv_data_fields(*self)[j], gmsv_data_schema()[j]) by {
                    if j == 0 {} else if j == 1 {} else if j == 2 {} else if j == 3 {} else if j == 4 {} else if j == 5 {} else if j == 6 {} else if j == 7 {}
                }
            } else {
                if self.ip_address.len() != 129 { assert(!field_has_kind(gmsv_data_fields(*self)[1], gmsv_data_schema()[1])); } else if self.enc_key.len() != 57 { assert(!field_has_kind(gmsv_data_fields(*self)[3], gmsv_data_schema()[3])); } else if self.name.len() != 13 { assert(!field_has_kind(gmsv_data_fields(*self)[4], gmsv_data_schema()[4])); } else if self.comment.len() != 13 { assert(!field_has_kind(gmsv_data_fields(*self)[5], gmsv_data_schema()[5])); }
            }
        }
        r
    }
}

/// A player's account snapshot.
#[derive(Clone, Debug, PartialEq, Eq)]
pub struct UData {
    pub cid: i32,
    pub uid: i32,
    pub chr_uid: i32,
    /// Item identifiers.
    pub golfbag: Vec<u32>,
    /// Item identifiers.
    pub holdbox: Vec<u32>,
    /// Four rows of four counts.
    pub medals: Vec<u16>,
    pub awards: Vec<u32>,
    pub rank_score_item_on: i16,
    pub rank_score_item_off: i16,
    pub mp: i32,
    pub year: i16,
    pub month: i8,
    pub day: i8,
    pub name: Vec<u16>,
    /// -1 for none, else 0 to 4.
    pub element: i8,
    /// The account rank (0 to 31).
    pub class: i8,
    /// Four 5-bit rank item fields.
    pub rank_bits: u32,
    pub x_f4: u32,
    /// 0 or 1.
    pub debug: u8,
}

pub open spec fn udata_schema() -> Seq<Kind> {
    seq![Kind::Word, Kind::Word, Kind::Word, Kind::Words(8), Kind::Words(8), Kind::Halves(16), Kind::Words(20), Kind::Half, Kind::Half, Kind::Word, Kind::Half, Kind::Byte, Kind::Byte, Kind::Halves(19), Kind::Byte, Kind::Byte, Kind::Word, Kind::Word, Kind::Byte]
}

pub open spec fn udata_fields(s: UData) -> Seq<FieldV> {
    seq![fw(s.cid), fw(s.uid), fw(s.chr_uid), FieldV::Words(s.golfbag@), FieldV::Words(s.holdbox@), FieldV::Halves(s.medals@), FieldV::Words(s.awards@), fh(s.rank_score_item_on), fh(s.rank_score_item_off), fw(s.mp), fh(s.year), fb(s.month), fb(s.day), FieldV::Halves(s.name@), fb(s.element), fb(s.class), FieldV::Word(s.rank_bits), FieldV::Word(s.x_f4), FieldV::Byte(s.debug)]
}

impl UData {
    pub fn schema() -> (r: Vec<Kind>)
        ensures
            r@ == udata_schema(),
    {
        vec![Kind::Word, Kind::Word, Kind::Word, Kind::Words(8), Kind::Words(8), Kind::Halves(16), Kind::Words(20), Kind::Half, Kind::Half, Kind::Word, Kind::Half, Kind::Byte, Kind::Byte, Kind::Halves(19), Kind::Byte, Kind::Byte, Kind::Word, Kind::Word, Kind::Byte]
    }

    pub fn to_fields(&self) -> (r: Vec<Field>)
        ensures
            fields_view(r@) == udata_fields(*self),
    {
        let r = vec![Field::Word(self.cid as u32), Field::Word(self.uid as u32), Field::Word(self.chr_uid as u32), Field::Words(copy_vec(&self.golfbag)), Field::Words(copy_vec(&self.holdbox)), Field::Halves(copy_vec(&self.medals)), Field::Words(copy_vec(&self.awards)), Field::Half(self.rank_score_item_on as u16), Field::Half(self.rank_score_item_off as u16), Field::Word(self.mp as u32), Field::Half(self.year as u16), Field::Byte(self.month as u8), Field::Byte(self.day as u8), Field::Halves(copy_vec(&self.name)), Field::Byte(self.element as u8), Field::Byte(self.class as u8), Field::Word(self.rank_bits), Field::Word(self.x_f4), Field::Byte(self.debug)];
        assert(fields_view(r@) =~= udata_fields(*self));
        r
    }

    pub fn from_fields(fs: &[Field]) -> (r: UData)
        requires
            fields_match(udata_schema(), fields_view(fs@)),
        ensures
            udata_fields(r) == fields_view(fs@),
    {
        proof {
            assert(field_has_kind(fields_view(fs@)[0], udata_schema()[0]));
            assert(field_has_kind(fields_view(fs@)[1], udata_schema()[1]));
            assert(field_has_kind(fields_view(fs@)[2], udata_schema()[2]));
            assert(field_has_kind(fields_view(fs@)[3], udata_schema()[3]));
            assert(field_has_kind(fields_view(fs@)[4], udata_schema()[4]));
            assert(field_has_kind(fields_view(fs@)[5], udata_schema()[5]));
            assert(field_has_kind(fields_view(fs@)[6], udata_schema()[6]));
            assert(field_has_kind(fields_view(fs@)[7], udata_schema()[7]));
            assert(field_has_kind(fields_view(fs@)[8], udata_schema()[8]));
            assert(field_has_kind(fields_view(fs@)[9], udata_schema()[9]));
            assert(field_has_kind(fields_view(fs@)[10], udata_schema()[10]));
            assert(field_has_kind(fields_view(fs@)[11], udata_schema()[11]));
            assert(field_has_kind(fields_view(fs@)[12], udata_schema()[12]));
            assert(field_has_kind(fields_view(fs@)[13], udata_schema()[13]));
            assert(field_has_kind(fields_view(fs@)[14], udata_schema()[14]));
            assert(field_has_kind(fields_view(fs@)[15], udata_schema()[15]));
            assert(field_has_kind(fields_view(fs@)[16], udata_schema()[16]));
            assert(field_has_kind(fields_view(fs@)[17], udata_schema()[17]));
            assert(field_has_kind(fields_view(fs@)[18], udata_schema()[18]));
        }
        let r = UData {
            cid: get_i32(fs, 0),
            uid: get_i32(fs, 1),
            chr_uid: get_i32(fs, 2),
            golfbag: get_words(fs, 3),
            holdbox: get_words(fs, 4),
            medals: get_halves(fs, 5),
            awards: get_words(fs, 6),
            rank_score_item_on: get_i16(fs, 7),
            rank_score_item_off: get_i16(fs, 8),
            mp: get_i32(fs, 9),
            year: get_i16(fs, 10),
            month: get_i8(fs, 11),
            day: get_i8(fs, 12),
            name: get_halves(fs, 13),
            element: get_i8(fs, 14),
            class: get_i8(fs, 15),
            rank_bits: get_u32(fs, 16),
            x_f4: get_u32(fs, 17),
            debug: get_u8(fs, 18),
        };
        assert(udata_fields(r) =~= fields_view(fs@));
        r
    }
}

impl UData {
    /// Whether every array field has its fixed length.
    pub fn fits(&self) -> (r: bool)
        ensures
            r == fields_match(udata_schema(), udata_fields(*self)),
    {
        let r = self.golfbag.len() == 8 && self.holdbox.len() == 8 && self.medals.len() == 16 && self.awards.len() == 20 && self.name.len() == 19;
        proof {
            if r {
                assert forall|j: int| 0 <= j < 19 implies field_has_kind(#[trigger] udata_fields(*self)[j], udata_schema()[j]) by {
                    if j == 0 {} else if j == 1 {} else if j == 2 {} else if j == 3 {} else if j == 4 {} else if j == 5 {} else if j == 6 {} else if j == 7 {} else if j == 8 {} else if j == 9 {} else if j == 10 {} else if j == 11 {} else if j == 12 {} else if j == 13 {} else if j == 14 {} else if j == 15 {} else if j == 16 {} else if j == 17 {} else if j == 18 {}
                }
            } else {
                if self.golfbag.len() != 8 { assert(!field_has_kind(udata_fields(*self)[3], udata_schema()[3])); } else if self.holdbox.len() != 8 { assert(!field_has_kind(udata_fields(*self)[4], udata_schema()[4])); } else if self.medals.len() != 16 { assert(!field_has_kind(udata_fields(*self)[5], udata_schema()[5])); } else if self.awards.len() != 20 { assert(!field_has_kind(udata_fields(*self)[6], udata_schema()[6])); } else if self.name.len() != 19 { assert(!field_has_kind(udata_fields(*self)[13], udata_schema()[13])); }
            }
        }
        r
    }
}

/// A lobby as listed to clients.
#[derive(Clone, Debug, PartialEq, Eq)]
pub struct LobbyData {
    pub num: i8,
    pub member_max: i16,
    pub member: i16,
    pub name: Vec<u16>,
    pub unk: Vec<u8>,
    pub mode: i8,
}

pub open spec fn lobby_data_schema() -> Seq<Kind> {
    seq![Kind::Byte, Kind::Half, Kind::Half, Kind::Halves(17), Kind::Bytes(32), Kind::Byte]
}

pub open spec fn lobby_data_fields(s: LobbyData) -> Seq<FieldV> {
    seq![fb(s.num), fh(s.member_max), fh(s.member), FieldV::Halves(s.name@), FieldV::Bytes(s.unk@), fb(s.mode)]
}

impl LobbyData {
    pub fn schema() -> (r: Vec<Kind>)
        ensures
            r@ == lobby_data_schema(),
    {
        vec![Kind::Byte, Kind::Half, Kind::Half, Kind::Halves(17), Kind::Bytes(32), Kind::Byte]
    }

    pub fn to_fields(&self) -> (r: Vec<Field>)
        ensures
            fields_view(r@) == lobby_data_fields(*self),
    {
        let r = vec![Field::Byte(self.num as u8), Field::Half(self.member_max as u16), Field::Half(self.member as u16), Field::Halves(copy_vec(&self.name)), Field::Bytes(copy_vec(&self.unk)), Field::Byte(self.mode as u8)];
        assert(fields_view(r@) =~= lobby_data_fields(*self));
        r
    }

    pub fn from_fields(fs: &[Field]) -> (r: LobbyData)
        requires
            fields_match(lobby_data_schema(), fields_view(fs@)),
        ensures
            lobby_data_fields(r) == fields_view(fs@),
    {
        proof {
            assert(field_has_kind(fields_view(fs@)[0], lobby_data_schema()[0]));
            assert(field_has_kind(fields_view(fs@)[1], lobby_data_schema()[1]));
            assert(field_has_kind(fields_view(fs@)[2], lobby_data_schema()[2]));
            assert(field_has_kind(fields_view(fs@)[3], lobby_data_schema()[3]));
            assert(field_has_kind(fields_view(fs@)[4], lobby_data_schema()[4]));
            assert(field_has_kind(fields_view(fs@)[5], lobby_data_schema()[5]));
        }
        let r = LobbyData {
            num: get_i8(fs, 0),
            member_max: get_i16(fs, 1),
            member: get_i16(fs, 2),
            name: get_halves(fs, 3),
            unk: get_bytes(fs, 4),
            mode: get_i8(fs, 5),
        };
        assert(lobby_data_fields(r) =~= fields_view(fs@));
        r
    }
}

impl LobbyData {
    /// Whether every array field has its fixed length.
    pub fn fits(&self) -> (r: bool)
        ensures
            r == fields_match(lobby_data_schema(), lobby_data_fields(*self)),
    {
        let r = self.name.len() == 17 && self.unk.len() == 32;
        proof {
            if r {
                assert forall|j: int| 0 <= j < 6 implies field_has_kind(#[trigger] lobby_data_fields(*self)[j], lobby_data_schema()[j]) by {
                    if j == 0 {} else if j == 1 {} else if j == 2 {} else if j == 3 {} else if j == 4 {} else if j == 5 {}
                }
            } else {
                if self.name.len() != 17 { assert(!field_has_kind(lobby_data_fields(*self)[3], lobby_data_schema()[3])); } else if self.unk.len() != 32 { assert(!field_has_kind(lobby_data_fields(*self)[4], lobby_data_schema()[4])); }
            }
        }
        r
    }
}

/// A room's settings and occupancy.
#[derive(Clone, Debug, PartialEq, Eq)]
pub struct RoomStat {
    pub room: i8,
    /// Bit 1: spectators allowed; bit 2: password set.
    pub flag: i8,
    pub member_max: i8,
    pub member: i8,
    pub watcher: i8,
    pub rules: i8,
    pub time_limit: i8,
    pub course: i8,
    pub season: i8,
    pub num_holes: i8,
    pub course_setting: i8,
    /// Packed entry limits, carried as they came.
    pub limits: Vec<u8>,
}

pub open spec fn room_stat_schema() -> Seq<Kind> {
    seq![Kind::Byte, Kind::Byte, Kind::Byte, Kind::Byte, Kind::Byte, Kind::Byte, Kind::Byte, Kind::Byte, Kind::Byte, Kind::Byte, Kind::Byte, Kind::Bytes(7)]
}

pub open spec fn room_stat_fields(s: RoomStat) -> Seq<FieldV> {
    seq![fb(s.room), fb(s.flag), fb(s.member_max), fb(s.member), fb(s.watcher), fb(s.rules), fb(s.time_limit), fb(s.course), fb(s.season), fb(s.num_holes), fb(s.course_setting), FieldV::Bytes(s.limits@)]
}

impl RoomStat {
    pub fn schema() -> (r: Vec<Kind>)
        ensures
            r@ == room_stat_schema(),
    {
        vec![Kind::Byte, Kind::Byte, Kind::Byte, Kind::Byte, Kind::Byte, Kind::Byte, Kind::Byte, Kind::Byte, Kind::Byte, Kind::Byte, Kind::Byte, Kind::Bytes(7)]
    }

    pub fn to_fields(&self) -> (r: Vec<Field>)
        ensures
            fields_view(r@) == room_stat_fields(*self),
    {
        let r = vec![Field::Byte(self.room as u8), Field::Byte(self.flag as u8), Field::Byte(self.member_max as u8), Field::Byte(self.member as u8), Field::Byte(self.watcher as u8), Field::Byte(self.rules as u8), Field::Byte(self.time_limit as u8), Field::Byte(self.course as u8), Field::Byte(self.season as u8), Field::Byte(self.num_holes as u8), Field::Byte(self.course_setting as u8), Field::Bytes(copy_vec(&self.limits))];
        assert(fields_view(r@) =~= room_stat_fields(*self));
        r
    }

    pub fn from_fields(fs: &[Field]) -> (r: RoomStat)
        requires
            fields_match(room_stat_schema(), fields_view(fs@)),
        ensures
            room_stat_fields(r) == fields_view(fs@),
    {
        proof {
            assert(field_has_kind(fields_view(fs@)[0], room_stat_schema()[0]));
            assert(field_has_kind(fields_view(fs@)[1], room_stat_schema()[1]));
            assert(field_has_kind(fields_view(fs@)[2], room_stat_schema()[2]));
            assert(field_has_kind(fields_view(fs@)[3], room_stat_schema()[3]));
            assert(field_has_kind(fields_view(fs@)[4], room_stat_schema()[4]));
            assert(field_has_kind(fields_view(fs@)[5], room_stat_schema()[5]));
            assert(field_has_kind(fields_view(fs@)[6], room_stat_schema()[6]));
            assert(field_has_kind(fields_view(fs@)[7], room_stat_schema()[7]));
            assert(field_has_kind(fields_view(fs@)[8], room_stat_schema()[8]));
            assert(field_has_kind(fields_view(fs@)[9], room_stat_schema()[9]));
            assert(field_has_kind(fields_view(fs@)[10], room_stat_schema()[10]));
            assert(field_has_kind(fields_view(fs@)[11], room_stat_schema()[11]));
        }
        let r = RoomStat {
            room: get_i8(fs, 0),
            flag: get_i8(fs, 1),
            member_max: get_i8(fs, 2),
            member: get_i8(fs, 3),
            watcher: get_i8(fs, 4),
            rules: get_i8(fs, 5),
            time_limit: get_i8(fs, 6),
            course: get_i8(fs, 7),
            season: get_i8(fs, 8),
            num_holes: get_i8(fs, 9),
            course_setting: get_i8(fs, 10),
            limits: get_bytes(fs, 11),
        };
        assert(room_stat_fields(r) =~= fields_view(fs@));
        r
    }
}

impl RoomStat {
    /// Whether every array field has its fixed length.
    pub fn fits(&self) -> (r: bool)
        ensures
            r == fields_match(room_stat_schema(), room_stat_fields(*self)),
    {
        let r = self.limits.len() == 7;
        proof {
            if r {
                assert forall|j: int| 0 <= j < 12 implies field_has_kind(#[trigger] room_stat_fields(*self)[j], room_stat_schema()[j]) by {
                    if j == 0 {} else if j == 1 {} else if j == 2 {} else if j == 3 {} else if j == 4 {} else if j == 5 {} else if j == 6 {} else if j == 7 {} else if j == 8 {} else if j == 9 {} else if j == 10 {} else if j == 11 {}
                }
            } else {
                if self.limits.len() != 7 { assert(!field_has_kind(room_stat_fields(*self)[11], room_stat_schema()[11])); }
            }
        }
        r
    }
}

/// A room description: its lobby, settings, name and password.
#[derive(Clone, Debug, PartialEq, Eq)]
pub struct Packet19 {
    pub mode: i8,
    pub lobby: i8,
    /// The room number, or a negative failure code.
    pub room: i8,
    /// Bit 1: spectators allowed; bit 2: password set.
    pub flag: i8,
    pub member_max: i8,
    pub member: i8,
    pub watcher: i8,
    pub rules: i8,
    pub time_limit: i8,
    pub course: i8,
    pub season: i8,
    pub num_holes: i8,
    pub course_setting: i8,
    /// Packed entry limits, carried as they came.
    pub limits: Vec<u8>,
    pub room_name: Vec<u16>,
    pub room_password: Vec<u16>,
}

pub open spec fn packet19_schema() -> Seq<Kind> {
    seq![Kind::Byte, Kind::Byte, Kind::Byte, Kind::Byte, Kind::Byte, Kind::Byte, Kind::Byte, Kind::Byte, Kind::Byte, Kind::Byte, Kind::Byte, Kind::Byte, Kind::Byte, Kind::Bytes(7), Kind::Halves(33), Kind::Halves(17)]
}

pub open spec fn packet19_fields(s: Packet19) -> Seq<FieldV> {
    seq![fb(s.mode), fb(s.lobby), fb(s.room), fb(s.flag), fb(s.member_max), fb(s.member), fb(s.watcher), fb(s.rules), fb(s.time_limit), fb(s.course), fb(s.season), fb(s.num_holes), fb(s.course_setting), FieldV::Bytes(s.limits@), FieldV::Halves(s.room_name@), FieldV::Halves(s.room_password@)]
}

impl Packet19 {
    pub fn schema() -> (r: Vec<Kind>)
        ensures
            r@ == packet19_schema(),
    {
        vec![Kind::Byte, Kind::Byte, Kind::Byte, Kind::Byte, Kind::Byte, Kind::Byte, Kind::Byte, Kind::Byte, Kind::Byte, Kind::Byte, Kind::Byte, Kind::Byte, Kind::Byte, Kind::Bytes(7), Kind::Halves(33), Kind::Halves(17)]
    }

    pub fn to_fields(&self) -> (r: Vec<Field>)
        ensures
            fields_view(r@) == packet19_fields(*self),
    {
        let r = vec![Field::Byte(self.mode as u8), Field::Byte(self.lobby as u8), Field::Byte(self.room as u8), Field::Byte(self.flag as u8), Field::Byte(self.member_max as u8), Field::Byte(self.member as u8), Field::Byte(self.watcher as u8), Field::Byte(self.rules as u8), Field::Byte(self.time_limit as u8), Field::Byte(self.course as u8), Field::Byte(self.season as u8), Field::Byte(self.num_holes as u8), Field::Byte(self.course_setting as u8), Field::Bytes(copy_vec(&self.limits)), Field::Halves(copy_vec(&self.room_name)), Field::Halves(copy_vec(&self.room_password))];
        assert(fields_view(r@) =~= packet19_fields(*self));
        r
    }

    pub fn from_fields(fs: &[Field]) -> (r: Packet19)
        requires
            fields_match(packet19_schema(), fields_view(fs@)),
        ensures
            packet19_fields(r) == fields_view(fs@),
    {
        proof {
            assert(field_has_kind(fields_view(fs@)[0], packet19_schema()[0]));
            assert(field_has_kind(fields_view(fs@)[1], packet19_schema()[1]));
            assert(field_has_kind(fields_view(fs@)[2], packet19_schema()[2]));
            assert(field_has_kind(fields_view(fs@)[3], packet19_schema()[3]));
            assert(field_has_kind(fields_view(fs@)[4], packet19_schema()[4]));
            assert(field_has_kind(fields_view(fs@)[5], packet19_schema()[5]));
            assert(field_has_kind(fields_view(fs@)[6], packet19_schema()[6]));
            assert(field_has_kind(fields_view(fs@)[7], packet19_schema()[7]));
            assert(field_has_kind(fields_view(fs@)[8], packet19_schema()[8]));
            assert(field_has_kind(fields_view(fs@)[9], packet19_schema()[9]));
            assert(field_has_kind(fields_view(fs@)[10], packet19_schema()[10]));
            assert(field_has_kind(fields_view(fs@)[11], packet19_schema()[11]));
            assert(field_has_kind(fields_view(fs@)[12], packet19_schema()[12]));
            assert(field_has_kind(fields_view(fs@)[13], packet19_schema()[13]));
            assert(field_has_kind(fields_view(fs@)[14], packet19_schema()[14]));
            assert(field_has_kind(fields_view(fs@)[15], packet19_schema()[15]));
        }
        let r = Packet19 {
            mode: get_i8(fs, 0),
            lobby: get_i8(fs, 1),
            room: get_i8(fs, 2),
            flag: get_i8(fs, 3),
            member_max: get_i8(fs, 4),
            member: get_i8(fs, 5),
            watcher: get_i8(fs, 6),
            rules: get_i8(fs, 7),
            time_limit: get_i8(fs, 8),
            course: get_i8(fs, 9),
            season: get_i8(fs, 10),
            num_holes: get_i8(fs, 11),
            course_setting: get_i8(fs, 12),
            limits: get_bytes(fs, 13),
            room_name: get_halves(fs, 14),
            room_password: get_halves(fs, 15),
        };
        assert(packet19_fields(r) =~= fields_view(fs@));
        r
    }
}

impl Packet19 {
    /// Whether every array field has its fixed length.
    pub fn fits(&self) -> (r: bool)
        ensures
            r == fields_match(packet19_schema(), packet19_fields(*self)),
    {
        let r = self.limits.len() == 7 && self.room_name.len() == 33 && self.room_password.len() == 17;
        proof {
            if r {
                assert forall|j: int| 0 <= j < 16 implies field_has_kind(#[trigger] packet19_fields(*self)[j], packet19_schema()[j]) by {
                    if j == 0 {} else if j == 1 {} else if j == 2 {} else if j == 3 {} else if j == 4 {} else if j == 5 {} else if j == 6 {} else if j == 7 {} else if j == 8 {} else if j == 9 {} else if j == 10 {} else if j == 11 {} else if j == 12 {} else if j == 13 {} else if j == 14 {} else if j == 15 {}
                }
            } else {
                if self.limits.len() != 7 { assert(!field_has_kind(packet19_fields(*self)[13], packet19_schema()[13])); } else if self.room_name.len() != 33 { assert(!field_has_kind(packet19_fields(*self)[14], packet19_schema()[14])); } else if self.room_password.len() != 17 { assert(!field_has_kind(packet19_fields(*self)[15], packet19_schema()[15])); }
            }
        }
        r
    }
}

/// A room member as listed to other members.
#[derive(Clone, Debug, PartialEq, Eq)]
pub struct UList {
    pub cid: i32,
    pub uid: i32,
    pub stat: u16,
    /// The team flag in the low byte.
    pub team_word: u32,
    pub mode: i8,
    pub lobby: i8,
    pub room: i8,
    pub pclass: i8,
    pub element: i8,
    pub title: u8,
    pub sv_no: i8,
    pub circle: i32,
    pub name: Vec<u16>,
}

pub open spec fn ulist_schema() -> Seq<Kind> {
    seq![Kind::Word, Kind::Word, Kind::Half, Kind::Word, Kind::Byte, Kind::Byte, Kind::Byte, Kind::Byte, Kind::Byte, Kind::Byte, Kind::Byte, Kind::Word, Kind::Halves(19)]
}

pub open spec fn ulist_fields(s: UList) -> Seq<FieldV> {
    seq![fw(s.cid), fw(s.uid), FieldV::Half(s.stat), FieldV::Word(s.team_word), fb(s.mode), fb(s.lobby), fb(s.room), fb(s.pclass), fb(s.element), FieldV::Byte(s.title), fb(s.sv_no), fw(s.circle), FieldV::Halves(s.name@)]
}

impl UList {
    pub fn schema() -> (r: Vec<Kind>)
        ensures
            r@ == ulist_schema(),
    {
        vec![Kind::Word, Kind::Word, Kind::Half, Kind::Word, Kind::Byte, Kind::Byte, Kind::Byte, Kind::Byte, Kind::Byte, Kind::Byte, Kind::Byte, Kind::Word, Kind::Halves(19)]
    }

    pub fn to_fields(&self) -> (r: Vec<Field>)
        ensures
            fields_view(r@) == ulist_fields(*self),
    {
        let r = vec![Field::Word(self.cid as u32), Field::Word(self.uid as u32), Field::Half(self.stat), Field::Word(self.team_word), Field::Byte(self.mode as u8), Field::Byte(self.lobby as u8), Field::Byte(self.room as u8), Field::Byte(self.pclass as u8), Field::Byte(self.element as u8), Field::Byte(self.title), Field::Byte(self.sv_no as u8), Field::Word(self.circle as u32), Field::Halves(copy_vec(&self.name))];
        assert(fields_view(r@) =~= ulist_fields(*self));
        r
    }

    pub fn from_fields(fs: &[Field]) -> (r: UList)
        requires
            fields_match(ulist_schema(), fields_view(fs@)),
        ensures
            ulist_fields(r) == fields_view(fs@),
    {
        proof {
            assert(field_has_kind(fields_view(fs@)[0], ulist_schema()[0]));
            assert(field_has_kind(fields_view(fs@)[1], ulist_schema()[1]));
            assert(field_has_kind(fields_view(fs@)[2], ulist_schema()[2]));
            assert(field_has_kind(fields_view(fs@)[3], ulist_schema()[3]));
            assert(field_has_kind(fields_view(fs@)[4], ulist_schema()[4]));
            assert(field_has_kind(fields_view(fs@)[5], ulist_schema()[5]));
            assert(field_has_kind(fields_view(fs@)[6], ulist_schema()[6]));
            assert(field_has_kind(fields_view(fs@)[7], ulist_schema()[7]));
            assert(field_has_kind(fields_view(fs@)[8], ulist_schema()[8]));
            assert(field_has_kind(fields_view(fs@)[9], ulist_schema()[9]));
            assert(field_has_kind(fields_view(fs@)[10], ulist_schema()[10]));
            assert(field_has_kind(fields_view(fs@)[11], ulist_schema()[11]));
            assert(field_has_kind(fields_view(fs@)[12], ulist_schema()[12]));
        }
        let r = UList {
            cid: get_i32(fs, 0),
            uid: get_i32(fs, 1),
            stat: get_u16(fs, 2),
            team_word: get_u32(fs, 3),
            mode: get_i8(fs, 4),
            lobby: get_i8(fs, 5),
            room: get_i8(fs, 6),
            pclass: get_i8(fs, 7),
            element: get_i8(fs, 8),
            title: get_u8(fs, 9),
            sv_no: get_i8(fs, 10),
            circle: get_i32(fs, 11),
            name: get_halves(fs, 12),
        };
        assert(ulist_fields(r) =~= fields_view(fs@));
        r
    }
}

impl UList {
    /// Whether every array field has its fixed length.
    pub fn fits(&self) -> (r: bool)
        ensures
            r == fields_match(ulist_schema(), ulist_fields(*self)),
    {
        let r = self.name.len() == 19;
        proof {
            if r {
                assert forall|j: int| 0 <= j < 13 implies field_has_kind(#[trigger] ulist_fields(*self)[j], ulist_schema()[j]) by {
                    if j == 0 {} else if j == 1 {} else if j == 2 {} else if j == 3 {} else if j == 4 {} else if j == 5 {} else if j == 6 {} else if j == 7 {} else if j == 8 {} else if j == 9 {} else if j == 10 {} else if j == 11 {} else if j == 12 {}
                }
            } else {
                if self.name.len() != 19 { assert(!field_has_kind(ulist_fields(*self)[12], ulist_schema()[12])); }
            }
        }
        r
    }
}

/// A lobby member as listed to other members.
#[derive(Clone, Debug, PartialEq, Eq)]
pub struct UListL {
    pub cid: i32,
    pub uid: i32,
    pub stat: u16,
    /// The team flag in the low byte.
    pub team_word: u32,
    pub mode: i8,
    pub lobby: i8,
    pub room: i8,
    pub pclass: i8,
    pub element: i8,
    pub title: u8,
    pub circle: i32,
    pub name: Vec<u16>,
}

pub open spec fn ulist_l_schema() -> Seq<Kind> {
    seq![Kind::Word, Kind::Word, Kind::Half, Kind::Word, Kind::Byte, Kind::Byte, Kind::Byte, Kind::Byte, Kind::Byte, Kind::Byte, Kind::Word, Kind::Halves(17)]
}

pub open spec fn ulist_l_fields(s: UListL) -> Seq<FieldV> {
    seq![fw(s.cid), fw(s.uid), FieldV::Half(s.stat), FieldV::Word(s.team_word), fb(s.mode), fb(s.lobby), fb(s.room), fb(s.pclass), fb(s.element), FieldV::Byte(s.title), fw(s.circle), FieldV::Halves(s.name@)]
}

impl UListL {
    pub fn schema() -> (r: Vec<Kind>)
        ensures
            r@ == ulist_l_schema(),
    {
        vec![Kind::Word, Kind::Word, Kind::Half, Kind::Word, Kind::Byte, Kind::Byte, Kind::Byte, Kind::Byte, Kind::Byte, Kind::Byte, Kind::Word, Kind::Halves(17)]
    }

    pub fn to_fields(&self) -> (r: Vec<Field>)
        ensures
            fields_view(r@) == ulist_l_fields(*self),
    {
        let r = vec![Field::Word(self.cid as u32), Field::Word(self.uid as u32), Field::Half(self.stat), Field::Word(self.team_word), Field::Byte(self.mode as u8), Field::Byte(self.lobby as u8), Field::Byte(self.room as u8), Field::Byte(self.pclass as u8), Field::Byte(self.element as u8), Field::Byte(self.title), Field::Word(self.circle as u32), Field::Halves(copy_vec(&self.name))];
        assert(fields_view(r@) =~= ulist_l_fields(*self));
        r
    }

    pub fn from_fields(fs: &[Field]) -> (r: UListL)
        requires
            fields_match(ulist_l_schema(), fields_view(fs@)),
        ensures
            ulist_l_fields(r) == fields_view(fs@),
    {
        proof {
            assert(field_has_kind(fields_view(fs@)[0], ulist_l_schema()[0]));
            assert(field_has_kind(fields_view(fs@)[1], ulist_l_schema()[1]));
            assert(field_has_kind(fields_view(fs@)[2], ulist_l_schema()[2]));
            assert(field_has_kind(fields_view(fs@)[3], ulist_l_schema()[3]));
            assert(field_has_kind(fields_view(fs@)[4], ulist_l_schema()[4]));
            assert(field_has_kind(fields_view(fs@)[5], ulist_l_schema()[5]));
            assert(field_has_kind(fields_view(fs@)[6], ulist_l_schema()[6]));
            assert(field_has_kind(fields_view(fs@)[7], ulist_l_schema()[7]));
            assert(field_has_kind(fields_view(fs@)[8], ulist_l_schema()[8]));
            assert(field_has_kind(fields_view(fs@)[9], ulist_l_schema()[9]));
            assert(field_has_kind(fields_view(fs@)[10], ulist_l_schema()[10]));
            assert(field_has_kind(fields_view(fs@)[11], ulist_l_schema()[11]));
        }
        let r = UListL {
            cid: get_i32(fs, 0),
            uid: get_i32(fs, 1),
            stat: get_u16(fs, 2),
            team_word: get_u32(fs, 3),
            mode: get_i8(fs, 4),
            lobby: get_i8(fs, 5),
            room: get_i8(fs, 6),
            pclass: get_i8(fs, 7),
            element: get_i8(fs, 8),
            title: get_u8(fs, 9),
            circle: get_i32(fs, 10),
            name: get_halves(fs, 11),
        };
        assert(ulist_l_fields(r) =~= fields_view(fs@));
        r
    }
}

impl UListL {
    /// Whether every array field has its fixed length.
    pub fn fits(&self) -> (r: bool)
        ensures
            r == fields_match(ulist_l_schema(), ulist_l_fields(*self)),
    {
        let r = self.name.len() == 17;
        proof {
            if r {
                assert forall|j: int| 0 <= j < 12 implies field_has_kind(#[trigger] ulist_l_fields(*self)[j], ulist_l_schema()[j]) by {
                    if j == 0 {} else if j == 1 {} else if j == 2 {} else if j == 3 {} else if j == 4 {} else if j == 5 {} else if j == 6 {} else if j == 7 {} else if j == 8 {} else if j == 9 {} else if j == 10 {} else if j == 11 {}
                }
            } else {
                if self.name.len() != 17 { assert(!field_has_kind(ulist_l_fields(*self)[11], ulist_l_schema()[11])); }
            }
        }
        r
    }
}

/// The order that starts a round.
#[derive(Clone, Debug, PartialEq, Eq)]
pub struct GameStart {
    pub mode: i8,
    pub rule: i8,
    pub time: u8,
    pub member: i8,
    pub member_max: i8,
    pub course: i8,
    pub season: i8,
    pub holes: i8,
    /// Hole numbers as signed bytes; -1 past the last hole.
    pub hole_no: Vec<u8>,
    pub wind_dir: Vec<u8>,
    pub wind_pow: Vec<u8>,
    pub weather: Vec<u8>,
    pub cup_pos: Vec<u8>,
    /// Participants in shot order; -1 for an empty slot.
    pub cid: Vec<u32>,
    pub caddies: Vec<u16>,
    pub caddie_reliance: Vec<u32>,
    pub ball_array: Vec<u32>,
    /// Eight counted items per participant.
    pub hold_box: Vec<u32>,
}

pub open spec fn game_start_schema() -> Seq<Kind> {
    seq![Kind::Byte, Kind::Byte, Kind::Byte, Kind::Byte, Kind::Byte, Kind::Byte, Kind::Byte, Kind::Byte, Kind::Bytes(18), Kind::Bytes(18), Kind::Bytes(18), Kind::Bytes(18), Kind::Bytes(18), Kind::Words(50), Kind::Halves(50), Kind::Words(50), Kind::Words(50), Kind::Words(400)]
}

pub open spec fn game_start_fields(s: GameStart) -> Seq<FieldV> {
    seq![fb(s.mode), fb(s.rule), FieldV::Byte(s.time), fb(s.member), fb(s.member_max), fb(s.course), fb(s.season), fb(s.holes), FieldV::Bytes(s.hole_no@), FieldV::Bytes(s.wind_dir@), FieldV::Bytes(s.wind_pow@), FieldV::Bytes(s.weather@), FieldV::Bytes(s.cup_pos@), FieldV::Words(s.cid@), FieldV::Halves(s.caddies@), FieldV::Words(s.caddie_reliance@), FieldV::Words(s.ball_array@), FieldV::Words(s.hold_box@)]
}

impl GameStart {
    pub fn schema() -> (r: Vec<Kind>)
        ensures
            r@ == game_start_schema(),
    {
        vec![Kind::Byte, Kind::Byte, Kind::Byte, Kind::Byte, Kind::Byte, Kind::Byte, Kind::Byte, Kind::Byte, Kind::Bytes(18), Kind::Bytes(18), Kind::Bytes(18), Kind::Bytes(18), Kind::Bytes(18), Kind::Words(50), Kind::Halves(50), Kind::Words(50), Kind::Words(50), Kind::Words(400)]
    }

    pub fn to_fields(&self) -> (r: Vec<Field>)
        ensures
            fields_view(r@) == game_start_fields(*self),
    {
        let r = vec![Field::Byte(self.mode as u8), Field::Byte(self.rule as u8), Field::Byte(self.time), Field::Byte(self.member as u8), Field::Byte(self.member_max as u8), Field::Byte(self.course as u8), Field::Byte(self.season as u8), Field::Byte(self.holes as u8), Field::Bytes(copy_vec(&self.hole_no)), Field::Bytes(copy_vec(&self.wind_dir)), Field::Bytes(copy_vec(&self.wind_pow)), Field::Bytes(copy_vec(&self.weather)), Field::Bytes(copy_vec(&self.cup_pos)), Field::Words(copy_vec(&self.cid)), Field::Halves(copy_vec(&self.caddies)), Field::Words(copy_vec(&self.caddie_reliance)), Field::Words(copy_vec(&self.ball_array)), Field::Words(copy_vec(&self.hold_box))];
        assert(fields_view(r@) =~= game_start_fields(*self));
        r
    }

    pub fn from_fields(fs: &[Field]) -> (r: GameStart)
        requires
            fields_match(game_start_schema(), fields_view(fs@)),
        ensures
            game_start_fields(r) == fields_view(fs@),
    {
        proof {
            assert(field_has_kind(fields_view(fs@)[0], game_start_schema()[0]));
            assert(field_has_kind(fields_view(fs@)[1], game_start_schema()[1]));
            assert(field_has_kind(fields_view(fs@)[2], game_start_schema()[2]));
            assert(field_has_kind(fields_view(fs@)[3], game_start_schema()[3]));
            assert(field_has_kind(fields_view(fs@)[4], game_start_schema()[4]));
            assert(field_has_kind(fields_view(fs@)[5], game_start_schema()[5]));
            assert(field_has_kind(fields_view(fs@)[6], game_start_schema()[6]));
            assert(field_has_kind(fields_view(fs@)[7], game_start_schema()[7]));
            assert(field_has_kind(fields_view(fs@)[8], game_start_schema()[8]));
            assert(field_has_kind(fields_view(fs@)[9], game_start_schema()[9]));
            assert(field_has_kind(fields_view(fs@)[10], game_start_schema()[10]));
            assert(field_has_kind(fields_view(fs@)[11], game_start_schema()[11]));
            assert(field_has_kind(fields_view(fs@)[12], game_start_schema()[12]));
            assert(field_has_kind(fields_view(fs@)[13], game_start_schema()[13]));
            assert(field_has_kind(fields_view(fs@)[14], game_start_schema()[14]));
            assert(field_has_kind(fields_view(fs@)[15], game_start_schema()[15]));
            assert(field_has_kind(fields_view(fs@)[16], game_start_schema()[16]));
            assert(field_has_kind(fields_view(fs@)[17], game_start_schema()[17]));
        }
        let r = GameStart {
            mode: get_i8(fs, 0),
            rule: get_i8(fs, 1),
            time: get_u8(fs, 2),
            member: get_i8(fs, 3),
            member_max: get_i8(fs, 4),
            course: get_i8(fs, 5),
            season: get_i8(fs, 6),
            holes: get_i8(fs, 7),
            hole_no: get_bytes(fs, 8),
            wind_dir: get_bytes(fs, 9),
            wind_pow: get_bytes(fs, 10),
            weather: get_bytes(fs, 11),
            cup_pos: get_bytes(fs, 12),
            cid: get_words(fs, 13),
            caddies: get_halves(fs, 14),
            caddie_reliance: get_words(fs, 15),
            ball_array: get_words(fs, 16),
            hold_box: get_words(fs, 17),
        };
        assert(game_start_fields(r) =~= fields_view(fs@));
        r
    }
}

impl GameStart {
    /// Whether every array field has its fixed length.
    pub fn fits(&self) -> (r: bool)
        ensures
            r == fields_match(game_start_schema(), game_start_fields(*self)),
    {
        let r = self.hole_no.len() == 18 && self.wind_dir.len() == 18 && self.wind_pow.len() == 18 && self.weather.len() == 18 && self.cup_pos.len() == 18 && self.cid.len() == 50 && self.caddies.len() == 50 && self.caddie_reliance.len() == 50 && self.ball_array.len() == 50 && self.hold_box.len() == 400;
        proof {
            if r {
                assert forall|j: int| 0 <= j < 18 implies field_has_kind(#[trigger] game_start_fields(*self)[j], game_start_schema()[j]) by {
                    if j == 0 {} else if j == 1 {} else if j == 2 {} else if j == 3 {} else if j == 4 {} else if j == 5 {} else if j == 6 {} else if j == 7 {} else if j == 8 {} else if j == 9 {} else if j == 10 {} else if j == 11 {} else if j == 12 {} else if j == 13 {} else if j == 14 {} else if j == 15 {} else if j == 16 {} else if j == 17 {}
                }
            } else {
                if self.hole_no.len() != 18 { assert(!field_has_kind(game_start_fields(*self)[8], game_start_schema()[8])); } else if self.wind_dir.len() != 18 { assert(!field_has_kind(game_start_fields(*self)[9], game_start_schema()[9])); } else if self.wind_pow.len() != 18 { assert(!field_has_kind(game_start_fields(*self)[10], game_start_schema()[10])); } else if self.weather.len() != 18 { assert(!field_has_kind(game_start_fields(*self)[11], game_start_schema()[11])); } else if self.cup_pos.len() != 18 { assert(!field_has_kind(game_start_fields(*self)[12], game_start_schema()[12])); } else if self.cid.len() != 50 { assert(!field_has_kind(game_start_fields(*self)[13], game_start_schema()[13])); } else if self.caddies.len() != 50 { assert(!field_has_kind(game_start_fields(*self)[14], game_start_schema()[14])); } else if self.caddie_reliance.len() != 50 { assert(!field_has_kind(game_start_fields(*self)[15], game_start_schema()[15])); } else if self.ball_array.len() != 50 { assert(!field_has_kind(game_start_fields(*self)[16], game_start_schema()[16])); } else if self.hold_box.len() != 400 { assert(!field_has_kind(game_start_fields(*self)[17], game_start_schema()[17])); }
            }
        }
        r
    }
}

/// One shot, relayed to the other players.
#[derive(Clone, Debug, PartialEq, Eq)]
pub struct Shot {
    pub clock: u64,
    /// The shooter (left unset by the client).
    pub cid: i32,
    /// A 32-bit float, carried as its bits.
    pub dir: u32,
    pub power: i16,
    pub impact: i16,
    pub hit_x: i8,
    pub hit_y: i8,
    pub club: i8,
}

pub open spec fn shot_schema() -> Seq<Kind> {
    seq![Kind::Long, Kind::Word, Kind::Word, Kind::Half, Kind::Half, Kind::Byte, Kind::Byte, Kind::Byte]
}

pub open spec fn shot_fields(s: Shot) -> Seq<FieldV> {
    seq![FieldV::Long(s.clock), fw(s.cid), FieldV::Word(s.dir), fh(s.power), fh(s.impact), fb(s.hit_x), fb(s.hit_y), fb(s.club)]
}

impl Shot {
    pub fn schema() -> (r: Vec<Kind>)
        ensures
            r@ == shot_schema(),
    {
        vec![Kind::Long, Kind::Word, Kind::Word, Kind::Half, Kind::Half, Kind::Byte, Kind::Byte, Kind::Byte]
    }

    pub fn to_fields(&self) -> (r: Vec<Field>)
        ensures
            fields_view(r@) == shot_fields(*self),
    {
        let r = vec![Field::Long(self.clock), Field::Word(self.cid as u32), Field::Word(self.dir), Field::Half(self.power as u16), Field::Half(self.impact as u16), Field::Byte(self.hit_x as u8), Field::Byte(self.hit_y as u8), Field::Byte(self.club as u8)];
        assert(fields_view(r@) =~= shot_fields(*self));
        r
    }

    pub fn from_fields(fs: &[Field]) -> (r: Shot)
        requires
            fields_match(shot_schema(), fields_view(fs@)),
        ensures
            shot_fields(r) == fields_view(fs@),
    {
        proof {
            assert(field_has_kind(fields_view(fs@)[0], shot_schema()[0]));
            assert(field_has_kind(fields_view(fs@)[1], shot_schema()[1]));
            assert(field_has_kind(fields_view(fs@)[2], shot_schema()[2]));
            assert(field_has_kind(fields_view(fs@)[3], shot_schema()[3]));
            assert(field_has_kind(fields_view(fs@)[4], shot_schema()[4]));
            assert(field_has_kind(fields_view(fs@)[5], shot_schema()[5]));
            assert(field_has_kind(fields_view(fs@)[6], shot_schema()[6]));
            assert(field_has_kind(fields_view(fs@)[7], shot_schema()[7]));
        }
        let r = Shot {
            clock: get_u64(fs, 0),
            cid: get_i32(fs, 1),
            dir: get_u32(fs, 2),
            power: get_i16(fs, 3),
            impact: get_i16(fs, 4),
            hit_x: get_i8(fs, 5),
            hit_y: get_i8(fs, 6),
            club: get_i8(fs, 7),
        };
        assert(shot_fields(r) =~= fields_view(fs@));
        r
    }
}

impl Shot {
    /// Whether every array field has its fixed length.
    pub fn fits(&self) -> (r: bool)
        ensures
            r == fields_match(shot_schema(), shot_fields(*self)),
    {
        let r = true;
        proof {
            if r {
                assert forall|j: int| 0 <= j < 8 implies field_has_kind(#[trigger] shot_fields(*self)[j], shot_schema()[j]) by {
                    if j == 0 {} else if j == 1 {} else if j == 2 {} else if j == 3 {} else if j == 4 {} else if j == 5 {} else if j == 6 {} else if j == 7 {}
                }
            }
        }
        r
    }
}

/// A ball position, relayed to the other players.
#[derive(Clone, Debug, PartialEq, Eq)]
pub struct BallPos {
    pub cid: i32,
    pub hole: i8,
    pub stat: i8,
    /// A 32-bit float, carried as its bits.
    pub x: u32,
    /// A 32-bit float, carried as its bits.
    pub y: u32,
    /// A 32-bit float, carried as its bits.
    pub z: u32,
}

pub open spec fn ball_pos_schema() -> Seq<Kind> {
    seq![Kind::Word, Kind::Byte, Kind::Byte, Kind::Word, Kind::Word, Kind::Word]
}

pub open spec fn ball_pos_fields(s: BallPos) -> Seq<FieldV> {
    seq![fw(s.cid), fb(s.hole), fb(s.stat), FieldV::Word(s.x), FieldV::Word(s.y), FieldV::Word(s.z)]
}

impl BallPos {
    pub fn schema() -> (r: Vec<Kind>)
        ensures
            r@ == ball_pos_schema(),
    {
        vec![Kind::Word, Kind::Byte, Kind::Byte, Kind::Word, Kind::Word, Kind::Word]
    }

    pub fn to_fields(&self) -> (r: Vec<Field>)
        ensures
            fields_view(r@) == ball_pos_fields(*self),
    {
        let r = vec![Field::Word(self.cid as u32), Field::Byte(self.hole as u8), Field::Byte(self.stat as u8), Field::Word(self.x), Field::Word(self.y), Field::Word(self.z)];
        assert(fields_view(r@) =~= ball_pos_fields(*self));
        r
    }

    pub fn from_fields(fs: &[Field]) -> (r: BallPos)
        requires
            fields_match(ball_pos_schema(), fields_view(fs@)),
        ensures
            ball_pos_fields(r) == fields_view(fs@),
    {
        proof {
            assert(field_has_kind(fields_view(fs@)[0], ball_pos_schema()[0]));
            assert(field_has_kind(fields_view(fs@)[1], ball_pos_schema()[1]));
            assert(field_has_kind(fields_view(fs@)[2], ball_pos_schema()[2]));
            assert(field_has_kind(fields_view(fs@)[3], ball_pos_schema()[3]));
            assert(field_has_kind(fields_view(fs@)[4], ball_pos_schema()[4]));
            assert(field_has_kind(fields_view(fs@)[5], ball_pos_schema()[5]));
        }
        let r = BallPos {
            cid: get_i32(fs, 0),
            hole: get_i8(fs, 1),
            stat: get_i8(fs, 2),
            x: get_u32(fs, 3),
            y: get_u32(fs, 4),
            z: get_u32(fs, 5),
        };
        assert(ball_pos_fields(r) =~= fields_view(fs@));
        r
    }
}

impl BallPos {
    /// Whether every array field has its fixed length.
    pub fn fits(&self) -> (r: bool)
        ensures
            r == fields_match(ball_pos_schema(), ball_pos_fields(*self)),
    {
        let r = true;
        proof {
            if r {
                assert forall|j: int| 0 <= j < 6 implies field_has_kind(#[trigger] ball_pos_fields(*self)[j], ball_pos_schema()[j]) by {
                    if j == 0 {} else if j == 1 {} else if j == 2 {} else if j == 3 {} else if j == 4 {} else if j == 5 {}
                }
            }
        }
        r
    }
}

/// A player command, relayed to the room.
#[derive(Clone, Debug, PartialEq, Eq)]
pub struct PCommand {
    pub cid: i32,
    pub p0: u32,
    pub p1: u32,
    /// Bit 15 set: the sender does not get the command back.
    pub cmd_and_flag: u16,
    pub reserved: u16,
}

pub open spec fn pcommand_schema() -> Seq<Kind> {
    seq![Kind::Word, Kind::Word, Kind::Word, Kind::Half, Kind::Half]
}

pub open spec fn pcommand_fields(s: PCommand) -> Seq<FieldV> {
    seq![fw(s.cid), FieldV::Word(s.p0), FieldV::Word(s.p1), FieldV::Half(s.cmd_and_flag), FieldV::Half(s.reserved)]
}

impl PCommand {
    pub fn schema() -> (r: Vec<Kind>)
        ensures
            r@ == pcommand_schema(),
    {
        vec![Kind::Word, Kind::Word, Kind::Word, Kind::Half, Kind::Half]
    }

    pub fn to_fields(&self) -> (r: Vec<Field>)
        ensures
            fields_view(r@) == pcommand_fields(*self),
    {
        let r = vec![Field::Word(self.cid as u32), Field::Word(self.p0), Field::Word(self.p1), Field::Half(self.cmd_and_flag), Field::Half(self.reserved)];
        assert(fields_view(r@) =~= pcommand_fields(*self));
        r
    }

    pub fn from_fields(fs: &[Field]) -> (r: PCommand)
        requires
            fields_match(pcommand_schema(), fields_view(fs@)),
        ensures
            pcommand_fields(r) == fields_view(fs@),
    {
        proof {
            assert(field_has_kind(fields_view(fs@)[0], pcommand_schema()[0]));
            assert(field_has_kind(fields_view(fs@)[1], pcommand_schema()[1]));
            assert(field_has_kind(fields_view(fs@)[2], pcommand_schema()[2]));
            assert(field_has_kind(fields_view(fs@)[3], pcommand_schema()[3]));
            assert(field_has_kind(fields_view(fs@)[4], pcommand_schema()[4]));
        }
        let r = PCommand {
            cid: get_i32(fs, 0),
            p0: get_u32(fs, 1),
            p1: get_u32(fs, 2),
            cmd_and_flag: get_u16(fs, 3),
            reserved: get_u16(fs, 4),
        };
        assert(pcommand_fields(r) =~= fields_view(fs@));
        r
    }
}

impl PCommand {
    /// Whether every array field has its fixed length.
    pub fn fits(&self) -> (r: bool)
        ensures
            r == fields_match(pcommand_schema(), pcommand_fields(*self)),
    {
        let r = true;
        proof {
            if r {
                assert forall|j: int| 0 <= j < 5 implies field_has_kind(#[trigger] pcommand_fields(*self)[j], pcommand_schema()[j]) by {
                    if j == 0 {} else if j == 1 {} else if j == 2 {} else if j == 3 {} else if j == 4 {}
                }
            }
        }
        r
    }
}

/// A request to set the display name.
#[derive(Clone, Debug, PartialEq, Eq)]
pub struct SetPlayerName {
    pub unk1: i32,
    pub unk2: i32,
    pub name: Vec<u16>,
    pub unk3: i32,
}

pub open spec fn set_player_name_schema() -> Seq<Kind> {
    seq![Kind::Word, Kind::Word, Kind::Halves(17), Kind::Word]
}

pub open spec fn set_player_name_fields(s: SetPlayerName) -> Seq<FieldV> {
    seq![fw(s.unk1), fw(s.unk2), FieldV::Halves(s.name@), fw(s.unk3)]
}

impl SetPlayerName {
    pub fn schema() -> (r: Vec<Kind>)
        ensures
            r@ == set_player_name_schema(),
    {
        vec![Kind::Word, Kind::Word, Kind::Halves(17), Kind::Word]
    }

    pub fn to_fields(&self) -> (r: Vec<Field>)
        ensures
            fields_view(r@) == set_player_name_fields(*self),
    {
        let r = vec![Field::Word(self.unk1 as u32), Field::Word(self.unk2 as u32), Field::Halves(copy_vec(&self.name)), Field::Word(self.unk3 as u32)];
        assert(fields_view(r@) =~= set_player_name_fields(*self));
        r
    }

    pub fn from_fields(fs: &[Field]) -> (r: SetPlayerName)
        requires
            fields_match(set_player_name_schema(), fields_view(fs@)),
        ensures
            set_player_name_fields(r) == fields_view(fs@),
    {
        proof {
            assert(field_has_kind(fields_view(fs@)[0], set_player_name_schema()[0]));
            assert(field_has_kind(fields_view(fs@)[1], set_player_name_schema()[1]));
            assert(field_has_kind(fields_view(fs@)[2], set_player_name_schema()[2]));
            assert(field_has_kind(fields_view(fs@)[3], set_player_name_schema()[3]));
        }
        let r = SetPlayerName {
            unk1: get_i32(fs, 0),
            unk2: get_i32(fs, 1),
            name: get_halves(fs, 2),
            unk3: get_i32(fs, 3),
        };
        assert(set_player_name_fields(r) =~= fields_view(fs@));
        r
    }
}

impl SetPlayerName {
    /// Whether every array field has its fixed length.
    pub fn fits(&self) -> (r: bool)
        ensures
            r == fields_match(set_player_name_schema(), set_player_name_fields(*self)),
    {
        let r = self.name.len() == 17;
        proof {
            if r {
                assert forall|j: int| 0 <= j < 4 implies field_has_kind(#[trigger] set_player_name_fields(*self)[j], set_player_name_schema()[j]) by {
                    if j == 0 {} else if j == 1 {} else if j == 2 {} else if j == 3 {}
                }
            } else {
                if self.name.len() != 17 { assert(!field_has_kind(set_player_name_fields(*self)[2], set_player_name_schema()[2])); }
            }
        }
        r
    }
}

/// A player's course record as sent to a client: the key, the record in its wire form, and a status.
#[derive(Clone, Debug, PartialEq, Eq)]
pub struct CRecordReply {
    pub uid: i32,
    pub course: i8,
    pub season: i8,
    /// 0 to 3 for 3, 6, 9 or 18 holes.
    pub hole_idx: i8,
    pub mx_score: i8,
    pub lowest_score: i8,
    pub total_score: i8,
    pub array: Vec<u8>,
    pub num_rounds: u16,
    pub max_gp: u16,
    pub total_gp: u32,
    pub max_exp: u32,
    pub total_exp: u32,
    pub max_drive: u32,
    /// Longest chip-in in bits 0 to 17, longest putt in bits 18 to 31.
    pub chip_putt: u32,
    pub unk: u32,
    /// 0, or -1 when the record could not be read.
    pub status: i8,
}

pub open spec fn crecord_reply_schema() -> Seq<Kind> {
    seq![Kind::Word, Kind::Byte, Kind::Byte, Kind::Byte, Kind::Byte, Kind::Byte, Kind::Byte, Kind::Bytes(18), Kind::Half, Kind::Half, Kind::Word, Kind::Word, Kind::Word, Kind::Word, Kind::Word, Kind::Word, Kind::Byte]
}

pub open spec fn crecord_reply_fields(s: CRecordReply) -> Seq<FieldV> {
    seq![fw(s.uid), fb(s.course), fb(s.season), fb(s.hole_idx), fb(s.mx_score), fb(s.lowest_score), fb(s.total_score), FieldV::Bytes(s.array@), FieldV::Half(s.num_rounds), FieldV::Half(s.max_gp), FieldV::Word(s.total_gp), FieldV::Word(s.max_exp), FieldV::Word(s.total_exp), FieldV::Word(s.max_drive), FieldV::Word(s.chip_putt), FieldV::Word(s.unk), fb(s.status)]
}

impl CRecordReply {
    pub fn schema() -> (r: Vec<Kind>)
        ensures
            r@ == crecord_reply_schema(),
    {
        vec![Kind::Word, Kind::Byte, Kind::Byte, Kind::Byte, Kind::Byte, Kind::Byte, Kind::Byte, Kind::Bytes(18), Kind::Half, Kind::Half, Kind::Word, Kind::Word, Kind::Word, Kind::Word, Kind::Word, Kind::Word, Kind::Byte]
    }

    pub fn to_fields(&self) -> (r: Vec<Field>)
        ensures
            fields_view(r@) == crecord_reply_fields(*self),
    {
        let r = vec![Field::Word(self.uid as u32), Field::Byte(self.course as u8), Field::Byte(self.season as u8), Field::Byte(self.hole_idx as u8), Field::Byte(self.mx_score as u8), Field::Byte(self.lowest_score as u8), Field::Byte(self.total_score as u8), Field::Bytes(copy_vec(&self.array)), Field::Half(self.num_rounds), Field::Half(self.max_gp), Field::Word(self.total_gp), Field::Word(self.max_exp), Field::Word(self.total_exp), Field::Word(self.max_drive), Field::Word(self.chip_putt), Field::Word(self.unk), Field::Byte(self.status as u8)];
        assert(fields_view(r@) =~= crecord_reply_fields(*self));
        r
    }

    pub fn from_fields(fs: &[Field]) -> (r: CRecordReply)
        requires
            fields_match(crecord_reply_schema(), fields_view(fs@)),
        ensures
            crecord_reply_fields(r) == fields_view(fs@),
    {
        proof {
            assert(field_has_kind(fields_view(fs@)[0], crecord_reply_schema()[0]));
            assert(field_has_kind(fields_view(fs@)[1], crecord_reply_schema()[1]));
            assert(field_has_kind(fields_view(fs@)[2], crecord_reply_schema()[2]));
            assert(field_has_kind(fields_view(fs@)[3], crecord_reply_schema()[3]));
            assert(field_has_kind(fields_view(fs@)[4], crecord_reply_schema()[4]));
            assert(field_has_kind(fields_view(fs@)[5], crecord_reply_schema()[5]));
            assert(field_has_kind(fields_view(fs@)[6], crecord_reply_schema()[6]));
            assert(field_has_kind(fields_view(fs@)[7], crecord_reply_schema()[7]));
            assert(field_has_kind(fields_view(fs@)[8], crecord_reply_schema()[8]));
            assert(field_has_kind(fields_view(fs@)[9], crecord_reply_schema()[9]));
            assert(field_has_kind(fields_view(fs@)[10], crecord_reply_schema()[10]));
            assert(field_has_kind(fields_view(fs@)[11], crecord_reply_schema()[11]));
            assert(field_has_kind(fields_view(fs@)[12], crecord_reply_schema()[12]));
            assert(field_has_kind(fields_view(fs@)[13], crecord_reply_schema()[13]));
            assert(field_has_kind(fields_view(fs@)[14], crecord_reply_schema()[14]));
            assert(field_has_kind(fields_view(fs@)[15], crecord_reply_schema()[15]));
            assert(field_has_kind(fields_view(fs@)[16], crecord_reply_schema()[16]));
        }
        let r = CRecordReply {
            uid: get_i32(fs, 0),
            course: get_i8(fs, 1),
            season: get_i8(fs, 2),
            hole_idx: get_i8(fs, 3),
            mx_score: get_i8(fs, 4),
            lowest_score: get_i8(fs, 5),
            total_score: get_i8(fs, 6),
            array: get_bytes(fs, 7),
            num_rounds: get_u16(fs, 8),
            max_gp: get_u16(fs, 9),
            total_gp: get_u32(fs, 10),
            max_exp: get_u32(fs, 11),
            total_exp: get_u32(fs, 12),
            max_drive: get_u32(fs, 13),
            chip_putt: get_u32(fs, 14),
            unk: get_u32(fs, 15),
            status: get_i8(fs, 16),
        };
        assert(crecord_reply_fields(r) =~= fields_view(fs@));
        r
    }
}

impl CRecordReply {
    /// Whether every array field has its fixed length.
    pub fn fits(&self) -> (r: bool)
        ensures
            r == fields_match(crecord_reply_schema(), crecord_reply_fields(*self)),
    {
        let r = self.array.len() == 18;
        proof {
            if r {
                assert forall|j: int| 0 <= j < 17 implies field_has_kind(#[trigger] crecord_reply_fields(*self)[j], crecord_reply_schema()[j]) by {
                    if j == 0 {} else if j == 1 {} else if j == 2 {} else if j == 3 {} else if j == 4 {} else if j == 5 {} else if j == 6 {} else if j == 7 {} else if j == 8 {} else if j == 9 {} else if j == 10 {} else if j == 11 {} else if j == 12 {} else if j == 13 {} else if j == 14 {} else if j == 15 {} else if j == 16 {}
                }
            } else {
                if self.array.len() != 18 { assert(!field_has_kind(crecord_reply_fields(*self)[7], crecord_reply_schema()[7])); }
            }
        }
        r
    }
}

/// One character of a connection as sent to clients.
#[derive(Clone, Debug, PartialEq, Eq)]
pub struct ChrDataReply {
    pub cid: i32,
    pub uid: i32,
    pub chr_uid: i32,
    /// The character index (1 to 7).
    pub type_: i16,
    /// The class cap (0 to 7).
    pub class: i8,
    pub x_7: i8,
    pub param_power: i16,
    pub param_control: i16,
    pub param_impact: i16,
    pub param_spin: i16,
    pub x_10: Vec<u8>,
    /// Eight (power, control, impact, spin) settings.
    pub param_settings: Vec<u16>,
    /// The appearance in its nine wire words.
    pub appearance: Vec<u32>,
    pub club: u32,
    pub ball: u32,
    pub caddie: u32,
}

pub open spec fn chr_data_reply_schema() -> Seq<Kind> {
    seq![Kind::Word, Kind::Word, Kind::Word, Kind::Half, Kind::Byte, Kind::Byte, Kind::Half, Kind::Half, Kind::Half, Kind::Half, Kind::Bytes(16), Kind::Halves(32), Kind::Words(9), Kind::Word, Kind::Word, Kind::Word]
}

pub open spec fn chr_data_reply_fields(s: ChrDataReply) -> Seq<FieldV> {
    seq![fw(s.cid), fw(s.uid), fw(s.chr_uid), fh(s.type_), fb(s.class), fb(s.x_7), fh(s.param_power), fh(s.param_control), fh(s.param_impact), fh(s.param_spin), FieldV::Bytes(s.x_10@), FieldV::Halves(s.param_settings@), FieldV::Words(s.appearance@), FieldV::Word(s.club), FieldV::Word(s.ball), FieldV::Word(s.caddie)]
}

impl ChrDataReply {
    pub fn schema() -> (r: Vec<Kind>)
        ensures
            r@ == chr_data_reply_schema(),
    {
        vec![Kind::Word, Kind::Word, Kind::Word, Kind::Half, Kind::Byte, Kind::Byte, Kind::Half, Kind::Half, Kind::Half, Kind::Half, Kind::Bytes(16), Kind::Halves(32), Kind::Words(9), Kind::Word, Kind::Word, Kind::Word]
    }

    pub fn to_fields(&self) -> (r: Vec<Field>)
        ensures
            fields_view(r@) == chr_data_reply_fields(*self),
    {
        let r = vec![Field::Word(self.cid as u32), Field::Word(self.uid as u32), Field::Word(self.chr_uid as u32), Field::Half(self.type_ as u16), Field::Byte(self.class as u8), Field::Byte(self.x_7 as u8), Field::Half(self.param_power as u16), Field::Half(self.param_control as u16), Field::Half(self.param_impact as u16), Field::Half(self.param_spin as u16), Field::Bytes(copy_vec(&self.x_10)), Field::Halves(copy_vec(&self.param_settings)), Field::Words(copy_vec(&self.appearance)), Field::Word(self.club), Field::Word(self.ball), Field::Word(self.caddie)];
        assert(fields_view(r@) =~= chr_data_reply_fields(*self));
        r
    }

    pub fn from_fields(fs: &[Field]) -> (r: ChrDataReply)
        requires
            fields_match(chr_data_reply_schema(), fields_view(fs@)),
        ensures
            chr_data_reply_fields(r) == fields_view(fs@),
    {
        proof {
            assert(field_has_kind(fields_view(fs@)[0], chr_data_reply_schema()[0]));
            assert(field_has_kind(fields_view(fs@)[1], chr_data_reply_schema()[1]));
            assert(field_has_kind(fields_view(fs@)[2], chr_data_reply_schema()[2]));
            assert(field_has_kind(fields_view(fs@)[3], chr_data_reply_schema()[3]));
            assert(field_has_kind(fields_view(fs@)[4], chr_data_reply_schema()[4]));
            assert(field_has_kind(fields_view(fs@)[5], chr_data_reply_schema()[5]));
            assert(field_has_kind(fields_view(fs@)[6], chr_data_reply_schema()[6]));
            assert(field_has_kind(fields_view(fs@)[7], chr_data_reply_schema()[7]));
            assert(field_has_kind(fields_view(fs@)[8], chr_data_reply_schema()[8]));
            assert(field_has_kind(fields_view(fs@)[9], chr_data_reply_schema()[9]));
            assert(field_has_kind(fields_view(fs@)[10], chr_data_reply_schema()[10]));
            assert(field_has_kind(fields_view(fs@)[11], chr_data_reply_schema()[11]));
            assert(field_has_kind(fields_view(fs@)[12], chr_data_reply_schema()[12]));
            assert(field_has_kind(fields_view(fs@)[13], chr_data_reply_schema()[13]));
            assert(field_has_kind(fields_view(fs@)[14], chr_data_reply_schema()[14]));
            assert(field_has_kind(fields_view(fs@)[15], chr_data_reply_schema()[15]));
        }
        let r = ChrDataReply {
            cid: get_i32(fs, 0),
            uid: get_i32(fs, 1),
            chr_uid: get_i32(fs, 2),
            type_: get_i16(fs, 3),
            class: get_i8(fs, 4),
            x_7: get_i8(fs, 5),
            param_power: get_i16(fs, 6),
            param_control: get_i16(fs, 7),
            param_impact: get_i16(fs, 8),
            param_spin: get_i16(fs, 9),
            x_10: get_bytes(fs, 10),
            param_settings: get_halves(fs, 11),
            appearance: get_words(fs, 12),
            club: get_u32(fs, 13),
            ball: get_u32(fs, 14),
            caddie: get_u32(fs, 15),
        };
        assert(chr_data_reply_fields(r) =~= fields_view(fs@));
        r
    }
}

impl ChrDataReply {
    /// Whether every array field has its fixed length.
    pub fn fits(&self) -> (r: bool)
        ensures
            r == fields_match(chr_data_reply_schema(), chr_data_reply_fields(*self)),
    {
        let r = self.x_10.len() == 16 && self.param_settings.len() == 32 && self.appearance.len() == 9;
        proof {
            if r {
                assert forall|j: int| 0 <= j < 16 implies field_has_kind(#[trigger] chr_data_reply_fields(*self)[j], chr_data_reply_schema()[j]) by {
                    if j == 0 {} else if j == 1 {} else if j == 2 {} else if j == 3 {} else if j == 4 {} else if j == 5 {} else if j == 6 {} else if j == 7 {} else if j == 8 {} else if j == 9 {} else if j == 10 {} else if j == 11 {} else if j == 12 {} else if j == 13 {} else if j == 14 {} else if j == 15 {}
                }
            } else {
                if self.x_10.len() != 16 { assert(!field_has_kind(chr_data_reply_fields(*self)[10], chr_data_reply_schema()[10])); } else if self.param_settings.len() != 32 { assert(!field_has_kind(chr_data_reply_fields(*self)[11], chr_data_reply_schema()[11])); } else if self.appearance.len() != 9 { assert(!field_has_kind(chr_data_reply_fields(*self)[12], chr_data_reply_schema()[12])); }
            }
        }
        r
    }
}

/// The element assignment notice.
#[derive(Clone, Debug, PartialEq, Eq)]
pub struct ColorResult {
    pub element: i8,
    pub last_element: i8,
    pub color_result: i8,
    pub rank_in_color: i32,
    pub gp: i32,
    pub item: u32,
}

pub open spec fn color_result_schema() -> Seq<Kind> {
    seq![Kind::Byte, Kind::Byte, Kind::Byte, Kind::Word, Kind::Word, Kind::Word]
}

pub open spec fn color_result_fields(s: ColorResult) -> Seq<FieldV> {
    seq![fb(s.element), fb(s.last_element), fb(s.color_result), fw(s.rank_in_color), fw(s.gp), FieldV::Word(s.item)]
}

impl ColorResult {
    pub fn schema() -> (r: Vec<Kind>)
        ensures
            r@ == color_result_schema(),
    {
        vec![Kind::Byte, Kind::Byte, Kind::Byte, Kind::Word, Kind::Word, Kind::Word]
    }

    pub fn to_fields(&self) -> (r: Vec<Field>)
        ensures
            fields_view(r@) == color_result_fields(*self),
    {
        let r = vec![Field::Byte(self.element as u8), Field::Byte(self.last_element as u8), Field::Byte(self.color_result as u8), Field::Word(self.rank_in_color as u32), Field::Word(self.gp as u32), Field::Word(self.item)];
        assert(fields_view(r@) =~= color_result_fields(*self));
        r
    }

    pub fn from_fields(fs: &[Field]) -> (r: ColorResult)
        requires
            fields_match(color_result_schema(), fields_view(fs@)),
        ensures
            color_result_fields(r) == fields_view(fs@),
    {
        proof {
            assert(field_has_kind(fields_view(fs@)[0], color_result_schema()[0]));
            assert(field_has_kind(fields_view(fs@)[1], color_result_schema()[1]));
            assert(field_has_kind(fields_view(fs@)[2], color_result_schema()[2]));
            assert(field_has_kind(fields_view(fs@)[3], color_result_schema()[3]));
            assert(field_has_kind(fields_view(fs@)[4], color_result_schema()[4]));
            assert(field_has_kind(fields_view(fs@)[5], color_result_schema()[5]));
        }
        let r = ColorResult {
            element: get_i8(fs, 0),
            last_element: get_i8(fs, 1),
            color_result: get_i8(fs, 2),
            rank_in_color: get_i32(fs, 3),
            gp: get_i32(fs, 4),
            item: get_u32(fs, 5),
        };
        assert(color_result_fields(r) =~= fields_view(fs@));
        r
    }
}

impl ColorResult {
    /// Whether every array field has its fixed length.
    pub fn fits(&self) -> (r: bool)
        ensures
            r == fields_match(color_result_schema(), color_result_fields(*self)),
    {
        let r = true;
        proof {
            if r {
                assert forall|j: int| 0 <= j < 6 implies field_has_kind(#[trigger] color_result_fields(*self)[j], color_result_schema()[j]) by {
                    if j == 0 {} else if j == 1 {} else if j == 2 {} else if j == 3 {} else if j == 4 {} else if j == 5 {}
                }
            }
        }
        r
    }
}

/// A message of the catalog; any other opcode decodes to `Unknown`.
#[allow(non_camel_case_types)]
#[derive(Clone, Debug, PartialEq, Eq)]
pub enum Packet {
    /// Login gate: credentials.
    SEND_IDPASS(IDPass),
    /// Login gate: 0 or a negative failure code.
    ACK_IDPASS { result: i8 },
    /// Login gate: ask for the server list.
    REQ_GMSVLIST,
    SEND_GMSVDATA(GmsvData),
    ACK_GMSVLIST,
    /// Game server: credentials.
    SEND_IDPASS_G(IDPass),
    /// Game server: the account snapshot, or a failure code in `cid`.
    ACK_IDPASS_G(UData),
    REQ_CHG_MODE { mode: i8 },
    ACK_CHG_MODE { mode: i8 },
    GET_LOBBY_NUM,
    SEND_LOBBY_NUM { count: i8 },
    GET_LOBBY_DATA { index: i8, mode: i8 },
    SEND_LOBBY_DATA(LobbyData),
    REQ_ENTER_LOBBY { lobby: i8 },
    /// The lobby entered, or -1.
    ACK_ENTER_LOBBY { lobby: i8 },
    REQ_MAKE_ROOM(Packet19),
    /// The new room number, or -1.
    ACK_MAKE_ROOM { room: i8 },
    GET_ROOMS,
    /// One room of the caller's lobby.
    PKT_19(Packet19),
    REQ_ENTER_ROOM { room: i8, room_flag: u32, room_password: Vec<u16> },
    /// The room entered, or a failure code in `room`.
    ACK_ENTER_ROOM(Packet19),
    REQ_ULIST { mode: i8, lobby: i8, room: i8 },
    SEND_ULIST(UList),
    /// Leave the current room.
    PKT_24,
    ACK_EXIT_ROOM { status: i8 },
    SEND_USTAT { cid: i32, uid: i32, stat: u32 },
    /// Chat; the text is `len` UTF-16 units.
    SEND_MESSAGE { cid: i32, msg_type: i8, server_id: i8, name: Vec<u16>, len: u16, message: Vec<u16> },
    REQ_GAMESTART,
    ORD_GAMESTART(GameStart),
    CLIENT_CRCLUB { club: i8 },
    SEND_CRCLUB { cid: i32, club: i8 },
    /// A 32-bit float, carried as its bits.
    CLIENT_DIRECTION { dir: u32 },
    SEND_DIRECTION { cid: i32, dir: u32 },
    CLIENT_SHOT(Shot),
    SEND_SHOT(Shot),
    /// Ask for a player's course record.
    REQ_CRECORD { uid: i32, course: i8, season: i8, hole_idx: i8 },
    SEND_CRECORD(CRecordReply),
    CLIENT_LOADSTAT { progress: i8 },
    SEND_LOADSTAT { cid: i32, progress: i8 },
    CLIENT_BALLPOS(BallPos),
    SEND_BALLPOS(BallPos),
    /// Friends: `count` account ids.
    PKT_72 { count: u32, users: Vec<u32> },
    /// Inbound friend requests: `count` account ids.
    PKT_74 { count: u32, users: Vec<u32> },
    /// Outbound friend requests: `count` account ids.
    PKT_76 { count: u32, users: Vec<u32> },
    /// Ask for the appearance of a connection's current character.
    REQ_APPEAR { cid: i32 },
    SEND_APPEAR { cid: i32, unk: i32, appear: Appearance },
    REQ_ULIST_L { mode: i8, lobby: i8 },
    SEND_ULIST_L(UListL),
    /// Ask for the regular shop's listings.
    PKT_89,
    /// The regular shop: `count` listings of three words each.
    SEND_SELLITEMLIST { count: u16, items: Vec<u32> },
    /// Buy a counted item.
    REQ_BUY_ITEM { item: u32 },
    /// 0 or a negative failure code.
    ACK_BUY_ITEM { result: i8 },
    /// Ask for the money balances.
    PKT_93,
    REP_MONEY { gp: i32, sc: i32 },
    SET_FIRST_CHARACTER_APPEARANCE(Appearance),
    ACK_FIRST_CHARACTER_APPEARANCE { status: i8 },
    /// A connection's character ids: `count` minus one of them follow the connection id.
    SEND_CHRUID { count: u32, cid: i32, chr_uids: Vec<u32> },
    /// Ask for one character of a connection.
    REQ_CHRDATA { cid: i32, chr_uid: i32 },
    SEND_CHRDATA(ChrDataReply),
    /// Ask for every character of a connection.
    GET_CHRDATA { cid: i32 },
    /// Change the appearance of one of the sender's characters.
    REQ_CHG_APPEAR { cid: i32, chr_uid: i32, appear: Appearance },
    /// The answer to an appearance change.
    PKT_104 { status: i8 },
    SET_PLAYER_NAME(SetPlayerName),
    ACK_SET_CHARACTER_NAME { status: i8 },
    PKT_112 { unk1: i32, unk2: i32, cnt: u32, values: Vec<u32> },
    /// A mail; the text is `len` bytes.
    PKT_114 { mail_uid: i32, from_uid: i32, to_uid: i32, year: i16, month: i8, day: i8, hour: i8, minute: i8, second: i8, len: u16, utf8_text: Vec<u8> },
    /// Send a mail; the text is `len` bytes.
    PKT_115 { mail_uid: i32, from_uid: i32, to_uid: i32, year: i16, month: i8, day: i8, hour: i8, minute: i8, second: i8, len: u16, utf8_text: Vec<u8> },
    /// The block list: `count` account ids.
    PKT_118 { unk1: i32, unk2: i32, count: u32, users: Vec<u32> },
    /// Ask for the inventory.
    PKT_131 { arg: i32 },
    /// The inventory: `count` counted items.
    PKT_132 { count: u32, items: Vec<u32> },
    /// Ask for the golf bag.
    PKT_133 { arg: i32 },
    /// The golf bag contents.
    PKT_134 { x4: i32, cid: i32, items: Vec<u32>, unk: Vec<u8> },
    CLIENT_PCOMMAND(PCommand),
    SEND_PCOMMAND(PCommand),
    /// Ask for the character a connection plays.
    PKT_137 { cid: i32 },
    SEND_CRCHRUID { cid: i32, now_chr_uid: i32 },
    /// Change a character's class cap, settings and equipment.
    REQ_CHG_CHR_PARAM { chr_uid: i32, cr_class: i8, power: i32, impact: i32, params: Vec<u16>, club: u32, ball: u32, caddie: u32 },
    ACK_CHG_CHR_PARAM { status: i8 },
    /// Caddies for hire: `count` listings of five words each.
    SEND_SELL_CADDIE_LIST { count: u16, items: Vec<u32> },
    /// Ask for the salon's listings.
    PKT_166,
    /// The salon: `count` listings of three words each.
    SEND_SALON_ITEM_LIST { count: u16, items: Vec<u32> },
    /// Ask for an account's snapshot.
    REQ_UDATA { uid: i32 },
    /// An account's snapshot.
    PKT_181(UData),
    /// Ranking entries of 13 bytes each.
    PKT_183 { count: u8, entries: Vec<u8> },
    CLIENT_LOADSTAT2 { progress: i8 },
    SEND_LOADSTAT2 { cid: i32, progress: i8 },
    ACK_GAMESTART { status: i8 },
    /// Set the hold box to eight item identifiers.
    PKT_189 { hold_item: Vec<u32> },
    ACK_CHG_HOLDBOX { status: i8 },
    /// Caddies enabled for the round.
    PKT_231 { count: u32, list: Vec<u32> },
    CLIENT_STOP_BALLPOS(BallPos),
    SEND_STOP_BALLPOS(BallPos),
    ORD_COLOR_RESULT(ColorResult),
    SEND_MP_TABLE { count: u32, table: Vec<u32> },
    /// Counted items.
    SEND_COMP_ITEM { count: u32, items: Vec<u32> },
    /// Records of 28 bytes each.
    PKT_264 { count: u16, items: Vec<u8> },
    GET_MODECTRL,
    /// 92 one-bit mode switches, most significant bit first.
    SEND_MODECTRL { flags: Vec<u8> },
    /// Ask for the single-mode carry items.
    PKT_274,
    /// The single-mode carry items, as counted items.
    PKT_275 { count: i32, items: Vec<u32> },
    PKT_304 { unk: Vec<u8>, len: u16, text: Vec<u16> },
    ACK_ULIST_R { status: i8 },
    /// Club records of 28 bytes each (floats, carried as bytes).
    SEND_CLUBDATA { count: u32, clubdata: Vec<u8> },
    /// A debug message of `len` UTF-16 units.
    PKT_316 { len: u16, message: Vec<u16> },
    /// A message whose opcode is outside the catalog; its body is not kept.
    Unknown { id: i16 },
}

/// The opcode of a message.
pub open spec fn packet_id(p: Packet) -> i16 {
    match p {
        Packet::SEND_IDPASS(_) => 1,
        Packet::ACK_IDPASS { .. } => 2,
        Packet::REQ_GMSVLIST => 3,
        Packet::SEND_GMSVDATA(_) => 4,
        Packet::ACK_GMSVLIST => 5,
        Packet::SEND_IDPASS_G(_) => 6,
        Packet::ACK_IDPASS_G(_) => 7,
        Packet::REQ_CHG_MODE { .. } => 8,
        Packet::ACK_CHG_MODE { .. } => 9,
        Packet::GET_LOBBY_NUM => 10,
        Packet::SEND_LOBBY_NUM { .. } => 11,
        Packet::GET_LOBBY_DATA { .. } => 12,
        Packet::SEND_LOBBY_DATA(_) => 13,
        Packet::REQ_ENTER_LOBBY { .. } => 14,
        Packet::ACK_ENTER_LOBBY { .. } => 15,
        Packet::REQ_MAKE_ROOM(_) => 16,
        Packet::ACK_MAKE_ROOM { .. } => 17,
        Packet::GET_ROOMS => 18,
        Packet::PKT_19(_) => 19,
        Packet::REQ_ENTER_ROOM { .. } => 20,
        Packet::ACK_ENTER_ROOM(_) => 21,
        Packet::REQ_ULIST { .. } => 22,
        Packet::SEND_ULIST(_) => 23,
        Packet::PKT_24 => 24,
        Packet::ACK_EXIT_ROOM { .. } => 25,
        Packet::SEND_USTAT { .. } => 26,
        Packet::SEND_MESSAGE { .. } => 27,
        Packet::REQ_GAMESTART => 31,
        Packet::ORD_GAMESTART(_) => 32,
        Packet::CLIENT_CRCLUB { .. } => 33,
        Packet::SEND_CRCLUB { .. } => 34,
        Packet::CLIENT_DIRECTION { .. } => 35,
        Packet::SEND_DIRECTION { .. } => 36,
        Packet::CLIENT_SHOT(_) => 37,
        Packet::SEND_SHOT(_) => 38,
        Packet::REQ_CRECORD { .. } => 42,
        Packet::SEND_CRECORD(_) => 43,
        Packet::CLIENT_LOADSTAT { .. } => 44,
        Packet::SEND_LOADSTAT { .. } => 45,
        Packet::CLIENT_BALLPOS(_) => 46,
        Packet::SEND_BALLPOS(_) => 47,
        Packet::PKT_72 { .. } => 72,
        Packet::PKT_74 { .. } => 74,
        Packet::PKT_76 { .. } => 76,
        Packet::REQ_APPEAR { .. } => 83,
        Packet::SEND_APPEAR { .. } => 84,
        Packet::REQ_ULIST_L { .. } => 87,
        Packet::SEND_ULIST_L(_) => 88,
        Packet::PKT_89 => 89,
        Packet::SEND_SELLITEMLIST { .. } => 90,
        Packet::REQ_BUY_ITEM { .. } => 91,
        Packet::ACK_BUY_ITEM { .. } => 92,
        Packet::PKT_93 => 93,
        Packet::REP_MONEY { .. } => 94,
        Packet::SET_FIRST_CHARACTER_APPEARANCE(_) => 95,
        Packet::ACK_FIRST_CHARACTER_APPEARANCE { .. } => 96,
        Packet::SEND_CHRUID { .. } => 99,
        Packet::REQ_CHRDATA { .. } => 100,
        Packet::SEND_CHRDATA(_) => 101,
        Packet::GET_CHRDATA { .. } => 102,
        Packet::REQ_CHG_APPEAR { .. } => 103,
        Packet::PKT_104 { .. } => 104,
        Packet::SET_PLAYER_NAME(_) => 105,
        Packet::ACK_SET_CHARACTER_NAME { .. } => 106,
        Packet::PKT_112 { .. } => 112,
        Packet::PKT_114 { .. } => 114,
        Packet::PKT_115 { .. } => 115,
        Packet::PKT_118 { .. } => 118,
        Packet::PKT_131 { .. } => 131,
        Packet::PKT_132 { .. } => 132,
        Packet::PKT_133 { .. } => 133,
        Packet::PKT_134 { .. } => 134,
        Packet::CLIENT_PCOMMAND(_) => 135,
        Packet::SEND_PCOMMAND(_) => 136,
        Packet::PKT_137 { .. } => 137,
        Packet::SEND_CRCHRUID { .. } => 139,
        Packet::REQ_CHG_CHR_PARAM { .. } => 145,
        Packet::ACK_CHG_CHR_PARAM { .. } => 146,
        Packet::SEND_SELL_CADDIE_LIST { .. } => 148,
        Packet::PKT_166 => 166,
        Packet::SEND_SALON_ITEM_LIST { .. } => 167,
        Packet::REQ_UDATA { .. } => 180,
        Packet::PKT_181(_) => 181,
        Packet::PKT_183 { .. } => 183,
        Packet::CLIENT_LOADSTAT2 { .. } => 185,
        Packet::SEND_LOADSTAT2 { .. } => 186,
        Packet::ACK_GAMESTART { .. } => 187,
        Packet::PKT_189 { .. } => 189,
        Packet::ACK_CHG_HOLDBOX { .. } => 190,
        Packet::PKT_231 { .. } => 231,
        Packet::CLIENT_STOP_BALLPOS(_) => 234,
        Packet::SEND_STOP_BALLPOS(_) => 235,
        Packet::ORD_COLOR_RESULT(_) => 236,
        Packet::SEND_MP_TABLE { .. } => 237,
        Packet::SEND_COMP_ITEM { .. } => 256,
        Packet::PKT_264 { .. } => 264,
        Packet::GET_MODECTRL => 268,
        Packet::SEND_MODECTRL { .. } => 269,
        Packet::PKT_274 => 274,
        Packet::PKT_275 { .. } => 275,
        Packet::PKT_304 { .. } => 304,
        Packet::ACK_ULIST_R { .. } => 307,
        Packet::SEND_CLUBDATA { .. } => 312,
        Packet::PKT_316 { .. } => 316,
        Packet::Unknown { id } => id,
    }
}

/// The body fields of a message, in wire order.
pub open spec fn packet_fields(p: Packet) -> Seq<FieldV> {
    match p {
        Packet::SEND_IDPASS(s) => idpass_fields(s),
        Packet::ACK_IDPASS { result } => seq![fb(result)],
        Packet::REQ_GMSVLIST => Seq::empty(),
        Packet::SEND_GMSVDATA(s) => gmsv_data_fields(s),
        Packet::ACK_GMSVLIST => Seq::empty(),
        Packet::SEND_IDPASS_G(s) => idpass_fields(s),
        Packet::ACK_IDPASS_G(s) => udata_fields(s),
        Packet::REQ_CHG_MODE { mode } => seq![fb(mode)],
        Packet::ACK_CHG_MODE { mode } => seq![fb(mode)],
        Packet::GET_LOBBY_NUM => Seq::empty(),
        Packet::SEND_LOBBY_NUM { count } => seq![fb(count)],
        Packet::GET_LOBBY_DATA { index, mode } => seq![fb(index), fb(mode)],
        Packet::SEND_LOBBY_DATA(s) => lobby_data_fields(s),
        Packet::REQ_ENTER_LOBBY { lobby } => seq![fb(lobby)],
        Packet::ACK_ENTER_LOBBY { lobby } => seq![fb(lobby)],
        Packet::REQ_MAKE_ROOM(s) => packet19_fields(s),
        Packet::ACK_MAKE_ROOM { room } => seq![fb(room)],
        Packet::GET_ROOMS => Seq::empty(),
        Packet::PKT_19(s) => packet19_fields(s),
        Packet::REQ_ENTER_ROOM { room, room_flag, room_password } => seq![fb(room), FieldV::Word(room_flag), FieldV::Halves(room_password@)],
        Packet::ACK_ENTER_ROOM(s) => packet19_fields(s),
        Packet::REQ_ULIST { mode, lobby, room } => seq![fb(mode), fb(lobby), fb(room)],
        Packet::SEND_ULIST(s) => ulist_fields(s),
        Packet::PKT_24 => Seq::empty(),
        Packet::ACK_EXIT_ROOM { status } => seq![fb(status)],
        Packet::SEND_USTAT { cid, uid, stat } => seq![fw(cid), fw(uid), FieldV::Word(stat)],
        Packet::SEND_MESSAGE { cid, msg_type, server_id, name, len, message } => seq![fw(cid), fb(msg_type), fb(server_id), FieldV::Halves(name@), FieldV::Half(len), FieldV::Halves(message@)],
        Packet::REQ_GAMESTART => Seq::empty(),
        Packet::ORD_GAMESTART(s) => game_start_fields(s),
        Packet::CLIENT_CRCLUB { club } => seq![fb(club)],
        Packet::SEND_CRCLUB { cid, club } => seq![fw(cid), fb(club)],
        Packet::CLIENT_DIRECTION { dir } => seq![FieldV::Word(dir)],
        Packet::SEND_DIRECTION { cid, dir } => seq![fw(cid), FieldV::Word(dir)],
        Packet::CLIENT_SHOT(s) => shot_fields(s),
        Packet::SEND_SHOT(s) => shot_fields(s),
        Packet::REQ_CRECORD { uid, course, season, hole_idx } => seq![fw(uid), fb(course), fb(season), fb(hole_idx)],
        Packet::SEND_CRECORD(s) => crecord_reply_fields(s),
        Packet::CLIENT_LOADSTAT { progress } => seq![fb(progress)],
        Packet::SEND_LOADSTAT { cid, progress } => seq![fw(cid), fb(progress)],
        Packet::CLIENT_BALLPOS(s) => ball_pos_fields(s),
        Packet::SEND_BALLPOS(s) => ball_pos_fields(s),
        Packet::PKT_72 { count, users } => seq![FieldV::Word(count), FieldV::Words(users@)],
        Packet::PKT_74 { count, users } => seq![FieldV::Word(count), FieldV::Words(users@)],
        Packet::PKT_76 { count, users } => seq![FieldV::Word(count), FieldV::Words(users@)],
        Packet::REQ_APPEAR { cid } => seq![fw(cid)],
        Packet::SEND_APPEAR { cid, unk, appear } => seq![fw(cid), fw(unk), FieldV::Words(appearance_words(appear))],
        Packet::REQ_ULIST_L { mode, lobby } => seq![fb(mode), fb(lobby)],
        Packet::SEND_ULIST_L(s) => ulist_l_fields(s),
        Packet::PKT_89 => Seq::empty(),
        Packet::SEND_SELLITEMLIST { count, items } => seq![FieldV::Half(count), FieldV::Words(items@)],
        Packet::REQ_BUY_ITEM { item } => seq![FieldV::Word(item)],
        Packet::ACK_BUY_ITEM { result } => seq![fb(result)],
        Packet::PKT_93 => Seq::empty(),
        Packet::REP_MONEY { gp, sc } => seq![fw(gp), fw(sc)],
        Packet::SET_FIRST_CHARACTER_APPEARANCE(s) => seq![FieldV::Words(appearance_words(s))],
        Packet::ACK_FIRST_CHARACTER_APPEARANCE { status } => seq![fb(status)],
        Packet::SEND_CHRUID { count, cid, chr_uids } => seq![FieldV::Word(count), fw(cid), FieldV::Words(chr_uids@)],
        Packet::REQ_CHRDATA { cid, chr_uid } => seq![fw(cid), fw(chr_uid)],
        Packet::SEND_CHRDATA(s) => chr_data_reply_fields(s),
        Packet::GET_CHRDATA { cid } => seq![fw(cid)],
        Packet::REQ_CHG_APPEAR { cid, chr_uid, appear } => seq![fw(cid), fw(chr_uid), FieldV::Words(appearance_words(appear))],
        Packet::PKT_104 { status } => seq![fb(status)],
        Packet::SET_PLAYER_NAME(s) => set_player_name_fields(s),
        Packet::ACK_SET_CHARACTER_NAME { status } => seq![fb(status)],
        Packet::PKT_112 { unk1, unk2, cnt, values } => seq![fw(unk1), fw(unk2), FieldV::Word(cnt), FieldV::Words(values@)],
        Packet::PKT_114 { mail_uid, from_uid, to_uid, year, month, day, hour, minute, second, len, utf8_text } => seq![fw(mail_uid), fw(from_uid), fw(to_uid), fh(year), fb(month), fb(day), fb(hour), fb(minute), fb(second), FieldV::Half(len), FieldV::Bytes(utf8_text@)],
        Packet::PKT_115 { mail_uid, from_uid, to_uid, year, month, day, hour, minute, second, len, utf8_text } => seq![fw(mail_uid), fw(from_uid), fw(to_uid), fh(year), fb(month), fb(day), fb(hour), fb(minute), fb(second), FieldV::Half(len), FieldV::Bytes(utf8_text@)],
        Packet::PKT_118 { unk1, unk2, count, users } => seq![fw(unk1), fw(unk2), FieldV::Word(count), FieldV::Words(users@)],
        Packet::PKT_131 { arg } => seq![fw(arg)],
        Packet::PKT_132 { count, items } => seq![FieldV::Word(count), FieldV::Words(items@)],
        Packet::PKT_133 { arg } => seq![fw(arg)],
        Packet::PKT_134 { x4, cid, items, unk } => seq![fw(x4), fw(cid), FieldV::Words(items@), FieldV::Bytes(unk@)],
        Packet::CLIENT_PCOMMAND(s) => pcommand_fields(s),
        Packet::SEND_PCOMMAND(s) => pcommand_fields(s),
        Packet::PKT_137 { cid } => seq![fw(cid)],
        Packet::SEND_CRCHRUID { cid, now_chr_uid } => seq![fw(cid), fw(now_chr_uid)],
        Packet::REQ_CHG_CHR_PARAM { chr_uid, cr_class, power, impact, params, club, ball, caddie } => seq![fw(chr_uid), fb(cr_class), fw(power), fw(impact), FieldV::Halves(params@), FieldV::Word(club), FieldV::Word(ball), FieldV::Word(caddie)],
        Packet::ACK_CHG_CHR_PARAM { status } => seq![fb(status)],
        Packet::SEND_SELL_CADDIE_LIST { count, items } => seq![FieldV::Half(count), FieldV::Words(items@)],
        Packet::PKT_166 => Seq::empty(),
        Packet::SEND_SALON_ITEM_LIST { count, items } => seq![FieldV::Half(count), FieldV::Words(items@)],
        Packet::REQ_UDATA { uid } => seq![fw(uid)],
        Packet::PKT_181(s) => udata_fields(s),
        Packet::PKT_183 { count, entries } => seq![FieldV::Byte(count), FieldV::Bytes(entries@)],
        Packet::CLIENT_LOADSTAT2 { progress } => seq![fb(progress)],
        Packet::SEND_LOADSTAT2 { cid, progress } => seq![fw(cid), fb(progress)],
        Packet::ACK_GAMESTART { status } => seq![fb(status)],
        Packet::PKT_189 { hold_item } => seq![FieldV::Words(hold_item@)],
        Packet::ACK_CHG_HOLDBOX { status } => seq![fb(status)],
        Packet::PKT_231 { count, list } => seq![FieldV::Word(count), FieldV::Words(list@)],
        Packet::CLIENT_STOP_BALLPOS(s) => ball_pos_fields(s),
        Packet::SEND_STOP_BALLPOS(s) => ball_pos_fields(s),
        Packet::ORD_COLOR_RESULT(s) => color_result_fields(s),
        Packet::SEND_MP_TABLE { count, table } => seq![FieldV::Word(count), FieldV::Words(table@)],
        Packet::SEND_COMP_ITEM { count, items } => seq![FieldV::Word(count), FieldV::Words(items@)],
        Packet::PKT_264 { count, items } => seq![FieldV::Half(count), FieldV::Bytes(items@)],
        Packet::GET_MODECTRL => Seq::empty(),
        Packet::SEND_MODECTRL { flags } => seq![FieldV::Bytes(flags@)],
        Packet::PKT_274 => Seq::empty(),
        Packet::PKT_275 { count, items } => seq![fw(count), FieldV::Words(items@)],
        Packet::PKT_304 { unk, len, text } => seq![FieldV::Bytes(unk@), FieldV::Half(len), FieldV::Halves(text@)],
        Packet::ACK_ULIST_R { status } => seq![fb(status)],
        Packet::SEND_CLUBDATA { count, clubdata } => seq![FieldV::Word(count), FieldV::Bytes(clubdata@)],
        Packet::PKT_316 { len, message } => seq![FieldV::Half(len), FieldV::Halves(message@)],
        Packet::Unknown { .. } => Seq::empty(),
    }
}

/// The body layout of each opcode of the catalog.
pub open spec fn schema_of(id: i16) -> Option<Seq<Kind>> {
    if id == 1 {
        Some(idpass_schema())
    } else if id == 2 {
        Some(seq![Kind::Byte])
    } else if id == 3 {
        Some(seq![])
    } else if id == 4 {
        Some(gmsv_data_schema())
    } else if id == 5 {
        Some(seq![])
    } else if id == 6 {
        Some(idpass_schema())
    } else if id == 7 {
        Some(udata_schema())
    } else if id == 8 {
        Some(seq![Kind::Byte])
    } else if id == 9 {
        Some(seq![Kind::Byte])
    } else if id == 10 {
        Some(seq![])
    } else if id == 11 {
        Some(seq![Kind::Byte])
    } else if id == 12 {
        Some(seq![Kind::Byte, Kind::Byte])
    } else if id == 13 {
        Some(lobby_data_schema())
    } else if id == 14 {
        Some(seq![Kind::Byte])
    } else if id == 15 {
        Some(seq![Kind::Byte])
    } else if id == 16 {
        Some(packet19_schema())
    } else if id == 17 {
        Some(seq![Kind::Byte])
    } else if id == 18 {
        Some(seq![])
    } else if id == 19 {
        Some(packet19_schema())
    } else if id == 20 {
        Some(seq![Kind::Byte, Kind::Word, Kind::Halves(17)])
    } else if id == 21 {
        Some(packet19_schema())
    } else if id == 22 {
        Some(seq![Kind::Byte, Kind::Byte, Kind::Byte])
    } else if id == 23 {
        Some(ulist_schema())
    } else if id == 24 {
        Some(seq![])
    } else if id == 25 {
        Some(seq![Kind::Byte])
    } else if id == 26 {
        Some(seq![Kind::Word, Kind::Word, Kind::Word])
    } else if id == 27 {
        Some(seq![Kind::Word, Kind::Byte, Kind::Byte, Kind::Halves(19), Kind::Half, Kind::Tail { unit: Unit::Half, per: 1, count_at: 4, less: 0 }])
    } else if id == 31 {
        Some(seq![])
    } else if id == 32 {
        Some(game_start_schema())
    } else if id == 33 {
        Some(seq![Kind::Byte])
    } else if id == 34 {
        Some(seq![Kind::Word, Kind::Byte])
    } else if id == 35 {
        Some(seq![Kind::Word])
    } else if id == 36 {
        Some(seq![Kind::Word, Kind::Word])
    } else if id == 37 {
        Some(shot_schema())
    } else if id == 38 {
        Some(shot_schema())
    } else if id == 42 {
        Some(seq![Kind::Word, Kind::Byte, Kind::Byte, Kind::Byte])
    } else if id == 43 {
        Some(crecord_reply_schema())
    } else if id == 44 {
        Some(seq![Kind::Byte])
    } else if id == 45 {
        Some(seq![Kind::Word, Kind::Byte])
    } else if id == 46 {
        Some(ball_pos_schema())
    } else if id == 47 {
        Some(ball_pos_schema())
    } else if id == 72 {
        Some(seq![Kind::Word, Kind::Tail { unit: Unit::Word, per: 1, count_at: 0, less: 0 }])
    } else if id == 74 {
        Some(seq![Kind::Word, Kind::Tail { unit: Unit::Word, per: 1, count_at: 0, less: 0 }])
    } else if id == 76 {
        Some(seq![Kind::Word, Kind::Tail { unit: Unit::Word, per: 1, count_at: 0, less: 0 }])
    } else if id == 83 {
        Some(seq![Kind::Word])
    } else if id == 84 {
        Some(seq![Kind::Word, Kind::Word, Kind::Words(9)])
    } else if id == 87 {
        Some(seq![Kind::Byte, Kind::Byte])
    } else if id == 88 {
        Some(ulist_l_schema())
    } else if id == 89 {
        Some(seq![])
    } else if id == 90 {
        Some(seq![Kind::Half, Kind::Tail { unit: Unit::Word, per: 3, count_at: 0, less: 0 }])
    } else if id == 91 {
        Some(seq![Kind::Word])
    } else if id == 92 {
        Some(seq![Kind::Byte])
    } else if id == 93 {
        Some(seq![])
    } else if id == 94 {
        Some(seq![Kind::Word, Kind::Word])
    } else if id == 95 {
        Some(seq![Kind::Words(9)])
    } else if id == 96 {
        Some(seq![Kind::Byte])
    } else if id == 99 {
        Some(seq![Kind::Word, Kind::Word, Kind::Tail { unit: Unit::Word, per: 1, count_at: 0, less: 1 }])
    } else if id == 100 {
        Some(seq![Kind::Word, Kind::Word])
    } else if id == 101 {
        Some(chr_data_reply_schema())
    } else if id == 102 {
        Some(seq![Kind::Word])
    } else if id == 103 {
        Some(seq![Kind::Word, Kind::Word, Kind::Words(9)])
    } else if id == 104 {
        Some(seq![Kind::Byte])
    } else if id == 105 {
        Some(set_player_name_schema())
    } else if id == 106 {
        Some(seq![Kind::Byte])
    } else if id == 112 {
        Some(seq![Kind::Word, Kind::Word, Kind::Word, Kind::Tail { unit: Unit::Word, per: 1, count_at: 2, less: 0 }])
    } else if id == 114 {
        Some(seq![Kind::Word, Kind::Word, Kind::Word, Kind::Half, Kind::Byte, Kind::Byte, Kind::Byte, Kind::Byte, Kind::Byte, Kind::Half, Kind::Tail { unit: Unit::Byte, per: 1, count_at: 9, less: 0 }])
    } else if id == 115 {
        Some(seq![Kind::Word, Kind::Word, Kind::Word, Kind::Half, Kind::Byte, Kind::Byte, Kind::Byte, Kind::Byte, Kind::Byte, Kind::Half, Kind::Tail { unit: Unit::Byte, per: 1, count_at: 9, less: 0 }])
    } else if id == 118 {
        Some(seq![Kind::Word, Kind::Word, Kind::Word, Kind::Tail { unit: Unit::Word, per: 1, count_at: 2, less: 0 }])
    } else if id == 131 {
        Some(seq![Kind::Word])
    } else if id == 132 {
        Some(seq![Kind::Word, Kind::Tail { unit: Unit::Word, per: 1, count_at: 0, less: 0 }])
    } else if id == 133 {
        Some(seq![Kind::Word])
    } else if id == 134 {
        Some(seq![Kind::Word, Kind::Word, Kind::Words(8), Kind::Bytes(4060)])
    } else if id == 135 {
        Some(pcommand_schema())
    } else if id == 136 {
        Some(pcommand_schema())
    } else if id == 137 {
        Some(seq![Kind::Word])
    } else if id == 139 {
        Some(seq![Kind::Word, Kind::Word])
    } else if id == 145 {
        Some(seq![Kind::Word, Kind::Byte, Kind::Word, Kind::Word, Kind::Halves(32), Kind::Word, Kind::Word, Kind::Word])
    } else if id == 146 {
        Some(seq![Kind::Byte])
    } else if id == 148 {
        Some(seq![Kind::Half, Kind::Tail { unit: Unit::Word, per: 5, count_at: 0, less: 0 }])
    } else if id == 166 {
        Some(seq![])
    } else if id == 167 {
        Some(seq![Kind::Half, Kind::Tail { unit: Unit::Word, per: 3, count_at: 0, less: 0 }])
    } else if id == 180 {
        Some(seq![Kind::Word])
    } else if id == 181 {
        Some(udata_schema())
    } else if id == 183 {
        Some(seq![Kind::Byte, Kind::Tail { unit: Unit::Byte, per: 13, count_at: 0, less: 0 }])
    } else if id == 185 {
        Some(seq![Kind::Byte])
    } else if id == 186 {
        Some(seq![Kind::Word, Kind::Byte])
    } else if id == 187 {
        Some(seq![Kind::Byte])
    } else if id == 189 {
        Some(seq![Kind::Words(8)])
    } else if id == 190 {
        Some(seq![Kind::Byte])
    } else if id == 231 {
        Some(seq![Kind::Word, Kind::Tail { unit: Unit::Word, per: 1, count_at: 0, less: 0 }])
    } else if id == 234 {
        Some(ball_pos_schema())
    } else if id == 235 {
        Some(ball_pos_schema())
    } else if id == 236 {
        Some(color_result_schema())
    } else if id == 237 {
        Some(seq![Kind::Word, Kind::Tail { unit: Unit::Word, per: 1, count_at: 0, less: 0 }])
    } else if id == 256 {
        Some(seq![Kind::Word, Kind::Tail { unit: Unit::Word, per: 1, count_at: 0, less: 0 }])
    } else if id == 264 {
        Some(seq![Kind::Half, Kind::Tail { unit: Unit::Byte, per: 28, count_at: 0, less: 0 }])
    } else if id == 268 {
        Some(seq![])
    } else if id == 269 {
        Some(seq![Kind::Bytes(12)])
    } else if id == 274 {
        Some(seq![])
    } else if id == 275 {
        Some(seq![Kind::Word, Kind::Words(8)])
    } else if id == 304 {
        Some(seq![Kind::Bytes(26), Kind::Half, Kind::Tail { unit: Unit::Half, per: 1, count_at: 1, less: 0 }])
    } else if id == 307 {
        Some(seq![Kind::Byte])
    } else if id == 312 {
        Some(seq![Kind::Word, Kind::Tail { unit: Unit::Byte, per: 28, count_at: 0, less: 0 }])
    } else if id == 316 {
        Some(seq![Kind::Half, Kind::Tail { unit: Unit::Half, per: 1, count_at: 0, less: 0 }])
    } else {
        None
    }
}

impl Packet {
    /// The opcode of this message.
    pub fn id(&self) -> (r: i16)
        ensures
            r == packet_id(*self),
    {
        match self {
            Packet::SEND_IDPASS(_) => 1,
            Packet::ACK_IDPASS { .. } => 2,
            Packet::REQ_GMSVLIST => 3,
            Packet::SEND_GMSVDATA(_) => 4,
            Packet::ACK_GMSVLIST => 5,
            Packet::SEND_IDPASS_G(_) => 6,
            Packet::ACK_IDPASS_G(_) => 7,
            Packet::REQ_CHG_MODE { .. } => 8,
            Packet::ACK_CHG_MODE { .. } => 9,
            Packet::GET_LOBBY_NUM => 10,
            Packet::SEND_LOBBY_NUM { .. } => 11,
            Packet::GET_LOBBY_DATA { .. } => 12,
            Packet::SEND_LOBBY_DATA(_) => 13,
            Packet::REQ_ENTER_LOBBY { .. } => 14,
            Packet::ACK_ENTER_LOBBY { .. } => 15,
            Packet::REQ_MAKE_ROOM(_) => 16,
            Packet::ACK_MAKE_ROOM { .. } => 17,
            Packet::GET_ROOMS => 18,
            Packet::PKT_19(_) => 19,
            Packet::REQ_ENTER_ROOM { .. } => 20,
            Packet::ACK_ENTER_ROOM(_) => 21,
            Packet::REQ_ULIST { .. } => 22,
            Packet::SEND_ULIST(_) => 23,
            Packet::PKT_24 => 24,
            Packet::ACK_EXIT_ROOM { .. } => 25,
            Packet::SEND_USTAT { .. } => 26,
            Packet::SEND_MESSAGE { .. } => 27,
            Packet::REQ_GAMESTART => 31,
            Packet::ORD_GAMESTART(_) => 32,
            Packet::CLIENT_CRCLUB { .. } => 33,
            Packet::SEND_CRCLUB { .. } => 34,
            Packet::CLIENT_DIRECTION { .. } => 35,
            Packet::SEND_DIRECTION { .. } => 36,
            Packet::CLIENT_SHOT(_) => 37,
            Packet::SEND_SHOT(_) => 38,
            Packet::REQ_CRECORD { .. } => 42,
            Packet::SEND_CRECORD(_) => 43,
            Packet::CLIENT_LOADSTAT { .. } => 44,
            Packet::SEND_LOADSTAT { .. } => 45,
            Packet::CLIENT_BALLPOS(_) => 46,
            Packet::SEND_BALLPOS(_) => 47,
            Packet::PKT_72 { .. } => 72,
            Packet::PKT_74 { .. } => 74,
            Packet::PKT_76 { .. } => 76,
            Packet::REQ_APPEAR { .. } => 83,
            Packet::SEND_APPEAR { .. } => 84,
            Packet::REQ_ULIST_L { .. } => 87,
            Packet::SEND_ULIST_L(_) => 88,
            Packet::PKT_89 => 89,
            Packet::SEND_SELLITEMLIST { .. } => 90,
            Packet::REQ_BUY_ITEM { .. } => 91,
            Packet::ACK_BUY_ITEM { .. } => 92,
            Packet::PKT_93 => 93,
            Packet::REP_MONEY { .. } => 94,
            Packet::SET_FIRST_CHARACTER_APPEARANCE(_) => 95,
            Packet::ACK_FIRST_CHARACTER_APPEARANCE { .. } => 96,
            Packet::SEND_CHRUID { .. } => 99,
            Packet::REQ_CHRDATA { .. } => 100,
            Packet::SEND_CHRDATA(_) => 101,
            Packet::GET_CHRDATA { .. } => 102,
            Packet::REQ_CHG_APPEAR { .. } => 103,
            Packet::PKT_104 { .. } => 104,
            Packet::SET_PLAYER_NAME(_) => 105,
            Packet::ACK_SET_CHARACTER_NAME { .. } => 106,
            Packet::PKT_112 { .. } => 112,
            Packet::PKT_114 { .. } => 114,
            Packet::PKT_115 { .. } => 115,
            Packet::PKT_118 { .. } => 118,
            Packet::PKT_131 { .. } => 131,
            Packet::PKT_132 { .. } => 132,
            Packet::PKT_133 { .. } => 133,
            Packet::PKT_134 { .. } => 134,
            Packet::CLIENT_PCOMMAND(_) => 135,
            Packet::SEND_PCOMMAND(_) => 136,
            Packet::PKT_137 { .. } => 137,
            Packet::SEND_CRCHRUID { .. } => 139,
            Packet::REQ_CHG_CHR_PARAM { .. } => 145,
            Packet::ACK_CHG_CHR_PARAM { .. } => 146,
            Packet::SEND_SELL_CADDIE_LIST { .. } => 148,
            Packet::PKT_166 => 166,
            Packet::SEND_SALON_ITEM_LIST { .. } => 167,
            Packet::REQ_UDATA { .. } => 180,
            Packet::PKT_181(_) => 181,
            Packet::PKT_183 { .. } => 183,
            Packet::CLIENT_LOADSTAT2 { .. } => 185,
            Packet::SEND_LOADSTAT2 { .. } => 186,
            Packet::ACK_GAMESTART { .. } => 187,
            Packet::PKT_189 { .. } => 189,
            Packet::ACK_CHG_HOLDBOX { .. } => 190,
            Packet::PKT_231 { .. } => 231,
            Packet::CLIENT_STOP_BALLPOS(_) => 234,
            Packet::SEND_STOP_BALLPOS(_) => 235,
            Packet::ORD_COLOR_RESULT(_) => 236,
            Packet::SEND_MP_TABLE { .. } => 237,
            Packet::SEND_COMP_ITEM { .. } => 256,
            Packet::PKT_264 { .. } => 264,
            Packet::GET_MODECTRL => 268,
            Packet::SEND_MODECTRL { .. } => 269,
            Packet::PKT_274 => 274,
            Packet::PKT_275 { .. } => 275,
            Packet::PKT_304 { .. } => 304,
            Packet::ACK_ULIST_R { .. } => 307,
            Packet::SEND_CLUBDATA { .. } => 312,
            Packet::PKT_316 { .. } => 316,
            Packet::Unknown { id } => *id,
        }
    }

    /// The body layout of opcode `id`, if it is in the catalog.
    pub fn schema_for(id: i16) -> (r: Option<Vec<Kind>>)
        ensures
            r is Some <==> schema_of(id) is Some,
            r is Some ==> r.unwrap()@ == schema_of(id).unwrap(),
    {
        match id {
            1 => Some(IDPass::schema()),
            2 => Some(vec![Kind::Byte]),
            3 => Some(Vec::new()),
            4 => Some(GmsvData::schema()),
            5 => Some(Vec::new()),
            6 => Some(IDPass::schema()),
            7 => Some(UData::schema()),
            8 => Some(vec![Kind::Byte]),
            9 => Some(vec![Kind::Byte]),
            10 => Some(Vec::new()),
            11 => Some(vec![Kind::Byte]),
            12 => Some(vec![Kind::Byte, Kind::Byte]),
            13 => Some(LobbyData::schema()),
            14 => Some(vec![Kind::Byte]),
            15 => Some(vec![Kind::Byte]),
            16 => Some(Packet19::schema()),
            17 => Some(vec![Kind::Byte]),
            18 => Some(Vec::new()),
            19 => Some(Packet19::schema()),
            20 => Some(vec![Kind::Byte, Kind::Word, Kind::Halves(17)]),
            21 => Some(Packet19::schema()),
            22 => Some(vec![Kind::Byte, Kind::Byte, Kind::Byte]),
            23 => Some(UList::schema()),
            24 => Some(Vec::new()),
            25 => Some(vec![Kind::Byte]),
            26 => Some(vec![Kind::Word, Kind::Word, Kind::Word]),
            27 => Some(vec![Kind::Word, Kind::Byte, Kind::Byte, Kind::Halves(19), Kind::Half, Kind::Tail { unit: Unit::Half, per: 1, count_at: 4, less: 0 }]),
            31 => Some(Vec::new()),
            32 => Some(GameStart::schema()),
            33 => Some(vec![Kind::Byte]),
            34 => Some(vec![Kind::Word, Kind::Byte]),
            35 => Some(vec![Kind::Word]),
            36 => Some(vec![Kind::Word, Kind::Word]),
            37 => Some(Shot::schema()),
            38 => Some(Shot::schema()),
            42 => Some(vec![Kind::Word, Kind::Byte, Kind::Byte, Kind::Byte]),
            43 => Some(CRecordReply::schema()),
            44 => Some(vec![Kind::Byte]),
            45 => Some(vec![Kind::Word, Kind::Byte]),
            46 => Some(BallPos::schema()),
            47 => Some(BallPos::schema()),
            72 => Some(vec![Kind::Word, Kind::Tail { unit: Unit::Word, per: 1, count_at: 0, less: 0 }]),
            74 => Some(vec![Kind::Word, Kind::Tail { unit: Unit::Word, per: 1, count_at: 0, less: 0 }]),
            76 => Some(vec![Kind::Word, Kind::Tail { unit: Unit::Word, per: 1, count_at: 0, less: 0 }]),
            83 => Some(vec![Kind::Word]),
            84 => Some(vec![Kind::Word, Kind::Word, Kind::Words(9)]),
            87 => Some(vec![Kind::Byte, Kind::Byte]),
            88 => Some(UListL::schema()),
            89 => Some(Vec::new()),
            90 => Some(vec![Kind::Half, Kind::Tail { unit: Unit::Word, per: 3, count_at: 0, less: 0 }]),
            91 => Some(vec![Kind::Word]),
            92 => Some(vec![Kind::Byte]),
            93 => Some(Vec::new()),
            94 => Some(vec![Kind::Word, Kind::Word]),
            95 => Some(vec![Kind::Words(9)]),
            96 => Some(vec![Kind::Byte]),
            99 => Some(vec![Kind::Word, Kind::Word, Kind::Tail { unit: Unit::Word, per: 1, count_at: 0, less: 1 }]),
            100 => Some(vec![Kind::Word, Kind::Word]),
            101 => Some(ChrDataReply::schema()),
            102 => Some(vec![Kind::Word]),
            103 => Some(vec![Kind::Word, Kind::Word, Kind::Words(9)]),
            104 => Some(vec![Kind::Byte]),
            105 => Some(SetPlayerName::schema()),
            106 => Some(vec![Kind::Byte]),
            112 => Some(vec![Kind::Word, Kind::Word, Kind::Word, Kind::Tail { unit: Unit::Word, per: 1, count_at: 2, less: 0 }]),
            114 => Some(vec![Kind::Word, Kind::Word, Kind::Word, Kind::Half, Kind::Byte, Kind::Byte, Kind::Byte, Kind::Byte, Kind::Byte, Kind::Half, Kind::Tail { unit: Unit::Byte, per: 1, count_at: 9, less: 0 }]),
            115 => Some(vec![Kind::Word, Kind::Word, Kind::Word, Kind::Half, Kind::Byte, Kind::Byte, Kind::Byte, Kind::Byte, Kind::Byte, Kind::Half, Kind::Tail { unit: Unit::Byte, per: 1, count_at: 9, less: 0 }]),
            118 => Some(vec![Kind::Word, Kind::Word, Kind::Word, Kind::Tail { unit: Unit::Word, per: 1, count_at: 2, less: 0 }]),
            131 => Some(vec![Kind::Word]),
            132 => Some(vec![Kind::Word, Kind::Tail { unit: Unit::Word, per: 1, count_at: 0, less: 0 }]),
            133 => Some(vec![Kind::Word]),
            134 => Some(vec![Kind::Word, Kind::Word, Kind::Words(8), Kind::Bytes(4060)]),
            135 => Some(PCommand::schema()),
            136 => Some(PCommand::schema()),
            137 => Some(vec![Kind::Word]),
            139 => Some(vec![Kind::Word, Kind::Word]),
            145 => Some(vec![Kind::Word, Kind::Byte, Kind::Word, Kind::Word, Kind::Halves(32), Kind::Word, Kind::Word, Kind::Word]),
            146 => Some(vec![Kind::Byte]),
            148 => Some(vec![Kind::Half, Kind::Tail { unit: Unit::Word, per: 5, count_at: 0, less: 0 }]),
            166 => Some(Vec::new()),
            167 => Some(vec![Kind::Half, Kind::Tail { unit: Unit::Word, per: 3, count_at: 0, less: 0 }]),
            180 => Some(vec![Kind::Word]),
            181 => Some(UData::schema()),
            183 => Some(vec![Kind::Byte, Kind::Tail { unit: Unit::Byte, per: 13, count_at: 0, less: 0 }]),
            185 => Some(vec![Kind::Byte]),
            186 => Some(vec![Kind::Word, Kind::Byte]),
            187 => Some(vec![Kind::Byte]),
            189 => Some(vec![Kind::Words(8)]),
            190 => Some(vec![Kind::Byte]),
            231 => Some(vec![Kind::Word, Kind::Tail { unit: Unit::Word, per: 1, count_at: 0, less: 0 }]),
            234 => Some(BallPos::schema()),
            235 => Some(BallPos::schema()),
            236 => Some(ColorResult::schema()),
            237 => Some(vec![Kind::Word, Kind::Tail { unit: Unit::Word, per: 1, count_at: 0, less: 0 }]),
            256 => Some(vec![Kind::Word, Kind::Tail { unit: Unit::Word, per: 1, count_at: 0, less: 0 }]),
            264 => Some(vec![Kind::Half, Kind::Tail { unit: Unit::Byte, per: 28, count_at: 0, less: 0 }]),
            268 => Some(Vec::new()),
            269 => Some(vec![Kind::Bytes(12)]),
            274 => Some(Vec::new()),
            275 => Some(vec![Kind::Word, Kind::Words(8)]),
            304 => Some(vec![Kind::Bytes(26), Kind::Half, Kind::Tail { unit: Unit::Half, per: 1, count_at: 1, less: 0 }]),
            307 => Some(vec![Kind::Byte]),
            312 => Some(vec![Kind::Word, Kind::Tail { unit: Unit::Byte, per: 28, count_at: 0, less: 0 }]),
            316 => Some(vec![Kind::Half, Kind::Tail { unit: Unit::Half, per: 1, count_at: 0, less: 0 }]),
            _ => None,
        }
    }

    /// The body fields of this message, in wire order.
    #[verifier::spinoff_prover]
    pub fn to_fields(&self) -> (r: Result<Vec<Field>, CodecError>)
        ensures
            r is Ok <==> packet_encodable(*self),
            r is Ok ==> fields_view(r.unwrap()@) == packet_fields(*self),
            r is Err ==> r == Err::<Vec<Field>, CodecError>(CodecError::OutOfRange),
    {
        match self {
            Packet::SEND_IDPASS(s) => Ok(s.to_fields()),
            Packet::ACK_IDPASS { result } => Ok(fields_ack_idpass(*result)),
            Packet::REQ_GMSVLIST => Ok(no_fields()),
            Packet::SEND_GMSVDATA(s) => Ok(s.to_fields()),
            Packet::ACK_GMSVLIST => Ok(no_fields()),
            Packet::SEND_IDPASS_G(s) => Ok(s.to_fields()),
            Packet::ACK_IDPASS_G(s) => Ok(s.to_fields()),
            Packet::REQ_CHG_MODE { mode } => Ok(fields_req_chg_mode(*mode)),
            Packet::ACK_CHG_MODE { mode } => Ok(fields_ack_chg_mode(*mode)),
            Packet::GET_LOBBY_NUM => Ok(no_fields()),
            Packet::SEND_LOBBY_NUM { count } => Ok(fields_send_lobby_num(*count)),
            Packet::GET_LOBBY_DATA { index, mode } => Ok(fields_get_lobby_data(*index, *mode)),
            Packet::SEND_LOBBY_DATA(s) => Ok(s.to_fields()),
            Packet::REQ_ENTER_LOBBY { lobby } => Ok(fields_req_enter_lobby(*lobby)),
            Packet::ACK_ENTER_LOBBY { lobby } => Ok(fields_ack_enter_lobby(*lobby)),
            Packet::REQ_MAKE_ROOM(s) => Ok(s.to_fields()),
            Packet::ACK_MAKE_ROOM { room } => Ok(fields_ack_make_room(*room)),
            Packet::GET_ROOMS => Ok(no_fields()),
            Packet::PKT_19(s) => Ok(s.to_fields()),
            Packet::REQ_ENTER_ROOM { room, room_flag, room_password } => Ok(fields_req_enter_room(*room, *room_flag, room_password)),
            Packet::ACK_ENTER_ROOM(s) => Ok(s.to_fields()),
            Packet::REQ_ULIST { mode, lobby, room } => Ok(fields_req_ulist(*mode, *lobby, *room)),
            Packet::SEND_ULIST(s) => Ok(s.to_fields()),
            Packet::PKT_24 => Ok(no_fields()),
            Packet::ACK_EXIT_ROOM { status } => Ok(fields_ack_exit_room(*status)),
            Packet::SEND_USTAT { cid, uid, stat } => Ok(fields_send_ustat(*cid, *uid, *stat)),
            Packet::SEND_MESSAGE { cid, msg_type, server_id, name, len, message } => Ok(fields_send_message(*cid, *msg_type, *server_id, name, *len, message)),
            Packet::REQ_GAMESTART => Ok(no_fields()),
            Packet::ORD_GAMESTART(s) => Ok(s.to_fields()),
            Packet::CLIENT_CRCLUB { club } => Ok(fields_client_crclub(*club)),
            Packet::SEND_CRCLUB { cid, club } => Ok(fields_send_crclub(*cid, *club)),
            Packet::CLIENT_DIRECTION { dir } => Ok(fields_client_direction(*dir)),
            Packet::SEND_DIRECTION { cid, dir } => Ok(fields_send_direction(*cid, *dir)),
            Packet::CLIENT_SHOT(s) => Ok(s.to_fields()),
            Packet::SEND_SHOT(s) => Ok(s.to_fields()),
            Packet::REQ_CRECORD { uid, course, season, hole_idx } => Ok(fields_req_crecord(*uid, *course, *season, *hole_idx)),
            Packet::SEND_CRECORD(s) => Ok(s.to_fields()),
            Packet::CLIENT_LOADSTAT { progress } => Ok(fields_client_loadstat(*progress)),
            Packet::SEND_LOADSTAT { cid, progress } => Ok(fields_send_loadstat(*cid, *progress)),
            Packet::CLIENT_BALLPOS(s) => Ok(s.to_fields()),
            Packet::SEND_BALLPOS(s) => Ok(s.to_fields()),
            Packet::PKT_72 { count, users } => Ok(fields_pkt_72(*count, users)),
            Packet::PKT_74 { count, users } => Ok(fields_pkt_74(*count, users)),
            Packet::PKT_76 { count, users } => Ok(fields_pkt_76(*count, users)),
            Packet::REQ_APPEAR { cid } => Ok(fields_req_appear(*cid)),
            Packet::SEND_APPEAR { cid, unk, appear } => {
                let w = appear.to_words()?;
                Ok(fields_with_appearance(*cid, *unk, w))
            },
            Packet::REQ_ULIST_L { mode, lobby } => Ok(fields_req_ulist_l(*mode, *lobby)),
            Packet::SEND_ULIST_L(s) => Ok(s.to_fields()),
            Packet::PKT_89 => Ok(no_fields()),
            Packet::SEND_SELLITEMLIST { count, items } => Ok(fields_send_sellitemlist(*count, items)),
            Packet::REQ_BUY_ITEM { item } => Ok(fields_req_buy_item(*item)),
            Packet::ACK_BUY_ITEM { result } => Ok(fields_ack_buy_item(*result)),
            Packet::PKT_93 => Ok(no_fields()),
            Packet::REP_MONEY { gp, sc } => Ok(fields_rep_money(*gp, *sc)),
            Packet::SET_FIRST_CHARACTER_APPEARANCE(s) => {
                let w = s.to_words()?;
                let r = vec![Field::Words(w)];
                assert(fields_view(r@) =~= packet_fields(*self));
                Ok(r)
            },
            Packet::ACK_FIRST_CHARACTER_APPEARANCE { status } => Ok(fields_ack_first_character_appearance(*status)),
            Packet::SEND_CHRUID { count, cid, chr_uids } => Ok(fields_send_chruid(*count, *cid, chr_uids)),
            Packet::REQ_CHRDATA { cid, chr_uid } => Ok(fields_req_chrdata(*cid, *chr_uid)),
            Packet::SEND_CHRDATA(s) => Ok(s.to_fields()),
            Packet::GET_CHRDATA { cid } => Ok(fields_get_chrdata(*cid)),
            Packet::REQ_CHG_APPEAR { cid, chr_uid, appear } => {
                let w = appear.to_words()?;
                Ok(fields_with_appearance(*cid, *chr_uid, w))
            },
            Packet::PKT_104 { status } => Ok(fields_pkt_104(*status)),
            Packet::SET_PLAYER_NAME(s) => Ok(s.to_fields()),
            Packet::ACK_SET_CHARACTER_NAME { status } => Ok(fields_ack_set_character_name(*status)),
            Packet::PKT_112 { unk1, unk2, cnt, values } => Ok(fields_pkt_112(*unk1, *unk2, *cnt, values)),
            Packet::PKT_114 { mail_uid, from_uid, to_uid, year, month, day, hour, minute, second, len, utf8_text } => Ok(fields_pkt_114(*mail_uid, *from_uid, *to_uid, *year, *month, *day, *hour, *minute, *second, *len, utf8_text)),
            Packet::PKT_115 { mail_uid, from_uid, to_uid, year, month, day, hour, minute, second, len, utf8_text } => Ok(fields_pkt_115(*mail_uid, *from_uid, *to_uid, *year, *month, *day, *hour, *minute, *second, *len, utf8_text)),
            Packet::PKT_118 { unk1, unk2, count, users } => Ok(fields_pkt_118(*unk1, *unk2, *count, users)),
            Packet::PKT_131 { arg } => Ok(fields_pkt_131(*arg)),
            Packet::PKT_132 { count, items } => Ok(fields_pkt_132(*count, items)),
            Packet::PKT_133 { arg } => Ok(fields_pkt_133(*arg)),
            Packet::PKT_134 { x4, cid, items, unk } => Ok(fields_pkt_134(*x4, *cid, items, unk)),
            Packet::CLIENT_PCOMMAND(s) => Ok(s.to_fields()),
            Packet::SEND_PCOMMAND(s) => Ok(s.to_fields()),
            Packet::PKT_137 { cid } => Ok(fields_pkt_137(*cid)),
            Packet::SEND_CRCHRUID { cid, now_chr_uid } => Ok(fields_send_crchruid(*cid, *now_chr_uid)),
            Packet::REQ_CHG_CHR_PARAM { chr_uid, cr_class, power, impact, params, club, ball, caddie } => Ok(fields_req_chg_chr_param(*chr_uid, *cr_class, *power, *impact, params, *club, *ball, *caddie)),
            Packet::ACK_CHG_CHR_PARAM { status } => Ok(fields_ack_chg_chr_param(*status)),
            Packet::SEND_SELL_CADDIE_LIST { count, items } => Ok(fields_send_sell_caddie_list(*count, items)),
            Packet::PKT_166 => Ok(no_fields()),
            Packet::SEND_SALON_ITEM_LIST { count, items } => Ok(fields_send_salon_item_list(*count, items)),
            Packet::REQ_UDATA { uid } => Ok(fields_req_udata(*uid)),
            Packet::PKT_181(s) => Ok(s.to_fields()),
            Packet::PKT_183 { count, entries } => Ok(fields_pkt_183(*count, entries)),
            Packet::CLIENT_LOADSTAT2 { progress } => Ok(fields_client_loadstat2(*progress)),
            Packet::SEND_LOADSTAT2 { cid, progress } => Ok(fields_send_loadstat2(*cid, *progress)),
            Packet::ACK_GAMESTART { status } => Ok(fields_ack_gamestart(*status)),
            Packet::PKT_189 { hold_item } => Ok(fields_pkt_189(hold_item)),
            Packet::ACK_CHG_HOLDBOX { status } => Ok(fields_ack_chg_holdbox(*status)),
            Packet::PKT_231 { count, list } => Ok(fields_pkt_231(*count, list)),
            Packet::CLIENT_STOP_BALLPOS(s) => Ok(s.to_fields()),
            Packet::SEND_STOP_BALLPOS(s) => Ok(s.to_fields()),
            Packet::ORD_COLOR_RESULT(s) => Ok(s.to_fields()),
            Packet::SEND_MP_TABLE { count, table } => Ok(fields_send_mp_table(*count, table)),
            Packet::SEND_COMP_ITEM { count, items } => Ok(fields_send_comp_item(*count, items)),
            Packet::PKT_264 { count, items } => Ok(fields_pkt_264(*count, items)),
            Packet::GET_MODECTRL => Ok(no_fields()),
            Packet::SEND_MODECTRL { flags } => Ok(fields_send_modectrl(flags)),
            Packet::PKT_274 => Ok(no_fields()),
            Packet::PKT_275 { count, items } => Ok(fields_pkt_275(*count, items)),
            Packet::PKT_304 { unk, len, text } => Ok(fields_pkt_304(unk, *len, text)),
            Packet::ACK_ULIST_R { status } => Ok(fields_ack_ulist_r(*status)),
            Packet::SEND_CLUBDATA { count, clubdata } => Ok(fields_send_clubdata(*count, clubdata)),
            Packet::PKT_316 { len, message } => Ok(fields_pkt_316(*len, message)),
            Packet::Unknown { .. } => Ok(no_fields()),
        }
    }

    /// Whether this message can be framed: its opcode's layout fits its fields
    /// (or, for `Unknown`, the opcode is outside the catalog) and its values fit their bit fields.
    #[verifier::spinoff_prover]
    #[verifier::rlimit(80)]
    pub fn fits(&self) -> (r: bool)
        ensures
            r == packet_wf(*self),
    {
        match self {
            Packet::SEND_IDPASS(s) => s.fits() && valid_text(&s.username) && valid_text(&s.password),
            Packet::ACK_IDPASS { result } => fits_ack_idpass(self),
            Packet::REQ_GMSVLIST => true,
            Packet::SEND_GMSVDATA(s) => s.fits() && valid_text(&s.ip_address) && valid_text(&s.enc_key),
            Packet::ACK_GMSVLIST => true,
            Packet::SEND_IDPASS_G(s) => s.fits() && valid_text(&s.username) && valid_text(&s.password),
            Packet::ACK_IDPASS_G(s) => s.fits(),
            Packet::REQ_CHG_MODE { mode } => fits_req_chg_mode(self),
            Packet::ACK_CHG_MODE { mode } => fits_ack_chg_mode(self),
            Packet::GET_LOBBY_NUM => true,
            Packet::SEND_LOBBY_NUM { count } => fits_send_lobby_num(self),
            Packet::GET_LOBBY_DATA { index, mode } => fits_get_lobby_data(self),
            Packet::SEND_LOBBY_DATA(s) => s.fits(),
            Packet::REQ_ENTER_LOBBY { lobby } => fits_req_enter_lobby(self),
            Packet::ACK_ENTER_LOBBY { lobby } => fits_ack_enter_lobby(self),
            Packet::REQ_MAKE_ROOM(s) => s.fits(),
            Packet::ACK_MAKE_ROOM { room } => fits_ack_make_room(self),
            Packet::GET_ROOMS => true,
            Packet::PKT_19(s) => s.fits(),
            Packet::REQ_ENTER_ROOM { room, room_flag, room_password } => fits_req_enter_room(self),
            Packet::ACK_ENTER_ROOM(s) => s.fits(),
            Packet::REQ_ULIST { mode, lobby, room } => fits_req_ulist(self),
            Packet::SEND_ULIST(s) => s.fits(),
            Packet::PKT_24 => true,
            Packet::ACK_EXIT_ROOM { status } => fits_ack_exit_room(self),
            Packet::SEND_USTAT { cid, uid, stat } => fits_send_ustat(self),
            Packet::SEND_MESSAGE { cid, msg_type, server_id, name, len, message } => fits_send_message(self),
            Packet::REQ_GAMESTART => true,
            Packet::ORD_GAMESTART(s) => s.fits(),
            Packet::CLIENT_CRCLUB { club } => fits_client_crclub(self),
            Packet::SEND_CRCLUB { cid, club } => fits_send_crclub(self),
            Packet::CLIENT_DIRECTION { dir } => fits_client_direction(self),
            Packet::SEND_DIRECTION { cid, dir } => fits_send_direction(self),
            Packet::CLIENT_SHOT(s) => s.fits(),
            Packet::SEND_SHOT(s) => s.fits(),
            Packet::REQ_CRECORD { uid, course, season, hole_idx } => fits_req_crecord(self),
            Packet::SEND_CRECORD(s) => s.fits(),
            Packet::CLIENT_LOADSTAT { progress } => fits_client_loadstat(self),
            Packet::SEND_LOADSTAT { cid, progress } => fits_send_loadstat(self),
            Packet::CLIENT_BALLPOS(s) => s.fits(),
            Packet::SEND_BALLPOS(s) => s.fits(),
            Packet::PKT_72 { count, users } => fits_pkt_72(self),
            Packet::PKT_74 { count, users } => fits_pkt_74(self),
            Packet::PKT_76 { count, users } => fits_pkt_76(self),
            Packet::REQ_APPEAR { cid } => fits_req_appear(self),
            Packet::SEND_APPEAR { cid, unk, appear } => appear.fits(),
            Packet::REQ_ULIST_L { mode, lobby } => fits_req_ulist_l(self),
            Packet::SEND_ULIST_L(s) => s.fits(),
            Packet::PKT_89 => true,
            Packet::SEND_SELLITEMLIST { count, items } => fits_send_sellitemlist(self),
            Packet::REQ_BUY_ITEM { item } => fits_req_buy_item(self),
            Packet::ACK_BUY_ITEM { result } => fits_ack_buy_item(self),
            Packet::PKT_93 => true,
            Packet::REP_MONEY { gp, sc } => fits_rep_money(self),
            Packet::SET_FIRST_CHARACTER_APPEARANCE(s) => s.fits(),
            Packet::ACK_FIRST_CHARACTER_APPEARANCE { status } => fits_ack_first_character_appearance(self),
            Packet::SEND_CHRUID { count, cid, chr_uids } => fits_send_chruid(self),
            Packet::REQ_CHRDATA { cid, chr_uid } => fits_req_chrdata(self),
            Packet::SEND_CHRDATA(s) => s.fits(),
            Packet::GET_CHRDATA { cid } => fits_get_chrdata(self),
            Packet::REQ_CHG_APPEAR { cid, chr_uid, appear } => appear.fits(),
            Packet::PKT_104 { status } => fits_pkt_104(self),
            Packet::SET_PLAYER_NAME(s) => s.fits(),
            Packet::ACK_SET_CHARACTER_NAME { status } => fits_ack_set_character_name(self),
            Packet::PKT_112 { unk1, unk2, cnt, values } => fits_pkt_112(self),
            Packet::PKT_114 { mail_uid, from_uid, to_uid, year, month, day, hour, minute, second, len, utf8_text } => fits_pkt_114(self),
            Packet::PKT_115 { mail_uid, from_uid, to_uid, year, month, day, hour, minute, second, len, utf8_text } => fits_pkt_115(self),
            Packet::PKT_118 { unk1, unk2, count, users } => fits_pkt_118(self),
            Packet::PKT_131 { arg } => fits_pkt_131(self),
            Packet::PKT_132 { count, items } => fits_pkt_132(self),
            Packet::PKT_133 { arg } => fits_pkt_133(self),
            Packet::PKT_134 { x4, cid, items, unk } => fits_pkt_134(self),
            Packet::CLIENT_PCOMMAND(s) => s.fits(),
            Packet::SEND_PCOMMAND(s) => s.fits(),
            Packet::PKT_137 { cid } => fits_pkt_137(self),
            Packet::SEND_CRCHRUID { cid, now_chr_uid } => fits_send_crchruid(self),
            Packet::REQ_CHG_CHR_PARAM { chr_uid, cr_class, power, impact, params, club, ball, caddie } => fits_req_chg_chr_param(self),
            Packet::ACK_CHG_CHR_PARAM { status } => fits_ack_chg_chr_param(self),
            Packet::SEND_SELL_CADDIE_LIST { count, items } => fits_send_sell_caddie_list(self),
            Packet::PKT_166 => true,
            Packet::SEND_SALON_ITEM_LIST { count, items } => fits_send_salon_item_list(self),
            Packet::REQ_UDATA { uid } => fits_req_udata(self),
            Packet::PKT_181(s) => s.fits(),
            Packet::PKT_183 { count, entries } => fits_pkt_183(self),
            Packet::CLIENT_LOADSTAT2 { progress } => fits_client_loadstat2(self),
            Packet::SEND_LOADSTAT2 { cid, progress } => fits_send_loadstat2(self),
            Packet::ACK_GAMESTART { status } => fits_ack_gamestart(self),
            Packet::PKT_189 { hold_item } => fits_pkt_189(self),
            Packet::ACK_CHG_HOLDBOX { status } => fits_ack_chg_holdbox(self),
            Packet::PKT_231 { count, list } => fits_pkt_231(self),
            Packet::CLIENT_STOP_BALLPOS(s) => s.fits(),
            Packet::SEND_STOP_BALLPOS(s) => s.fits(),
            Packet::ORD_COLOR_RESULT(s) => s.fits(),
            Packet::SEND_MP_TABLE { count, table } => fits_send_mp_table(self),
            Packet::SEND_COMP_ITEM { count, items } => fits_send_comp_item(self),
            Packet::PKT_264 { count, items } => fits_pkt_264(self),
            Packet::GET_MODECTRL => true,
            Packet::SEND_MODECTRL { flags } => fits_send_modectrl(self),
            Packet::PKT_274 => true,
            Packet::PKT_275 { count, items } => fits_pkt_275(self),
            Packet::PKT_304 { unk, len, text } => fits_pkt_304(self),
            Packet::ACK_ULIST_R { status } => fits_ack_ulist_r(self),
            Packet::SEND_CLUBDATA { count, clubdata } => fits_send_clubdata(self),
            Packet::PKT_316 { len, message } => fits_pkt_316(self),
            Packet::Unknown { id } => Packet::schema_for(*id).is_none(),
        }
    }

    /// The message with opcode `id` whose body holds the fields `fs`; fails
    /// when a field holds a value with no meaning (an appearance of no character).
    #[verifier::spinoff_prover]
    #[verifier::rlimit(80)]
    pub fn from_fields(id: i16, fs: &[Field]) -> (r: Result<Packet, CodecError>)
        requires
            schema_of(id) is Some,
            body_match(schema_of(id).unwrap(), fields_view(fs@)),
        ensures
            r is Ok <==> fields_decodable(id, fields_view(fs@)),
            r is Ok ==> packet_id(r.unwrap()) == id && decoded_from(r.unwrap(), fields_view(fs@)),
            r is Ok ==> !(r.unwrap() is Unknown),
            r is Err ==> r == Err::<Packet, CodecError>(CodecError::Malformed),
    {
        match id {
            1 => decode_1(fs),
            2 => decode_2(fs),
            3 => decode_3(fs),
            4 => decode_4(fs),
            5 => decode_5(fs),
            6 => decode_6(fs),
            7 => Ok(Packet::ACK_IDPASS_G(UData::from_fields(fs))),
            8 => decode_8(fs),
            9 => decode_9(fs),
            10 => decode_10(fs),
            11 => decode_11(fs),
            12 => decode_12(fs),
            13 => Ok(Packet::SEND_LOBBY_DATA(LobbyData::from_fields(fs))),
            14 => decode_14(fs),
            15 => decode_15(fs),
            16 => Ok(Packet::REQ_MAKE_ROOM(Packet19::from_fields(fs))),
            17 => decode_17(fs),
            18 => decode_18(fs),
            19 => Ok(Packet::PKT_19(Packet19::from_fields(fs))),
            20 => decode_20(fs),
            21 => Ok(Packet::ACK_ENTER_ROOM(Packet19::from_fields(fs))),
            22 => decode_22(fs),
            23 => Ok(Packet::SEND_ULIST(UList::from_fields(fs))),
            24 => decode_24(fs),
            25 => decode_25(fs),
            26 => decode_26(fs),
            27 => decode_27(fs),
            31 => decode_31(fs),
            32 => Ok(Packet::ORD_GAMESTART(GameStart::from_fields(fs))),
            33 => decode_33(fs),
            34 => decode_34(fs),
            35 => decode_35(fs),
            36 => decode_36(fs),
            37 => Ok(Packet::CLIENT_SHOT(Shot::from_fields(fs))),
            38 => Ok(Packet::SEND_SHOT(Shot::from_fields(fs))),
            42 => decode_42(fs),
            43 => Ok(Packet::SEND_CRECORD(CRecordReply::from_fields(fs))),
            44 => decode_44(fs),
            45 => decode_45(fs),
            46 => Ok(Packet::CLIENT_BALLPOS(BallPos::from_fields(fs))),
            47 => Ok(Packet::SEND_BALLPOS(BallPos::from_fields(fs))),
            72 => decode_72(fs),
            74 => decode_74(fs),
            76 => decode_76(fs),
            83 => decode_83(fs),
            84 => decode_84(fs),
            87 => decode_87(fs),
            88 => Ok(Packet::SEND_ULIST_L(UListL::from_fields(fs))),
            89 => decode_89(fs),
            90 => decode_90(fs),
            91 => decode_91(fs),
            92 => decode_92(fs),
            93 => decode_93(fs),
            94 => decode_94(fs),
            95 => decode_95(fs),
            96 => decode_96(fs),
            99 => decode_99(fs),
            100 => decode_100(fs),
            101 => Ok(Packet::SEND_CHRDATA(ChrDataReply::from_fields(fs))),
            102 => decode_102(fs),
            103 => decode_103(fs),
            104 => decode_104(fs),
            105 => Ok(Packet::SET_PLAYER_NAME(SetPlayerName::from_fields(fs))),
            106 => decode_106(fs),
            112 => decode_112(fs),
            114 => decode_114(fs),
            115 => decode_115(fs),
            118 => decode_118(fs),
            131 => decode_131(fs),
            132 => decode_132(fs),
            133 => decode_133(fs),
            134 => decode_134(fs),
            135 => Ok(Packet::CLIENT_PCOMMAND(PCommand::from_fields(fs))),
            136 => Ok(Packet::SEND_PCOMMAND(PCommand::from_fields(fs))),
            137 => decode_137(fs),
            139 => decode_139(fs),
            145 => decode_145(fs),
            146 => decode_146(fs),
            148 => decode_148(fs),
            166 => decode_166(fs),
            167 => decode_167(fs),
            180 => decode_180(fs),
            181 => Ok(Packet::PKT_181(UData::from_fields(fs))),
            183 => decode_183(fs),
            185 => decode_185(fs),
            186 => decode_186(fs),
            187 => decode_187(fs),
            189 => decode_189(fs),
            190 => decode_190(fs),
            231 => decode_231(fs),
            234 => Ok(Packet::CLIENT_STOP_BALLPOS(BallPos::from_fields(fs))),
            235 => Ok(Packet::SEND_STOP_BALLPOS(BallPos::from_fields(fs))),
            236 => Ok(Packet::ORD_COLOR_RESULT(ColorResult::from_fields(fs))),
            237 => decode_237(fs),
            256 => decode_256(fs),
            264 => decode_264(fs),
            268 => decode_268(fs),
            269 => decode_269(fs),
            274 => decode_274(fs),
            275 => decode_275(fs),
            304 => decode_304(fs),
            307 => decode_307(fs),
            312 => decode_312(fs),
            316 => decode_316(fs),
            _ => Err(CodecError::Malformed),
        }
    }
}

fn no_fields() -> (r: Vec<Field>)
    ensures
        fields_view(r@) == Seq::<FieldV>::empty(),
{
    let r: Vec<Field> = Vec::new();
    assert(fields_view(r@) =~= Seq::<FieldV>::empty());
    r
}

fn fields_with_appearance(a: i32, b: i32, w: Vec<u32>) -> (r: Vec<Field>)
    ensures
        fields_view(r@) == seq![fw(a), fw(b), FieldV::Words(w@)],
{
    let ghost wv = w@;
    let r = vec![Field::Word(a as u32), Field::Word(b as u32), Field::Words(w)];
    assert(fields_view(r@) =~= seq![fw(a), fw(b), FieldV::Words(wv)]);
    r
}

fn fields_ack_idpass(result: i8) -> (r: Vec<Field>)
    ensures
        fields_view(r@) == seq![fb(result)],
{
    let r = vec![Field::Byte(result as u8)];
    assert(fields_view(r@) =~= seq![fb(result)]);
    r
}

fn fields_req_chg_mode(mode: i8) -> (r: Vec<Field>)
    ensures
        fields_view(r@) == seq![fb(mode)],
{
    let r = vec![Field::Byte(mode as u8)];
    assert(fields_view(r@) =~= seq![fb(mode)]);
    r
}

fn fields_ack_chg_mode(mode: i8) -> (r: Vec<Field>)
    ensures
        fields_view(r@) == seq![fb(mode)],
{
    let r = vec![Field::Byte(mode as u8)];
    assert(fields_view(r@) =~= seq![fb(mode)]);
    r
}

fn fields_send_lobby_num(count: i8) -> (r: Vec<Field>)
    ensures
        fields_view(r@) == seq![fb(count)],
{
    let r = vec![Field::Byte(count as u8)];
    assert(fields_view(r@) =~= seq![fb(count)]);
    r
}

fn fields_get_lobby_data(index: i8, mode: i8) -> (r: Vec<Field>)
    ensures
        fields_view(r@) == seq![fb(index), fb(mode)],
{
    let r = vec![Field::Byte(index as u8), Field::Byte(mode as u8)];
    assert(fields_view(r@) =~= seq![fb(index), fb(mode)]);
    r
}

fn fields_req_enter_lobby(lobby: i8) -> (r: Vec<Field>)
    ensures
        fields_view(r@) == seq![fb(lobby)],
{
    let r = vec![Field::Byte(lobby as u8)];
    assert(fields_view(r@) =~= seq![fb(lobby)]);
    r
}

fn fields_ack_enter_lobby(lobby: i8) -> (r: Vec<Field>)
    ensures
        fields_view(r@) == seq![fb(lobby)],
{
    let r = vec![Field::Byte(lobby as u8)];
    assert(fields_view(r@) =~= seq![fb(lobby)]);
    r
}

fn fields_ack_make_room(room: i8) -> (r: Vec<Field>)
    ensures
        fields_view(r@) == seq![fb(room)],
{
    let r = vec![Field::Byte(room as u8)];
    assert(fields_view(r@) =~= seq![fb(room)]);
    r
}

fn fields_req_enter_room(room: i8, room_flag: u32, room_password: &Vec<u16>) -> (r: Vec<Field>)
    ensures
        fields_view(r@) == seq![fb(room), FieldV::Word(room_flag), FieldV::Halves(room_password@)],
{
    let r = vec![Field::Byte(room as u8), Field::Word(room_flag), Field::Halves(copy_vec(room_password))];
    assert(fields_view(r@) =~= seq![fb(room), FieldV::Word(room_flag), FieldV::Halves(room_password@)]);
    r
}

fn fields_req_ulist(mode: i8, lobby: i8, room: i8) -> (r: Vec<Field>)
    ensures
        fields_view(r@) == seq![fb(mode), fb(lobby), fb(room)],
{
    let r = vec![Field::Byte(mode as u8), Field::Byte(lobby as u8), Field::Byte(room as u8)];
    assert(fields_view(r@) =~= seq![fb(mode), fb(lobby), fb(room)]);
    r
}

fn fields_ack_exit_room(status: i8) -> (r: Vec<Field>)
    ensures
        fields_view(r@) == seq![fb(status)],
{
    let r = vec![Field::Byte(status as u8)];
    assert(fields_view(r@) =~= seq![fb(status)]);
    r
}

fn fields_send_ustat(cid: i32, uid: i32, stat: u32) -> (r: Vec<Field>)
    ensures
        fields_view(r@) == seq![fw(cid), fw(uid), FieldV::Word(stat)],
{
    let r = vec![Field::Word(cid as u32), Field::Word(uid as u32), Field::Word(stat)];
    assert(fields_view(r@) =~= seq![fw(cid), fw(uid), FieldV::Word(stat)]);
    r
}

fn fields_send_message(cid: i32, msg_type: i8, server_id: i8, name: &Vec<u16>, len: u16, message: &Vec<u16>) -> (r: Vec<Field>)
    ensures
        fields_view(r@) == seq![fw(cid), fb(msg_type), fb(server_id), FieldV::Halves(name@), FieldV::Half(len), FieldV::Halves(message@)],
{
    let r = vec![Field::Word(cid as u32), Field::Byte(msg_type as u8), Field::Byte(server_id as u8), Field::Halves(copy_vec(name)), Field::Half(len), Field::Halves(copy_vec(message))];
    assert(fields_view(r@) =~= seq![fw(cid), fb(msg_type), fb(server_id), FieldV::Halves(name@), FieldV::Half(len), FieldV::Halves(message@)]);
    r
}

fn fields_client_crclub(club: i8) -> (r: Vec<Field>)
    ensures
        fields_view(r@) == seq![fb(club)],
{
    let r = vec![Field::Byte(club as u8)];
    assert(fields_view(r@) =~= seq![fb(club)]);
    r
}

fn fields_send_crclub(cid: i32, club: i8) -> (r: Vec<Field>)
    ensures
        fields_view(r@) == seq![fw(cid), fb(club)],
{
    let r = vec![Field::Word(cid as u32), Field::Byte(club as u8)];
    assert(fields_view(r@) =~= seq![fw(cid), fb(club)]);
    r
}

fn fields_client_direction(dir: u32) -> (r: Vec<Field>)
    ensures
        fields_view(r@) == seq![FieldV::Word(dir)],
{
    let r = vec![Field::Word(dir)];
    assert(fields_view(r@) =~= seq![FieldV::Word(dir)]);
    r
}

fn fields_send_direction(cid: i32, dir: u32) -> (r: Vec<Field>)
    ensures
        fields_view(r@) == seq![fw(cid), FieldV::Word(dir)],
{
    let r = vec![Field::Word(cid as u32), Field::Word(dir)];
    assert(fields_view(r@) =~= seq![fw(cid), FieldV::Word(dir)]);
    r
}

fn fields_req_crecord(uid: i32, course: i8, season: i8, hole_idx: i8) -> (r: Vec<Field>)
    ensures
        fields_view(r@) == seq![fw(uid), fb(course), fb(season), fb(hole_idx)],
{
    let r = vec![Field::Word(uid as u32), Field::Byte(course as u8), Field::Byte(season as u8), Field::Byte(hole_idx as u8)];
    assert(fields_view(r@) =~= seq![fw(uid), fb(course), fb(season), fb(hole_idx)]);
    r
}

fn fields_client_loadstat(progress: i8) -> (r: Vec<Field>)
    ensures
        fields_view(r@) == seq![fb(progress)],
{
    let r = vec![Field::Byte(progress as u8)];
    assert(fields_view(r@) =~= seq![fb(progress)]);
    r
}

fn fields_send_loadstat(cid: i32, progress: i8) -> (r: Vec<Field>)
    ensures
        fields_view(r@) == seq![fw(cid), fb(progress)],
{
    let r = vec![Field::Word(cid as u32), Field::Byte(progress as u8)];
    assert(fields_view(r@) =~= seq![fw(cid), fb(progress)]);
    r
}

fn fields_pkt_72(count: u32, users: &Vec<u32>) -> (r: Vec<Field>)
    ensures
        fields_view(r@) == seq![FieldV::Word(count), FieldV::Words(users@)],
{
    let r = vec![Field::Word(count), Field::Words(copy_vec(users))];
    assert(fields_view(r@) =~= seq![FieldV::Word(count), FieldV::Words(users@)]);
    r
}

fn fields_pkt_74(count: u32, users: &Vec<u32>) -> (r: Vec<Field>)
    ensures
        fields_view(r@) == seq![FieldV::Word(count), FieldV::Words(users@)],
{
    let r = vec![Field::Word(count), Field::Words(copy_vec(users))];
    assert(fields_view(r@) =~= seq![FieldV::Word(count), FieldV::Words(users@)]);
    r
}

fn fields_pkt_76(count: u32, users: &Vec<u32>) -> (r: Vec<Field>)
    ensures
        fields_view(r@) == seq![FieldV::Word(count), FieldV::Words(users@)],
{
    let r = vec![Field::Word(count), Field::Words(copy_vec(users))];
    assert(fields_view(r@) =~= seq![FieldV::Word(count), FieldV::Words(users@)]);
    r
}

fn fields_req_appear(cid: i32) -> (r: Vec<Field>)
    ensures
        fields_view(r@) == seq![fw(cid)],
{
    let r = vec![Field::Word(cid as u32)];
    assert(fields_view(r@) =~= seq![fw(cid)]);
    r
}

fn fields_req_ulist_l(mode: i8, lobby: i8) -> (r: Vec<Field>)
    ensures
        fields_view(r@) == seq![fb(mode), fb(lobby)],
{
    let r = vec![Field::Byte(mode as u8), Field::Byte(lobby as u8)];
    assert(fields_view(r@) =~= seq![fb(mode), fb(lobby)]);
    r
}

fn fields_send_sellitemlist(count: u16, items: &Vec<u32>) -> (r: Vec<Field>)
    ensures
        fields_view(r@) == seq![FieldV::Half(count), FieldV::Words(items@)],
{
    let r = vec![Field::Half(count), Field::Words(copy_vec(items))];
    assert(fields_view(r@) =~= seq![FieldV::Half(count), FieldV::Words(items@)]);
    r
}

fn fields_req_buy_item(item: u32) -> (r: Vec<Field>)
    ensures
        fields_view(r@) == seq![FieldV::Word(item)],
{
    let r = vec![Field::Word(item)];
    assert(fields_view(r@) =~= seq![FieldV::Word(item)]);
    r
}

fn fields_ack_buy_item(result: i8) -> (r: Vec<Field>)
    ensures
        fields_view(r@) == seq![fb(result)],
{
    let r = vec![Field::Byte(result as u8)];
    assert(fields_view(r@) =~= seq![fb(result)]);
    r
}

fn fields_rep_money(gp: i32, sc: i32) -> (r: Vec<Field>)
    ensures
        fields_view(r@) == seq![fw(gp), fw(sc)],
{
    let r = vec![Field::Word(gp as u32), Field::Word(sc as u32)];
    assert(fields_view(r@) =~= seq![fw(gp), fw(sc)]);
    r
}

fn fields_ack_first_character_appearance(status: i8) -> (r: Vec<Field>)
    ensures
        fields_view(r@) == seq![fb(status)],
{
    let r = vec![Field::Byte(status as u8)];
    assert(fields_view(r@) =~= seq![fb(status)]);
    r
}

fn fields_send_chruid(count: u32, cid: i32, chr_uids: &Vec<u32>) -> (r: Vec<Field>)
    ensures
        fields_view(r@) == seq![FieldV::Word(count), fw(cid), FieldV::Words(chr_uids@)],
{
    let r = vec![Field::Word(count), Field::Word(cid as u32), Field::Words(copy_vec(chr_uids))];
    assert(fields_view(r@) =~= seq![FieldV::Word(count), fw(cid), FieldV::Words(chr_uids@)]);
    r
}

fn fields_req_chrdata(cid: i32, chr_uid: i32) -> (r: Vec<Field>)
    ensures
        fields_view(r@) == seq![fw(cid), fw(chr_uid)],
{
    let r = vec![Field::Word(cid as u32), Field::Word(chr_uid as u32)];
    assert(fields_view(r@) =~= seq![fw(cid), fw(chr_uid)]);
    r
}

fn fields_get_chrdata(cid: i32) -> (r: Vec<Field>)
    ensures
        fields_view(r@) == seq![fw(cid)],
{
    let r = vec![Field::Word(cid as u32)];
    assert(fields_view(r@) =~= seq![fw(cid)]);
    r
}

fn fields_pkt_104(status: i8) -> (r: Vec<Field>)
    ensures
        fields_view(r@) == seq![fb(status)],
{
    let r = vec![Field::Byte(status as u8)];
    assert(fields_view(r@) =~= seq![fb(status)]);
    r
}

fn fields_ack_set_character_name(status: i8) -> (r: Vec<Field>)
    ensures
        fields_view(r@) == seq![fb(status)],
{
    let r = vec![Field::Byte(status as u8)];
    assert(fields_view(r@) =~= seq![fb(status)]);
    r
}

fn fields_pkt_112(unk1: i32, unk2: i32, cnt: u32, values: &Vec<u32>) -> (r: Vec<Field>)
    ensures
        fields_view(r@) == seq![fw(unk1), fw(unk2), FieldV::Word(cnt), FieldV::Words(values@)],
{
    let r = vec![Field::Word(unk1 as u32), Field::Word(unk2 as u32), Field::Word(cnt), Field::Words(copy_vec(values))];
    assert(fields_view(r@) =~= seq![fw(unk1), fw(unk2), FieldV::Word(cnt), FieldV::Words(values@)]);
    r
}

fn fields_pkt_114(mail_uid: i32, from_uid: i32, to_uid: i32, year: i16, month: i8, day: i8, hour: i8, minute: i8, second: i8, len: u16, utf8_text: &Vec<u8>) -> (r: Vec<Field>)
    ensures
        fields_view(r@) == seq![fw(mail_uid), fw(from_uid), fw(to_uid), fh(year), fb(month), fb(day), fb(hour), fb(minute), fb(second), FieldV::Half(len), FieldV::Bytes(utf8_text@)],
{
    let r = vec![Field::Word(mail_uid as u32), Field::Word(from_uid as u32), Field::Word(to_uid as u32), Field::Half(year as u16), Field::Byte(month as u8), Field::Byte(day as u8), Field::Byte(hour as u8), Field::Byte(minute as u8), Field::Byte(second as u8), Field::Half(len), Field::Bytes(copy_vec(utf8_text))];
    assert(fields_view(r@) =~= seq![fw(mail_uid), fw(from_uid), fw(to_uid), fh(year), fb(month), fb(day), fb(hour), fb(minute), fb(second), FieldV::Half(len), FieldV::Bytes(utf8_text@)]);
    r
}

fn fields_pkt_115(mail_uid: i32, from_uid: i32, to_uid: i32, year: i16, month: i8, day: i8, hour: i8, minute: i8, second: i8, len: u16, utf8_text: &Vec<u8>) -> (r: Vec<Field>)
    ensures
        fields_view(r@) == seq![fw(mail_uid), fw(from_uid), fw(to_uid), fh(year), fb(month), fb(day), fb(hour), fb(minute), fb(second), FieldV::Half(len), FieldV::Bytes(utf8_text@)],
{
    let r = vec![Field::Word(mail_uid as u32), Field::Word(from_uid as u32), Field::Word(to_uid as u32), Field::Half(year as u16), Field::Byte(month as u8), Field::Byte(day as u8), Field::Byte(hour as u8), Field::Byte(minute as u8), Field::Byte(second as u8), Field::Half(len), Field::Bytes(copy_vec(utf8_text))];
    assert(fields_view(r@) =~= seq![fw(mail_uid), fw(from_uid), fw(to_uid), fh(year), fb(month), fb(day), fb(hour), fb(minute), fb(second), FieldV::Half(len), FieldV::Bytes(utf8_text@)]);
    r
}

fn fields_pkt_118(unk1: i32, unk2: i32, count: u32, users: &Vec<u32>) -> (r: Vec<Field>)
    ensures
        fields_view(r@) == seq![fw(unk1), fw(unk2), FieldV::Word(count), FieldV::Words(users@)],
{
    let r = vec![Field::Word(unk1 as u32), Field::Word(unk2 as u32), Field::Word(count), Field::Words(copy_vec(users))];
    assert(fields_view(r@) =~= seq![fw(unk1), fw(unk2), FieldV::Word(count), FieldV::Words(users@)]);
    r
}

fn fields_pkt_131(arg: i32) -> (r: Vec<Field>)
    ensures
        fields_view(r@) == seq![fw(arg)],
{
    let r = vec![Field::Word(arg as u32)];
    assert(fields_view(r@) =~= seq![fw(arg)]);
    r
}

fn fields_pkt_132(count: u32, items: &Vec<u32>) -> (r: Vec<Field>)
    ensures
        fields_view(r@) == seq![FieldV::Word(count), FieldV::Words(items@)],
{
    let r = vec![Field::Word(count), Field::Words(copy_vec(items))];
    assert(fields_view(r@) =~= seq![FieldV::Word(count), FieldV::Words(items@)]);
    r
}

fn fields_pkt_133(arg: i32) -> (r: Vec<Field>)
    ensures
        fields_view(r@) == seq![fw(arg)],
{
    let r = vec![Field::Word(arg as u32)];
    assert(fields_view(r@) =~= seq![fw(arg)]);
    r
}

fn fields_pkt_134(x4: i32, cid: i32, items: &Vec<u32>, unk: &Vec<u8>) -> (r: Vec<Field>)
    ensures
        fields_view(r@) == seq![fw(x4), fw(cid), FieldV::Words(items@), FieldV::Bytes(unk@)],
{
    let r = vec![Field::Word(x4 as u32), Field::Word(cid as u32), Field::Words(copy_vec(items)), Field::Bytes(copy_vec(unk))];
    assert(fields_view(r@) =~= seq![fw(x4), fw(cid), FieldV::Words(items@), FieldV::Bytes(unk@)]);
    r
}

fn fields_pkt_137(cid: i32) -> (r: Vec<Field>)
    ensures
        fields_view(r@) == seq![fw(cid)],
{
    let r = vec![Field::Word(cid as u32)];
    assert(fields_view(r@) =~= seq![fw(cid)]);
    r
}

fn fields_send_crchruid(cid: i32, now_chr_uid: i32) -> (r: Vec<Field>)
    ensures
        fields_view(r@) == seq![fw(cid), fw(now_chr_uid)],
{
    let r = vec![Field::Word(cid as u32), Field::Word(now_chr_uid as u32)];
    assert(fields_view(r@) =~= seq![fw(cid), fw(now_chr_uid)]);
    r
}

fn fields_req_chg_chr_param(chr_uid: i32, cr_class: i8, power: i32, impact: i32, params: &Vec<u16>, club: u32, ball: u32, caddie: u32) -> (r: Vec<Field>)
    ensures
        fields_view(r@) == seq![fw(chr_uid), fb(cr_class), fw(power), fw(impact), FieldV::Halves(params@), FieldV::Word(club), FieldV::Word(ball), FieldV::Word(caddie)],
{
    let r = vec![Field::Word(chr_uid as u32), Field::Byte(cr_class as u8), Field::Word(power as u32), Field::Word(impact as u32), Field::Halves(copy_vec(params)), Field::Word(club), Field::Word(ball), Field::Word(caddie)];
    assert(fields_view(r@) =~= seq![fw(chr_uid), fb(cr_class), fw(power), fw(impact), FieldV::Halves(params@), FieldV::Word(club), FieldV::Word(ball), FieldV::Word(caddie)]);
    r
}

fn fields_ack_chg_chr_param(status: i8) -> (r: Vec<Field>)
    ensures
        fields_view(r@) == seq![fb(status)],
{
    let r = vec![Field::Byte(status as u8)];
    assert(fields_view(r@) =~= seq![fb(status)]);
    r
}

fn fields_send_sell_caddie_list(count: u16, items: &Vec<u32>) -> (r: Vec<Field>)
    ensures
        fields_view(r@) == seq![FieldV::Half(count), FieldV::Words(items@)],
{
    let r = vec![Field::Half(count), Field::Words(copy_vec(items))];
    assert(fields_view(r@) =~= seq![FieldV::Half(count), FieldV::Words(items@)]);
    r
}

fn fields_send_salon_item_list(count: u16, items: &Vec<u32>) -> (r: Vec<Field>)
    ensures
        fields_view(r@) == seq![FieldV::Half(count), FieldV::Words(items@)],
{
    let r = vec![Field::Half(count), Field::Words(copy_vec(items))];
    assert(fields_view(r@) =~= seq![FieldV::Half(count), FieldV::Words(items@)]);
    r
}

fn fields_req_udata(uid: i32) -> (r: Vec<Field>)
    ensures
        fields_view(r@) == seq![fw(uid)],
{
    let r = vec![Field::Word(uid as u32)];
    assert(fields_view(r@) =~= seq![fw(uid)]);
    r
}

fn fields_pkt_183(count: u8, entries: &Vec<u8>) -> (r: Vec<Field>)
    ensures
        fields_view(r@) == seq![FieldV::Byte(count), FieldV::Bytes(entries@)],
{
    let r = vec![Field::Byte(count), Field::Bytes(copy_vec(entries))];
    assert(fields_view(r@) =~= seq![FieldV::Byte(count), FieldV::Bytes(entries@)]);
    r
}

fn fields_client_loadstat2(progress: i8) -> (r: Vec<Field>)
    ensures
        fields_view(r@) == seq![fb(progress)],
{
    let r = vec![Field::Byte(progress as u8)];
    assert(fields_view(r@) =~= seq![fb(progress)]);
    r
}

fn fields_send_loadstat2(cid: i32, progress: i8) -> (r: Vec<Field>)
    ensures
        fields_view(r@) == seq![fw(cid), fb(progress)],
{
    let r = vec![Field::Word(cid as u32), Field::Byte(progress as u8)];
    assert(fields_view(r@) =~= seq![fw(cid), fb(progress)]);
    r
}

fn fields_ack_gamestart(status: i8) -> (r: Vec<Field>)
    ensures
        fields_view(r@) == seq![fb(status)],
{
    let r = vec![Field::Byte(status as u8)];
    assert(fields_view(r@) =~= seq![fb(status)]);
    r
}

fn fields_pkt_189(hold_item: &Vec<u32>) -> (r: Vec<Field>)
    ensures
        fields_view(r@) == seq![FieldV::Words(hold_item@)],
{
    let r = vec![Field::Words(copy_vec(hold_item))];
    assert(fields_view(r@) =~= seq![FieldV::Words(hold_item@)]);
    r
}

fn fields_ack_chg_holdbox(status: i8) -> (r: Vec<Field>)
    ensures
        fields_view(r@) == seq![fb(status)],
{
    let r = vec![Field::Byte(status as u8)];
    assert(fields_view(r@) =~= seq![fb(status)]);
    r
}

fn fields_pkt_231(count: u32, list: &Vec<u32>) -> (r: Vec<Field>)
    ensures
        fields_view(r@) == seq![FieldV::Word(count), FieldV::Words(list@)],
{
    let r = vec![Field::Word(count), Field::Words(copy_vec(list))];
    assert(fields_view(r@) =~= seq![FieldV::Word(count), FieldV::Words(list@)]);
    r
}

fn fields_send_mp_table(count: u32, table: &Vec<u32>) -> (r: Vec<Field>)
    ensures
        fields_view(r@) == seq![FieldV::Word(count), FieldV::Words(table@)],
{
    let r = vec![Field::Word(count), Field::Words(copy_vec(table))];
    assert(fields_view(r@) =~= seq![FieldV::Word(count), FieldV::Words(table@)]);
    r
}

fn fields_send_comp_item(count: u32, items: &Vec<u32>) -> (r: Vec<Field>)
    ensures
        fields_view(r@) == seq![FieldV::Word(count), FieldV::Words(items@)],
{
    let r = vec![Field::Word(count), Field::Words(copy_vec(items))];
    assert(fields_view(r@) =~= seq![FieldV::Word(count), FieldV::Words(items@)]);
    r
}

fn fields_pkt_264(count: u16, items: &Vec<u8>) -> (r: Vec<Field>)
    ensures
        fields_view(r@) == seq![FieldV::Half(count), FieldV::Bytes(items@)],
{
    let r = vec![Field::Half(count), Field::Bytes(copy_vec(items))];
    assert(fields_view(r@) =~= seq![FieldV::Half(count), FieldV::Bytes(items@)]);
    r
}

fn fields_send_modectrl(flags: &Vec<u8>) -> (r: Vec<Field>)
    ensures
        fields_view(r@) == seq![FieldV::Bytes(flags@)],
{
    let r = vec![Field::Bytes(copy_vec(flags))];
    assert(fields_view(r@) =~= seq![FieldV::Bytes(flags@)]);
    r
}

fn fields_pkt_275(count: i32, items: &Vec<u32>) -> (r: Vec<Field>)
    ensures
        fields_view(r@) == seq![fw(count), FieldV::Words(items@)],
{
    let r = vec![Field::Word(count as u32), Field::Words(copy_vec(items))];
    assert(fields_view(r@) =~= seq![fw(count), FieldV::Words(items@)]);
    r
}

fn fields_pkt_304(unk: &Vec<u8>, len: u16, text: &Vec<u16>) -> (r: Vec<Field>)
    ensures
        fields_view(r@) == seq![FieldV::Bytes(unk@), FieldV::Half(len), FieldV::Halves(text@)],
{
    let r = vec![Field::Bytes(copy_vec(unk)), Field::Half(len), Field::Halves(copy_vec(text))];
    assert(fields_view(r@) =~= seq![FieldV::Bytes(unk@), FieldV::Half(len), FieldV::Halves(text@)]);
    r
}

fn fields_ack_ulist_r(status: i8) -> (r: Vec<Field>)
    ensures
        fields_view(r@) == seq![fb(status)],
{
    let r = vec![Field::Byte(status as u8)];
    assert(fields_view(r@) =~= seq![fb(status)]);
    r
}

fn fields_send_clubdata(count: u32, clubdata: &Vec<u8>) -> (r: Vec<Field>)
    ensures
        fields_view(r@) == seq![FieldV::Word(count), FieldV::Bytes(clubdata@)],
{
    let r = vec![Field::Word(count), Field::Bytes(copy_vec(clubdata))];
    assert(fields_view(r@) =~= seq![FieldV::Word(count), FieldV::Bytes(clubdata@)]);
    r
}

fn fields_pkt_316(len: u16, message: &Vec<u16>) -> (r: Vec<Field>)
    ensures
        fields_view(r@) == seq![FieldV::Half(len), FieldV::Halves(message@)],
{
    let r = vec![Field::Half(len), Field::Halves(copy_vec(message))];
    assert(fields_view(r@) =~= seq![FieldV::Half(len), FieldV::Halves(message@)]);
    r
}


fn fits_ack_idpass(p: &Packet) -> (r: bool)
    requires
        p is ACK_IDPASS,
    ensures
        r == packet_wf(*p),
{
    match p {
        Packet::ACK_IDPASS { result } => {
            let r = true;
            proof {
                if r {
                    assert forall|j: int| 0 <= j < 1 implies field_has_kind(#[trigger] packet_fields(*p)[j], schema_of(2).unwrap()[j]) by {
                        if j == 0 {}
                    }
                }
            }
            r
        },
        _ => false,
    }
}

fn fits_req_chg_mode(p: &Packet) -> (r: bool)
    requires
        p is REQ_CHG_MODE,
    ensures
        r == packet_wf(*p),
{
    match p {
        Packet::REQ_CHG_MODE { mode } => {
            let r = true;
            proof {
                if r {
                    assert forall|j: int| 0 <= j < 1 implies field_has_kind(#[trigger] packet_fields(*p)[j], schema_of(8).unwrap()[j]) by {
                        if j == 0 {}
                    }
                }
            }
            r
        },
        _ => false,
    }
}

fn fits_ack_chg_mode(p: &Packet) -> (r: bool)
    requires
        p is ACK_CHG_MODE,
    ensures
        r == packet_wf(*p),
{
    match p {
        Packet::ACK_CHG_MODE { mode } => {
            let r = true;
            proof {
                if r {
                    assert forall|j: int| 0 <= j < 1 implies field_has_kind(#[trigger] packet_fields(*p)[j], schema_of(9).unwrap()[j]) by {
                        if j == 0 {}
                    }
                }
            }
            r
        },
        _ => false,
    }
}

fn fits_send_lobby_num(p: &Packet) -> (r: bool)
    requires
        p is SEND_LOBBY_NUM,
    ensures
        r == packet_wf(*p),
{
    match p {
        Packet::SEND_LOBBY_NUM { count } => {
            let r = true;
            proof {
                if r {
                    assert forall|j: int| 0 <= j < 1 implies field_has_kind(#[trigger] packet_fields(*p)[j], schema_of(11).unwrap()[j]) by {
                        if j == 0 {}
                    }
                }
            }
            r
        },
        _ => false,
    }
}

fn fits_get_lobby_data(p: &Packet) -> (r: bool)
    requires
        p is GET_LOBBY_DATA,
    ensures
        r == packet_wf(*p),
{
    match p {
        Packet::GET_LOBBY_DATA { index, mode } => {
            let r = true;
            proof {
                if r {
                    assert forall|j: int| 0 <= j < 2 implies field_has_kind(#[trigger] packet_fields(*p)[j], schema_of(12).unwrap()[j]) by {
                        if j == 0 {} else if j == 1 {}
                    }
                }
            }
            r
        },
        _ => false,
    }
}

fn fits_req_enter_lobby(p: &Packet) -> (r: bool)
    requires
        p is REQ_ENTER_LOBBY,
    ensures
        r == packet_wf(*p),
{
    match p {
        Packet::REQ_ENTER_LOBBY { lobby } => {
            let r = true;
            proof {
                if r {
                    assert forall|j: int| 0 <= j < 1 implies field_has_kind(#[trigger] packet_fields(*p)[j], schema_of(14).unwrap()[j]) by {
                        if j == 0 {}
                    }
                }
            }
            r
        },
        _ => false,
    }
}

fn fits_ack_enter_lobby(p: &Packet) -> (r: bool)
    requires
        p is ACK_ENTER_LOBBY,
    ensures
        r == packet_wf(*p),
{
    match p {
        Packet::ACK_ENTER_LOBBY { lobby } => {
            let r = true;
            proof {
                if r {
                    assert forall|j: int| 0 <= j < 1 implies field_has_kind(#[trigger] packet_fields(*p)[j], schema_of(15).unwrap()[j]) by {
                        if j == 0 {}
                    }
                }
            }
            r
        },
        _ => false,
    }
}

fn fits_ack_make_room(p: &Packet) -> (r: bool)
    requires
        p is ACK_MAKE_ROOM,
    ensures
        r == packet_wf(*p),
{
    match p {
        Packet::ACK_MAKE_ROOM { room } => {
            let r = true;
            proof {
                if r {
                    assert forall|j: int| 0 <= j < 1 implies field_has_kind(#[trigger] packet_fields(*p)[j], schema_of(17).unwrap()[j]) by {
                        if j == 0 {}
                    }
                }
            }
            r
        },
        _ => false,
    }
}

fn fits_req_enter_room(p: &Packet) -> (r: bool)
    requires
        p is REQ_ENTER_ROOM,
    ensures
        r == packet_wf(*p),
{
    match p {
        Packet::REQ_ENTER_ROOM { room, room_flag, room_password } => {
            let r = room_password.len() == 17;
            proof {
                if r {
                    assert forall|j: int| 0 <= j < 3 implies field_has_kind(#[trigger] packet_fields(*p)[j], schema_of(20).unwrap()[j]) by {
                        if j == 0 {} else if j == 1 {} else if j == 2 {}
                    }
                } else {
                    if room_password.len() != 17 { assert(!field_has_kind(packet_fields(*p)[2], schema_of(20).unwrap()[2])); }
                }
            }
            r
        },
        _ => false,
    }
}

fn fits_req_ulist(p: &Packet) -> (r: bool)
    requires
        p is REQ_ULIST,
    ensures
        r == packet_wf(*p),
{
    match p {
        Packet::REQ_ULIST { mode, lobby, room } => {
            let r = true;
            proof {
                if r {
                    assert forall|j: int| 0 <= j < 3 implies field_has_kind(#[trigger] packet_fields(*p)[j], schema_of(22).unwrap()[j]) by {
                        if j == 0 {} else if j == 1 {} else if j == 2 {}
                    }
                }
            }
            r
        },
        _ => false,
    }
}

fn fits_ack_exit_room(p: &Packet) -> (r: bool)
    requires
        p is ACK_EXIT_ROOM,
    ensures
        r == packet_wf(*p),
{
    match p {
        Packet::ACK_EXIT_ROOM { status } => {
            let r = true;
            proof {
                if r {
                    assert forall|j: int| 0 <= j < 1 implies field_has_kind(#[trigger] packet_fields(*p)[j], schema_of(25).unwrap()[j]) by {
                        if j == 0 {}
                    }
                }
            }
            r
        },
        _ => false,
    }
}

fn fits_send_ustat(p: &Packet) -> (r: bool)
    requires
        p is SEND_USTAT,
    ensures
        r == packet_wf(*p),
{
    match p {
        Packet::SEND_USTAT { cid, uid, stat } => {
            let r = true;
            proof {
                if r {
                    assert forall|j: int| 0 <= j < 3 implies field_has_kind(#[trigger] packet_fields(*p)[j], schema_of(26).unwrap()[j]) by {
                        if j == 0 {} else if j == 1 {} else if j == 2 {}
                    }
                }
            }
            r
        },
        _ => false,
    }
}

fn fits_send_message(p: &Packet) -> (r: bool)
    requires
        p is SEND_MESSAGE,
    ensures
        r == packet_wf(*p),
{
    match p {
        Packet::SEND_MESSAGE { cid, msg_type, server_id, name, len, message } => {
            let r = name.len() == 19 && *len < 0x8000 && message.len() as u64 == (*len as u64);
            proof {
                let fs = packet_fields(*p);
                let sc = schema_of(27).unwrap();
                assert(fs.drop_last().len() == sc.drop_last().len());
                assert forall|j: int| 0 <= j < 5 && r implies field_has_kind(#[trigger] fs.drop_last()[j], sc.drop_last()[j]) by {
                    assert(fs.drop_last()[j] == fs[j] && sc.drop_last()[j] == sc[j]);
                    if j == 0 {} else if j == 1 {} else if j == 2 {} else if j == 3 {} else if j == 4 {}
                }
                if name.len() != 19 { assert(fs.drop_last()[3] == fs[3] && sc.drop_last()[3] == sc[3]); assert(!field_has_kind(fs.drop_last()[3], sc.drop_last()[3])); }
                assert(fs.last() == fs[5]);
                assert(sc.last() == sc[5]);
                lemma_body_match_tail(sc, fs, Unit::Half, 1, 4, 0);
            }
            r
        },
        _ => false,
    }
}

fn fits_client_crclub(p: &Packet) -> (r: bool)
    requires
        p is CLIENT_CRCLUB,
    ensures
        r == packet_wf(*p),
{
    match p {
        Packet::CLIENT_CRCLUB { club } => {
            let r = true;
            proof {
                if r {
                    assert forall|j: int| 0 <= j < 1 implies field_has_kind(#[trigger] packet_fields(*p)[j], schema_of(33).unwrap()[j]) by {
                        if j == 0 {}
                    }
                }
            }
            r
        },
        _ => false,
    }
}

fn fits_send_crclub(p: &Packet) -> (r: bool)
    requires
        p is SEND_CRCLUB,
    ensures
        r == packet_wf(*p),
{
    match p {
        Packet::SEND_CRCLUB { cid, club } => {
            let r = true;
            proof {
                if r {
                    assert forall|j: int| 0 <= j < 2 implies field_has_kind(#[trigger] packet_fields(*p)[j], schema_of(34).unwrap()[j]) by {
                        if j == 0 {} else if j == 1 {}
                    }
                }
            }
            r
        },
        _ => false,
    }
}

fn fits_client_direction(p: &Packet) -> (r: bool)
    requires
        p is CLIENT_DIRECTION,
    ensures
        r == packet_wf(*p),
{
    match p {
        Packet::CLIENT_DIRECTION { dir } => {
            let r = true;
            proof {
                if r {
                    assert forall|j: int| 0 <= j < 1 implies field_has_kind(#[trigger] packet_fields(*p)[j], schema_of(35).unwrap()[j]) by {
                        if j == 0 {}
                    }
                }
            }
            r
        },
        _ => false,
    }
}

fn fits_send_direction(p: &Packet) -> (r: bool)
    requires
        p is SEND_DIRECTION,
    ensures
        r == packet_wf(*p),
{
    match p {
        Packet::SEND_DIRECTION { cid, dir } => {
            let r = true;
            proof {
                if r {
                    assert forall|j: int| 0 <= j < 2 implies field_has_kind(#[trigger] packet_fields(*p)[j], schema_of(36).unwrap()[j]) by {
                        if j == 0 {} else if j == 1 {}
                    }
                }
            }
            r
        },
        _ => false,
    }
}

fn fits_req_crecord(p: &Packet) -> (r: bool)
    requires
        p is REQ_CRECORD,
    ensures
        r == packet_wf(*p),
{
    match p {
        Packet::REQ_CRECORD { uid, course, season, hole_idx } => {
            let r = true;
            proof {
                if r {
                    assert forall|j: int| 0 <= j < 4 implies field_has_kind(#[trigger] packet_fields(*p)[j], schema_of(42).unwrap()[j]) by {
                        if j == 0 {} else if j == 1 {} else if j == 2 {} else if j == 3 {}
                    }
                }
            }
            r
        },
        _ => false,
    }
}

fn fits_client_loadstat(p: &Packet) -> (r: bool)
    requires
        p is CLIENT_LOADSTAT,
    ensures
        r == packet_wf(*p),
{
    match p {
        Packet::CLIENT_LOADSTAT { progress } => {
            let r = true;
            proof {
                if r {
                    assert forall|j: int| 0 <= j < 1 implies field_has_kind(#[trigger] packet_fields(*p)[j], schema_of(44).unwrap()[j]) by {
                        if j == 0 {}
                    }
                }
            }
            r
        },
        _ => false,
    }
}

fn fits_send_loadstat(p: &Packet) -> (r: bool)
    requires
        p is SEND_LOADSTAT,
    ensures
        r == packet_wf(*p),
{
    match p {
        Packet::SEND_LOADSTAT { cid, progress } => {
            let r = true;
            proof {
                if r {
                    assert forall|j: int| 0 <= j < 2 implies field_has_kind(#[trigger] packet_fields(*p)[j], schema_of(45).unwrap()[j]) by {
                        if j == 0 {} else if j == 1 {}
                    }
                }
            }
            r
        },
        _ => false,
    }
}

fn fits_pkt_72(p: &Packet) -> (r: bool)
    requires
        p is PKT_72,
    ensures
        r == packet_wf(*p),
{
    match p {
        Packet::PKT_72 { count, users } => {
            let r = *count < 0x8000_0000 && users.len() as u64 == (*count as u64);
            proof {
                let fs = packet_fields(*p);
                let sc = schema_of(72).unwrap();
                assert(fs.drop_last().len() == sc.drop_last().len());
                assert forall|j: int| 0 <= j < 1 && r implies field_has_kind(#[trigger] fs.drop_last()[j], sc.drop_last()[j]) by {
                    assert(fs.drop_last()[j] == fs[j] && sc.drop_last()[j] == sc[j]);
                    if j == 0 {}
                }
                assert(fs.last() == fs[1]);
                assert(sc.last() == sc[1]);
                lemma_body_match_tail(sc, fs, Unit::Word, 1, 0, 0);
            }
            r
        },
        _ => false,
    }
}

fn fits_pkt_74(p: &Packet) -> (r: bool)
    requires
        p is PKT_74,
    ensures
        r == packet_wf(*p),
{
    match p {
        Packet::PKT_74 { count, users } => {
            let r = *count < 0x8000_0000 && users.len() as u64 == (*count as u64);
            proof {
                let fs = packet_fields(*p);
                let sc = schema_of(74).unwrap();
                assert(fs.drop_last().len() == sc.drop_last().len());
                assert forall|j: int| 0 <= j < 1 && r implies field_has_kind(#[trigger] fs.drop_last()[j], sc.drop_last()[j]) by {
                    assert(fs.drop_last()[j] == fs[j] && sc.drop_last()[j] == sc[j]);
                    if j == 0 {}
                }
                assert(fs.last() == fs[1]);
                assert(sc.last() == sc[1]);
                lemma_body_match_tail(sc, fs, Unit::Word, 1, 0, 0);
            }
            r
        },
        _ => false,
    }
}

fn fits_pkt_76(p: &Packet) -> (r: bool)
    requires
        p is PKT_76,
    ensures
        r == packet_wf(*p),
{
    match p {
        Packet::PKT_76 { count, users } => {
            let r = *count < 0x8000_0000 && users.len() as u64 == (*count as u64);
            proof {
                let fs = packet_fields(*p);
                let sc = schema_of(76).unwrap();
                assert(fs.drop_last().len() == sc.drop_last().len());
                assert forall|j: int| 0 <= j < 1 && r implies field_has_kind(#[trigger] fs.drop_last()[j], sc.drop_last()[j]) by {
                    assert(fs.drop_last()[j] == fs[j] && sc.drop_last()[j] == sc[j]);
                    if j == 0 {}
                }
                assert(fs.last() == fs[1]);
                assert(sc.last() == sc[1]);
                lemma_body_match_tail(sc, fs, Unit::Word, 1, 0, 0);
            }
            r
        },
        _ => false,
    }
}

fn fits_req_appear(p: &Packet) -> (r: bool)
    requires
        p is REQ_APPEAR,
    ensures
        r == packet_wf(*p),
{
    match p {
        Packet::REQ_APPEAR { cid } => {
            let r = true;
            proof {
                if r {
                    assert forall|j: int| 0 <= j < 1 implies field_has_kind(#[trigger] packet_fields(*p)[j], schema_of(83).unwrap()[j]) by {
                        if j == 0 {}
                    }
                }
            }
            r
        },
        _ => false,
    }
}

fn fits_req_ulist_l(p: &Packet) -> (r: bool)
    requires
        p is REQ_ULIST_L,
    ensures
        r == packet_wf(*p),
{
    match p {
        Packet::REQ_ULIST_L { mode, lobby } => {
            let r = true;
            proof {
                if r {
                    assert forall|j: int| 0 <= j < 2 implies field_has_kind(#[trigger] packet_fields(*p)[j], schema_of(87).unwrap()[j]) by {
                        if j == 0 {} else if j == 1 {}
                    }
                }
            }
            r
        },
        _ => false,
    }
}

fn fits_send_sellitemlist(p: &Packet) -> (r: bool)
    requires
        p is SEND_SELLITEMLIST,
    ensures
        r == packet_wf(*p),
{
    match p {
        Packet::SEND_SELLITEMLIST { count, items } => {
            let r = *count < 0x8000 && items.len() as u64 == (*count as u64) * 3;
            proof {
                let fs = packet_fields(*p);
                let sc = schema_of(90).unwrap();
                assert(fs.drop_last().len() == sc.drop_last().len());
                assert forall|j: int| 0 <= j < 1 && r implies field_has_kind(#[trigger] fs.drop_last()[j], sc.drop_last()[j]) by {
                    assert(fs.drop_last()[j] == fs[j] && sc.drop_last()[j] == sc[j]);
                    if j == 0 {}
                }
                assert(fs.last() == fs[1]);
                assert(sc.last() == sc[1]);
                lemma_body_match_tail(sc, fs, Unit::Word, 3, 0, 0);
            }
            r
        },
        _ => false,
    }
}

fn fits_req_buy_item(p: &Packet) -> (r: bool)
    requires
        p is REQ_BUY_ITEM,
    ensures
        r == packet_wf(*p),
{
    match p {
        Packet::REQ_BUY_ITEM { item } => {
            let r = true;
            proof {
                if r {
                    assert forall|j: int| 0 <= j < 1 implies field_has_kind(#[trigger] packet_fields(*p)[j], schema_of(91).unwrap()[j]) by {
                        if j == 0 {}
                    }
                }
            }
            r
        },
        _ => false,
    }
}

fn fits_ack_buy_item(p: &Packet) -> (r: bool)
    requires
        p is ACK_BUY_ITEM,
    ensures
        r == packet_wf(*p),
{
    match p {
        Packet::ACK_BUY_ITEM { result } => {
            let r = true;
            proof {
                if r {
                    assert forall|j: int| 0 <= j < 1 implies field_has_kind(#[trigger] packet_fields(*p)[j], schema_of(92).unwrap()[j]) by {
                        if j == 0 {}
                    }
                }
            }
            r
        },
        _ => false,
    }
}

fn fits_rep_money(p: &Packet) -> (r: bool)
    requires
        p is REP_MONEY,
    ensures
        r == packet_wf(*p),
{
    match p {
        Packet::REP_MONEY { gp, sc } => {
            let r = true;
            proof {
                if r {
                    assert forall|j: int| 0 <= j < 2 implies field_has_kind(#[trigger] packet_fields(*p)[j], schema_of(94).unwrap()[j]) by {
                        if j == 0 {} else if j == 1 {}
                    }
                }
            }
            r
        },
        _ => false,
    }
}

fn fits_ack_first_character_appearance(p: &Packet) -> (r: bool)
    requires
        p is ACK_FIRST_CHARACTER_APPEARANCE,
    ensures
        r == packet_wf(*p),
{
    match p {
        Packet::ACK_FIRST_CHARACTER_APPEARANCE { status } => {
            let r = true;
            proof {
                if r {
                    assert forall|j: int| 0 <= j < 1 implies field_has_kind(#[trigger] packet_fields(*p)[j], schema_of(96).unwrap()[j]) by {
                        if j == 0 {}
                    }
                }
            }
            r
        },
        _ => false,
    }
}

fn fits_send_chruid(p: &Packet) -> (r: bool)
    requires
        p is SEND_CHRUID,
    ensures
        r == packet_wf(*p),
{
    match p {
        Packet::SEND_CHRUID { count, cid, chr_uids } => {
            let r = *count < 0x8000_0000 && (*count as u64) >= 1 && chr_uids.len() as u64 == ((*count as u64) - 1);
            proof {
                let fs = packet_fields(*p);
                let sc = schema_of(99).unwrap();
                assert(fs.drop_last().len() == sc.drop_last().len());
                assert forall|j: int| 0 <= j < 2 && r implies field_has_kind(#[trigger] fs.drop_last()[j], sc.drop_last()[j]) by {
                    assert(fs.drop_last()[j] == fs[j] && sc.drop_last()[j] == sc[j]);
                    if j == 0 {} else if j == 1 {}
                }
                assert(fs.last() == fs[2]);
                assert(sc.last() == sc[2]);
                lemma_body_match_tail(sc, fs, Unit::Word, 1, 0, 1);
            }
            r
        },
        _ => false,
    }
}

fn fits_req_chrdata(p: &Packet) -> (r: bool)
    requires
        p is REQ_CHRDATA,
    ensures
        r == packet_wf(*p),
{
    match p {
        Packet::REQ_CHRDATA { cid, chr_uid } => {
            let r = true;
            proof {
                if r {
                    assert forall|j: int| 0 <= j < 2 implies field_has_kind(#[trigger] packet_fields(*p)[j], schema_of(100).unwrap()[j]) by {
                        if j == 0 {} else if j == 1 {}
                    }
                }
            }
            r
        },
        _ => false,
    }
}

fn fits_get_chrdata(p: &Packet) -> (r: bool)
    requires
        p is GET_CHRDATA,
    ensures
        r == packet_wf(*p),
{
    match p {
        Packet::GET_CHRDATA { cid } => {
            let r = true;
            proof {
                if r {
                    assert forall|j: int| 0 <= j < 1 implies field_has_kind(#[trigger] packet_fields(*p)[j], schema_of(102).unwrap()[j]) by {
                        if j == 0 {}
                    }
                }
            }
            r
        },
        _ => false,
    }
}

fn fits_pkt_104(p: &Packet) -> (r: bool)
    requires
        p is PKT_104,
    ensures
        r == packet_wf(*p),
{
    match p {
        Packet::PKT_104 { status } => {
            let r = true;
            proof {
                if r {
                    assert forall|j: int| 0 <= j < 1 implies field_has_kind(#[trigger] packet_fields(*p)[j], schema_of(104).unwrap()[j]) by {
                        if j == 0 {}
                    }
                }
            }
            r
        },
        _ => false,
    }
}

fn fits_ack_set_character_name(p: &Packet) -> (r: bool)
    requires
        p is ACK_SET_CHARACTER_NAME,
    ensures
        r == packet_wf(*p),
{
    match p {
        Packet::ACK_SET_CHARACTER_NAME { status } => {
            let r = true;
            proof {
                if r {
                    assert forall|j: int| 0 <= j < 1 implies field_has_kind(#[trigger] packet_fields(*p)[j], schema_of(106).unwrap()[j]) by {
                        if j == 0 {}
                    }
                }
            }
            r
        },
        _ => false,
    }
}

fn fits_pkt_112(p: &Packet) -> (r: bool)
    requires
        p is PKT_112,
    ensures
        r == packet_wf(*p),
{
    match p {
        Packet::PKT_112 { unk1, unk2, cnt, values } => {
            let r = *cnt < 0x8000_0000 && values.len() as u64 == (*cnt as u64);
            proof {
                let fs = packet_fields(*p);
                let sc = schema_of(112).unwrap();
                assert(fs.drop_last().len() == sc.drop_last().len());
                assert forall|j: int| 0 <= j < 3 && r implies field_has_kind(#[trigger] fs.drop_last()[j], sc.drop_last()[j]) by {
                    assert(fs.drop_last()[j] == fs[j] && sc.drop_last()[j] == sc[j]);
                    if j == 0 {} else if j == 1 {} else if j == 2 {}
                }
                assert(fs.last() == fs[3]);
                assert(sc.last() == sc[3]);
                lemma_body_match_tail(sc, fs, Unit::Word, 1, 2, 0);
            }
            r
        },
        _ => false,
    }
}

fn fits_pkt_114(p: &Packet) -> (r: bool)
    requires
        p is PKT_114,
    ensures
        r == packet_wf(*p),
{
    match p {
        Packet::PKT_114 { mail_uid, from_uid, to_uid, year, month, day, hour, minute, second, len, utf8_text } => {
            let r = *len < 0x8000 && utf8_text.len() as u64 == (*len as u64);
            proof {
                let fs = packet_fields(*p);
                let sc = schema_of(114).unwrap();
                assert(fs.drop_last().len() == sc.drop_last().len());
                assert forall|j: int| 0 <= j < 10 && r implies field_has_kind(#[trigger] fs.drop_last()[j], sc.drop_last()[j]) by {
                    assert(fs.drop_last()[j] == fs[j] && sc.drop_last()[j] == sc[j]);
                    if j == 0 {} else if j == 1 {} else if j == 2 {} else if j == 3 {} else if j == 4 {} else if j == 5 {} else if j == 6 {} else if j == 7 {} else if j == 8 {} else if j == 9 {}
                }
                assert(fs.last() == fs[10]);
                assert(sc.last() == sc[10]);
                lemma_body_match_tail(sc, fs, Unit::Byte, 1, 9, 0);
            }
            r
        },
        _ => false,
    }
}

fn fits_pkt_115(p: &Packet) -> (r: bool)
    requires
        p is PKT_115,
    ensures
        r == packet_wf(*p),
{
    match p {
        Packet::PKT_115 { mail_uid, from_uid, to_uid, year, month, day, hour, minute, second, len, utf8_text } => {
            let r = *len < 0x8000 && utf8_text.len() as u64 == (*len as u64);
            proof {
                let fs = packet_fields(*p);
                let sc = schema_of(115).unwrap();
                assert(fs.drop_last().len() == sc.drop_last().len());
                assert forall|j: int| 0 <= j < 10 && r implies field_has_kind(#[trigger] fs.drop_last()[j], sc.drop_last()[j]) by {
                    assert(fs.drop_last()[j] == fs[j] && sc.drop_last()[j] == sc[j]);
                    if j == 0 {} else if j == 1 {} else if j == 2 {} else if j == 3 {} else if j == 4 {} else if j == 5 {} else if j == 6 {} else if j == 7 {} else if j == 8 {} else if j == 9 {}
                }
                assert(fs.last() == fs[10]);
                assert(sc.last() == sc[10]);
                lemma_body_match_tail(sc, fs, Unit::Byte, 1, 9, 0);
            }
            r
        },
        _ => false,
    }
}

fn fits_pkt_118(p: &Packet) -> (r: bool)
    requires
        p is PKT_118,
    ensures
        r == packet_wf(*p),
{
    match p {
        Packet::PKT_118 { unk1, unk2, count, users } => {
            let r = *count < 0x8000_0000 && users.len() as u64 == (*count as u64);
            proof {
                let fs = packet_fields(*p);
                let sc = schema_of(118).unwrap();
                assert(fs.drop_last().len() == sc.drop_last().len());
                assert forall|j: int| 0 <= j < 3 && r implies field_has_kind(#[trigger] fs.drop_last()[j], sc.drop_last()[j]) by {
                    assert(fs.drop_last()[j] == fs[j] && sc.drop_last()[j] == sc[j]);
                    if j == 0 {} else if j == 1 {} else if j == 2 {}
                }
                assert(fs.last() == fs[3]);
                assert(sc.last() == sc[3]);
                lemma_body_match_tail(sc, fs, Unit::Word, 1, 2, 0);
            }
            r
        },
        _ => false,
    }
}

fn fits_pkt_131(p: &Packet) -> (r: bool)
    requires
        p is PKT_131,
    ensures
        r == packet_wf(*p),
{
    match p {
        Packet::PKT_131 { arg } => {
            let r = true;
            proof {
                if r {
                    assert forall|j: int| 0 <= j < 1 implies field_has_kind(#[trigger] packet_fields(*p)[j], schema_of(131).unwrap()[j]) by {
                        if j == 0 {}
                    }
                }
            }
            r
        },
        _ => false,
    }
}

fn fits_pkt_132(p: &Packet) -> (r: bool)
    requires
        p is PKT_132,
    ensures
        r == packet_wf(*p),
{
    match p {
        Packet::PKT_132 { count, items } => {
            let r = *count < 0x8000_0000 && items.len() as u64 == (*count as u64);
            proof {
                let fs = packet_fields(*p);
                let sc = schema_of(132).unwrap();
                assert(fs.drop_last().len() == sc.drop_last().len());
                assert forall|j: int| 0 <= j < 1 && r implies field_has_kind(#[trigger] fs.drop_last()[j], sc.drop_last()[j]) by {
                    assert(fs.drop_last()[j] == fs[j] && sc.drop_last()[j] == sc[j]);
                    if j == 0 {}
                }
                assert(fs.last() == fs[1]);
                assert(sc.last() == sc[1]);
                lemma_body_match_tail(sc, fs, Unit::Word, 1, 0, 0);
            }
            r
        },
        _ => false,
    }
}

fn fits_pkt_133(p: &Packet) -> (r: bool)
    requires
        p is PKT_133,
    ensures
        r == packet_wf(*p),
{
    match p {
        Packet::PKT_133 { arg } => {
            let r = true;
            proof {
                if r {
                    assert forall|j: int| 0 <= j < 1 implies field_has_kind(#[trigger] packet_fields(*p)[j], schema_of(133).unwrap()[j]) by {
                        if j == 0 {}
                    }
                }
            }
            r
        },
        _ => false,
    }
}

fn fits_pkt_134(p: &Packet) -> (r: bool)
    requires
        p is PKT_134,
    ensures
        r == packet_wf(*p),
{
    match p {
        Packet::PKT_134 { x4, cid, items, unk } => {
            let r = items.len() == 8 && unk.len() == 4060;
            proof {
                if r {
                    assert forall|j: int| 0 <= j < 4 implies field_has_kind(#[trigger] packet_fields(*p)[j], schema_of(134).unwrap()[j]) by {
                        if j == 0 {} else if j == 1 {} else if j == 2 {} else if j == 3 {}
                    }
                } else {
                    if items.len() != 8 { assert(!field_has_kind(packet_fields(*p)[2], schema_of(134).unwrap()[2])); } else if unk.len() != 4060 { assert(!field_has_kind(packet_fields(*p)[3], schema_of(134).unwrap()[3])); }
                }
            }
            r
        },
        _ => false,
    }
}

fn fits_pkt_137(p: &Packet) -> (r: bool)
    requires
        p is PKT_137,
    ensures
        r == packet_wf(*p),
{
    match p {
        Packet::PKT_137 { cid } => {
            let r = true;
            proof {
                if r {
                    assert forall|j: int| 0 <= j < 1 implies field_has_kind(#[trigger] packet_fields(*p)[j], schema_of(137).unwrap()[j]) by {
                        if j == 0 {}
                    }
                }
            }
            r
        },
        _ => false,
    }
}

fn fits_send_crchruid(p: &Packet) -> (r: bool)
    requires
        p is SEND_CRCHRUID,
    ensures
        r == packet_wf(*p),
{
    match p {
        Packet::SEND_CRCHRUID { cid, now_chr_uid } => {
            let r = true;
            proof {
                if r {
                    assert forall|j: int| 0 <= j < 2 implies field_has_kind(#[trigger] packet_fields(*p)[j], schema_of(139).unwrap()[j]) by {
                        if j == 0 {} else if j == 1 {}
                    }
                }
            }
            r
        },
        _ => false,
    }
}

fn fits_req_chg_chr_param(p: &Packet) -> (r: bool)
    requires
        p is REQ_CHG_CHR_PARAM,
    ensures
        r == packet_wf(*p),
{
    match p {
        Packet::REQ_CHG_CHR_PARAM { chr_uid, cr_class, power, impact, params, club, ball, caddie } => {
            let r = params.len() == 32;
            proof {
                if r {
                    assert forall|j: int| 0 <= j < 8 implies field_has_kind(#[trigger] packet_fields(*p)[j], schema_of(145).unwrap()[j]) by {
                        if j == 0 {} else if j == 1 {} else if j == 2 {} else if j == 3 {} else if j == 4 {} else if j == 5 {} else if j == 6 {} else if j == 7 {}
                    }
                } else {
                    if params.len() != 32 { assert(!field_has_kind(packet_fields(*p)[4], schema_of(145).unwrap()[4])); }
                }
            }
            r
        },
        _ => false,
    }
}

fn fits_ack_chg_chr_param(p: &Packet) -> (r: bool)
    requires
        p is ACK_CHG_CHR_PARAM,
    ensures
        r == packet_wf(*p),
{
    match p {
        Packet::ACK_CHG_CHR_PARAM { status } => {
            let r = true;
            proof {
                if r {
                    assert forall|j: int| 0 <= j < 1 implies field_has_kind(#[trigger] packet_fields(*p)[j], schema_of(146).unwrap()[j]) by {
                        if j == 0 {}
                    }
                }
            }
            r
        },
        _ => false,
    }
}

fn fits_send_sell_caddie_list(p: &Packet) -> (r: bool)
    requires
        p is SEND_SELL_CADDIE_LIST,
    ensures
        r == packet_wf(*p),
{
    match p {
        Packet::SEND_SELL_CADDIE_LIST { count, items } => {
            let r = *count < 0x8000 && items.len() as u64 == (*count as u64) * 5;
            proof {
                let fs = packet_fields(*p);
                let sc = schema_of(148).unwrap();
                assert(fs.drop_last().len() == sc.drop_last().len());
                assert forall|j: int| 0 <= j < 1 && r implies field_has_kind(#[trigger] fs.drop_last()[j], sc.drop_last()[j]) by {
                    assert(fs.drop_last()[j] == fs[j] && sc.drop_last()[j] == sc[j]);
                    if j == 0 {}
                }
                assert(fs.last() == fs[1]);
                assert(sc.last() == sc[1]);
                lemma_body_match_tail(sc, fs, Unit::Word, 5, 0, 0);
            }
            r
        },
        _ => false,
    }
}

fn fits_send_salon_item_list(p: &Packet) -> (r: bool)
    requires
        p is SEND_SALON_ITEM_LIST,
    ensures
        r == packet_wf(*p),
{
    match p {
        Packet::SEND_SALON_ITEM_LIST { count, items } => {
            let r = *count < 0x8000 && items.len() as u64 == (*count as u64) * 3;
            proof {
                let fs = packet_fields(*p);
                let sc = schema_of(167).unwrap();
                assert(fs.drop_last().len() == sc.drop_last().len());
                assert forall|j: int| 0 <= j < 1 && r implies field_has_kind(#[trigger] fs.drop_last()[j], sc.drop_last()[j]) by {
                    assert(fs.drop_last()[j] == fs[j] && sc.drop_last()[j] == sc[j]);
                    if j == 0 {}
                }
                assert(fs.last() == fs[1]);
                assert(sc.last() == sc[1]);
                lemma_body_match_tail(sc, fs, Unit::Word, 3, 0, 0);
            }
            r
        },
        _ => false,
    }
}

fn fits_req_udata(p: &Packet) -> (r: bool)
    requires
        p is REQ_UDATA,
    ensures
        r == packet_wf(*p),
{
    match p {
        Packet::REQ_UDATA { uid } => {
            let r = true;
            proof {
                if r {
                    assert forall|j: int| 0 <= j < 1 implies field_has_kind(#[trigger] packet_fields(*p)[j], schema_of(180).unwrap()[j]) by {
                        if j == 0 {}
                    }
                }
            }
            r
        },
        _ => false,
    }
}

fn fits_pkt_183(p: &Packet) -> (r: bool)
    requires
        p is PKT_183,
    ensures
        r == packet_wf(*p),
{
    match p {
        Packet::PKT_183 { count, entries } => {
            let r = *count < 0x80 && entries.len() as u64 == (*count as u64) * 13;
            proof {
                let fs = packet_fields(*p);
                let sc = schema_of(183).unwrap();
                assert(fs.drop_last().len() == sc.drop_last().len());
                assert forall|j: int| 0 <= j < 1 && r implies field_has_kind(#[trigger] fs.drop_last()[j], sc.drop_last()[j]) by {
                    assert(fs.drop_last()[j] == fs[j] && sc.drop_last()[j] == sc[j]);
                    if j == 0 {}
                }
                assert(fs.last() == fs[1]);
                assert(sc.last() == sc[1]);
                lemma_body_match_tail(sc, fs, Unit::Byte, 13, 0, 0);
            }
            r
        },
        _ => false,
    }
}

fn fits_client_loadstat2(p: &Packet) -> (r: bool)
    requires
        p is CLIENT_LOADSTAT2,
    ensures
        r == packet_wf(*p),
{
    match p {
        Packet::CLIENT_LOADSTAT2 { progress } => {
            let r = true;
            proof {
                if r {
                    assert forall|j: int| 0 <= j < 1 implies field_has_kind(#[trigger] packet_fields(*p)[j], schema_of(185).unwrap()[j]) by {
                        if j == 0 {}
                    }
                }
            }
            r
        },
        _ => false,
    }
}

fn fits_send_loadstat2(p: &Packet) -> (r: bool)
    requires
        p is SEND_LOADSTAT2,
    ensures
        r == packet_wf(*p),
{
    match p {
        Packet::SEND_LOADSTAT2 { cid, progress } => {
            let r = true;
            proof {
                if r {
                    assert forall|j: int| 0 <= j < 2 implies field_has_kind(#[trigger] packet_fields(*p)[j], schema_of(186).unwrap()[j]) by {
                        if j == 0 {} else if j == 1 {}
                    }
                }
            }
            r
        },
        _ => false,
    }
}

fn fits_ack_gamestart(p: &Packet) -> (r: bool)
    requires
        p is ACK_GAMESTART,
    ensures
        r == packet_wf(*p),
{
    match p {
        Packet::ACK_GAMESTART { status } => {
            let r = true;
            proof {
                if r {
                    assert forall|j: int| 0 <= j < 1 implies field_has_kind(#[trigger] packet_fields(*p)[j], schema_of(187).unwrap()[j]) by {
                        if j == 0 {}
                    }
                }
            }
            r
        },
        _ => false,
    }
}

fn fits_pkt_189(p: &Packet) -> (r: bool)
    requires
        p is PKT_189,
    ensures
        r == packet_wf(*p),
{
    match p {
        Packet::PKT_189 { hold_item } => {
            let r = hold_item.len() == 8;
            proof {
                if r {
                    assert forall|j: int| 0 <= j < 1 implies field_has_kind(#[trigger] packet_fields(*p)[j], schema_of(189).unwrap()[j]) by {
                        if j == 0 {}
                    }
                } else {
                    if hold_item.len() != 8 { assert(!field_has_kind(packet_fields(*p)[0], schema_of(189).unwrap()[0])); }
                }
            }
            r
        },
        _ => false,
    }
}

fn fits_ack_chg_holdbox(p: &Packet) -> (r: bool)
    requires
        p is ACK_CHG_HOLDBOX,
    ensures
        r == packet_wf(*p),
{
    match p {
        Packet::ACK_CHG_HOLDBOX { status } => {
            let r = true;
            proof {
                if r {
                    assert forall|j: int| 0 <= j < 1 implies field_has_kind(#[trigger] packet_fields(*p)[j], schema_of(190).unwrap()[j]) by {
                        if j == 0 {}
                    }
                }
            }
            r
        },
        _ => false,
    }
}

fn fits_pkt_231(p: &Packet) -> (r: bool)
    requires
        p is PKT_231,
    ensures
        r == packet_wf(*p),
{
    match p {
        Packet::PKT_231 { count, list } => {
            let r = *count < 0x8000_0000 && list.len() as u64 == (*count as u64);
            proof {
                let fs = packet_fields(*p);
                let sc = schema_of(231).unwrap();
                assert(fs.drop_last().len() == sc.drop_last().len());
                assert forall|j: int| 0 <= j < 1 && r implies field_has_kind(#[trigger] fs.drop_last()[j], sc.drop_last()[j]) by {
                    assert(fs.drop_last()[j] == fs[j] && sc.drop_last()[j] == sc[j]);
                    if j == 0 {}
                }
                assert(fs.last() == fs[1]);
                assert(sc.last() == sc[1]);
                lemma_body_match_tail(sc, fs, Unit::Word, 1, 0, 0);
            }
            r
        },
        _ => false,
    }
}

fn fits_send_mp_table(p: &Packet) -> (r: bool)
    requires
        p is SEND_MP_TABLE,
    ensures
        r == packet_wf(*p),
{
    match p {
        Packet::SEND_MP_TABLE { count, table } => {
            let r = *count < 0x8000_0000 && table.len() as u64 == (*count as u64);
            proof {
                let fs = packet_fields(*p);
                let sc = schema_of(237).unwrap();
                assert(fs.drop_last().len() == sc.drop_last().len());
                assert forall|j: int| 0 <= j < 1 && r implies field_has_kind(#[trigger] fs.drop_last()[j], sc.drop_last()[j]) by {
                    assert(fs.drop_last()[j] == fs[j] && sc.drop_last()[j] == sc[j]);
                    if j == 0 {}
                }
                assert(fs.last() == fs[1]);
                assert(sc.last() == sc[1]);
                lemma_body_match_tail(sc, fs, Unit::Word, 1, 0, 0);
            }
            r
        },
        _ => false,
    }
}

fn fits_send_comp_item(p: &Packet) -> (r: bool)
    requires
        p is SEND_COMP_ITEM,
    ensures
        r == packet_wf(*p),
{
    match p {
        Packet::SEND_COMP_ITEM { count, items } => {
            let r = *count < 0x8000_0000 && items.len() as u64 == (*count as u64);
            proof {
                let fs = packet_fields(*p);
                let sc = schema_of(256).unwrap();
                assert(fs.drop_last().len() == sc.drop_last().len());
                assert forall|j: int| 0 <= j < 1 && r implies field_has_kind(#[trigger] fs.drop_last()[j], sc.drop_last()[j]) by {
                    assert(fs.drop_last()[j] == fs[j] && sc.drop_last()[j] == sc[j]);
                    if j == 0 {}
                }
                assert(fs.last() == fs[1]);
                assert(sc.last() == sc[1]);
                lemma_body_match_tail(sc, fs, Unit::Word, 1, 0, 0);
            }
            r
        },
        _ => false,
    }
}

fn fits_pkt_264(p: &Packet) -> (r: bool)
    requires
        p is PKT_264,
    ensures
        r == packet_wf(*p),
{
    match p {
        Packet::PKT_264 { count, items } => {
            let r = *count < 0x8000 && items.len() as u64 == (*count as u64) * 28;
            proof {
                let fs = packet_fields(*p);
                let sc = schema_of(264).unwrap();
                assert(fs.drop_last().len() == sc.drop_last().len());
                assert forall|j: int| 0 <= j < 1 && r implies field_has_kind(#[trigger] fs.drop_last()[j], sc.drop_last()[j]) by {
                    assert(fs.drop_last()[j] == fs[j] && sc.drop_last()[j] == sc[j]);
                    if j == 0 {}
                }
                assert(fs.last() == fs[1]);
                assert(sc.last() == sc[1]);
                lemma_body_match_tail(sc, fs, Unit::Byte, 28, 0, 0);
            }
            r
        },
        _ => false,
    }
}

fn fits_send_modectrl(p: &Packet) -> (r: bool)
    requires
        p is SEND_MODECTRL,
    ensures
        r == packet_wf(*p),
{
    match p {
        Packet::SEND_MODECTRL { flags } => {
            let r = flags.len() == 12;
            proof {
                if r {
                    assert forall|j: int| 0 <= j < 1 implies field_has_kind(#[trigger] packet_fields(*p)[j], schema_of(269).unwrap()[j]) by {
                        if j == 0 {}
                    }
                } else {
                    if flags.len() != 12 { assert(!field_has_kind(packet_fields(*p)[0], schema_of(269).unwrap()[0])); }
                }
            }
            r
        },
        _ => false,
    }
}

fn fits_pkt_275(p: &Packet) -> (r: bool)
    requires
        p is PKT_275,
    ensures
        r == packet_wf(*p),
{
    match p {
        Packet::PKT_275 { count, items } => {
            let r = items.len() == 8;
            proof {
                if r {
                    assert forall|j: int| 0 <= j < 2 implies field_has_kind(#[trigger] packet_fields(*p)[j], schema_of(275).unwrap()[j]) by {
                        if j == 0 {} else if j == 1 {}
                    }
                } else {
                    if items.len() != 8 { assert(!field_has_kind(packet_fields(*p)[1], schema_of(275).unwrap()[1])); }
                }
            }
            r
        },
        _ => false,
    }
}

fn fits_pkt_304(p: &Packet) -> (r: bool)
    requires
        p is PKT_304,
    ensures
        r == packet_wf(*p),
{
    match p {
        Packet::PKT_304 { unk, len, text } => {
            let r = unk.len() == 26 && *len < 0x8000 && text.len() as u64 == (*len as u64);
            proof {
                let fs = packet_fields(*p);
                let sc = schema_of(304).unwrap();
                assert(fs.drop_last().len() == sc.drop_last().len());
                assert forall|j: int| 0 <= j < 2 && r implies field_has_kind(#[trigger] fs.drop_last()[j], sc.drop_last()[j]) by {
                    assert(fs.drop_last()[j] == fs[j] && sc.drop_last()[j] == sc[j]);
                    if j == 0 {} else if j == 1 {}
                }
                if unk.len() != 26 { assert(fs.drop_last()[0] == fs[0] && sc.drop_last()[0] == sc[0]); assert(!field_has_kind(fs.drop_last()[0], sc.drop_last()[0])); }
                assert(fs.last() == fs[2]);
                assert(sc.last() == sc[2]);
                lemma_body_match_tail(sc, fs, Unit::Half, 1, 1, 0);
            }
            r
        },
        _ => false,
    }
}

fn fits_ack_ulist_r(p: &Packet) -> (r: bool)
    requires
        p is ACK_ULIST_R,
    ensures
        r == packet_wf(*p),
{
    match p {
        Packet::ACK_ULIST_R { status } => {
            let r = true;
            proof {
                if r {
                    assert forall|j: int| 0 <= j < 1 implies field_has_kind(#[trigger] packet_fields(*p)[j], schema_of(307).unwrap()[j]) by {
                        if j == 0 {}
                    }
                }
            }
            r
        },
        _ => false,
    }
}

fn fits_send_clubdata(p: &Packet) -> (r: bool)
    requires
        p is SEND_CLUBDATA,
    ensures
        r == packet_wf(*p),
{
    match p {
        Packet::SEND_CLUBDATA { count, clubdata } => {
            let r = *count < 0x8000_0000 && clubdata.len() as u64 == (*count as u64) * 28;
            proof {
                let fs = packet_fields(*p);
                let sc = schema_of(312).unwrap();
                assert(fs.drop_last().len() == sc.drop_last().len());
                assert forall|j: int| 0 <= j < 1 && r implies field_has_kind(#[trigger] fs.drop_last()[j], sc.drop_last()[j]) by {
                    assert(fs.drop_last()[j] == fs[j] && sc.drop_last()[j] == sc[j]);
                    if j == 0 {}
                }
                assert(fs.last() == fs[1]);
                assert(sc.last() == sc[1]);
                lemma_body_match_tail(sc, fs, Unit::Byte, 28, 0, 0);
            }
            r
        },
        _ => false,
    }
}

fn fits_pkt_316(p: &Packet) -> (r: bool)
    requires
        p is PKT_316,
    ensures
        r == packet_wf(*p),
{
    match p {
        Packet::PKT_316 { len, message } => {
            let r = *len < 0x8000 && message.len() as u64 == (*len as u64);
            proof {
                let fs = packet_fields(*p);
                let sc = schema_of(316).unwrap();
                assert(fs.drop_last().len() == sc.drop_last().len());
                assert forall|j: int| 0 <= j < 1 && r implies field_has_kind(#[trigger] fs.drop_last()[j], sc.drop_last()[j]) by {
                    assert(fs.drop_last()[j] == fs[j] && sc.drop_last()[j] == sc[j]);
                    if j == 0 {}
                }
                assert(fs.last() == fs[1]);
                assert(sc.last() == sc[1]);
                lemma_body_match_tail(sc, fs, Unit::Half, 1, 0, 0);
            }
            r
        },
        _ => false,
    }
}

fn decode_1(fs: &[Field]) -> (r: Result<Packet, CodecError>)
    requires
        schema_of(1) is Some,
        body_match(schema_of(1).unwrap(), fields_view(fs@)),
    ensures
        r is Ok <==> fields_decodable(1, fields_view(fs@)),
        r is Ok ==> packet_id(r.unwrap()) == 1 && decoded_from(r.unwrap(), fields_view(fs@)),
        r is Ok ==> !(r.unwrap() is Unknown),
        r is Err ==> r == Err::<Packet, CodecError>(CodecError::Malformed),
{
    let p = IDPass::from_fields(fs);
    if valid_text(&p.username) && valid_text(&p.password) {
        Ok(Packet::SEND_IDPASS(p))
    } else {
        Err(CodecError::Malformed)
    }
}

fn decode_2(fs: &[Field]) -> (r: Result<Packet, CodecError>)
    requires
        schema_of(2) is Some,
        body_match(schema_of(2).unwrap(), fields_view(fs@)),
    ensures
        r is Ok <==> fields_decodable(2, fields_view(fs@)),
        r is Ok ==> packet_id(r.unwrap()) == 2 && decoded_from(r.unwrap(), fields_view(fs@)),
        r is Ok ==> !(r.unwrap() is Unknown),
        r is Err ==> r == Err::<Packet, CodecError>(CodecError::Malformed),
{
    proof {
        assert(field_has_kind(fields_view(fs@)[0], schema_of(2).unwrap()[0]));
    }
    let p = Packet::ACK_IDPASS { result: get_i8(fs, 0) };
    assert(packet_fields(p) =~= fields_view(fs@));
    Ok(p)
}

fn decode_3(fs: &[Field]) -> (r: Result<Packet, CodecError>)
    requires
        schema_of(3) is Some,
        body_match(schema_of(3).unwrap(), fields_view(fs@)),
    ensures
        r is Ok <==> fields_decodable(3, fields_view(fs@)),
        r is Ok ==> packet_id(r.unwrap()) == 3 && decoded_from(r.unwrap(), fields_view(fs@)),
        r is Ok ==> !(r.unwrap() is Unknown),
        r is Err ==> r == Err::<Packet, CodecError>(CodecError::Malformed),
{
    assert(packet_fields(Packet::REQ_GMSVLIST) =~= fields_view(fs@));
    Ok(Packet::REQ_GMSVLIST)
}

fn decode_4(fs: &[Field]) -> (r: Result<Packet, CodecError>)
    requires
        schema_of(4) is Some,
        body_match(schema_of(4).unwrap(), fields_view(fs@)),
    ensures
        r is Ok <==> fields_decodable(4, fields_view(fs@)),
        r is Ok ==> packet_id(r.unwrap()) == 4 && decoded_from(r.unwrap(), fields_view(fs@)),
        r is Ok ==> !(r.unwrap() is Unknown),
        r is Err ==> r == Err::<Packet, CodecError>(CodecError::Malformed),
{
    let g = GmsvData::from_fields(fs);
    if valid_text(&g.ip_address) && valid_text(&g.enc_key) {
        Ok(Packet::SEND_GMSVDATA(g))
    } else {
        Err(CodecError::Malformed)
    }
}

fn decode_5(fs: &[Field]) -> (r: Result<Packet, CodecError>)
    requires
        schema_of(5) is Some,
        body_match(schema_of(5).unwrap(), fields_view(fs@)),
    ensures
        r is Ok <==> fields_decodable(5, fields_view(fs@)),
        r is Ok ==> packet_id(r.unwrap()) == 5 && decoded_from(r.unwrap(), fields_view(fs@)),
        r is Ok ==> !(r.unwrap() is Unknown),
        r is Err ==> r == Err::<Packet, CodecError>(CodecError::Malformed),
{
    assert(packet_fields(Packet::ACK_GMSVLIST) =~= fields_view(fs@));
    Ok(Packet::ACK_GMSVLIST)
}

fn decode_6(fs: &[Field]) -> (r: Result<Packet, CodecError>)
    requires
        schema_of(6) is Some,
        body_match(schema_of(6).unwrap(), fields_view(fs@)),
    ensures
        r is Ok <==> fields_decodable(6, fields_view(fs@)),
        r is Ok ==> packet_id(r.unwrap()) == 6 && decoded_from(r.unwrap(), fields_view(fs@)),
        r is Ok ==> !(r.unwrap() is Unknown),
        r is Err ==> r == Err::<Packet, CodecError>(CodecError::Malformed),
{
    let p = IDPass::from_fields(fs);
    if valid_text(&p.username) && valid_text(&p.password) {
        Ok(Packet::SEND_IDPASS_G(p))
    } else {
        Err(CodecError::Malformed)
    }
}

fn decode_8(fs: &[Field]) -> (r: Result<Packet, CodecError>)
    requires
        schema_of(8) is Some,
        body_match(schema_of(8).unwrap(), fields_view(fs@)),
    ensures
        r is Ok <==> fields_decodable(8, fields_view(fs@)),
        r is Ok ==> packet_id(r.unwrap()) == 8 && decoded_from(r.unwrap(), fields_view(fs@)),
        r is Ok ==> !(r.unwrap() is Unknown),
        r is Err ==> r == Err::<Packet, CodecError>(CodecError::Malformed),
{
    proof {
        assert(field_has_kind(fields_view(fs@)[0], schema_of(8).unwrap()[0]));
    }
    let p = Packet::REQ_CHG_MODE { mode: get_i8(fs, 0) };
    assert(packet_fields(p) =~= fields_view(fs@));
    Ok(p)
}

fn decode_9(fs: &[Field]) -> (r: Result<Packet, CodecError>)
    requires
        schema_of(9) is Some,
        body_match(schema_of(9).unwrap(), fields_view(fs@)),
    ensures
        r is Ok <==> fields_decodable(9, fields_view(fs@)),
        r is Ok ==> packet_id(r.unwrap()) == 9 && decoded_from(r.unwrap(), fields_view(fs@)),
        r is Ok ==> !(r.unwrap() is Unknown),
        r is Err ==> r == Err::<Packet, CodecError>(CodecError::Malformed),
{
    proof {
        assert(field_has_kind(fields_view(fs@)[0], schema_of(9).unwrap()[0]));
    }
    let p = Packet::ACK_CHG_MODE { mode: get_i8(fs, 0) };
    assert(packet_fields(p) =~= fields_view(fs@));
    Ok(p)
}

fn decode_10(fs: &[Field]) -> (r: Result<Packet, CodecError>)
    requires
        schema_of(10) is Some,
        body_match(schema_of(10).unwrap(), fields_view(fs@)),
    ensures
        r is Ok <==> fields_decodable(10, fields_view(fs@)),
        r is Ok ==> packet_id(r.unwrap()) == 10 && decoded_from(r.unwrap(), fields_view(fs@)),
        r is Ok ==> !(r.unwrap() is Unknown),
        r is Err ==> r == Err::<Packet, CodecError>(CodecError::Malformed),
{
    assert(packet_fields(Packet::GET_LOBBY_NUM) =~= fields_view(fs@));
    Ok(Packet::GET_LOBBY_NUM)
}

fn decode_11(fs: &[Field]) -> (r: Result<Packet, CodecError>)
    requires
        schema_of(11) is Some,
        body_match(schema_of(11).unwrap(), fields_view(fs@)),
    ensures
        r is Ok <==> fields_decodable(11, fields_view(fs@)),
        r is Ok ==> packet_id(r.unwrap()) == 11 && decoded_from(r.unwrap(), fields_view(fs@)),
        r is Ok ==> !(r.unwrap() is Unknown),
        r is Err ==> r == Err::<Packet, CodecError>(CodecError::Malformed),
{
    proof {
        assert(field_has_kind(fields_view(fs@)[0], schema_of(11).unwrap()[0]));
    }
    let p = Packet::SEND_LOBBY_NUM { count: get_i8(fs, 0) };
    assert(packet_fields(p) =~= fields_view(fs@));
    Ok(p)
}

fn decode_12(fs: &[Field]) -> (r: Result<Packet, CodecError>)
    requires
        schema_of(12) is Some,
        body_match(schema_of(12).unwrap(), fields_view(fs@)),
    ensures
        r is Ok <==> fields_decodable(12, fields_view(fs@)),
        r is Ok ==> packet_id(r.unwrap()) == 12 && decoded_from(r.unwrap(), fields_view(fs@)),
        r is Ok ==> !(r.unwrap() is Unknown),
        r is Err ==> r == Err::<Packet, CodecError>(CodecError::Malformed),
{
    proof {
        assert(field_has_kind(fields_view(fs@)[0], schema_of(12).unwrap()[0]));
        assert(field_has_kind(fields_view(fs@)[1], schema_of(12).unwrap()[1]));
    }
    let p = Packet::GET_LOBBY_DATA { index: get_i8(fs, 0), mode: get_i8(fs, 1) };
    assert(packet_fields(p) =~= fields_view(fs@));
    Ok(p)
}

fn decode_14(fs: &[Field]) -> (r: Result<Packet, CodecError>)
    requires
        schema_of(14) is Some,
        body_match(schema_of(14).unwrap(), fields_view(fs@)),
    ensures
        r is Ok <==> fields_decodable(14, fields_view(fs@)),
        r is Ok ==> packet_id(r.unwrap()) == 14 && decoded_from(r.unwrap(), fields_view(fs@)),
        r is Ok ==> !(r.unwrap() is Unknown),
        r is Err ==> r == Err::<Packet, CodecError>(CodecError::Malformed),
{
    proof {
        assert(field_has_kind(fields_view(fs@)[0], schema_of(14).unwrap()[0]));
    }
    let p = Packet::REQ_ENTER_LOBBY { lobby: get_i8(fs, 0) };
    assert(packet_fields(p) =~= fields_view(fs@));
    Ok(p)
}

fn decode_15(fs: &[Field]) -> (r: Result<Packet, CodecError>)
    requires
        schema_of(15) is Some,
        body_match(schema_of(15).unwrap(), fields_view(fs@)),
    ensures
        r is Ok <==> fields_decodable(15, fields_view(fs@)),
        r is Ok ==> packet_id(r.unwrap()) == 15 && decoded_from(r.unwrap(), fields_view(fs@)),
        r is Ok ==> !(r.unwrap() is Unknown),
        r is Err ==> r == Err::<Packet, CodecError>(CodecError::Malformed),
{
    proof {
        assert(field_has_kind(fields_view(fs@)[0], schema_of(15).unwrap()[0]));
    }
    let p = Packet::ACK_ENTER_LOBBY { lobby: get_i8(fs, 0) };
    assert(packet_fields(p) =~= fields_view(fs@));
    Ok(p)
}

fn decode_17(fs: &[Field]) -> (r: Result<Packet, CodecError>)
    requires
        schema_of(17) is Some,
        body_match(schema_of(17).unwrap(), fields_view(fs@)),
    ensures
        r is Ok <==> fields_decodable(17, fields_view(fs@)),
        r is Ok ==> packet_id(r.unwrap()) == 17 && decoded_from(r.unwrap(), fields_view(fs@)),
        r is Ok ==> !(r.unwrap() is Unknown),
        r is Err ==> r == Err::<Packet, CodecError>(CodecError::Malformed),
{
    proof {
        assert(field_has_kind(fields_view(fs@)[0], schema_of(17).unwrap()[0]));
    }
    let p = Packet::ACK_MAKE_ROOM { room: get_i8(fs, 0) };
    assert(packet_fields(p) =~= fields_view(fs@));
    Ok(p)
}

fn decode_18(fs: &[Field]) -> (r: Result<Packet, CodecError>)
    requires
        schema_of(18) is Some,
        body_match(schema_of(18).unwrap(), fields_view(fs@)),
    ensures
        r is Ok <==> fields_decodable(18, fields_view(fs@)),
        r is Ok ==> packet_id(r.unwrap()) == 18 && decoded_from(r.unwrap(), fields_view(fs@)),
        r is Ok ==> !(r.unwrap() is Unknown),
        r is Err ==> r == Err::<Packet, CodecError>(CodecError::Malformed),
{
    assert(packet_fields(Packet::GET_ROOMS) =~= fields_view(fs@));
    Ok(Packet::GET_ROOMS)
}

fn decode_20(fs: &[Field]) -> (r: Result<Packet, CodecError>)
    requires
        schema_of(20) is Some,
        body_match(schema_of(20).unwrap(), fields_view(fs@)),
    ensures
        r is Ok <==> fields_decodable(20, fields_view(fs@)),
        r is Ok ==> packet_id(r.unwrap()) == 20 && decoded_from(r.unwrap(), fields_view(fs@)),
        r is Ok ==> !(r.unwrap() is Unknown),
        r is Err ==> r == Err::<Packet, CodecError>(CodecError::Malformed),
{
    proof {
        assert(field_has_kind(fields_view(fs@)[0], schema_of(20).unwrap()[0]));
        assert(field_has_kind(fields_view(fs@)[1], schema_of(20).unwrap()[1]));
        assert(field_has_kind(fields_view(fs@)[2], schema_of(20).unwrap()[2]));
    }
    let p = Packet::REQ_ENTER_ROOM { room: get_i8(fs, 0), room_flag: get_u32(fs, 1), room_password: get_halves(fs, 2) };
    assert(packet_fields(p) =~= fields_view(fs@));
    Ok(p)
}

fn decode_22(fs: &[Field]) -> (r: Result<Packet, CodecError>)
    requires
        schema_of(22) is Some,
        body_match(schema_of(22).unwrap(), fields_view(fs@)),
    ensures
        r is Ok <==> fields_decodable(22, fields_view(fs@)),
        r is Ok ==> packet_id(r.unwrap()) == 22 && decoded_from(r.unwrap(), fields_view(fs@)),
        r is Ok ==> !(r.unwrap() is Unknown),
        r is Err ==> r == Err::<Packet, CodecError>(CodecError::Malformed),
{
    proof {
        assert(field_has_kind(fields_view(fs@)[0], schema_of(22).unwrap()[0]));
        assert(field_has_kind(fields_view(fs@)[1], schema_of(22).unwrap()[1]));
        assert(field_has_kind(fields_view(fs@)[2], schema_of(22).unwrap()[2]));
    }
    let p = Packet::REQ_ULIST { mode: get_i8(fs, 0), lobby: get_i8(fs, 1), room: get_i8(fs, 2) };
    assert(packet_fields(p) =~= fields_view(fs@));
    Ok(p)
}

fn decode_24(fs: &[Field]) -> (r: Result<Packet, CodecError>)
    requires
        schema_of(24) is Some,
        body_match(schema_of(24).unwrap(), fields_view(fs@)),
    ensures
        r is Ok <==> fields_decodable(24, fields_view(fs@)),
        r is Ok ==> packet_id(r.unwrap()) == 24 && decoded_from(r.unwrap(), fields_view(fs@)),
        r is Ok ==> !(r.unwrap() is Unknown),
        r is Err ==> r == Err::<Packet, CodecError>(CodecError::Malformed),
{
    assert(packet_fields(Packet::PKT_24) =~= fields_view(fs@));
    Ok(Packet::PKT_24)
}

fn decode_25(fs: &[Field]) -> (r: Result<Packet, CodecError>)
    requires
        schema_of(25) is Some,
        body_match(schema_of(25).unwrap(), fields_view(fs@)),
    ensures
        r is Ok <==> fields_decodable(25, fields_view(fs@)),
        r is Ok ==> packet_id(r.unwrap()) == 25 && decoded_from(r.unwrap(), fields_view(fs@)),
        r is Ok ==> !(r.unwrap() is Unknown),
        r is Err ==> r == Err::<Packet, CodecError>(CodecError::Malformed),
{
    proof {
        assert(field_has_kind(fields_view(fs@)[0], schema_of(25).unwrap()[0]));
    }
    let p = Packet::ACK_EXIT_ROOM { status: get_i8(fs, 0) };
    assert(packet_fields(p) =~= fields_view(fs@));
    Ok(p)
}

fn decode_26(fs: &[Field]) -> (r: Result<Packet, CodecError>)
    requires
        schema_of(26) is Some,
        body_match(schema_of(26).unwrap(), fields_view(fs@)),
    ensures
        r is Ok <==> fields_decodable(26, fields_view(fs@)),
        r is Ok ==> packet_id(r.unwrap()) == 26 && decoded_from(r.unwrap(), fields_view(fs@)),
        r is Ok ==> !(r.unwrap() is Unknown),
        r is Err ==> r == Err::<Packet, CodecError>(CodecError::Malformed),
{
    proof {
        assert(field_has_kind(fields_view(fs@)[0], schema_of(26).unwrap()[0]));
        assert(field_has_kind(fields_view(fs@)[1], schema_of(26).unwrap()[1]));
        assert(field_has_kind(fields_view(fs@)[2], schema_of(26).unwrap()[2]));
    }
    let p = Packet::SEND_USTAT { cid: get_i32(fs, 0), uid: get_i32(fs, 1), stat: get_u32(fs, 2) };
    assert(packet_fields(p) =~= fields_view(fs@));
    Ok(p)
}

fn decode_27(fs: &[Field]) -> (r: Result<Packet, CodecError>)
    requires
        schema_of(27) is Some,
        body_match(schema_of(27).unwrap(), fields_view(fs@)),
    ensures
        r is Ok <==> fields_decodable(27, fields_view(fs@)),
        r is Ok ==> packet_id(r.unwrap()) == 27 && decoded_from(r.unwrap(), fields_view(fs@)),
        r is Ok ==> !(r.unwrap() is Unknown),
        r is Err ==> r == Err::<Packet, CodecError>(CodecError::Malformed),
{
    proof {
        assert(field_has_kind(fields_view(fs@).drop_last()[0], schema_of(27).unwrap().drop_last()[0]));
        assert(field_has_kind(fields_view(fs@).drop_last()[1], schema_of(27).unwrap().drop_last()[1]));
        assert(field_has_kind(fields_view(fs@).drop_last()[2], schema_of(27).unwrap().drop_last()[2]));
        assert(field_has_kind(fields_view(fs@).drop_last()[3], schema_of(27).unwrap().drop_last()[3]));
        assert(field_has_kind(fields_view(fs@).drop_last()[4], schema_of(27).unwrap().drop_last()[4]));
        assert(fields_view(fs@).last() == fields_view(fs@)[5]);
    }
    let p = Packet::SEND_MESSAGE { cid: get_i32(fs, 0), msg_type: get_i8(fs, 1), server_id: get_i8(fs, 2), name: get_halves(fs, 3), len: get_u16(fs, 4), message: get_halves(fs, 5) };
    assert(packet_fields(p) =~= fields_view(fs@));
    Ok(p)
}

fn decode_31(fs: &[Field]) -> (r: Result<Packet, CodecError>)
    requires
        schema_of(31) is Some,
        body_match(schema_of(31).unwrap(), fields_view(fs@)),
    ensures
        r is Ok <==> fields_decodable(31, fields_view(fs@)),
        r is Ok ==> packet_id(r.unwrap()) == 31 && decoded_from(r.unwrap(), fields_view(fs@)),
        r is Ok ==> !(r.unwrap() is Unknown),
        r is Err ==> r == Err::<Packet, CodecError>(CodecError::Malformed),
{
    assert(packet_fields(Packet::REQ_GAMESTART) =~= fields_view(fs@));
    Ok(Packet::REQ_GAMESTART)
}

fn decode_33(fs: &[Field]) -> (r: Result<Packet, CodecError>)
    requires
        schema_of(33) is Some,
        body_match(schema_of(33).unwrap(), fields_view(fs@)),
    ensures
        r is Ok <==> fields_decodable(33, fields_view(fs@)),
        r is Ok ==> packet_id(r.unwrap()) == 33 && decoded_from(r.unwrap(), fields_view(fs@)),
        r is Ok ==> !(r.unwrap() is Unknown),
        r is Err ==> r == Err::<Packet, CodecError>(CodecError::Malformed),
{
    proof {
        assert(field_has_kind(fields_view(fs@)[0], schema_of(33).unwrap()[0]));
    }
    let p = Packet::CLIENT_CRCLUB { club: get_i8(fs, 0) };
    assert(packet_fields(p) =~= fields_view(fs@));
    Ok(p)
}

fn decode_34(fs: &[Field]) -> (r: Result<Packet, CodecError>)
    requires
        schema_of(34) is Some,
        body_match(schema_of(34).unwrap(), fields_view(fs@)),
    ensures
        r is Ok <==> fields_decodable(34, fields_view(fs@)),
        r is Ok ==> packet_id(r.unwrap()) == 34 && decoded_from(r.unwrap(), fields_view(fs@)),
        r is Ok ==> !(r.unwrap() is Unknown),
        r is Err ==> r == Err::<Packet, CodecError>(CodecError::Malformed),
{
    proof {
        assert(field_has_kind(fields_view(fs@)[0], schema_of(34).unwrap()[0]));
        assert(field_has_kind(fields_view(fs@)[1], schema_of(34).unwrap()[1]));
    }
    let p = Packet::SEND_CRCLUB { cid: get_i32(fs, 0), club: get_i8(fs, 1) };
    assert(packet_fields(p) =~= fields_view(fs@));
    Ok(p)
}

fn decode_35(fs: &[Field]) -> (r: Result<Packet, CodecError>)
    requires
        schema_of(35) is Some,
        body_match(schema_of(35).unwrap(), fields_view(fs@)),
    ensures
        r is Ok <==> fields_decodable(35, fields_view(fs@)),
        r is Ok ==> packet_id(r.unwrap()) == 35 && decoded_from(r.unwrap(), fields_view(fs@)),
        r is Ok ==> !(r.unwrap() is Unknown),
        r is Err ==> r == Err::<Packet, CodecError>(CodecError::Malformed),
{
    proof {
        assert(field_has_kind(fields_view(fs@)[0], schema_of(35).unwrap()[0]));
    }
    let p = Packet::CLIENT_DIRECTION { dir: get_u32(fs, 0) };
    assert(packet_fields(p) =~= fields_view(fs@));
    Ok(p)
}

fn decode_36(fs: &[Field]) -> (r: Result<Packet, CodecError>)
    requires
        schema_of(36) is Some,
        body_match(schema_of(36).unwrap(), fields_view(fs@)),
    ensures
        r is Ok <==> fields_decodable(36, fields_view(fs@)),
        r is Ok ==> packet_id(r.unwrap()) == 36 && decoded_from(r.unwrap(), fields_view(fs@)),
        r is Ok ==> !(r.unwrap() is Unknown),
        r is Err ==> r == Err::<Packet, CodecError>(CodecError::Malformed),
{
    proof {
        assert(field_has_kind(fields_view(fs@)[0], schema_of(36).unwrap()[0]));
        assert(field_has_kind(fields_view(fs@)[1], schema_of(36).unwrap()[1]));
    }
    let p = Packet::SEND_DIRECTION { cid: get_i32(fs, 0), dir: get_u32(fs, 1) };
    assert(packet_fields(p) =~= fields_view(fs@));
    Ok(p)
}

fn decode_42(fs: &[Field]) -> (r: Result<Packet, CodecError>)
    requires
        schema_of(42) is Some,
        body_match(schema_of(42).unwrap(), fields_view(fs@)),
    ensures
        r is Ok <==> fields_decodable(42, fields_view(fs@)),
        r is Ok ==> packet_id(r.unwrap()) == 42 && decoded_from(r.unwrap(), fields_view(fs@)),
        r is Ok ==> !(r.unwrap() is Unknown),
        r is Err ==> r == Err::<Packet, CodecError>(CodecError::Malformed),
{
    proof {
        assert(field_has_kind(fields_view(fs@)[0], schema_of(42).unwrap()[0]));
        assert(field_has_kind(fields_view(fs@)[1], schema_of(42).unwrap()[1]));
        assert(field_has_kind(fields_view(fs@)[2], schema_of(42).unwrap()[2]));
        assert(field_has_kind(fields_view(fs@)[3], schema_of(42).unwrap()[3]));
    }
    let p = Packet::REQ_CRECORD { uid: get_i32(fs, 0), course: get_i8(fs, 1), season: get_i8(fs, 2), hole_idx: get_i8(fs, 3) };
    assert(packet_fields(p) =~= fields_view(fs@));
    Ok(p)
}

fn decode_44(fs: &[Field]) -> (r: Result<Packet, CodecError>)
    requires
        schema_of(44) is Some,
        body_match(schema_of(44).unwrap(), fields_view(fs@)),
    ensures
        r is Ok <==> fields_decodable(44, fields_view(fs@)),
        r is Ok ==> packet_id(r.unwrap()) == 44 && decoded_from(r.unwrap(), fields_view(fs@)),
        r is Ok ==> !(r.unwrap() is Unknown),
        r is Err ==> r == Err::<Packet, CodecError>(CodecError::Malformed),
{
    proof {
        assert(field_has_kind(fields_view(fs@)[0], schema_of(44).unwrap()[0]));
    }
    let p = Packet::CLIENT_LOADSTAT { progress: get_i8(fs, 0) };
    assert(packet_fields(p) =~= fields_view(fs@));
    Ok(p)
}

fn decode_45(fs: &[Field]) -> (r: Result<Packet, CodecError>)
    requires
        schema_of(45) is Some,
        body_match(schema_of(45).unwrap(), fields_view(fs@)),
    ensures
        r is Ok <==> fields_decodable(45, fields_view(fs@)),
        r is Ok ==> packet_id(r.unwrap()) == 45 && decoded_from(r.unwrap(), fields_view(fs@)),
        r is Ok ==> !(r.unwrap() is Unknown),
        r is Err ==> r == Err::<Packet, CodecError>(CodecError::Malformed),
{
    proof {
        assert(field_has_kind(fields_view(fs@)[0], schema_of(45).unwrap()[0]));
        assert(field_has_kind(fields_view(fs@)[1], schema_of(45).unwrap()[1]));
    }
    let p = Packet::SEND_LOADSTAT { cid: get_i32(fs, 0), progress: get_i8(fs, 1) };
    assert(packet_fields(p) =~= fields_view(fs@));
    Ok(p)
}

fn decode_72(fs: &[Field]) -> (r: Result<Packet, CodecError>)
    requires
        schema_of(72) is Some,
        body_match(schema_of(72).unwrap(), fields_view(fs@)),
    ensures
        r is Ok <==> fields_decodable(72, fields_view(fs@)),
        r is Ok ==> packet_id(r.unwrap()) == 72 && decoded_from(r.unwrap(), fields_view(fs@)),
        r is Ok ==> !(r.unwrap() is Unknown),
        r is Err ==> r == Err::<Packet, CodecError>(CodecError::Malformed),
{
    proof {
        assert(field_has_kind(fields_view(fs@).drop_last()[0], schema_of(72).unwrap().drop_last()[0]));
        assert(fields_view(fs@).last() == fields_view(fs@)[1]);
    }
    let p = Packet::PKT_72 { count: get_u32(fs, 0), users: get_words(fs, 1) };
    assert(packet_fields(p) =~= fields_view(fs@));
    Ok(p)
}

fn decode_74(fs: &[Field]) -> (r: Result<Packet, CodecError>)
    requires
        schema_of(74) is Some,
        body_match(schema_of(74).unwrap(), fields_view(fs@)),
    ensures
        r is Ok <==> fields_decodable(74, fields_view(fs@)),
        r is Ok ==> packet_id(r.unwrap()) == 74 && decoded_from(r.unwrap(), fields_view(fs@)),
        r is Ok ==> !(r.unwrap() is Unknown),
        r is Err ==> r == Err::<Packet, CodecError>(CodecError::Malformed),
{
    proof {
        assert(field_has_kind(fields_view(fs@).drop_last()[0], schema_of(74).unwrap().drop_last()[0]));
        assert(fields_view(fs@).last() == fields_view(fs@)[1]);
    }
    let p = Packet::PKT_74 { count: get_u32(fs, 0), users: get_words(fs, 1) };
    assert(packet_fields(p) =~= fields_view(fs@));
    Ok(p)
}

fn decode_76(fs: &[Field]) -> (r: Result<Packet, CodecError>)
    requires
        schema_of(76) is Some,
        body_match(schema_of(76).unwrap(), fields_view(fs@)),
    ensures
        r is Ok <==> fields_decodable(76, fields_view(fs@)),
        r is Ok ==> packet_id(r.unwrap()) == 76 && decoded_from(r.unwrap(), fields_view(fs@)),
        r is Ok ==> !(r.unwrap() is Unknown),
        r is Err ==> r == Err::<Packet, CodecError>(CodecError::Malformed),
{
    proof {
        assert(field_has_kind(fields_view(fs@).drop_last()[0], schema_of(76).unwrap().drop_last()[0]));
        assert(fields_view(fs@).last() == fields_view(fs@)[1]);
    }
    let p = Packet::PKT_76 { count: get_u32(fs, 0), users: get_words(fs, 1) };
    assert(packet_fields(p) =~= fields_view(fs@));
    Ok(p)
}

fn decode_83(fs: &[Field]) -> (r: Result<Packet, CodecError>)
    requires
        schema_of(83) is Some,
        body_match(schema_of(83).unwrap(), fields_view(fs@)),
    ensures
        r is Ok <==> fields_decodable(83, fields_view(fs@)),
        r is Ok ==> packet_id(r.unwrap()) == 83 && decoded_from(r.unwrap(), fields_view(fs@)),
        r is Ok ==> !(r.unwrap() is Unknown),
        r is Err ==> r == Err::<Packet, CodecError>(CodecError::Malformed),
{
    proof {
        assert(field_has_kind(fields_view(fs@)[0], schema_of(83).unwrap()[0]));
    }
    let p = Packet::REQ_APPEAR { cid: get_i32(fs, 0) };
    assert(packet_fields(p) =~= fields_view(fs@));
    Ok(p)
}

fn decode_84(fs: &[Field]) -> (r: Result<Packet, CodecError>)
    requires
        schema_of(84) is Some,
        body_match(schema_of(84).unwrap(), fields_view(fs@)),
    ensures
        r is Ok <==> fields_decodable(84, fields_view(fs@)),
        r is Ok ==> packet_id(r.unwrap()) == 84 && decoded_from(r.unwrap(), fields_view(fs@)),
        r is Ok ==> !(r.unwrap() is Unknown),
        r is Err ==> r == Err::<Packet, CodecError>(CodecError::Malformed),
{
    proof {
        assert(field_has_kind(fields_view(fs@)[0], Kind::Word));
        assert(field_has_kind(fields_view(fs@)[1], Kind::Word));
        assert(field_has_kind(fields_view(fs@)[2], Kind::Words(9)));
    }
    let a = get_i32(fs, 0);
    let b = get_i32(fs, 1);
    let w = get_words(fs, 2);
    match Appearance::from_words(w.as_slice()) {
        Ok(x) => Ok(Packet::SEND_APPEAR { cid: a, unk: b, appear: x }),
        Err(_) => Err(CodecError::Malformed),
    }
}

fn decode_87(fs: &[Field]) -> (r: Result<Packet, CodecError>)
    requires
        schema_of(87) is Some,
        body_match(schema_of(87).unwrap(), fields_view(fs@)),
    ensures
        r is Ok <==> fields_decodable(87, fields_view(fs@)),
        r is Ok ==> packet_id(r.unwrap()) == 87 && decoded_from(r.unwrap(), fields_view(fs@)),
        r is Ok ==> !(r.unwrap() is Unknown),
        r is Err ==> r == Err::<Packet, CodecError>(CodecError::Malformed),
{
    proof {
        assert(field_has_kind(fields_view(fs@)[0], schema_of(87).unwrap()[0]));
        assert(field_has_kind(fields_view(fs@)[1], schema_of(87).unwrap()[1]));
    }
    let p = Packet::REQ_ULIST_L { mode: get_i8(fs, 0), lobby: get_i8(fs, 1) };
    assert(packet_fields(p) =~= fields_view(fs@));
    Ok(p)
}

fn decode_89(fs: &[Field]) -> (r: Result<Packet, CodecError>)
    requires
        schema_of(89) is Some,
        body_match(schema_of(89).unwrap(), fields_view(fs@)),
    ensures
        r is Ok <==> fields_decodable(89, fields_view(fs@)),
        r is Ok ==> packet_id(r.unwrap()) == 89 && decoded_from(r.unwrap(), fields_view(fs@)),
        r is Ok ==> !(r.unwrap() is Unknown),
        r is Err ==> r == Err::<Packet, CodecError>(CodecError::Malformed),
{
    assert(packet_fields(Packet::PKT_89) =~= fields_view(fs@));
    Ok(Packet::PKT_89)
}

fn decode_90(fs: &[Field]) -> (r: Result<Packet, CodecError>)
    requires
        schema_of(90) is Some,
        body_match(schema_of(90).unwrap(), fields_view(fs@)),
    ensures
        r is Ok <==> fields_decodable(90, fields_view(fs@)),
        r is Ok ==> packet_id(r.unwrap()) == 90 && decoded_from(r.unwrap(), fields_view(fs@)),
        r is Ok ==> !(r.unwrap() is Unknown),
        r is Err ==> r == Err::<Packet, CodecError>(CodecError::Malformed),
{
    proof {
        assert(field_has_kind(fields_view(fs@).drop_last()[0], schema_of(90).unwrap().drop_last()[0]));
        assert(fields_view(fs@).last() == fields_view(fs@)[1]);
    }
    let p = Packet::SEND_SELLITEMLIST { count: get_u16(fs, 0), items: get_words(fs, 1) };
    assert(packet_fields(p) =~= fields_view(fs@));
    Ok(p)
}

fn decode_91(fs: &[Field]) -> (r: Result<Packet, CodecError>)
    requires
        schema_of(91) is Some,
        body_match(schema_of(91).unwrap(), fields_view(fs@)),
    ensures
        r is Ok <==> fields_decodable(91, fields_view(fs@)),
        r is Ok ==> packet_id(r.unwrap()) == 91 && decoded_from(r.unwrap(), fields_view(fs@)),
        r is Ok ==> !(r.unwrap() is Unknown),
        r is Err ==> r == Err::<Packet, CodecError>(CodecError::Malformed),
{
    proof {
        assert(field_has_kind(fields_view(fs@)[0], schema_of(91).unwrap()[0]));
    }
    let p = Packet::REQ_BUY_ITEM { item: get_u32(fs, 0) };
    assert(packet_fields(p) =~= fields_view(fs@));
    Ok(p)
}

fn decode_92(fs: &[Field]) -> (r: Result<Packet, CodecError>)
    requires
        schema_of(92) is Some,
        body_match(schema_of(92).unwrap(), fields_view(fs@)),
    ensures
        r is Ok <==> fields_decodable(92, fields_view(fs@)),
        r is Ok ==> packet_id(r.unwrap()) == 92 && decoded_from(r.unwrap(), fields_view(fs@)),
        r is Ok ==> !(r.unwrap() is Unknown),
        r is Err ==> r == Err::<Packet, CodecError>(CodecError::Malformed),
{
    proof {
        assert(field_has_kind(fields_view(fs@)[0], schema_of(92).unwrap()[0]));
    }
    let p = Packet::ACK_BUY_ITEM { result: get_i8(fs, 0) };
    assert(packet_fields(p) =~= fields_view(fs@));
    Ok(p)
}

fn decode_93(fs: &[Field]) -> (r: Result<Packet, CodecError>)
    requires
        schema_of(93) is Some,
        body_match(schema_of(93).unwrap(), fields_view(fs@)),
    ensures
        r is Ok <==> fields_decodable(93, fields_view(fs@)),
        r is Ok ==> packet_id(r.unwrap()) == 93 && decoded_from(r.unwrap(), fields_view(fs@)),
        r is Ok ==> !(r.unwrap() is Unknown),
        r is Err ==> r == Err::<Packet, CodecError>(CodecError::Malformed),
{
    assert(packet_fields(Packet::PKT_93) =~= fields_view(fs@));
    Ok(Packet::PKT_93)
}

fn decode_94(fs: &[Field]) -> (r: Result<Packet, CodecError>)
    requires
        schema_of(94) is Some,
        body_match(schema_of(94).unwrap(), fields_view(fs@)),
    ensures
        r is Ok <==> fields_decodable(94, fields_view(fs@)),
        r is Ok ==> packet_id(r.unwrap()) == 94 && decoded_from(r.unwrap(), fields_view(fs@)),
        r is Ok ==> !(r.unwrap() is Unknown),
        r is Err ==> r == Err::<Packet, CodecError>(CodecError::Malformed),
{
    proof {
        assert(field_has_kind(fields_view(fs@)[0], schema_of(94).unwrap()[0]));
        assert(field_has_kind(fields_view(fs@)[1], schema_of(94).unwrap()[1]));
    }
    let p = Packet::REP_MONEY { gp: get_i32(fs, 0), sc: get_i32(fs, 1) };
    assert(packet_fields(p) =~= fields_view(fs@));
    Ok(p)
}

fn decode_95(fs: &[Field]) -> (r: Result<Packet, CodecError>)
    requires
        schema_of(95) is Some,
        body_match(schema_of(95).unwrap(), fields_view(fs@)),
    ensures
        r is Ok <==> fields_decodable(95, fields_view(fs@)),
        r is Ok ==> packet_id(r.unwrap()) == 95 && decoded_from(r.unwrap(), fields_view(fs@)),
        r is Ok ==> !(r.unwrap() is Unknown),
        r is Err ==> r == Err::<Packet, CodecError>(CodecError::Malformed),
{
    assert(field_has_kind(fields_view(fs@)[0], Kind::Words(9)));
    let w = get_words(fs, 0);
    match Appearance::from_words(w.as_slice()) {
        Ok(a) => Ok(Packet::SET_FIRST_CHARACTER_APPEARANCE(a)),
        Err(_) => Err(CodecError::Malformed),
    }
}

fn decode_96(fs: &[Field]) -> (r: Result<Packet, CodecError>)
    requires
        schema_of(96) is Some,
        body_match(schema_of(96).unwrap(), fields_view(fs@)),
    ensures
        r is Ok <==> fields_decodable(96, fields_view(fs@)),
        r is Ok ==> packet_id(r.unwrap()) == 96 && decoded_from(r.unwrap(), fields_view(fs@)),
        r is Ok ==> !(r.unwrap() is Unknown),
        r is Err ==> r == Err::<Packet, CodecError>(CodecError::Malformed),
{
    proof {
        assert(field_has_kind(fields_view(fs@)[0], schema_of(96).unwrap()[0]));
    }
    let p = Packet::ACK_FIRST_CHARACTER_APPEARANCE { status: get_i8(fs, 0) };
    assert(packet_fields(p) =~= fields_view(fs@));
    Ok(p)
}

fn decode_99(fs: &[Field]) -> (r: Result<Packet, CodecError>)
    requires
        schema_of(99) is Some,
        body_match(schema_of(99).unwrap(), fields_view(fs@)),
    ensures
        r is Ok <==> fields_decodable(99, fields_view(fs@)),
        r is Ok ==> packet_id(r.unwrap()) == 99 && decoded_from(r.unwrap(), fields_view(fs@)),
        r is Ok ==> !(r.unwrap() is Unknown),
        r is Err ==> r == Err::<Packet, CodecError>(CodecError::Malformed),
{
    proof {
        assert(field_has_kind(fields_view(fs@).drop_last()[0], schema_of(99).unwrap().drop_last()[0]));
        assert(field_has_kind(fields_view(fs@).drop_last()[1], schema_of(99).unwrap().drop_last()[1]));
        assert(fields_view(fs@).last() == fields_view(fs@)[2]);
    }
    let p = Packet::SEND_CHRUID { count: get_u32(fs, 0), cid: get_i32(fs, 1), chr_uids: get_words(fs, 2) };
    assert(packet_fields(p) =~= fields_view(fs@));
    Ok(p)
}

fn decode_100(fs: &[Field]) -> (r: Result<Packet, CodecError>)
    requires
        schema_of(100) is Some,
        body_match(schema_of(100).unwrap(), fields_view(fs@)),
    ensures
        r is Ok <==> fields_decodable(100, fields_view(fs@)),
        r is Ok ==> packet_id(r.unwrap()) == 100 && decoded_from(r.unwrap(), fields_view(fs@)),
        r is Ok ==> !(r.unwrap() is Unknown),
        r is Err ==> r == Err::<Packet, CodecError>(CodecError::Malformed),
{
    proof {
        assert(field_has_kind(fields_view(fs@)[0], schema_of(100).unwrap()[0]));
        assert(field_has_kind(fields_view(fs@)[1], schema_of(100).unwrap()[1]));
    }
    let p = Packet::REQ_CHRDATA { cid: get_i32(fs, 0), chr_uid: get_i32(fs, 1) };
    assert(packet_fields(p) =~= fields_view(fs@));
    Ok(p)
}

fn decode_102(fs: &[Field]) -> (r: Result<Packet, CodecError>)
    requires
        schema_of(102) is Some,
        body_match(schema_of(102).unwrap(), fields_view(fs@)),
    ensures
        r is Ok <==> fields_decodable(102, fields_view(fs@)),
        r is Ok ==> packet_id(r.unwrap()) == 102 && decoded_from(r.unwrap(), fields_view(fs@)),
        r is Ok ==> !(r.unwrap() is Unknown),
        r is Err ==> r == Err::<Packet, CodecError>(CodecError::Malformed),
{
    proof {
        assert(field_has_kind(fields_view(fs@)[0], schema_of(102).unwrap()[0]));
    }
    let p = Packet::GET_CHRDATA { cid: get_i32(fs, 0) };
    assert(packet_fields(p) =~= fields_view(fs@));
    Ok(p)
}

fn decode_103(fs: &[Field]) -> (r: Result<Packet, CodecError>)
    requires
        schema_of(103) is Some,
        body_match(schema_of(103).unwrap(), fields_view(fs@)),
    ensures
        r is Ok <==> fields_decodable(103, fields_view(fs@)),
        r is Ok ==> packet_id(r.unwrap()) == 103 && decoded_from(r.unwrap(), fields_view(fs@)),
        r is Ok ==> !(r.unwrap() is Unknown),
        r is Err ==> r == Err::<Packet, CodecError>(CodecError::Malformed),
{
    proof {
        assert(field_has_kind(fields_view(fs@)[0], Kind::Word));
        assert(field_has_kind(fields_view(fs@)[1], Kind::Word));
        assert(field_has_kind(fields_view(fs@)[2], Kind::Words(9)));
    }
    let a = get_i32(fs, 0);
    let b = get_i32(fs, 1);
    let w = get_words(fs, 2);
    match Appearance::from_words(w.as_slice()) {
        Ok(x) => Ok(Packet::REQ_CHG_APPEAR { cid: a, chr_uid: b, appear: x }),
        Err(_) => Err(CodecError::Malformed),
    }
}

fn decode_104(fs: &[Field]) -> (r: Result<Packet, CodecError>)
    requires
        schema_of(104) is Some,
        body_match(schema_of(104).unwrap(), fields_view(fs@)),
    ensures
        r is Ok <==> fields_decodable(104, fields_view(fs@)),
        r is Ok ==> packet_id(r.unwrap()) == 104 && decoded_from(r.unwrap(), fields_view(fs@)),
        r is Ok ==> !(r.unwrap() is Unknown),
        r is Err ==> r == Err::<Packet, CodecError>(CodecError::Malformed),
{
    proof {
        assert(field_has_kind(fields_view(fs@)[0], schema_of(104).unwrap()[0]));
    }
    let p = Packet::PKT_104 { status: get_i8(fs, 0) };
    assert(packet_fields(p) =~= fields_view(fs@));
    Ok(p)
}

fn decode_106(fs: &[Field]) -> (r: Result<Packet, CodecError>)
    requires
        schema_of(106) is Some,
        body_match(schema_of(106).unwrap(), fields_view(fs@)),
    ensures
        r is Ok <==> fields_decodable(106, fields_view(fs@)),
        r is Ok ==> packet_id(r.unwrap()) == 106 && decoded_from(r.unwrap(), fields_view(fs@)),
        r is Ok ==> !(r.unwrap() is Unknown),
        r is Err ==> r == Err::<Packet, CodecError>(CodecError::Malformed),
{
    proof {
        assert(field_has_kind(fields_view(fs@)[0], schema_of(106).unwrap()[0]));
    }
    let p = Packet::ACK_SET_CHARACTER_NAME { status: get_i8(fs, 0) };
    assert(packet_fields(p) =~= fields_view(fs@));
    Ok(p)
}

fn decode_112(fs: &[Field]) -> (r: Result<Packet, CodecError>)
    requires
        schema_of(112) is Some,
        body_match(schema_of(112).unwrap(), fields_view(fs@)),
    ensures
        r is Ok <==> fields_decodable(112, fields_view(fs@)),
        r is Ok ==> packet_id(r.unwrap()) == 112 && decoded_from(r.unwrap(), fields_view(fs@)),
        r is Ok ==> !(r.unwrap() is Unknown),
        r is Err ==> r == Err::<Packet, CodecError>(CodecError::Malformed),
{
    proof {
        assert(field_has_kind(fields_view(fs@).drop_last()[0], schema_of(112).unwrap().drop_last()[0]));
        assert(field_has_kind(fields_view(fs@).drop_last()[1], schema_of(112).unwrap().drop_last()[1]));
        assert(field_has_kind(fields_view(fs@).drop_last()[2], schema_of(112).unwrap().drop_last()[2]));
        assert(fields_view(fs@).last() == fields_view(fs@)[3]);
    }
    let p = Packet::PKT_112 { unk1: get_i32(fs, 0), unk2: get_i32(fs, 1), cnt: get_u32(fs, 2), values: get_words(fs, 3) };
    assert(packet_fields(p) =~= fields_view(fs@));
    Ok(p)
}

fn decode_114(fs: &[Field]) -> (r: Result<Packet, CodecError>)
    requires
        schema_of(114) is Some,
        body_match(schema_of(114).unwrap(), fields_view(fs@)),
    ensures
        r is Ok <==> fields_decodable(114, fields_view(fs@)),
        r is Ok ==> packet_id(r.unwrap()) == 114 && decoded_from(r.unwrap(), fields_view(fs@)),
        r is Ok ==> !(r.unwrap() is Unknown),
        r is Err ==> r == Err::<Packet, CodecError>(CodecError::Malformed),
{
    proof {
        assert(field_has_kind(fields_view(fs@).drop_last()[0], schema_of(114).unwrap().drop_last()[0]));
        assert(field_has_kind(fields_view(fs@).drop_last()[1], schema_of(114).unwrap().drop_last()[1]));
        assert(field_has_kind(fields_view(fs@).drop_last()[2], schema_of(114).unwrap().drop_last()[2]));
        assert(field_has_kind(fields_view(fs@).drop_last()[3], schema_of(114).unwrap().drop_last()[3]));
        assert(field_has_kind(fields_view(fs@).drop_last()[4], schema_of(114).unwrap().drop_last()[4]));
        assert(field_has_kind(fields_view(fs@).drop_last()[5], schema_of(114).unwrap().drop_last()[5]));
        assert(field_has_kind(fields_view(fs@).drop_last()[6], schema_of(114).unwrap().drop_last()[6]));
        assert(field_has_kind(fields_view(fs@).drop_last()[7], schema_of(114).unwrap().drop_last()[7]));
        assert(field_has_kind(fields_view(fs@).drop_last()[8], schema_of(114).unwrap().drop_last()[8]));
        assert(field_has_kind(fields_view(fs@).drop_last()[9], schema_of(114).unwrap().drop_last()[9]));
        assert(fields_view(fs@).last() == fields_view(fs@)[10]);
    }
    let p = Packet::PKT_114 { mail_uid: get_i32(fs, 0), from_uid: get_i32(fs, 1), to_uid: get_i32(fs, 2), year: get_i16(fs, 3), month: get_i8(fs, 4), day: get_i8(fs, 5), hour: get_i8(fs, 6), minute: get_i8(fs, 7), second: get_i8(fs, 8), len: get_u16(fs, 9), utf8_text: get_bytes(fs, 10) };
    assert(packet_fields(p) =~= fields_view(fs@));
    Ok(p)
}

fn decode_115(fs: &[Field]) -> (r: Result<Packet, CodecError>)
    requires
        schema_of(115) is Some,
        body_match(schema_of(115).unwrap(), fields_view(fs@)),
    ensures
        r is Ok <==> fields_decodable(115, fields_view(fs@)),
        r is Ok ==> packet_id(r.unwrap()) == 115 && decoded_from(r.unwrap(), fields_view(fs@)),
        r is Ok ==> !(r.unwrap() is Unknown),
        r is Err ==> r == Err::<Packet, CodecError>(CodecError::Malformed),
{
    proof {
        assert(field_has_kind(fields_view(fs@).drop_last()[0], schema_of(115).unwrap().drop_last()[0]));
        assert(field_has_kind(fields_view(fs@).drop_last()[1], schema_of(115).unwrap().drop_last()[1]));
        assert(field_has_kind(fields_view(fs@).drop_last()[2], schema_of(115).unwrap().drop_last()[2]));
        assert(field_has_kind(fields_view(fs@).drop_last()[3], schema_of(115).unwrap().drop_last()[3]));
        assert(field_has_kind(fields_view(fs@).drop_last()[4], schema_of(115).unwrap().drop_last()[4]));
        assert(field_has_kind(fields_view(fs@).drop_last()[5], schema_of(115).unwrap().drop_last()[5]));
        assert(field_has_kind(fields_view(fs@).drop_last()[6], schema_of(115).unwrap().drop_last()[6]));
        assert(field_has_kind(fields_view(fs@).drop_last()[7], schema_of(115).unwrap().drop_last()[7]));
        assert(field_has_kind(fields_view(fs@).drop_last()[8], schema_of(115).unwrap().drop_last()[8]));
        assert(field_has_kind(fields_view(fs@).drop_last()[9], schema_of(115).unwrap().drop_last()[9]));
        assert(fields_view(fs@).last() == fields_view(fs@)[10]);
    }
    let p = Packet::PKT_115 { mail_uid: get_i32(fs, 0), from_uid: get_i32(fs, 1), to_uid: get_i32(fs, 2), year: get_i16(fs, 3), month: get_i8(fs, 4), day: get_i8(fs, 5), hour: get_i8(fs, 6), minute: get_i8(fs, 7), second: get_i8(fs, 8), len: get_u16(fs, 9), utf8_text: get_bytes(fs, 10) };
    assert(packet_fields(p) =~= fields_view(fs@));
    Ok(p)
}

fn decode_118(fs: &[Field]) -> (r: Result<Packet, CodecError>)
    requires
        schema_of(118) is Some,
        body_match(schema_of(118).unwrap(), fields_view(fs@)),
    ensures
        r is Ok <==> fields_decodable(118, fields_view(fs@)),
        r is Ok ==> packet_id(r.unwrap()) == 118 && decoded_from(r.unwrap(), fields_view(fs@)),
        r is Ok ==> !(r.unwrap() is Unknown),
        r is Err ==> r == Err::<Packet, CodecError>(CodecError::Malformed),
{
    proof {
        assert(field_has_kind(fields_view(fs@).drop_last()[0], schema_of(118).unwrap().drop_last()[0]));
        assert(field_has_kind(fields_view(fs@).drop_last()[1], schema_of(118).unwrap().drop_last()[1]));
        assert(field_has_kind(fields_view(fs@).drop_last()[2], schema_of(118).unwrap().drop_last()[2]));
        assert(fields_view(fs@).last() == fields_view(fs@)[3]);
    }
    let p = Packet::PKT_118 { unk1: get_i32(fs, 0), unk2: get_i32(fs, 1), count: get_u32(fs, 2), users: get_words(fs, 3) };
    assert(packet_fields(p) =~= fields_view(fs@));
    Ok(p)
}

fn decode_131(fs: &[Field]) -> (r: Result<Packet, CodecError>)
    requires
        schema_of(131) is Some,
        body_match(schema_of(131).unwrap(), fields_view(fs@)),
    ensures
        r is Ok <==> fields_decodable(131, fields_view(fs@)),
        r is Ok ==> packet_id(r.unwrap()) == 131 && decoded_from(r.unwrap(), fields_view(fs@)),
        r is Ok ==> !(r.unwrap() is Unknown),
        r is Err ==> r == Err::<Packet, CodecError>(CodecError::Malformed),
{
    proof {
        assert(field_has_kind(fields_view(fs@)[0], schema_of(131).unwrap()[0]));
    }
    let p = Packet::PKT_131 { arg: get_i32(fs, 0) };
    assert(packet_fields(p) =~= fields_view(fs@));
    Ok(p)
}

fn decode_132(fs: &[Field]) -> (r: Result<Packet, CodecError>)
    requires
        schema_of(132) is Some,
        body_match(schema_of(132).unwrap(), fields_view(fs@)),
    ensures
        r is Ok <==> fields_decodable(132, fields_view(fs@)),
        r is Ok ==> packet_id(r.unwrap()) == 132 && decoded_from(r.unwrap(), fields_view(fs@)),
        r is Ok ==> !(r.unwrap() is Unknown),
        r is Err ==> r == Err::<Packet, CodecError>(CodecError::Malformed),
{
    proof {
        assert(field_has_kind(fields_view(fs@).drop_last()[0], schema_of(132).unwrap().drop_last()[0]));
        assert(fields_view(fs@).last() == fields_view(fs@)[1]);
    }
    let p = Packet::PKT_132 { count: get_u32(fs, 0), items: get_words(fs, 1) };
    assert(packet_fields(p) =~= fields_view(fs@));
    Ok(p)
}

fn decode_133(fs: &[Field]) -> (r: Result<Packet, CodecError>)
    requires
        schema_of(133) is Some,
        body_match(schema_of(133).unwrap(), fields_view(fs@)),
    ensures
        r is Ok <==> fields_decodable(133, fields_view(fs@)),
        r is Ok ==> packet_id(r.unwrap()) == 133 && decoded_from(r.unwrap(), fields_view(fs@)),
        r is Ok ==> !(r.unwrap() is Unknown),
        r is Err ==> r == Err::<Packet, CodecError>(CodecError::Malformed),
{
    proof {
        assert(field_has_kind(fields_view(fs@)[0], schema_of(133).unwrap()[0]));
    }
    let p = Packet::PKT_133 { arg: get_i32(fs, 0) };
    assert(packet_fields(p) =~= fields_view(fs@));
    Ok(p)
}

fn decode_134(fs: &[Field]) -> (r: Result<Packet, CodecError>)
    requires
        schema_of(134) is Some,
        body_match(schema_of(134).unwrap(), fields_view(fs@)),
    ensures
        r is Ok <==> fields_decodable(134, fields_view(fs@)),
        r is Ok ==> packet_id(r.unwrap()) == 134 && decoded_from(r.unwrap(), fields_view(fs@)),
        r is Ok ==> !(r.unwrap() is Unknown),
        r is Err ==> r == Err::<Packet, CodecError>(CodecError::Malformed),
{
    proof {
        assert(field_has_kind(fields_view(fs@)[0], schema_of(134).unwrap()[0]));
        assert(field_has_kind(fields_view(fs@)[1], schema_of(134).unwrap()[1]));
        assert(field_has_kind(fields_view(fs@)[2], schema_of(134).unwrap()[2]));
        assert(field_has_kind(fields_view(fs@)[3], schema_of(134).unwrap()[3]));
    }
    let p = Packet::PKT_134 { x4: get_i32(fs, 0), cid: get_i32(fs, 1), items: get_words(fs, 2), unk: get_bytes(fs, 3) };
    assert(packet_fields(p) =~= fields_view(fs@));
    Ok(p)
}

fn decode_137(fs: &[Field]) -> (r: Result<Packet, CodecError>)
    requires
        schema_of(137) is Some,
        body_match(schema_of(137).unwrap(), fields_view(fs@)),
    ensures
        r is Ok <==> fields_decodable(137, fields_view(fs@)),
        r is Ok ==> packet_id(r.unwrap()) == 137 && decoded_from(r.unwrap(), fields_view(fs@)),
        r is Ok ==> !(r.unwrap() is Unknown),
        r is Err ==> r == Err::<Packet, CodecError>(CodecError::Malformed),
{
    proof {
        assert(field_has_kind(fields_view(fs@)[0], schema_of(137).unwrap()[0]));
    }
    let p = Packet::PKT_137 { cid: get_i32(fs, 0) };
    assert(packet_fields(p) =~= fields_view(fs@));
    Ok(p)
}

fn decode_139(fs: &[Field]) -> (r: Result<Packet, CodecError>)
    requires
        schema_of(139) is Some,
        body_match(schema_of(139).unwrap(), fields_view(fs@)),
    ensures
        r is Ok <==> fields_decodable(139, fields_view(fs@)),
        r is Ok ==> packet_id(r.unwrap()) == 139 && decoded_from(r.unwrap(), fields_view(fs@)),
        r is Ok ==> !(r.unwrap() is Unknown),
        r is Err ==> r == Err::<Packet, CodecError>(CodecError::Malformed),
{
    proof {
        assert(field_has_kind(fields_view(fs@)[0], schema_of(139).unwrap()[0]));
        assert(field_has_kind(fields_view(fs@)[1], schema_of(139).unwrap()[1]));
    }
    let p = Packet::SEND_CRCHRUID { cid: get_i32(fs, 0), now_chr_uid: get_i32(fs, 1) };
    assert(packet_fields(p) =~= fields_view(fs@));
    Ok(p)
}

fn decode_145(fs: &[Field]) -> (r: Result<Packet, CodecError>)
    requires
        schema_of(145) is Some,
        body_match(schema_of(145).unwrap(), fields_view(fs@)),
    ensures
        r is Ok <==> fields_decodable(145, fields_view(fs@)),
        r is Ok ==> packet_id(r.unwrap()) == 145 && decoded_from(r.unwrap(), fields_view(fs@)),
        r is Ok ==> !(r.unwrap() is Unknown),
        r is Err ==> r == Err::<Packet, CodecError>(CodecError::Malformed),
{
    proof {
        assert(field_has_kind(fields_view(fs@)[0], schema_of(145).unwrap()[0]));
        assert(field_has_kind(fields_view(fs@)[1], schema_of(145).unwrap()[1]));
        assert(field_has_kind(fields_view(fs@)[2], schema_of(145).unwrap()[2]));
        assert(field_has_kind(fields_view(fs@)[3], schema_of(145).unwrap()[3]));
        assert(field_has_kind(fields_view(fs@)[4], schema_of(145).unwrap()[4]));
        assert(field_has_kind(fields_view(fs@)[5], schema_of(145).unwrap()[5]));
        assert(field_has_kind(fields_view(fs@)[6], schema_of(145).unwrap()[6]));
        assert(field_has_kind(fields_view(fs@)[7], schema_of(145).unwrap()[7]));
    }
    let p = Packet::REQ_CHG_CHR_PARAM { chr_uid: get_i32(fs, 0), cr_class: get_i8(fs, 1), power: get_i32(fs, 2), impact: get_i32(fs, 3), params: get_halves(fs, 4), club: get_u32(fs, 5), ball: get_u32(fs, 6), caddie: get_u32(fs, 7) };
    assert(packet_fields(p) =~= fields_view(fs@));
    Ok(p)
}

fn decode_146(fs: &[Field]) -> (r: Result<Packet, CodecError>)
    requires
        schema_of(146) is Some,
        body_match(schema_of(146).unwrap(), fields_view(fs@)),
    ensures
        r is Ok <==> fields_decodable(146, fields_view(fs@)),
        r is Ok ==> packet_id(r.unwrap()) == 146 && decoded_from(r.unwrap(), fields_view(fs@)),
        r is Ok ==> !(r.unwrap() is Unknown),
        r is Err ==> r == Err::<Packet, CodecError>(CodecError::Malformed),
{
    proof {
        assert(field_has_kind(fields_view(fs@)[0], schema_of(146).unwrap()[0]));
    }
    let p = Packet::ACK_CHG_CHR_PARAM { status: get_i8(fs, 0) };
    assert(packet_fields(p) =~= fields_view(fs@));
    Ok(p)
}

fn decode_148(fs: &[Field]) -> (r: Result<Packet, CodecError>)
    requires
        schema_of(148) is Some,
        body_match(schema_of(148).unwrap(), fields_view(fs@)),
    ensures
        r is Ok <==> fields_decodable(148, fields_view(fs@)),
        r is Ok ==> packet_id(r.unwrap()) == 148 && decoded_from(r.unwrap(), fields_view(fs@)),
        r is Ok ==> !(r.unwrap() is Unknown),
        r is Err ==> r == Err::<Packet, CodecError>(CodecError::Malformed),
{
    proof {
        assert(field_has_kind(fields_view(fs@).drop_last()[0], schema_of(148).unwrap().drop_last()[0]));
        assert(fields_view(fs@).last() == fields_view(fs@)[1]);
    }
    let p = Packet::SEND_SELL_CADDIE_LIST { count: get_u16(fs, 0), items: get_words(fs, 1) };
    assert(packet_fields(p) =~= fields_view(fs@));
    Ok(p)
}

fn decode_166(fs: &[Field]) -> (r: Result<Packet, CodecError>)
    requires
        schema_of(166) is Some,
        body_match(schema_of(166).unwrap(), fields_view(fs@)),
    ensures
        r is Ok <==> fields_decodable(166, fields_view(fs@)),
        r is Ok ==> packet_id(r.unwrap()) == 166 && decoded_from(r.unwrap(), fields_view(fs@)),
        r is Ok ==> !(r.unwrap() is Unknown),
        r is Err ==> r == Err::<Packet, CodecError>(CodecError::Malformed),
{
    assert(packet_fields(Packet::PKT_166) =~= fields_view(fs@));
    Ok(Packet::PKT_166)
}

fn decode_167(fs: &[Field]) -> (r: Result<Packet, CodecError>)
    requires
        schema_of(167) is Some,
        body_match(schema_of(167).unwrap(), fields_view(fs@)),
    ensures
        r is Ok <==> fields_decodable(167, fields_view(fs@)),
        r is Ok ==> packet_id(r.unwrap()) == 167 && decoded_from(r.unwrap(), fields_view(fs@)),
        r is Ok ==> !(r.unwrap() is Unknown),
        r is Err ==> r == Err::<Packet, CodecError>(CodecError::Malformed),
{
    proof {
        assert(field_has_kind(fields_view(fs@).drop_last()[0], schema_of(167).unwrap().drop_last()[0]));
        assert(fields_view(fs@).last() == fields_view(fs@)[1]);
    }
    let p = Packet::SEND_SALON_ITEM_LIST { count: get_u16(fs, 0), items: get_words(fs, 1) };
    assert(packet_fields(p) =~= fields_view(fs@));
    Ok(p)
}

fn decode_180(fs: &[Field]) -> (r: Result<Packet, CodecError>)
    requires
        schema_of(180) is Some,
        body_match(schema_of(180).unwrap(), fields_view(fs@)),
    ensures
        r is Ok <==> fields_decodable(180, fields_view(fs@)),
        r is Ok ==> packet_id(r.unwrap()) == 180 && decoded_from(r.unwrap(), fields_view(fs@)),
        r is Ok ==> !(r.unwrap() is Unknown),
        r is Err ==> r == Err::<Packet, CodecError>(CodecError::Malformed),
{
    proof {
        assert(field_has_kind(fields_view(fs@)[0], schema_of(180).unwrap()[0]));
    }
    let p = Packet::REQ_UDATA { uid: get_i32(fs, 0) };
    assert(packet_fields(p) =~= fields_view(fs@));
    Ok(p)
}

fn decode_183(fs: &[Field]) -> (r: Result<Packet, CodecError>)
    requires
        schema_of(183) is Some,
        body_match(schema_of(183).unwrap(), fields_view(fs@)),
    ensures
        r is Ok <==> fields_decodable(183, fields_view(fs@)),
        r is Ok ==> packet_id(r.unwrap()) == 183 && decoded_from(r.unwrap(), fields_view(fs@)),
        r is Ok ==> !(r.unwrap() is Unknown),
        r is Err ==> r == Err::<Packet, CodecError>(CodecError::Malformed),
{
    proof {
        assert(field_has_kind(fields_view(fs@).drop_last()[0], schema_of(183).unwrap().drop_last()[0]));
        assert(fields_view(fs@).last() == fields_view(fs@)[1]);
    }
    let p = Packet::PKT_183 { count: get_u8(fs, 0), entries: get_bytes(fs, 1) };
    assert(packet_fields(p) =~= fields_view(fs@));
    Ok(p)
}

fn decode_185(fs: &[Field]) -> (r: Result<Packet, CodecError>)
    requires
        schema_of(185) is Some,
        body_match(schema_of(185).unwrap(), fields_view(fs@)),
    ensures
        r is Ok <==> fields_decodable(185, fields_view(fs@)),
        r is Ok ==> packet_id(r.unwrap()) == 185 && decoded_from(r.unwrap(), fields_view(fs@)),
        r is Ok ==> !(r.unwrap() is Unknown),
        r is Err ==> r == Err::<Packet, CodecError>(CodecError::Malformed),
{
    proof {
        assert(field_has_kind(fields_view(fs@)[0], schema_of(185).unwrap()[0]));
    }
    let p = Packet::CLIENT_LOADSTAT2 { progress: get_i8(fs, 0) };
    assert(packet_fields(p) =~= fields_view(fs@));
    Ok(p)
}

fn decode_186(fs: &[Field]) -> (r: Result<Packet, CodecError>)
    requires
        schema_of(186) is Some,
        body_match(schema_of(186).unwrap(), fields_view(fs@)),
    ensures
        r is Ok <==> fields_decodable(186, fields_view(fs@)),
        r is Ok ==> packet_id(r.unwrap()) == 186 && decoded_from(r.unwrap(), fields_view(fs@)),
        r is Ok ==> !(r.unwrap() is Unknown),
        r is Err ==> r == Err::<Packet, CodecError>(CodecError::Malformed),
{
    proof {
        assert(field_has_kind(fields_view(fs@)[0], schema_of(186).unwrap()[0]));
        assert(field_has_kind(fields_view(fs@)[1], schema_of(186).unwrap()[1]));
    }
    let p = Packet::SEND_LOADSTAT2 { cid: get_i32(fs, 0), progress: get_i8(fs, 1) };
    assert(packet_fields(p) =~= fields_view(fs@));
    Ok(p)
}

fn decode_187(fs: &[Field]) -> (r: Result<Packet, CodecError>)
    requires
        schema_of(187) is Some,
        body_match(schema_of(187).unwrap(), fields_view(fs@)),
    ensures
        r is Ok <==> fields_decodable(187, fields_view(fs@)),
        r is Ok ==> packet_id(r.unwrap()) == 187 && decoded_from(r.unwrap(), fields_view(fs@)),
        r is Ok ==> !(r.unwrap() is Unknown),
        r is Err ==> r == Err::<Packet, CodecError>(CodecError::Malformed),
{
    proof {
        assert(field_has_kind(fields_view(fs@)[0], schema_of(187).unwrap()[0]));
    }
    let p = Packet::ACK_GAMESTART { status: get_i8(fs, 0) };
    assert(packet_fields(p) =~= fields_view(fs@));
    Ok(p)
}

fn decode_189(fs: &[Field]) -> (r: Result<Packet, CodecError>)
    requires
        schema_of(189) is Some,
        body_match(schema_of(189).unwrap(), fields_view(fs@)),
    ensures
        r is Ok <==> fields_decodable(189, fields_view(fs@)),
        r is Ok ==> packet_id(r.unwrap()) == 189 && decoded_from(r.unwrap(), fields_view(fs@)),
        r is Ok ==> !(r.unwrap() is Unknown),
        r is Err ==> r == Err::<Packet, CodecError>(CodecError::Malformed),
{
    proof {
        assert(field_has_kind(fields_view(fs@)[0], schema_of(189).unwrap()[0]));
    }
    let p = Packet::PKT_189 { hold_item: get_words(fs, 0) };
    assert(packet_fields(p) =~= fields_view(fs@));
    Ok(p)
}

fn decode_190(fs: &[Field]) -> (r: Result<Packet, CodecError>)
    requires
        schema_of(190) is Some,
        body_match(schema_of(190).unwrap(), fields_view(fs@)),
    ensures
        r is Ok <==> fields_decodable(190, fields_view(fs@)),
        r is Ok ==> packet_id(r.unwrap()) == 190 && decoded_from(r.unwrap(), fields_view(fs@)),
        r is Ok ==> !(r.unwrap() is Unknown),
        r is Err ==> r == Err::<Packet, CodecError>(CodecError::Malformed),
{
    proof {
        assert(field_has_kind(fields_view(fs@)[0], schema_of(190).unwrap()[0]));
    }
    let p = Packet::ACK_CHG_HOLDBOX { status: get_i8(fs, 0) };
    assert(packet_fields(p) =~= fields_view(fs@));
    Ok(p)
}

fn decode_231(fs: &[Field]) -> (r: Result<Packet, CodecError>)
    requires
        schema_of(231) is Some,
        body_match(schema_of(231).unwrap(), fields_view(fs@)),
    ensures
        r is Ok <==> fields_decodable(231, fields_view(fs@)),
        r is Ok ==> packet_id(r.unwrap()) == 231 && decoded_from(r.unwrap(), fields_view(fs@)),
        r is Ok ==> !(r.unwrap() is Unknown),
        r is Err ==> r == Err::<Packet, CodecError>(CodecError::Malformed),
{
    proof {
        assert(field_has_kind(fields_view(fs@).drop_last()[0], schema_of(231).unwrap().drop_last()[0]));
        assert(fields_view(fs@).last() == fields_view(fs@)[1]);
    }
    let p = Packet::PKT_231 { count: get_u32(fs, 0), list: get_words(fs, 1) };
    assert(packet_fields(p) =~= fields_view(fs@));
    Ok(p)
}

fn decode_237(fs: &[Field]) -> (r: Result<Packet, CodecError>)
    requires
        schema_of(237) is Some,
        body_match(schema_of(237).unwrap(), fields_view(fs@)),
    ensures
        r is Ok <==> fields_decodable(237, fields_view(fs@)),
        r is Ok ==> packet_id(r.unwrap()) == 237 && decoded_from(r.unwrap(), fields_view(fs@)),
        r is Ok ==> !(r.unwrap() is Unknown),
        r is Err ==> r == Err::<Packet, CodecError>(CodecError::Malformed),
{
    proof {
        assert(field_has_kind(fields_view(fs@).drop_last()[0], schema_of(237).unwrap().drop_last()[0]));
        assert(fields_view(fs@).last() == fields_view(fs@)[1]);
    }
    let p = Packet::SEND_MP_TABLE { count: get_u32(fs, 0), table: get_words(fs, 1) };
    assert(packet_fields(p) =~= fields_view(fs@));
    Ok(p)
}

fn decode_256(fs: &[Field]) -> (r: Result<Packet, CodecError>)
    requires
        schema_of(256) is Some,
        body_match(schema_of(256).unwrap(), fields_view(fs@)),
    ensures
        r is Ok <==> fields_decodable(256, fields_view(fs@)),
        r is Ok ==> packet_id(r.unwrap()) == 256 && decoded_from(r.unwrap(), fields_view(fs@)),
        r is Ok ==> !(r.unwrap() is Unknown),
        r is Err ==> r == Err::<Packet, CodecError>(CodecError::Malformed),
{
    proof {
        assert(field_has_kind(fields_view(fs@).drop_last()[0], schema_of(256).unwrap().drop_last()[0]));
        assert(fields_view(fs@).last() == fields_view(fs@)[1]);
    }
    let p = Packet::SEND_COMP_ITEM { count: get_u32(fs, 0), items: get_words(fs, 1) };
    assert(packet_fields(p) =~= fields_view(fs@));
    Ok(p)
}

fn decode_264(fs: &[Field]) -> (r: Result<Packet, CodecError>)
    requires
        schema_of(264) is Some,
        body_match(schema_of(264).unwrap(), fields_view(fs@)),
    ensures
        r is Ok <==> fields_decodable(264, fields_view(fs@)),
        r is Ok ==> packet_id(r.unwrap()) == 264 && decoded_from(r.unwrap(), fields_view(fs@)),
        r is Ok ==> !(r.unwrap() is Unknown),
        r is Err ==> r == Err::<Packet, CodecError>(CodecError::Malformed),
{
    proof {
        assert(field_has_kind(fields_view(fs@).drop_last()[0], schema_of(264).unwrap().drop_last()[0]));
        assert(fields_view(fs@).last() == fields_view(fs@)[1]);
    }
    let p = Packet::PKT_264 { count: get_u16(fs, 0), items: get_bytes(fs, 1) };
    assert(packet_fields(p) =~= fields_view(fs@));
    Ok(p)
}

fn decode_268(fs: &[Field]) -> (r: Result<Packet, CodecError>)
    requires
        schema_of(268) is Some,
        body_match(schema_of(268).unwrap(), fields_view(fs@)),
    ensures
        r is Ok <==> fields_decodable(268, fields_view(fs@)),
        r is Ok ==> packet_id(r.unwrap()) == 268 && decoded_from(r.unwrap(), fields_view(fs@)),
        r is Ok ==> !(r.unwrap() is Unknown),
        r is Err ==> r == Err::<Packet, CodecError>(CodecError::Malformed),
{
    assert(packet_fields(Packet::GET_MODECTRL) =~= fields_view(fs@));
    Ok(Packet::GET_MODECTRL)
}

fn decode_269(fs: &[Field]) -> (r: Result<Packet, CodecError>)
    requires
        schema_of(269) is Some,
        body_match(schema_of(269).unwrap(), fields_view(fs@)),
    ensures
        r is Ok <==> fields_decodable(269, fields_view(fs@)),
        r is Ok ==> packet_id(r.unwrap()) == 269 && decoded_from(r.unwrap(), fields_view(fs@)),
        r is Ok ==> !(r.unwrap() is Unknown),
        r is Err ==> r == Err::<Packet, CodecError>(CodecError::Malformed),
{
    proof {
        assert(field_has_kind(fields_view(fs@)[0], schema_of(269).unwrap()[0]));
    }
    let p = Packet::SEND_MODECTRL { flags: get_bytes(fs, 0) };
    assert(packet_fields(p) =~= fields_view(fs@));
    Ok(p)
}

fn decode_274(fs: &[Field]) -> (r: Result<Packet, CodecError>)
    requires
        schema_of(274) is Some,
        body_match(schema_of(274).unwrap(), fields_view(fs@)),
    ensures
        r is Ok <==> fields_decodable(274, fields_view(fs@)),
        r is Ok ==> packet_id(r.unwrap()) == 274 && decoded_from(r.unwrap(), fields_view(fs@)),
        r is Ok ==> !(r.unwrap() is Unknown),
        r is Err ==> r == Err::<Packet, CodecError>(CodecError::Malformed),
{
    assert(packet_fields(Packet::PKT_274) =~= fields_view(fs@));
    Ok(Packet::PKT_274)
}

fn decode_275(fs: &[Field]) -> (r: Result<Packet, CodecError>)
    requires
        schema_of(275) is Some,
        body_match(schema_of(275).unwrap(), fields_view(fs@)),
    ensures
        r is Ok <==> fields_decodable(275, fields_view(fs@)),
        r is Ok ==> packet_id(r.unwrap()) == 275 && decoded_from(r.unwrap(), fields_view(fs@)),
        r is Ok ==> !(r.unwrap() is Unknown),
        r is Err ==> r == Err::<Packet, CodecError>(CodecError::Malformed),
{
    proof {
        assert(field_has_kind(fields_view(fs@)[0], schema_of(275).unwrap()[0]));
        assert(field_has_kind(fields_view(fs@)[1], schema_of(275).unwrap()[1]));
    }
    let p = Packet::PKT_275 { count: get_i32(fs, 0), items: get_words(fs, 1) };
    assert(packet_fields(p) =~= fields_view(fs@));
    Ok(p)
}

fn decode_304(fs: &[Field]) -> (r: Result<Packet, CodecError>)
    requires
        schema_of(304) is Some,
        body_match(schema_of(304).unwrap(), fields_view(fs@)),
    ensures
        r is Ok <==> fields_decodable(304, fields_view(fs@)),
        r is Ok ==> packet_id(r.unwrap()) == 304 && decoded_from(r.unwrap(), fields_view(fs@)),
        r is Ok ==> !(r.unwrap() is Unknown),
        r is Err ==> r == Err::<Packet, CodecError>(CodecError::Malformed),
{
    proof {
        assert(field_has_kind(fields_view(fs@).drop_last()[0], schema_of(304).unwrap().drop_last()[0]));
        assert(field_has_kind(fields_view(fs@).drop_last()[1], schema_of(304).unwrap().drop_last()[1]));
        assert(fields_view(fs@).last() == fields_view(fs@)[2]);
    }
    let p = Packet::PKT_304 { unk: get_bytes(fs, 0), len: get_u16(fs, 1), text: get_halves(fs, 2) };
    assert(packet_fields(p) =~= fields_view(fs@));
    Ok(p)
}

fn decode_307(fs: &[Field]) -> (r: Result<Packet, CodecError>)
    requires
        schema_of(307) is Some,
        body_match(schema_of(307).unwrap(), fields_view(fs@)),
    ensures
        r is Ok <==> fields_decodable(307, fields_view(fs@)),
        r is Ok ==> packet_id(r.unwrap()) == 307 && decoded_from(r.unwrap(), fields_view(fs@)),
        r is Ok ==> !(r.unwrap() is Unknown),
        r is Err ==> r == Err::<Packet, CodecError>(CodecError::Malformed),
{
    proof {
        assert(field_has_kind(fields_view(fs@)[0], schema_of(307).unwrap()[0]));
    }
    let p = Packet::ACK_ULIST_R { status: get_i8(fs, 0) };
    assert(packet_fields(p) =~= fields_view(fs@));
    Ok(p)
}

fn decode_312(fs: &[Field]) -> (r: Result<Packet, CodecError>)
    requires
        schema_of(312) is Some,
        body_match(schema_of(312).unwrap(), fields_view(fs@)),
    ensures
        r is Ok <==> fields_decodable(312, fields_view(fs@)),
        r is Ok ==> packet_id(r.unwrap()) == 312 && decoded_from(r.unwrap(), fields_view(fs@)),
        r is Ok ==> !(r.unwrap() is Unknown),
        r is Err ==> r == Err::<Packet, CodecError>(CodecError::Malformed),
{
    proof {
        assert(field_has_kind(fields_view(fs@).drop_last()[0], schema_of(312).unwrap().drop_last()[0]));
        assert(fields_view(fs@).last() == fields_view(fs@)[1]);
    }
    let p = Packet::SEND_CLUBDATA { count: get_u32(fs, 0), clubdata: get_bytes(fs, 1) };
    assert(packet_fields(p) =~= fields_view(fs@));
    Ok(p)
}

fn decode_316(fs: &[Field]) -> (r: Result<Packet, CodecError>)
    requires
        schema_of(316) is Some,
        body_match(schema_of(316).unwrap(), fields_view(fs@)),
    ensures
        r is Ok <==> fields_decodable(316, fields_view(fs@)),
        r is Ok ==> packet_id(r.unwrap()) == 316 && decoded_from(r.unwrap(), fields_view(fs@)),
        r is Ok ==> !(r.unwrap() is Unknown),
        r is Err ==> r == Err::<Packet, CodecError>(CodecError::Malformed),
{
    proof {
        assert(field_has_kind(fields_view(fs@).drop_last()[0], schema_of(316).unwrap().drop_last()[0]));
        assert(fields_view(fs@).last() == fields_view(fs@)[1]);
    }
    let p = Packet::PKT_316 { len: get_u16(fs, 0), message: get_halves(fs, 1) };
    assert(packet_fields(p) =~= fields_view(fs@));
    Ok(p)
}

} // verus!

verus! {

/// A copy of a well-formed message of the catalog: same opcode, same fields.
pub fn duplicate(p: &Packet) -> (r: Packet)
    requires
        packet_wf(*p),
        !(p is Unknown),
    ensures
        packet_id(r) == packet_id(*p),
        packet_fields(r) == packet_fields(*p),
        packet_wf(r),
{
    proof {
        crate::frame::lemma_wf_facts(*p);
    }
    let id = p.id();
    match p.to_fields() {
        Ok(fs) => match Packet::from_fields(id, fs.as_slice()) {
            Ok(q) => {
                proof {
                    crate::frame::lemma_decoded_same(*p, q);
                    lemma_same_fields_wf(*p, q);
                }
                q
            },
            Err(_) => Packet::Unknown { id: 0 },
        },
        Err(_) => Packet::Unknown { id: 0 },
    }
}

#[verifier::spinoff_prover]
#[verifier::rlimit(100)]
proof fn lemma_same_fields_wf(p: Packet, q: Packet)
    requires
        packet_wf(p),
        !(p is Unknown),
        packet_id(q) == packet_id(p),
        packet_fields(q) == packet_fields(p),
        decoded_from(q, packet_fields(p)),
        !(q is Unknown),
    ensures
        packet_wf(q),
{
    crate::frame::lemma_wf_facts(p);
    match (p, q) {
        (Packet::SET_FIRST_CHARACTER_APPEARANCE(a), Packet::SET_FIRST_CHARACTER_APPEARANCE(b)) => {
            crate::appearance::lemma_appearance_words_round_trip(a);
            assert(b == a);
        },
        (Packet::SEND_APPEAR { appear: a, .. }, Packet::SEND_APPEAR { appear: b, .. }) => {
            crate::appearance::lemma_appearance_words_round_trip(a);
            assert(b == a);
        },
        (Packet::REQ_CHG_APPEAR { appear: a, .. }, Packet::REQ_CHG_APPEAR { appear: b, .. }) => {
            crate::appearance::lemma_appearance_words_round_trip(a);
            assert(b == a);
        },
        _ => {},
    }
}

} // verus!

verus! {

impl Packet19 {
    /// A room description that carries only a failure code in `room`.
    pub fn create_error(mode: i8, lobby: i8, code: i8) -> (r: Packet19)
        ensures
            r.mode == mode,
            r.lobby == lobby,
            r.room == code,
            r.flag == 0 && r.member == 0 && r.member_max == 0,
            fields_match(packet19_schema(), packet19_fields(r)),
    {
        let r = Packet19 {
            mode,
            lobby,
            room: code,
            flag: 0,
            member_max: 0,
            member: 0,
            watcher: 0,
            rules: 0,
            time_limit: 0,
            course: 0,
            season: 0,
            num_holes: 0,
            course_setting: 0,
            limits: vec![0u8, 0, 0, 0, 0, 0, 0],
            room_name: zero_units(33),
            room_password: zero_units(17),
        };
        let ok = r.fits();
        assert(ok);
        r
    }
}

/// `n` null units.
pub fn zero_units(n: usize) -> (r: Vec<u16>)
    ensures
        r@.len() == n,
        forall|i: int| 0 <= i < n ==> r@[i] == 0,
{
    let mut r: Vec<u16> = Vec::new();
    let mut k: usize = 0;
    while k < n
        invariant
            k <= n,
            r@.len() == k,
            forall|i: int| 0 <= i < k ==> r@[i] == 0,
        decreases n - k,
    {
        r.push(0);
        k += 1;
    }
    r
}

} // verus!

verus! {

/// A well-formed room description has its name, password and limits at their sizes.
pub proof fn lemma_packet19_lengths(d: Packet19)
    requires
        fields_match(packet19_schema(), packet19_fields(d)),
    ensures
        d.limits@.len() == 7,
        d.room_name@.len() == 33,
        d.room_password@.len() == 17,
{
    assert(field_has_kind(packet19_fields(d)[13], packet19_schema()[13]));
    assert(field_has_kind(packet19_fields(d)[14], packet19_schema()[14]));
    assert(field_has_kind(packet19_fields(d)[15], packet19_schema()[15]));
}

} // verus!
