//! A player character's appearance: nine 32-bit words of bit-packed fields.

use vstd::prelude::*;
use crate::bytes::{CodecError, words_le, get_words, push_words, read_words, lemma_get_words, lemma_words_le_len};
use crate::character::{CharID, char_index, char_of_index};

verus! {

/// The decoded value of a 10-bit optional field: 0 means absent, `v` in
/// 1..=0x3FE stands for `v - 1`, and 0x3FF is read as absent too.
pub open spec fn optional_value(v: u32) -> Option<u16> {
    if 1 <= v <= 0x3FE {
        Some((v - 1) as u16)
    } else {
        None
    }
}

/// An optional value fits its field when it is absent or at most 0x3FD.
pub open spec fn optional_fits(o: Option<u16>) -> bool {
    match o {
        Some(n) => n <= 0x3FD,
        None => true,
    }
}

/// The field value of an optional value that fits.
pub open spec fn optional_code(o: Option<u16>) -> u32 {
    match o {
        Some(n) => (n + 1) as u32,
        None => 0,
    }
}

pub fn unpack_optional(input: u32) -> (r: Option<u16>)
    ensures
        r == optional_value(input),
{
    if 1 <= input && input <= 0x3FE {
        Some((input - 1) as u16)
    } else {
        None
    }
}

pub fn pack_optional(input: Option<u16>) -> (r: Result<u32, CodecError>)
    ensures
        r is Ok <==> optional_fits(input),
        r is Ok ==> r.unwrap() == optional_code(input),
        r is Err ==> r == Err::<u32, CodecError>(CodecError::OutOfRange),
{
    match input {
        None => Ok(0),
        Some(num) => {
            if num <= 0x3FD {
                Ok((num + 1) as u32)
            } else {
                Err(CodecError::OutOfRange)
            }
        },
    }
}

/// Packing an optional value and unpacking the field gives it back; a value above
/// 0x3FD is refused.
pub proof fn lemma_optional_round_trip(o: Option<u16>)
    ensures
        optional_fits(o) ==> optional_code(o) <= 0x3FE && optional_value(optional_code(o)) == o,
        optional_fits(None),
        optional_value(optional_code(None)) == None::<u16>,
        !optional_fits(Some(0x3FEu16)),
        !optional_fits(Some(0x3FFu16)),
        optional_value(0x3FF) == None::<u16>,
{
}

/// Always describes a player figure of one of the seven characters.
#[derive(Clone, Copy, Debug, PartialEq, Eq, Structural)]
pub struct Appearance {
    pub character_id: CharID,
    pub head: Option<u16>,
    pub face: Option<u16>,
    pub glasses: Option<u16>,
    pub tops: Option<u16>,
    pub bottoms: Option<u16>,
    pub shoes: Option<u16>,
    pub gloves: Option<u16>,
    pub wing: Option<u16>,
    pub club: Option<u16>,
    pub skirt: Option<u16>,
    pub hair_style: u16,
    pub hair_color: u16,
    pub eye_color: u16,
    pub skin_color: u16,
    pub face_paint: u16,
    pub default_tops: Option<u16>,
    pub default_bottoms: Option<u16>,
    pub default_shoes: Option<u16>,
    pub default_hair_color: u16,
    pub default_eye_color: u16,
    pub default_skin_color: u16,
}

/// Every field fits its bit range: optional fields at most 0x3FD, the 10-bit
/// fields at most 0x3FF, the 8-bit colour fields at most 0xFF.
pub open spec fn appearance_fits(a: Appearance) -> bool {
    &&& optional_fits(a.head)
    &&& optional_fits(a.face)
    &&& optional_fits(a.glasses)
    &&& optional_fits(a.tops)
    &&& optional_fits(a.bottoms)
    &&& optional_fits(a.shoes)
    &&& optional_fits(a.gloves)
    &&& optional_fits(a.wing)
    &&& optional_fits(a.club)
    &&& optional_fits(a.skirt)
    &&& optional_fits(a.default_tops)
    &&& optional_fits(a.default_bottoms)
    &&& optional_fits(a.default_shoes)
    &&& a.hair_style <= 0x3FF
    &&& a.hair_color <= 0x3FF
    &&& a.face_paint <= 0x3FF
    &&& a.default_hair_color <= 0x3FF
    &&& a.eye_color <= 0xFF
    &&& a.skin_color <= 0xFF
    &&& a.default_eye_color <= 0xFF
    &&& a.default_skin_color <= 0xFF
}

/// The nine wire words of an appearance.
pub open spec fn appearance_words(a: Appearance) -> Seq<u32> {
    seq![
        (char_index(a.character_id) << 2) | ((a.face_paint as u32) << 8) | (optional_code(a.head) << 18),
        optional_code(a.glasses) | (optional_code(a.tops) << 10) | (optional_code(a.bottoms) << 20),
        optional_code(a.shoes) | (optional_code(a.gloves) << 10) | (optional_code(a.wing) << 20),
        optional_code(a.club) | (optional_code(a.face) << 10) | (optional_code(a.skirt) << 20),
        0u32,
        ((a.hair_style as u32) << 10) | ((a.hair_color as u32) << 20),
        (a.eye_color as u32) | ((a.skin_color as u32) << 8) | (optional_code(a.default_tops) << 16),
        optional_code(a.default_bottoms) | (optional_code(a.default_shoes) << 10) | ((a.default_hair_color as u32) << 20),
        (a.default_eye_color as u32) | ((a.default_skin_color as u32) << 8),
    ]
}

/// The appearance that nine wire words describe; none when the character
/// sub-field names no character.
pub open spec fn appearance_of_words(w: Seq<u32>) -> Option<Appearance> {
    match char_of_index((w[0] >> 2) & 0x3F) {
        None => None,
        Some(c) => Some(
            Appearance {
                character_id: c,
                face_paint: ((w[0] >> 8) & 0x3FF) as u16,
                head: optional_value((w[0] >> 18) & 0x3FF),
                glasses: optional_value(w[1] & 0x3FF),
                tops: optional_value((w[1] >> 10) & 0x3FF),
                bottoms: optional_value((w[1] >> 20) & 0x3FF),
                shoes: optional_value(w[2] & 0x3FF),
                gloves: optional_value((w[2] >> 10) & 0x3FF),
                wing: optional_value((w[2] >> 20) & 0x3FF),
                club: optional_value(w[3] & 0x3FF),
                face: optional_value((w[3] >> 10) & 0x3FF),
                skirt: optional_value((w[3] >> 20) & 0x3FF),
                hair_style: ((w[5] >> 10) & 0x3FF) as u16,
                hair_color: ((w[5] >> 20) & 0x3FF) as u16,
                eye_color: (w[6] & 0xFF) as u16,
                skin_color: ((w[6] >> 8) & 0xFF) as u16,
                default_tops: optional_value((w[6] >> 16) & 0x3FF),
                default_bottoms: optional_value(w[7] & 0x3FF),
                default_shoes: optional_value((w[7] >> 10) & 0x3FF),
                default_hair_color: ((w[7] >> 20) & 0x3FF) as u16,
                default_eye_color: (w[8] & 0xFF) as u16,
                default_skin_color: ((w[8] >> 8) & 0xFF) as u16,
            },
        ),
    }
}

/// The 36 wire bytes of an appearance.
pub open spec fn appearance_bytes(a: Appearance) -> Seq<u8> {
    words_le(appearance_words(a))
}

/// The appearance at the start of `s`, if `s` holds one.
pub open spec fn appearance_of_bytes(s: Seq<u8>) -> Option<Appearance> {
    if s.len() < 36 {
        None
    } else {
        appearance_of_words(get_words(s, 0, 9))
    }
}

proof fn lemma_three_tens(a: u32, b: u32, c: u32)
    requires
        a <= 0x3FF,
        b <= 0x3FF,
        c <= 0x3FF,
    ensures
        (a | (b << 10) | (c << 20)) & 0x3FF == a,
        ((a | (b << 10) | (c << 20)) >> 10) & 0x3FF == b,
        ((a | (b << 10) | (c << 20)) >> 20) & 0x3FF == c,
{
    assert((a | (b << 10) | (c << 20)) & 0x3FF == a && ((a | (b << 10) | (c << 20)) >> 10)
        & 0x3FF == b && ((a | (b << 10) | (c << 20)) >> 20) & 0x3FF == c) by (bit_vector)
        requires
            a <= 0x3FF,
            b <= 0x3FF,
            c <= 0x3FF,
    ;
}

proof fn lemma_first_word(c: u32, p: u32, h: u32)
    requires
        c <= 0x3F,
        p <= 0x3FF,
        h <= 0x3FF,
    ensures
        (((c << 2) | (p << 8) | (h << 18)) >> 2) & 0x3F == c,
        (((c << 2) | (p << 8) | (h << 18)) >> 8) & 0x3FF == p,
        (((c << 2) | (p << 8) | (h << 18)) >> 18) & 0x3FF == h,
{
    assert((((c << 2) | (p << 8) | (h << 18)) >> 2) & 0x3F == c && (((c << 2) | (p << 8) | (h
        << 18)) >> 8) & 0x3FF == p && (((c << 2) | (p << 8) | (h << 18)) >> 18) & 0x3FF == h)
        by (bit_vector)
        requires
            c <= 0x3F,
            p <= 0x3FF,
            h <= 0x3FF,
    ;
}

proof fn lemma_hair_word(s: u32, c: u32)
    requires
        s <= 0x3FF,
        c <= 0x3FF,
    ensures
        (((s << 10) | (c << 20)) >> 10) & 0x3FF == s,
        (((s << 10) | (c << 20)) >> 20) & 0x3FF == c,
{
    assert((((s << 10) | (c << 20)) >> 10) & 0x3FF == s && (((s << 10) | (c << 20)) >> 20)
        & 0x3FF == c) by (bit_vector)
        requires
            s <= 0x3FF,
            c <= 0x3FF,
    ;
}

proof fn lemma_colour_word(e: u32, k: u32, t: u32)
    requires
        e <= 0xFF,
        k <= 0xFF,
        t <= 0x3FF,
    ensures
        (e | (k << 8) | (t << 16)) & 0xFF == e,
        ((e | (k << 8) | (t << 16)) >> 8) & 0xFF == k,
        ((e | (k << 8) | (t << 16)) >> 16) & 0x3FF == t,
        (e | (k << 8)) & 0xFF == e,
        ((e | (k << 8)) >> 8) & 0xFF == k,
{
    assert((e | (k << 8) | (t << 16)) & 0xFF == e && ((e | (k << 8) | (t << 16)) >> 8) & 0xFF
        == k && ((e | (k << 8) | (t << 16)) >> 16) & 0x3FF == t && (e | (k << 8)) & 0xFF == e
        && ((e | (k << 8)) >> 8) & 0xFF == k) by (bit_vector)
        requires
            e <= 0xFF,
            k <= 0xFF,
            t <= 0x3FF,
    ;
}

/// For every appearance whose fields fit, decoding its words gives it back.
pub proof fn lemma_appearance_words_round_trip(a: Appearance)
    requires
        appearance_fits(a),
    ensures
        appearance_of_words(appearance_words(a)) == Some(a),
{
    let w = appearance_words(a);
    lemma_optional_round_trip(a.head);
    lemma_optional_round_trip(a.face);
    lemma_optional_round_trip(a.glasses);
    lemma_optional_round_trip(a.tops);
    lemma_optional_round_trip(a.bottoms);
    lemma_optional_round_trip(a.shoes);
    lemma_optional_round_trip(a.gloves);
    lemma_optional_round_trip(a.wing);
    lemma_optional_round_trip(a.club);
    lemma_optional_round_trip(a.skirt);
    lemma_optional_round_trip(a.default_tops);
    lemma_optional_round_trip(a.default_bottoms);
    lemma_optional_round_trip(a.default_shoes);
    lemma_first_word(char_index(a.character_id), a.face_paint as u32, optional_code(a.head));
    lemma_three_tens(optional_code(a.glasses), optional_code(a.tops), optional_code(a.bottoms));
    lemma_three_tens(optional_code(a.shoes), optional_code(a.gloves), optional_code(a.wing));
    lemma_three_tens(optional_code(a.club), optional_code(a.face), optional_code(a.skirt));
    lemma_hair_word(a.hair_style as u32, a.hair_color as u32);
    lemma_colour_word(
        a.eye_color as u32,
        a.skin_color as u32,
        optional_code(a.default_tops),
    );
    lemma_three_tens(
        optional_code(a.default_bottoms),
        optional_code(a.default_shoes),
        a.default_hair_color as u32,
    );
    lemma_colour_word(a.default_eye_color as u32, a.default_skin_color as u32, 0);
    assert(char_of_index(char_index(a.character_id)) == Some(a.character_id));
    let d = appearance_of_words(w).unwrap();
    assert(d == a);
}

/// For every appearance whose fields fit, decoding its encoding gives it back.
pub proof fn lemma_appearance_round_trip(a: Appearance)
    requires
        appearance_fits(a),
    ensures
        appearance_of_bytes(appearance_bytes(a)) == Some(a),
{
    let w = appearance_words(a);
    lemma_words_le_len(w);
    lemma_get_words(Seq::empty(), w, Seq::empty());
    assert(Seq::<u8>::empty() + words_le(w) + Seq::<u8>::empty() == words_le(w));
    lemma_appearance_words_round_trip(a);
}

impl Appearance {
    /// Whether every field fits its bit range.
    pub fn fits(&self) -> (r: bool)
        ensures
            r == appearance_fits(*self),
    {
        optional_fits_exec(self.head) && optional_fits_exec(self.face) && optional_fits_exec(
            self.glasses,
        ) && optional_fits_exec(self.tops) && optional_fits_exec(self.bottoms)
            && optional_fits_exec(self.shoes) && optional_fits_exec(self.gloves)
            && optional_fits_exec(self.wing) && optional_fits_exec(self.club) && optional_fits_exec(
            self.skirt,
        ) && optional_fits_exec(self.default_tops) && optional_fits_exec(self.default_bottoms)
            && optional_fits_exec(self.default_shoes) && self.hair_style <= 0x3FF
            && self.hair_color <= 0x3FF && self.face_paint <= 0x3FF && self.default_hair_color
            <= 0x3FF && self.eye_color <= 0xFF && self.skin_color <= 0xFF
            && self.default_eye_color <= 0xFF && self.default_skin_color <= 0xFF
    }

    /// The nine wire words, or a range error when a field does not fit.
    pub fn to_words(&self) -> (r: Result<Vec<u32>, CodecError>)
        ensures
            r is Ok <==> appearance_fits(*self),
            r is Ok ==> r.unwrap()@ == appearance_words(*self),
            r is Err ==> r == Err::<Vec<u32>, CodecError>(CodecError::OutOfRange),
    {
        if !self.fits() {
            return Err(CodecError::OutOfRange);
        }
        let head = pack_optional(self.head)?;
        let face = pack_optional(self.face)?;
        let glasses = pack_optional(self.glasses)?;
        let tops = pack_optional(self.tops)?;
        let bottoms = pack_optional(self.bottoms)?;
        let shoes = pack_optional(self.shoes)?;
        let gloves = pack_optional(self.gloves)?;
        let wing = pack_optional(self.wing)?;
        let club = pack_optional(self.club)?;
        let skirt = pack_optional(self.skirt)?;
        let default_tops = pack_optional(self.default_tops)?;
        let default_bottoms = pack_optional(self.default_bottoms)?;
        let default_shoes = pack_optional(self.default_shoes)?;
        let w = vec![
            (self.character_id.to_index() << 2) | ((self.face_paint as u32) << 8) | (head << 18),
            glasses | (tops << 10) | (bottoms << 20),
            shoes | (gloves << 10) | (wing << 20),
            club | (face << 10) | (skirt << 20),
            0u32,
            ((self.hair_style as u32) << 10) | ((self.hair_color as u32) << 20),
            (self.eye_color as u32) | ((self.skin_color as u32) << 8) | (default_tops << 16),
            default_bottoms | (default_shoes << 10) | ((self.default_hair_color as u32) << 20),
            (self.default_eye_color as u32) | ((self.default_skin_color as u32) << 8),
        ];
        assert(w@ =~= appearance_words(*self));
        Ok(w)
    }

    /// Decodes nine wire words; fails when there are not nine or the character
    /// sub-field names no character.
    pub fn from_words(w: &[u32]) -> (r: Result<Appearance, CodecError>)
        ensures
            r is Ok <==> w@.len() == 9 && appearance_of_words(w@) is Some,
            r is Ok ==> r.unwrap() == appearance_of_words(w@).unwrap(),
            r is Err ==> r == Err::<Appearance, CodecError>(CodecError::Malformed),
    {
        if w.len() != 9 {
            return Err(CodecError::Malformed);
        }
        let character_id = match CharID::from_index((w[0] >> 2) & 0x3F) {
            Some(c) => c,
            None => return Err(CodecError::Malformed),
        };
        Ok(
            Appearance {
                character_id,
                face_paint: ((w[0] >> 8) & 0x3FF) as u16,
                head: unpack_optional((w[0] >> 18) & 0x3FF),
                glasses: unpack_optional(w[1] & 0x3FF),
                tops: unpack_optional((w[1] >> 10) & 0x3FF),
                bottoms: unpack_optional((w[1] >> 20) & 0x3FF),
                shoes: unpack_optional(w[2] & 0x3FF),
                gloves: unpack_optional((w[2] >> 10) & 0x3FF),
                wing: unpack_optional((w[2] >> 20) & 0x3FF),
                club: unpack_optional(w[3] & 0x3FF),
                face: unpack_optional((w[3] >> 10) & 0x3FF),
                skirt: unpack_optional((w[3] >> 20) & 0x3FF),
                hair_style: ((w[5] >> 10) & 0x3FF) as u16,
                hair_color: ((w[5] >> 20) & 0x3FF) as u16,
                eye_color: (w[6] & 0xFF) as u16,
                skin_color: ((w[6] >> 8) & 0xFF) as u16,
                default_tops: unpack_optional((w[6] >> 16) & 0x3FF),
                default_bottoms: unpack_optional(w[7] & 0x3FF),
                default_shoes: unpack_optional((w[7] >> 10) & 0x3FF),
                default_hair_color: ((w[7] >> 20) & 0x3FF) as u16,
                default_eye_color: (w[8] & 0xFF) as u16,
                default_skin_color: ((w[8] >> 8) & 0xFF) as u16,
            },
        )
    }

    /// The 36 wire bytes, or a range error when a field does not fit.
    pub fn write(&self) -> (r: Result<Vec<u8>, CodecError>)
        ensures
            r is Ok <==> appearance_fits(*self),
            r is Ok ==> r.unwrap()@ == appearance_bytes(*self),
            r is Err ==> r == Err::<Vec<u8>, CodecError>(CodecError::OutOfRange),
    {
        let w = self.to_words()?;
        let mut out: Vec<u8> = Vec::new();
        push_words(&mut out, w.as_slice());
        assert(out@ =~= appearance_bytes(*self));
        Ok(out)
    }

    /// Decodes the appearance at the start of `input`; fails when fewer than 36
    /// bytes are given or the character sub-field names no character.
    pub fn read(input: &[u8]) -> (r: Result<Appearance, CodecError>)
        ensures
            r is Ok <==> appearance_of_bytes(input@) is Some,
            r is Ok ==> r.unwrap() == appearance_of_bytes(input@).unwrap(),
            r is Err ==> r == Err::<Appearance, CodecError>(CodecError::Malformed),
    {
        if input.len() < 36 {
            return Err(CodecError::Malformed);
        }
        let w = read_words(input, 0, 9);
        Appearance::from_words(w.as_slice())
    }
}

fn optional_fits_exec(o: Option<u16>) -> (r: bool)
    ensures
        r == optional_fits(o),
{
    match o {
        Some(n) => n <= 0x3FD,
        None => true,
    }
}

} // verus!
