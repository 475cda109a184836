//! Playable characters, classes and ranks.

use vstd::prelude::*;
use crate::appearance::{Appearance, appearance_fits, appearance_words};
use crate::bytes::CodecError;
use crate::packet::ChrDataReply;
use crate::item::{Item, ItemCategory, item_code};

verus! {

/// One of the seven playable characters.
#[derive(Clone, Copy, Debug, PartialEq, Eq, Structural)]
pub enum CharID {
    Rusk,
    Miel,
    Rose,
    Chocola,
    Shelly,
    Gouda,
    Sect,
}

/// The wire index of a character (1 to 7).
pub open spec fn char_index(c: CharID) -> u32 {
    match c {
        CharID::Rusk => 1,
        CharID::Miel => 2,
        CharID::Rose => 3,
        CharID::Chocola => 4,
        CharID::Shelly => 5,
        CharID::Gouda => 6,
        CharID::Sect => 7,
    }
}

/// The character with wire index `i`, if any.
pub open spec fn char_of_index(i: u32) -> Option<CharID> {
    if i == 1 {
        Some(CharID::Rusk)
    } else if i == 2 {
        Some(CharID::Miel)
    } else if i == 3 {
        Some(CharID::Rose)
    } else if i == 4 {
        Some(CharID::Chocola)
    } else if i == 5 {
        Some(CharID::Shelly)
    } else if i == 6 {
        Some(CharID::Gouda)
    } else if i == 7 {
        Some(CharID::Sect)
    } else {
        None
    }
}

impl CharID {
    pub fn to_index(self) -> (r: u32)
        ensures
            r == char_index(self),
            1 <= r <= 7,
    {
        match self {
            CharID::Rusk => 1,
            CharID::Miel => 2,
            CharID::Rose => 3,
            CharID::Chocola => 4,
            CharID::Shelly => 5,
            CharID::Gouda => 6,
            CharID::Sect => 7,
        }
    }

    pub fn from_index(index: u32) -> (r: Option<CharID>)
        ensures
            r == char_of_index(index),
    {
        match index {
            1 => Some(CharID::Rusk),
            2 => Some(CharID::Miel),
            3 => Some(CharID::Rose),
            4 => Some(CharID::Chocola),
            5 => Some(CharID::Shelly),
            6 => Some(CharID::Gouda),
            7 => Some(CharID::Sect),
            _ => None,
        }
    }
}

/// A character's index maps back to the character, and only indices 1 to 7 name one.
pub proof fn lemma_char_index_round_trip(c: CharID, i: u32)
    ensures
        char_of_index(char_index(c)) == Some(c),
        char_of_index(i) is Some <==> 1 <= i <= 7,
        char_of_index(i) is Some ==> char_index(char_of_index(i).unwrap()) == i,
{
}

/// A character's class cap (G lowest, S highest); wire value is the position.
#[derive(Clone, Copy, Debug, PartialEq, Eq, Structural)]
pub enum Class {
    G,
    F,
    E,
    D,
    C,
    B,
    A,
    S,
}

/// The wire value of a class (0 to 7).
pub open spec fn class_value(c: Class) -> i8 {
    match c {
        Class::G => 0,
        Class::F => 1,
        Class::E => 2,
        Class::D => 3,
        Class::C => 4,
        Class::B => 5,
        Class::A => 6,
        Class::S => 7,
    }
}

impl Class {
    pub fn to_i8(self) -> (r: i8)
        ensures
            r == class_value(self),
    {
        match self {
            Class::G => 0,
            Class::F => 1,
            Class::E => 2,
            Class::D => 3,
            Class::C => 4,
            Class::B => 5,
            Class::A => 6,
            Class::S => 7,
        }
    }

    pub fn from_i8(v: i8) -> (r: Option<Class>)
        ensures
            r is Some <==> 0 <= v <= 7,
            r is Some ==> class_value(r.unwrap()) == v,
    {
        match v {
            0 => Some(Class::G),
            1 => Some(Class::F),
            2 => Some(Class::E),
            3 => Some(Class::D),
            4 => Some(Class::C),
            5 => Some(Class::B),
            6 => Some(Class::A),
            7 => Some(Class::S),
            _ => None,
        }
    }
}

/// An account's rank: four grades (4 lowest, 1 highest) within each class.
/// Its wire value is `rank_value`, from 0 (G4) to 31 (S1).
#[derive(Clone, Copy, Debug, PartialEq, Eq, Structural)]
pub struct Rank {
    value: i8,
}

impl Rank {
    pub closed spec fn rank_value(self) -> i8 {
        self.value
    }

    pub open spec fn wf(self) -> bool {
        0 <= self.rank_value() <= 31
    }

    /// The lowest rank, G4.
    pub fn lowest() -> (r: Rank)
        ensures
            r.wf(),
            r.rank_value() == 0,
    {
        Rank { value: 0 }
    }

    pub fn from_i8(v: i8) -> (r: Option<Rank>)
        ensures
            r is Some <==> 0 <= v <= 31,
            r is Some ==> r.unwrap().wf() && r.unwrap().rank_value() == v,
    {
        if 0 <= v && v <= 31 {
            Some(Rank { value: v })
        } else {
            None
        }
    }

    pub fn to_i8(self) -> (r: i8)
        ensures
            r == self.rank_value(),
    {
        self.value
    }

    /// The class that this rank belongs to: each class spans four consecutive ranks.
    pub fn class(self) -> (r: Class)
        requires
            self.wf(),
        ensures
            class_value(r) == self.rank_value() / 4,
    {
        let v = self.value;
        if v < 4 {
            Class::G
        } else if v < 8 {
            Class::F
        } else if v < 12 {
            Class::E
        } else if v < 16 {
            Class::D
        } else if v < 20 {
            Class::C
        } else if v < 24 {
            Class::B
        } else if v < 28 {
            Class::A
        } else {
            Class::S
        }
    }
}

/// Points in each of the four shot parameters.
#[derive(Clone, Copy, Debug, PartialEq, Eq, Structural)]
pub struct ParamTuple {
    pub power: i16,
    pub control: i16,
    pub impact: i16,
    pub spin: i16,
}

/// One of a player's characters.
#[derive(Clone, Debug)]
pub struct Character {
    /// Which of the eight settings the character uses.
    pub class_cap: Class,
    /// Experience in each parameter.
    pub exp: ParamTuple,
    /// Point allocation for each class (eight entries).
    pub settings: Vec<ParamTuple>,
    pub appearance: Appearance,
    pub club: Item,
    pub ball: Item,
    pub caddie: Item,
}

/// The eight settings as 32 values, four per setting.
pub open spec fn settings_halves(s: Seq<ParamTuple>) -> Seq<u16> {
    Seq::new(
        (4 * s.len()) as nat,
        |i: int|
            {
                let t = s[i / 4];
                (if i % 4 == 0 {
                    t.power
                } else if i % 4 == 1 {
                    t.control
                } else if i % 4 == 2 {
                    t.impact
                } else {
                    t.spin
                }) as u16
            },
    )
}

impl Character {
    /// Whether the character can be sent: its appearance fits and it has eight settings.
    pub fn fits(&self) -> (r: bool)
        ensures
            r == (appearance_fits(self.appearance) && self.settings@.len() == 8),
    {
        self.appearance.fits() && self.settings.len() == 8
    }

    /// The character as sent to clients, for connection `cid` of account `uid`;
    /// a range error when the appearance does not fit or there are not eight settings.
    pub fn to_chr_data(&self, cid: i32, uid: i32, chr_uid: i32) -> (r: Result<ChrDataReply, CodecError>)
        ensures
            r is Ok <==> appearance_fits(self.appearance) && self.settings@.len() == 8,
            r matches Ok(d) ==> d.cid == cid && d.uid == uid && d.chr_uid == chr_uid
                && d.type_ == char_index(self.appearance.character_id) && d.class == class_value(self.class_cap)
                && d.appearance@ == appearance_words(self.appearance) && d.club == self.club.0
                && d.ball == self.ball.0 && d.caddie == self.caddie.0 && d.x_10@.len() == 16
                && d.param_settings@ == settings_halves(self.settings@),
    {
        if self.settings.len() != 8 {
            return Err(CodecError::OutOfRange);
        }
        let appearance = self.appearance.to_words()?;
        let mut halves: Vec<u16> = Vec::new();
        let mut i: usize = 0;
        while i < 8
            invariant
                i <= 8,
                self.settings@.len() == 8,
                halves@ == settings_halves(self.settings@.subrange(0, i as int)),
            decreases 8 - i,
        {
            let t = self.settings[i];
            let ghost before = halves@;
            halves.push(t.power as u16);
            halves.push(t.control as u16);
            halves.push(t.impact as u16);
            halves.push(t.spin as u16);
            proof {
                let next = self.settings@.subrange(0, i + 1);
                assert forall|j: int| 0 <= j < 4 * (i + 1) implies #[trigger] halves@[j] == settings_halves(next)[j] by {
                    if j < 4 * i {
                        assert(before[j] == settings_halves(self.settings@.subrange(0, i as int))[j]);
                        assert(next[j / 4] == self.settings@.subrange(0, i as int)[j / 4]);
                    } else {
                        assert(j / 4 == i);
                    }
                }
                assert(halves@ =~= settings_halves(next));
            }
            i += 1;
        }
        assert(self.settings@.subrange(0, 8) == self.settings@);
        Ok(ChrDataReply {
            cid,
            uid,
            chr_uid,
            type_: self.appearance.character_id.to_index() as i16,
            class: self.class_cap.to_i8(),
            x_7: 0,
            param_power: self.exp.power,
            param_control: self.exp.control,
            param_impact: self.exp.impact,
            param_spin: self.exp.spin,
            x_10: crate::server::vec_of(0u8, 16),
            param_settings: halves,
            appearance,
            club: self.club.0,
            ball: self.ball.0,
            caddie: self.caddie.0,
        })
    }

    /// A player's first character: class G, no experience, the second club set,
    /// the first ball and no caddie.
    pub fn new(appearance: Appearance) -> (r: Character)
        ensures
            r.class_cap == Class::G,
            r.exp == (ParamTuple { power: 0, control: 0, impact: 0, spin: 0 }),
            r.settings@.len() == 8,
            forall|i: int| 0 <= i < 8 ==> r.settings@[i] == (ParamTuple { power: 0, control: 0, impact: 0, spin: 0 }),
            r.appearance == appearance,
            r.club.0 == item_code(ItemCategory::ClubSet, 2),
            r.ball.0 == item_code(ItemCategory::Ball, 1),
            r.caddie.0 == 0,
    {
        let zero = ParamTuple { power: 0, control: 0, impact: 0, spin: 0 };
        Character {
            class_cap: Class::G,
            exp: zero,
            settings: vec![zero, zero, zero, zero, zero, zero, zero, zero],
            appearance,
            club: Item::new(ItemCategory::ClubSet, 2),
            ball: Item::new(ItemCategory::Ball, 1),
            caddie: Item(0),
        }
    }
}

} // verus!

verus! {

/// Eight settings from their 32 wire values, four per setting.
pub fn settings_from_halves(params: &Vec<u16>) -> (r: Vec<ParamTuple>)
    requires
        params@.len() == 32,
    ensures
        r@.len() == 8,
        settings_halves(r@) == params@,
{
    let mut r: Vec<ParamTuple> = Vec::new();
    let mut k: usize = 0;
    while k < 8
        invariant
            k <= 8,
            params@.len() == 32,
            r@.len() == k,
            settings_halves(r@) == params@.subrange(0, 4 * k as int),
        decreases 8 - k,
    {
        let a = params[4 * k];
        let b = params[4 * k + 1];
        let c = params[4 * k + 2];
        let d = params[4 * k + 3];
        assert((a as i16) as u16 == a) by (bit_vector);
        assert((b as i16) as u16 == b) by (bit_vector);
        assert((c as i16) as u16 == c) by (bit_vector);
        assert((d as i16) as u16 == d) by (bit_vector);
        let t = ParamTuple { power: a as i16, control: b as i16, impact: c as i16, spin: d as i16 };
        let ghost before = r@;
        r.push(t);
        proof {
            let n = 4 * (k + 1) as int;
            assert forall|i: int| 0 <= i < n implies #[trigger] settings_halves(r@)[i] == params@.subrange(0, n)[i] by {
                if i < 4 * k {
                    assert(r@[i / 4] == before[i / 4]);
                    assert(settings_halves(before)[i] == params@.subrange(0, 4 * k as int)[i]);
                } else {
                    assert(i / 4 == k);
                }
            }
            assert(settings_halves(r@) =~= params@.subrange(0, n));
        }
        k += 1;
    }
    assert(params@.subrange(0, 32) == params@);
    r
}

} // verus!
