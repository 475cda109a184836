//! Item identifiers: a category, an optional owning character and an index,
//! packed into one 32-bit word; and counted items, which add a 10-bit count.

use vstd::prelude::*;
use crate::character::{CharID, char_index, char_of_index};

verus! {

/// The kind of an item. Categories that carry a `CharID` belong to one character;
/// the others are global. `Invalid` stands for an empty or unknown identifier and
/// is never encoded.
#[derive(Clone, Copy, Debug, PartialEq, Eq, Structural)]
pub enum ItemCategory {
    ClubSet,
    Ball,
    CarryItemParameter,
    CarryItemEnvironment,
    CarryItemGroundRes,
    CarryItemPowerGauge,
    CarryItemCaddy,
    HoldItemPoint,
    HoldItemEvent,
    HoldItemTicket,
    HoldItemHumor,
    HoldItemSupport,
    Caddy,
    Head(CharID),
    Glasses(CharID),
    Tops(CharID),
    Bottoms(CharID),
    Shoes(CharID),
    Gloves(CharID),
    Wing(CharID),
    HairStyle(CharID),
    HairColor(CharID),
    SkinColor(CharID),
    FacePaint(CharID),
    EyeColor(CharID),
    HairStyleTicket(CharID),
    HairColorTicket(CharID),
    SkinColorTicket(CharID),
    FacePaintTicket(CharID),
    EyeColorTicket(CharID),
    Chara(CharID),
    Invalid,
}

/// The owning character of a category, if it has one.
pub open spec fn category_character(c: ItemCategory) -> Option<CharID> {
    match c {
        ItemCategory::Head(x) | ItemCategory::Glasses(x) | ItemCategory::Tops(x)
        | ItemCategory::Bottoms(x) | ItemCategory::Shoes(x) | ItemCategory::Gloves(x)
        | ItemCategory::Wing(x) | ItemCategory::HairStyle(x) | ItemCategory::HairColor(x)
        | ItemCategory::SkinColor(x) | ItemCategory::FacePaint(x) | ItemCategory::EyeColor(x)
        | ItemCategory::HairStyleTicket(x) | ItemCategory::HairColorTicket(x)
        | ItemCategory::SkinColorTicket(x) | ItemCategory::FacePaintTicket(x)
        | ItemCategory::EyeColorTicket(x) | ItemCategory::Chara(x) => Some(x),
        _ => None,
    }
}

/// The most of one item that an inventory may hold.
pub open spec fn category_maximum(c: ItemCategory) -> u32 {
    match c {
        ItemCategory::Invalid => 0,
        ItemCategory::Ball | ItemCategory::CarryItemParameter | ItemCategory::CarryItemEnvironment
        | ItemCategory::CarryItemGroundRes | ItemCategory::CarryItemPowerGauge
        | ItemCategory::CarryItemCaddy | ItemCategory::HoldItemPoint | ItemCategory::HoldItemEvent
        | ItemCategory::HoldItemTicket | ItemCategory::HoldItemHumor
        | ItemCategory::HoldItemSupport | ItemCategory::HairStyleTicket(_)
        | ItemCategory::HairColorTicket(_) | ItemCategory::SkinColorTicket(_)
        | ItemCategory::FacePaintTicket(_) | ItemCategory::EyeColorTicket(_) => 50,
        _ => 5,
    }
}

/// The category code of a category: bits 12 to 16 of an identifier.
pub open spec fn category_selector(c: ItemCategory) -> u32 {
    match c {
        ItemCategory::ClubSet => 0,
        ItemCategory::Ball => 3,
        ItemCategory::CarryItemParameter => 4,
        ItemCategory::CarryItemEnvironment => 5,
        ItemCategory::CarryItemGroundRes => 6,
        ItemCategory::CarryItemPowerGauge => 7,
        ItemCategory::CarryItemCaddy => 8,
        ItemCategory::HoldItemPoint => 9,
        ItemCategory::HoldItemEvent => 0xC,
        ItemCategory::HoldItemTicket => 0xD,
        ItemCategory::HoldItemHumor => 0xE,
        ItemCategory::HoldItemSupport => 0x10,
        ItemCategory::Caddy => 0x1F,
        ItemCategory::Head(_) => 1,
        ItemCategory::Glasses(_) => 2,
        ItemCategory::Tops(_) => 3,
        ItemCategory::Bottoms(_) => 4,
        ItemCategory::Shoes(_) => 5,
        ItemCategory::Gloves(_) => 6,
        ItemCategory::Wing(_) => 7,
        ItemCategory::HairStyle(_) => 0xF,
        ItemCategory::HairColor(_) => 0x10,
        ItemCategory::SkinColor(_) => 0x11,
        ItemCategory::FacePaint(_) => 0x12,
        ItemCategory::EyeColor(_) => 0x13,
        ItemCategory::HairStyleTicket(_) => 0x14,
        ItemCategory::HairColorTicket(_) => 0x15,
        ItemCategory::SkinColorTicket(_) => 0x16,
        ItemCategory::FacePaintTicket(_) => 0x17,
        ItemCategory::EyeColorTicket(_) => 0x18,
        ItemCategory::Chara(_) => 0x1F,
        ItemCategory::Invalid => 0,
    }
}

/// Bit 11 of an identifier, which the client sets for some categories.
pub open spec fn category_flag(c: ItemCategory) -> u32 {
    match c {
        ItemCategory::ClubSet | ItemCategory::Caddy | ItemCategory::Head(_)
        | ItemCategory::Glasses(_) | ItemCategory::Tops(_) | ItemCategory::Bottoms(_)
        | ItemCategory::Shoes(_) | ItemCategory::Gloves(_) | ItemCategory::Wing(_)
        | ItemCategory::HairStyle(_) | ItemCategory::HairColor(_) | ItemCategory::SkinColor(_)
        | ItemCategory::FacePaint(_) | ItemCategory::EyeColor(_) | ItemCategory::Chara(_) => 1,
        _ => 0,
    }
}

/// Bits 17 to 21 of an identifier: the owning character's index, or 0.
pub open spec fn category_owner_bits(c: ItemCategory) -> u32 {
    match category_character(c) {
        Some(x) => char_index(x),
        None => 0,
    }
}

/// The category that a category code and an owner index denote.
pub open spec fn category_of(owner: u32, sel: u32) -> ItemCategory {
    match char_of_index(owner) {
        None => {
            if sel == 0 {
                ItemCategory::ClubSet
            } else if sel == 3 {
                ItemCategory::Ball
            } else if sel == 4 {
                ItemCategory::CarryItemParameter
            } else if sel == 5 {
                ItemCategory::CarryItemEnvironment
            } else if sel == 6 {
                ItemCategory::CarryItemGroundRes
            } else if sel == 7 {
                ItemCategory::CarryItemPowerGauge
            } else if sel == 8 {
                ItemCategory::CarryItemCaddy
            } else if sel == 9 {
                ItemCategory::HoldItemPoint
            } else if sel == 0xC {
                ItemCategory::HoldItemEvent
            } else if sel == 0xD {
                ItemCategory::HoldItemTicket
            } else if sel == 0xE {
                ItemCategory::HoldItemHumor
            } else if sel == 0x10 {
                ItemCategory::HoldItemSupport
            } else if sel == 0x1F {
                ItemCategory::Caddy
            } else {
                ItemCategory::Invalid
            }
        },
        Some(c) => {
            if sel == 1 {
                ItemCategory::Head(c)
            } else if sel == 2 {
                ItemCategory::Glasses(c)
            } else if sel == 3 {
                ItemCategory::Tops(c)
            } else if sel == 4 {
                ItemCategory::Bottoms(c)
            } else if sel == 5 {
                ItemCategory::Shoes(c)
            } else if sel == 6 {
                ItemCategory::Gloves(c)
            } else if sel == 7 {
                ItemCategory::Wing(c)
            } else if sel == 0xF {
                ItemCategory::HairStyle(c)
            } else if sel == 0x10 {
                ItemCategory::HairColor(c)
            } else if sel == 0x11 {
                ItemCategory::SkinColor(c)
            } else if sel == 0x12 {
                ItemCategory::FacePaint(c)
            } else if sel == 0x13 {
                ItemCategory::EyeColor(c)
            } else if sel == 0x14 {
                ItemCategory::HairStyleTicket(c)
            } else if sel == 0x15 {
                ItemCategory::HairColorTicket(c)
            } else if sel == 0x16 {
                ItemCategory::SkinColorTicket(c)
            } else if sel == 0x17 {
                ItemCategory::FacePaintTicket(c)
            } else if sel == 0x18 {
                ItemCategory::EyeColorTicket(c)
            } else if sel == 0x1F {
                ItemCategory::Chara(c)
            } else {
                ItemCategory::Invalid
            }
        },
    }
}

/// The identifier word of category `c` with index `num`.
pub open spec fn item_code(c: ItemCategory, num: u32) -> u32 {
    (category_selector(c) << 12) | (category_flag(c) << 11) | (category_owner_bits(c) << 17) | num
}

/// The category of an identifier word: all-zero is `Invalid`.
pub open spec fn code_category(x: u32) -> ItemCategory {
    if x == 0 {
        ItemCategory::Invalid
    } else {
        category_of((x >> 17) & 0x1F, (x >> 12) & 0x1F)
    }
}

proof fn lemma_item_fields(sel: u32, flag: u32, owner: u32, num: u32)
    requires
        sel < 32,
        flag < 2,
        owner < 32,
        num <= 0x7FF,
    ensures
        ((((sel << 12) | (flag << 11) | (owner << 17) | num) >> 12) & 0x1F) == sel,
        ((((sel << 12) | (flag << 11) | (owner << 17) | num) >> 17) & 0x1F) == owner,
        (((sel << 12) | (flag << 11) | (owner << 17) | num) & 0x7FF) == num,
        ((sel << 12) | (flag << 11) | (owner << 17) | num) < 0x400000,
        (sel != 0 || flag != 0) ==> ((sel << 12) | (flag << 11) | (owner << 17) | num) != 0,
{
    assert(((((sel << 12) | (flag << 11) | (owner << 17) | num) >> 12) & 0x1F) == sel
        && ((((sel << 12) | (flag << 11) | (owner << 17) | num) >> 17) & 0x1F) == owner
        && (((sel << 12) | (flag << 11) | (owner << 17) | num) & 0x7FF) == num
        && ((sel << 12) | (flag << 11) | (owner << 17) | num) < 0x400000
        && ((sel != 0 || flag != 0) ==> ((sel << 12) | (flag << 11) | (owner << 17) | num) != 0))
        by (bit_vector)
        requires
            sel < 32,
            flag < 2,
            owner < 32,
            num <= 0x7FF,
    ;
}

/// Encoding a valid category and index and decoding the word gives both back,
/// for character-owned and global categories alike.
#[verifier::rlimit(40)]
pub proof fn lemma_item_round_trip(c: ItemCategory, num: u32)
    requires
        c != ItemCategory::Invalid,
        num <= 0x7FF,
    ensures
        code_category(item_code(c, num)) == c,
        item_code(c, num) & 0x7FF == num,
        item_code(c, num) < 0x400000,
        item_code(c, num) != 0,
{
    let x = item_code(c, num);
    lemma_item_fields(category_selector(c), category_flag(c), category_owner_bits(c), num);
    assert((x >> 12) & 0x1F == category_selector(c));
    assert((x >> 17) & 0x1F == category_owner_bits(c));
    match category_character(c) {
        Some(o) => {
            assert(char_of_index(char_index(o)) == Some(o));
        },
        None => {
            assert(char_of_index(0) is None);
        },
    }
}

impl ItemCategory {
    /// The character that owns items of this category, if it is not global.
    pub fn character(self) -> (r: Option<CharID>)
        ensures
            r == category_character(self),
    {
        match self {
            ItemCategory::Head(c) | ItemCategory::Glasses(c) | ItemCategory::Tops(c)
            | ItemCategory::Bottoms(c) | ItemCategory::Shoes(c) | ItemCategory::Gloves(c)
            | ItemCategory::Wing(c) | ItemCategory::HairStyle(c) | ItemCategory::HairColor(c)
            | ItemCategory::SkinColor(c) | ItemCategory::FacePaint(c)
            | ItemCategory::EyeColor(c) | ItemCategory::HairStyleTicket(c)
            | ItemCategory::HairColorTicket(c) | ItemCategory::SkinColorTicket(c)
            | ItemCategory::FacePaintTicket(c) | ItemCategory::EyeColorTicket(c)
            | ItemCategory::Chara(c) => Some(c),
            _ => None,
        }
    }

    /// The most of one item of this category that an inventory may hold.
    pub fn maximum(self) -> (r: u32)
        ensures
            r == category_maximum(self),
    {
        match self {
            ItemCategory::Invalid => 0,
            ItemCategory::Ball | ItemCategory::CarryItemParameter
            | ItemCategory::CarryItemEnvironment | ItemCategory::CarryItemGroundRes
            | ItemCategory::CarryItemPowerGauge | ItemCategory::CarryItemCaddy
            | ItemCategory::HoldItemPoint | ItemCategory::HoldItemEvent
            | ItemCategory::HoldItemTicket | ItemCategory::HoldItemHumor
            | ItemCategory::HoldItemSupport | ItemCategory::HairStyleTicket(_)
            | ItemCategory::HairColorTicket(_) | ItemCategory::SkinColorTicket(_)
            | ItemCategory::FacePaintTicket(_) | ItemCategory::EyeColorTicket(_) => 50,
            _ => 5,
        }
    }

    fn selector(self) -> (r: u32)
        ensures
            r == category_selector(self),
    {
        match self {
            ItemCategory::ClubSet => 0,
            ItemCategory::Ball => 3,
            ItemCategory::CarryItemParameter => 4,
            ItemCategory::CarryItemEnvironment => 5,
            ItemCategory::CarryItemGroundRes => 6,
            ItemCategory::CarryItemPowerGauge => 7,
            ItemCategory::CarryItemCaddy => 8,
            ItemCategory::HoldItemPoint => 9,
            ItemCategory::HoldItemEvent => 0xC,
            ItemCategory::HoldItemTicket => 0xD,
            ItemCategory::HoldItemHumor => 0xE,
            ItemCategory::HoldItemSupport => 0x10,
            ItemCategory::Caddy => 0x1F,
            ItemCategory::Head(_) => 1,
            ItemCategory::Glasses(_) => 2,
            ItemCategory::Tops(_) => 3,
            ItemCategory::Bottoms(_) => 4,
            ItemCategory::Shoes(_) => 5,
            ItemCategory::Gloves(_) => 6,
            ItemCategory::Wing(_) => 7,
            ItemCategory::HairStyle(_) => 0xF,
            ItemCategory::HairColor(_) => 0x10,
            ItemCategory::SkinColor(_) => 0x11,
            ItemCategory::FacePaint(_) => 0x12,
            ItemCategory::EyeColor(_) => 0x13,
            ItemCategory::HairStyleTicket(_) => 0x14,
            ItemCategory::HairColorTicket(_) => 0x15,
            ItemCategory::SkinColorTicket(_) => 0x16,
            ItemCategory::FacePaintTicket(_) => 0x17,
            ItemCategory::EyeColorTicket(_) => 0x18,
            ItemCategory::Chara(_) => 0x1F,
            ItemCategory::Invalid => 0,
        }
    }

    fn flag(self) -> (r: u32)
        ensures
            r == category_flag(self),
    {
        match self {
            ItemCategory::ClubSet | ItemCategory::Caddy | ItemCategory::Head(_)
            | ItemCategory::Glasses(_) | ItemCategory::Tops(_) | ItemCategory::Bottoms(_)
            | ItemCategory::Shoes(_) | ItemCategory::Gloves(_) | ItemCategory::Wing(_)
            | ItemCategory::HairStyle(_) | ItemCategory::HairColor(_)
            | ItemCategory::SkinColor(_) | ItemCategory::FacePaint(_)
            | ItemCategory::EyeColor(_) | ItemCategory::Chara(_) => 1,
            _ => 0,
        }
    }
}

/// An item identifier as it stands on the wire.
#[derive(Clone, Copy, Debug, PartialEq, Eq, Structural)]
pub struct Item(pub u32);

impl Default for Item {
    fn default() -> (r: Item)
        ensures
            r.0 == 0,
    {
        Item(0)
    }
}

impl Item {
    /// The identifier of item `num` of category `category`.
    pub fn new(category: ItemCategory, num: u32) -> (r: Item)
        requires
            category != ItemCategory::Invalid,
            num <= 0x7FF,
        ensures
            r.0 == item_code(category, num),
            code_category(r.0) == category,
            r.0 & 0x7FF == num,
            r.0 < 0x400000,
    {
        let owner: u32 = match category.character() {
            Some(c) => c.to_index(),
            None => 0,
        };
        proof {
            lemma_item_round_trip(category, num);
        }
        Item((category.selector() << 12) | (category.flag() << 11) | (owner << 17) | num)
    }

    /// One of this item.
    pub fn one(self) -> (r: CountedItem)
        ensures
            r.0 == counted_code(self.0, 1),
    {
        CountedItem::new(self, 1)
    }

    /// The item's index within its category (bits 0 to 10).
    pub fn num(self) -> (r: u32)
        ensures
            r == self.0 & 0x7FF,
    {
        self.0 & 0x7FF
    }

    /// The item's category; `Invalid` for the empty identifier and for unknown codes.
    pub fn category(self) -> (r: ItemCategory)
        ensures
            r == code_category(self.0),
    {
        if self.0 == 0 {
            return ItemCategory::Invalid;
        }
        let sel = (self.0 >> 12) & 0x1F;
        match CharID::from_index((self.0 >> 17) & 0x1F) {
            None => {
                if sel == 0 {
                    ItemCategory::ClubSet
                } else if sel == 3 {
                    ItemCategory::Ball
                } else if sel == 4 {
                    ItemCategory::CarryItemParameter
                } else if sel == 5 {
                    ItemCategory::CarryItemEnvironment
                } else if sel == 6 {
                    ItemCategory::CarryItemGroundRes
                } else if sel == 7 {
                    ItemCategory::CarryItemPowerGauge
                } else if sel == 8 {
                    ItemCategory::CarryItemCaddy
                } else if sel == 9 {
                    ItemCategory::HoldItemPoint
                } else if sel == 0xC {
                    ItemCategory::HoldItemEvent
                } else if sel == 0xD {
                    ItemCategory::HoldItemTicket
                } else if sel == 0xE {
                    ItemCategory::HoldItemHumor
                } else if sel == 0x10 {
                    ItemCategory::HoldItemSupport
                } else if sel == 0x1F {
                    ItemCategory::Caddy
                } else {
                    ItemCategory::Invalid
                }
            },
            Some(c) => {
                if sel == 1 {
                    ItemCategory::Head(c)
                } else if sel == 2 {
                    ItemCategory::Glasses(c)
                } else if sel == 3 {
                    ItemCategory::Tops(c)
                } else if sel == 4 {
                    ItemCategory::Bottoms(c)
                } else if sel == 5 {
                    ItemCategory::Shoes(c)
                } else if sel == 6 {
                    ItemCategory::Gloves(c)
                } else if sel == 7 {
                    ItemCategory::Wing(c)
                } else if sel == 0xF {
                    ItemCategory::HairStyle(c)
                } else if sel == 0x10 {
                    ItemCategory::HairColor(c)
                } else if sel == 0x11 {
                    ItemCategory::SkinColor(c)
                } else if sel == 0x12 {
                    ItemCategory::FacePaint(c)
                } else if sel == 0x13 {
                    ItemCategory::EyeColor(c)
                } else if sel == 0x14 {
                    ItemCategory::HairStyleTicket(c)
                } else if sel == 0x15 {
                    ItemCategory::HairColorTicket(c)
                } else if sel == 0x16 {
                    ItemCategory::SkinColorTicket(c)
                } else if sel == 0x17 {
                    ItemCategory::FacePaintTicket(c)
                } else if sel == 0x18 {
                    ItemCategory::EyeColorTicket(c)
                } else if sel == 0x1F {
                    ItemCategory::Chara(c)
                } else {
                    ItemCategory::Invalid
                }
            },
        }
    }
}

/// The word of a counted item: the identifier in the high 22 bits, the count in the low 10.
pub open spec fn counted_code(item: u32, count: u32) -> u32 {
    (item << 10) | count
}

proof fn lemma_counted_fields(item: u32, count: u32)
    requires
        count <= 0x3FF,
    ensures
        ((item << 10) | count) & 0x3FF == count,
        item < 0x400000 ==> ((item << 10) | count) >> 10 == item,
{
    assert(((item << 10) | count) & 0x3FF == count && (item < 0x400000 ==> ((item << 10) | count)
        >> 10 == item)) by (bit_vector)
        requires
            count <= 0x3FF,
    ;
}

/// Packing an item and a count and unpacking the word gives both back, for every
/// count from 0 to 0x3FF and every identifier that fits in 22 bits.
pub proof fn lemma_counted_round_trip(item: Item, count: u32)
    requires
        count <= 0x3FF,
        item.0 < 0x400000,
    ensures
        counted_code(item.0, count) & 0x3FF == count,
        counted_code(item.0, count) >> 10 == item.0,
{
    lemma_counted_fields(item.0, count);
}

/// An item identifier together with a count, as one wire word.
#[derive(Clone, Copy, Debug, PartialEq, Eq, Structural)]
pub struct CountedItem(pub u32);

impl Default for CountedItem {
    fn default() -> (r: CountedItem)
        ensures
            r.0 == 0,
    {
        CountedItem(0)
    }
}

impl CountedItem {
    pub fn new(item: Item, count: u32) -> (r: CountedItem)
        requires
            count <= 0x3FF,
        ensures
            r.0 == counted_code(item.0, count),
            r.0 & 0x3FF == count,
            item.0 < 0x400000 ==> r.0 >> 10 == item.0,
    {
        proof {
            lemma_counted_fields(item.0, count);
        }
        CountedItem((item.0 << 10) | count)
    }

    /// The identifier (the high 22 bits).
    pub fn item(self) -> (r: Item)
        ensures
            r.0 == self.0 >> 10,
            r.0 < 0x400000,
    {
        let x = self.0;
        assert(x >> 10 < 0x400000) by (bit_vector);
        Item(x >> 10)
    }

    /// The count (the low 10 bits).
    pub fn count(self) -> (r: u32)
        ensures
            r == self.0 & 0x3FF,
            r <= 0x3FF,
    {
        let x = self.0;
        assert(x & 0x3FF <= 0x3FF) by (bit_vector);
        x & 0x3FF
    }

    /// The same item with another count.
    pub fn with_count(self, count: u32) -> (r: CountedItem)
        requires
            count <= 0x3FF,
        ensures
            r.0 >> 10 == self.0 >> 10,
            r.0 & 0x3FF == count,
    {
        let x = self.0;
        assert(((x & !0x3FFu32) | count) >> 10 == x >> 10 && ((x & !0x3FFu32) | count) & 0x3FF
            == count) by (bit_vector)
            requires
                count <= 0x3FF,
        ;
        CountedItem((x & !0x3FF) | count)
    }
}

} // verus!
