//! Account-wide player data: balances, bags and inventory.

use vstd::prelude::*;
use crate::character::Rank;
use crate::item::{Item, CountedItem};

verus! {

/// How an item is paid for.
#[derive(Clone, Copy, Debug, PartialEq, Eq, Structural)]
pub enum Currency {
    GP,
    SC,
    TicketsOnly,
}

/// A player's element; `Unassigned` is the wire value -1.
#[derive(Clone, Copy, Debug, PartialEq, Eq, Structural)]
pub enum Element {
    Unassigned,
    Blue,
    Red,
    Green,
    Yellow,
    Pink,
}

impl Element {
    pub fn to_i8(self) -> (r: i8)
        ensures
            -1 <= r <= 4,
            r == -1 <==> self == Element::Unassigned,
    {
        match self {
            Element::Unassigned => -1,
            Element::Blue => 0,
            Element::Red => 1,
            Element::Green => 2,
            Element::Yellow => 3,
            Element::Pink => 4,
        }
    }
}

/// Account-wide data of a player.
#[derive(Clone, Debug)]
pub struct User {
    /// The character in use, or -1 before the first one is made.
    pub default_chr_uid: i32,
    pub element: Element,
    pub class: Rank,
    pub gp: i32,
    pub sc: i32,
    /// Eight item identifiers.
    pub golfbag: Vec<Item>,
    /// Eight item identifiers.
    pub holdbox: Vec<Item>,
    pub inventory: Vec<CountedItem>,
}

/// The count held of the first inventory entry for identifier `item`, or 0.
pub open spec fn amount_in(inv: Seq<CountedItem>, item: u32) -> u32
    decreases inv.len(),
{
    if inv.len() == 0 {
        0
    } else if inv[0].0 >> 10 == item {
        inv[0].0 & 0x3FF
    } else {
        amount_in(inv.drop_first(), item)
    }
}

/// The index of the first inventory entry for identifier `item`, if any.
pub open spec fn entry_of(inv: Seq<CountedItem>, item: u32) -> Option<int> {
    if exists|i: int| 0 <= i < inv.len() && inv[i].0 >> 10 == item {
        Some(choose|i: int| 0 <= i < inv.len() && inv[i].0 >> 10 == item && forall|k: int| 0 <= k < i ==> inv[k].0 >> 10 != item)
    } else {
        None
    }
}

impl User {
    /// A fresh account: no character, no element, lowest rank, 5000 GP and 100 SC,
    /// empty bags and inventory.
    pub fn new() -> (r: User)
        ensures
            r.default_chr_uid == -1,
            r.element == Element::Unassigned,
            r.class.wf() && r.class.rank_value() == 0,
            r.gp == 5000,
            r.sc == 100,
            r.golfbag@.len() == 8 && forall|i: int| 0 <= i < 8 ==> r.golfbag@[i].0 == 0,
            r.holdbox@.len() == 8 && forall|i: int| 0 <= i < 8 ==> r.holdbox@[i].0 == 0,
            r.inventory@.len() == 0,
    {
        User {
            default_chr_uid: -1,
            element: Element::Unassigned,
            class: Rank::lowest(),
            gp: 5000,
            sc: 100,
            golfbag: vec![Item(0), Item(0), Item(0), Item(0), Item(0), Item(0), Item(0), Item(0)],
            holdbox: vec![Item(0), Item(0), Item(0), Item(0), Item(0), Item(0), Item(0), Item(0)],
            inventory: Vec::new(),
        }
    }

    /// Get the quantity of a particular item within the user's inventory.
    pub fn item_amount(&self, item: Item) -> (r: u32)
        ensures
            r == amount_in(self.inventory@, item.0),
    {
        let ghost inv = self.inventory@;
        let mut k: usize = 0;
        assert(inv.subrange(0, inv.len() as int) == inv);
        while k < self.inventory.len()
            invariant
                k <= inv.len(),
                inv == self.inventory@,
                amount_in(inv.subrange(k as int, inv.len() as int), item.0) == amount_in(inv, item.0),
            decreases inv.len() - k,
        {
            let ci = self.inventory[k];
            proof {
                let rest = inv.subrange(k as int, inv.len() as int);
                assert(rest.drop_first() == inv.subrange(k + 1, inv.len() as int));
                assert(rest[0] == ci);
            }
            if ci.item().0 == item.0 {
                return ci.count();
            }
            k += 1;
        }
        proof {
            assert(inv.subrange(inv.len() as int, inv.len() as int).len() == 0);
        }
        0
    }

    /// Add a counted item to the inventory: an entry for the same item gets the
    /// count added, otherwise the entry is appended.
    pub fn add_item(&mut self, counted_item: CountedItem)
        requires
            amount_in(old(self).inventory@, counted_item.0 >> 10) + (counted_item.0 & 0x3FF)
                <= 0x3FF,
        ensures
            amount_in(final(self).inventory@, counted_item.0 >> 10) == amount_in(
                old(self).inventory@,
                counted_item.0 >> 10,
            ) + (counted_item.0 & 0x3FF),
            final(self).gp == old(self).gp,
            final(self).sc == old(self).sc,
            final(self).class == old(self).class,
            final(self).golfbag == old(self).golfbag,
            final(self).holdbox == old(self).holdbox,
    {
        let item = counted_item.item();
        let count = counted_item.count();
        let ghost inv = self.inventory@;
        let mut k: usize = 0;
        assert(inv.subrange(0, inv.len() as int) == inv);
        while k < self.inventory.len()
            invariant
                k <= inv.len(),
                inv == self.inventory@,
                inv == old(self).inventory@,
                item.0 == counted_item.0 >> 10,
                count == counted_item.0 & 0x3FF,
                amount_in(inv, item.0) + count <= 0x3FF,
                self.gp == old(self).gp,
                self.sc == old(self).sc,
                self.class == old(self).class,
                self.golfbag == old(self).golfbag,
                self.holdbox == old(self).holdbox,
                forall|m: int| 0 <= m < k ==> inv[m].0 >> 10 != item.0,
                amount_in(inv.subrange(k as int, inv.len() as int), item.0) == amount_in(inv, item.0),
            decreases inv.len() - k,
        {
            let ci = self.inventory[k];
            proof {
                let rest = inv.subrange(k as int, inv.len() as int);
                assert(rest.drop_first() == inv.subrange(k + 1, inv.len() as int));
                assert(rest[0] == ci);
            }
            if ci.item().0 == item.0 {
                proof {
                    lemma_amount_update(inv, k as int, ci, item.0);
                }
                let updated = ci.with_count(ci.count() + count);
                self.inventory.set(k, updated);
                proof {
                    lemma_amount_update(inv, k as int, updated, item.0);
                }
                return;
            }
            k += 1;
        }
        self.inventory.push(counted_item);
        proof {
            lemma_amount_absent(inv, item.0);
            lemma_amount_push(inv, counted_item, item.0);
        }
    }

    /// Check if the user has enough money to buy something.
    pub fn check_balance(&self, currency: Currency, cost: i32) -> (r: bool)
        ensures
            r == match currency {
                Currency::GP => cost <= self.gp,
                Currency::SC => cost <= self.sc,
                Currency::TicketsOnly => false,
            },
    {
        match currency {
            Currency::GP => cost <= self.gp,
            Currency::SC => cost <= self.sc,
            Currency::TicketsOnly => false,
        }
    }

    /// Update the user's balance by adding or subtracting money.
    pub fn adjust_balance(&mut self, currency: Currency, delta: i32)
        requires
            currency != Currency::TicketsOnly,
            currency == Currency::GP ==> i32::MIN <= old(self).gp + delta <= i32::MAX,
            currency == Currency::SC ==> i32::MIN <= old(self).sc + delta <= i32::MAX,
        ensures
            currency == Currency::GP ==> final(self).gp == old(self).gp + delta && final(self).sc
                == old(self).sc,
            currency == Currency::SC ==> final(self).sc == old(self).sc + delta && final(self).gp
                == old(self).gp,
            final(self).inventory == old(self).inventory,
            final(self).class == old(self).class,
            final(self).golfbag == old(self).golfbag,
            final(self).holdbox == old(self).holdbox,
    {
        match currency {
            Currency::GP => self.gp = self.gp + delta,
            Currency::SC => self.sc = self.sc + delta,
            Currency::TicketsOnly => {},
        }
    }
}

proof fn lemma_amount_update(inv: Seq<CountedItem>, k: int, c: CountedItem, item: u32)
    requires
        0 <= k < inv.len(),
        inv[k].0 >> 10 == item,
        c.0 >> 10 == item,
        forall|m: int| 0 <= m < k ==> inv[m].0 >> 10 != item,
    ensures
        amount_in(inv.update(k, c), item) == c.0 & 0x3FF,
        amount_in(inv, item) == inv[k].0 & 0x3FF,
    decreases k,
{
    if k > 0 {
        assert(inv.update(k, c).drop_first() == inv.drop_first().update(k - 1, c));
        lemma_amount_update(inv.drop_first(), k - 1, c, item);
    }
}

proof fn lemma_amount_absent(inv: Seq<CountedItem>, item: u32)
    requires
        forall|m: int| 0 <= m < inv.len() ==> inv[m].0 >> 10 != item,
    ensures
        amount_in(inv, item) == 0,
    decreases inv.len(),
{
    if inv.len() > 0 {
        lemma_amount_absent(inv.drop_first(), item);
    }
}

proof fn lemma_amount_push(inv: Seq<CountedItem>, c: CountedItem, item: u32)
    requires
        forall|m: int| 0 <= m < inv.len() ==> inv[m].0 >> 10 != item,
        c.0 >> 10 == item,
    ensures
        amount_in(inv.push(c), item) == c.0 & 0x3FF,
    decreases inv.len(),
{
    if inv.len() > 0 {
        assert(inv.push(c).drop_first() == inv.drop_first().push(c));
        lemma_amount_push(inv.drop_first(), c, item);
    }
}

} // verus!
