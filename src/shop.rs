//! What the shops sell, how a listing is packed, and the purchase decision.

use vstd::prelude::*;
use crate::character::CharID;
use crate::item::{Item, ItemCategory, CountedItem, code_category, category_maximum};
use crate::user::{Currency, User, amount_in};

verus! {

/// How a listing is advertised.
#[derive(Clone, Copy, Debug, PartialEq, Eq, Structural)]
pub enum Marketing {
    Plain,
    New,
    Hot,
    Sale,
}

/// The flag bits of a currency.
pub open spec fn currency_flags(c: Currency) -> u32 {
    match c {
        Currency::GP => 0,
        Currency::SC => 2,
        Currency::TicketsOnly => 0x20,
    }
}

/// The currency that listing flags name: bit 5 tickets only, else bit 1 SC, else GP.
pub open spec fn currency_of_flags(flags: u32) -> Currency {
    if flags & 0x20 != 0 {
        Currency::TicketsOnly
    } else if flags & 2 != 0 {
        Currency::SC
    } else {
        Currency::GP
    }
}

/// The flag bits of a marketing label.
pub open spec fn marketing_flags(m: Marketing) -> u32 {
    match m {
        Marketing::Plain => 0,
        Marketing::New => 8,
        Marketing::Hot => 0x10,
        Marketing::Sale => 0x40,
    }
}

/// The marketing label that listing flags name: bit 6 sale, else bit 4 hot,
/// else bit 3 new, else none.
pub open spec fn marketing_of_flags(flags: u32) -> Marketing {
    if flags & 0x40 != 0 {
        Marketing::Sale
    } else if flags & 0x10 != 0 {
        Marketing::Hot
    } else if flags & 8 != 0 {
        Marketing::New
    } else {
        Marketing::Plain
    }
}

pub fn currency_from_flags(flags: u32) -> (r: Currency)
    ensures
        r == currency_of_flags(flags),
{
    if (flags & 0x20) != 0 {
        Currency::TicketsOnly
    } else if (flags & 2) != 0 {
        Currency::SC
    } else {
        Currency::GP
    }
}

pub fn currency_to_flags(c: Currency) -> (r: u32)
    ensures
        r == currency_flags(c),
{
    match c {
        Currency::GP => 0,
        Currency::SC => 2,
        Currency::TicketsOnly => 0x20,
    }
}

impl Marketing {
    pub fn from_flags(flags: u32) -> (r: Marketing)
        ensures
            r == marketing_of_flags(flags),
    {
        if (flags & 0x40) != 0 {
            Marketing::Sale
        } else if (flags & 0x10) != 0 {
            Marketing::Hot
        } else if (flags & 8) != 0 {
            Marketing::New
        } else {
            Marketing::Plain
        }
    }

    pub fn to_flags(self) -> (r: u32)
        ensures
            r == marketing_flags(self),
    {
        match self {
            Marketing::Plain => 0,
            Marketing::New => 8,
            Marketing::Hot => 0x10,
            Marketing::Sale => 0x40,
        }
    }
}

/// An item for sale.
#[derive(Clone, Copy, Debug, PartialEq, Eq, Structural)]
pub struct SellItem {
    pub item: Item,
    pub currency: Currency,
    pub marketing: Marketing,
    /// 20 bits.
    pub price: u32,
    /// 20 bits.
    pub sp_price: u32,
}

/// The three wire words of a listing: the item, the price with the flags from
/// bit 20 on, and the second price.
pub open spec fn sell_item_words(s: SellItem) -> Seq<u32> {
    seq![
        s.item.0,
        (s.price & 0xFFFFF) | ((currency_flags(s.currency) | marketing_flags(s.marketing)) << 20),
        s.sp_price & 0xFFFFF,
    ]
}

/// The listing that three wire words describe.
pub open spec fn sell_item_of_words(w: Seq<u32>) -> SellItem {
    SellItem {
        item: Item(w[0]),
        currency: currency_of_flags(w[1] >> 20),
        marketing: marketing_of_flags(w[1] >> 20),
        price: w[1] & 0xFFFFF,
        sp_price: w[2] & 0xFFFFF,
    }
}

proof fn lemma_listing_flags(c: u32, m: u32)
    requires
        c == 0 || c == 2 || c == 0x20,
        m == 0 || m == 8 || m == 0x10 || m == 0x40,
    ensures
        (c | m) <= 0x7F,
        (c | m) & 0x20 != 0 <==> c == 0x20,
        (c | m) & 2 != 0 <==> c == 2,
        (c | m) & 0x40 != 0 <==> m == 0x40,
        (c | m) & 0x10 != 0 <==> m == 0x10,
        (c | m) & 8 != 0 <==> m == 8,
{
    assert((c == 0 || c == 2 || c == 0x20) && (m == 0 || m == 8 || m == 0x10 || m == 0x40) ==> ((c | m) <= 0x7F
        && ((c | m) & 0x20 != 0 <==> c == 0x20) && ((c | m) & 2 != 0 <==> c == 2)
        && ((c | m) & 0x40 != 0 <==> m == 0x40) && ((c | m) & 0x10 != 0 <==> m == 0x10)
        && ((c | m) & 8 != 0 <==> m == 8))) by (bit_vector);
}

proof fn lemma_price_bits(price: u32, flags: u32, sp: u32)
    requires
        price <= 0xFFFFF,
        sp <= 0xFFFFF,
        flags <= 0x7F,
    ensures
        ((price & 0xFFFFF) | (flags << 20)) & 0xFFFFF == price,
        ((price & 0xFFFFF) | (flags << 20)) >> 20 == flags,
        (sp & 0xFFFFF) & 0xFFFFF == sp,
{
    assert(((price & 0xFFFFF) | (flags << 20)) & 0xFFFFF == price && ((price & 0xFFFFF) | (flags
        << 20)) >> 20 == flags && (sp & 0xFFFFF) & 0xFFFFF == sp) by (bit_vector)
        requires
            price <= 0xFFFFF,
            sp <= 0xFFFFF,
            flags <= 0x7F,
    ;
}

/// A listing whose prices fit 20 bits survives encoding.
pub proof fn lemma_sell_item_round_trip(s: SellItem)
    requires
        s.price <= 0xFFFFF,
        s.sp_price <= 0xFFFFF,
    ensures
        sell_item_of_words(sell_item_words(s)) == s,
{
    lemma_listing_flags(currency_flags(s.currency), marketing_flags(s.marketing));
    lemma_price_bits(s.price, currency_flags(s.currency) | marketing_flags(s.marketing), s.sp_price);
}

impl SellItem {
    /// The three wire words.
    pub fn to_words(&self) -> (r: Vec<u32>)
        ensures
            r@ == sell_item_words(*self),
    {
        let flags = currency_to_flags(self.currency) | self.marketing.to_flags();
        let r = vec![self.item.0, (self.price & 0xFFFFF) | (flags << 20), self.sp_price & 0xFFFFF];
        assert(r@ =~= sell_item_words(*self));
        r
    }

    /// The listing that three wire words describe.
    pub fn from_words(w: &Vec<u32>) -> (r: SellItem)
        requires
            w@.len() == 3,
        ensures
            r == sell_item_of_words(w@),
    {
        let flags = w[1] >> 20;
        SellItem {
            item: Item(w[0]),
            currency: currency_from_flags(flags),
            marketing: Marketing::from_flags(flags),
            price: w[1] & 0xFFFFF,
            sp_price: w[2] & 0xFFFFF,
        }
    }
}

/// A listing in GP with no label, priced `price`.
pub open spec fn plain_listing(s: SellItem, price: u32) -> bool {
    &&& s.currency == Currency::GP
    &&& s.marketing == Marketing::Plain
    &&& s.price == price
    &&& s.sp_price == 0
    &&& code_category(s.item.0) != ItemCategory::Invalid
}

/// Appends a GP listing of items `lo..=hi` of `category`, item `n` priced `factor * n`.
fn push_range(list: &mut Vec<SellItem>, category: ItemCategory, lo: u32, hi: u32, factor: u32)
    requires
        category != ItemCategory::Invalid,
        1 <= lo <= hi,
        hi <= 0x7FF,
        1 <= factor <= 100,
    ensures
        final(list)@.len() == old(list)@.len() + (hi - lo + 1),
        final(list)@.subrange(0, old(list)@.len() as int) == old(list)@,
        forall|k: int|
            old(list)@.len() <= k < final(list)@.len() ==> plain_listing(
                #[trigger] final(list)@[k],
                (factor * (lo + (k - old(list)@.len()))) as u32,
            ) && final(list)@[k].item.0 & 0x7FF == lo + (k - old(list)@.len())
                && code_category(final(list)@[k].item.0) == category && 0 < final(list)@[k].price <= 204700,
{
    let ghost start = old(list)@;
    let mut num = lo;
    while num <= hi
        invariant
            category != ItemCategory::Invalid,
            1 <= lo <= num,
            num <= hi + 1,
            hi <= 0x7FF,
            1 <= factor <= 100,
            list@.len() == start.len() + (num - lo),
            list@.subrange(0, start.len() as int) == start,
            forall|k: int|
                start.len() <= k < list@.len() ==> plain_listing(
                    #[trigger] list@[k],
                    (factor * (lo + (k - start.len()))) as u32,
                ) && list@[k].item.0 & 0x7FF == lo + (k - start.len())
                    && code_category(list@[k].item.0) == category && 0 < list@[k].price <= 204700,
        decreases hi + 1 - num,
    {
        let item = Item::new(category, num);
        assert(0 < factor * num <= 100 * 0x7FF) by (nonlinear_arith)
            requires
                1 <= factor <= 100,
                1 <= num <= 0x7FF,
        ;
        let ghost before = list@;
        list.push(SellItem {
            item,
            currency: Currency::GP,
            marketing: Marketing::Plain,
            price: factor * num,
            sp_price: 0,
        });
        assert(list@.subrange(0, start.len() as int) =~= before.subrange(0, start.len() as int));
        num += 1;
    }
}

/// Every listing is a plain GP listing of a valid item.
pub open spec fn all_plain(list: Seq<SellItem>) -> bool {
    forall|k: int| 0 <= k < list.len() ==> (#[trigger] list[k]).currency == Currency::GP
        && list[k].marketing == Marketing::Plain && list[k].sp_price == 0
        && code_category(list[k].item.0) != ItemCategory::Invalid && 0 < list[k].price <= 0xFFFFF
}

proof fn lemma_extend_plain(a: Seq<SellItem>, b: Seq<SellItem>)
    requires
        all_plain(a),
        a.len() <= b.len(),
        b.subrange(0, a.len() as int) == a,
        forall|k: int| a.len() <= k < b.len() ==> #[trigger] b[k].currency == Currency::GP
            && b[k].marketing == Marketing::Plain && b[k].sp_price == 0
            && code_category(b[k].item.0) != ItemCategory::Invalid && 0 < b[k].price <= 0xFFFFF,
    ensures
        all_plain(b),
{
    assert forall|k: int| 0 <= k < b.len() implies (#[trigger] b[k]).currency == Currency::GP
        && b[k].marketing == Marketing::Plain && b[k].sp_price == 0
        && code_category(b[k].item.0) != ItemCategory::Invalid && 0 < b[k].price <= 0xFFFFF by {
        if k < a.len() {
            assert(b[k] == b.subrange(0, a.len() as int)[k]);
        }
    }
}

/// Appends `lo..=hi` of `category` at `factor` per index, keeping the list plain.
fn add_range(list: &mut Vec<SellItem>, category: ItemCategory, lo: u32, hi: u32, factor: u32)
    requires
        all_plain(old(list)@),
        category != ItemCategory::Invalid,
        1 <= lo <= hi,
        hi <= 0x7FF,
        1 <= factor <= 100,
    ensures
        all_plain(final(list)@),
        final(list)@.len() == old(list)@.len() + (hi - lo + 1),
        forall|k: int| 0 <= k < old(list)@.len() ==> #[trigger] final(list)@[k] == old(list)@[k],
        forall|k: int| old(list)@.len() <= k < final(list)@.len() ==> code_category(#[trigger] final(list)@[k].item.0) == category,
{
    let ghost a = list@;
    push_range(list, category, lo, hi, factor);
    proof {
        assert forall|k: int| a.len() <= k < list@.len() implies #[trigger] list@[k].currency == Currency::GP
            && list@[k].marketing == Marketing::Plain && list@[k].sp_price == 0
            && code_category(list@[k].item.0) != ItemCategory::Invalid && 0 < list@[k].price <= 0xFFFFF by {
            assert(plain_listing(list@[k], (factor * (lo + (k - a.len()))) as u32));
        }
        lemma_extend_plain(a, list@);
        assert forall|k: int| 0 <= k < a.len() implies #[trigger] list@[k] == a[k] by {
            assert(list@.subrange(0, a.len() as int)[k] == list@[k]);
        }
    }
}

/// The regular shop's catalogue: clubs, balls and carry and hold items, five GP
/// per index; parameter items; and the clothes of three characters at ten GP per
/// index.
pub fn build_sell_list() -> (r: Vec<SellItem>)
    ensures
        all_plain(r@),
        r@.len() == 878,
{
    let mut list: Vec<SellItem> = Vec::new();
    add_range(&mut list, ItemCategory::ClubSet, 1, 55, 5);
    add_range(&mut list, ItemCategory::Ball, 1, 15, 5);
    add_range(&mut list, ItemCategory::CarryItemEnvironment, 1, 12, 5);
    add_range(&mut list, ItemCategory::CarryItemGroundRes, 1, 18, 5);
    add_range(&mut list, ItemCategory::CarryItemPowerGauge, 1, 6, 5);
    add_range(&mut list, ItemCategory::CarryItemCaddy, 1, 10, 5);
    add_range(&mut list, ItemCategory::HoldItemPoint, 1, 6, 5);
    add_range(&mut list, ItemCategory::HoldItemEvent, 1, 3, 5);
    add_range(&mut list, ItemCategory::HoldItemTicket, 1, 41, 5);
    add_range(&mut list, ItemCategory::HoldItemHumor, 1, 3, 5);
    add_range(&mut list, ItemCategory::HoldItemSupport, 1, 7, 5);
    let mut group: u32 = 0;
    while group < 5
        invariant
            group <= 5,
            all_plain(list@),
            list@.len() == 176 + 4 * group,
        decreases 5 - group,
    {
        add_priced(&mut list, ItemCategory::CarryItemParameter, group * 6 + 1, 5);
        add_priced(&mut list, ItemCategory::CarryItemParameter, group * 6 + 3, 15);
        add_priced(&mut list, ItemCategory::CarryItemParameter, group * 6 + 4, 25);
        add_priced(&mut list, ItemCategory::CarryItemParameter, group * 6 + 6, 35);
        group += 1;
    }
    let mut group: u32 = 0;
    while group < 5
        invariant
            group <= 5,
            all_plain(list@),
            list@.len() == 196 + 2 * group,
        decreases 5 - group,
    {
        add_priced(&mut list, ItemCategory::CarryItemParameter, 31 + group * 2, 20);
        add_priced(&mut list, ItemCategory::CarryItemParameter, 32 + group * 2, 30);
        group += 1;
    }
    let rusk = CharID::Rusk;
    add_range(&mut list, ItemCategory::Tops(rusk), 1, 54, 10);
    add_range(&mut list, ItemCategory::Tops(rusk), 996, 999, 10);
    add_range(&mut list, ItemCategory::Bottoms(rusk), 1, 25, 10);
    add_range(&mut list, ItemCategory::Bottoms(rusk), 28, 72, 10);
    add_range(&mut list, ItemCategory::Bottoms(rusk), 996, 999, 10);
    add_range(&mut list, ItemCategory::Shoes(rusk), 1, 43, 10);
    add_range(&mut list, ItemCategory::Shoes(rusk), 996, 999, 10);
    add_range(&mut list, ItemCategory::Head(rusk), 1, 22, 10);
    add_range(&mut list, ItemCategory::Glasses(rusk), 1, 2, 10);
    add_range(&mut list, ItemCategory::Glasses(rusk), 4, 11, 10);
    add_range(&mut list, ItemCategory::Gloves(rusk), 1, 9, 10);
    add_range(&mut list, ItemCategory::Wing(rusk), 1, 7, 10);
    let miel = CharID::Miel;
    add_range(&mut list, ItemCategory::Tops(miel), 1, 5, 10);
    add_range(&mut list, ItemCategory::Tops(miel), 7, 62, 10);
    add_range(&mut list, ItemCategory::Tops(miel), 996, 999, 10);
    add_range(&mut list, ItemCategory::Bottoms(miel), 2, 11, 10);
    add_range(&mut list, ItemCategory::Bottoms(miel), 13, 13, 10);
    add_range(&mut list, ItemCategory::Bottoms(miel), 15, 34, 10);
    add_range(&mut list, ItemCategory::Bottoms(miel), 36, 45, 10);
    add_range(&mut list, ItemCategory::Bottoms(miel), 47, 60, 10);
    add_range(&mut list, ItemCategory::Bottoms(miel), 996, 999, 10);
    add_range(&mut list, ItemCategory::Shoes(miel), 1, 47, 10);
    add_range(&mut list, ItemCategory::Shoes(miel), 996, 999, 10);
    add_range(&mut list, ItemCategory::Head(miel), 1, 22, 10);
    add_range(&mut list, ItemCategory::Glasses(miel), 1, 2, 10);
    add_range(&mut list, ItemCategory::Glasses(miel), 4, 12, 10);
    add_range(&mut list, ItemCategory::Gloves(miel), 1, 10, 10);
    add_range(&mut list, ItemCategory::Wing(miel), 1, 4, 10);
    let gouda = CharID::Gouda;
    add_range(&mut list, ItemCategory::Tops(gouda), 1, 60, 10);
    add_range(&mut list, ItemCategory::Bottoms(gouda), 1, 69, 10);
    add_range(&mut list, ItemCategory::Shoes(gouda), 1, 51, 10);
    add_range(&mut list, ItemCategory::Head(gouda), 1, 18, 10);
    add_range(&mut list, ItemCategory::Glasses(gouda), 1, 2, 10);
    add_range(&mut list, ItemCategory::Glasses(gouda), 4, 4, 10);
    add_range(&mut list, ItemCategory::Glasses(gouda), 6, 6, 10);
    add_range(&mut list, ItemCategory::Glasses(gouda), 8, 9, 10);
    add_range(&mut list, ItemCategory::Glasses(gouda), 12, 13, 10);
    add_range(&mut list, ItemCategory::Gloves(gouda), 1, 11, 10);
    add_range(&mut list, ItemCategory::Wing(gouda), 1, 6, 10);
    list
}

/// Appends one GP listing of item `num` of `category` at `price`.
fn add_priced(list: &mut Vec<SellItem>, category: ItemCategory, num: u32, price: u32)
    requires
        all_plain(old(list)@),
        category != ItemCategory::Invalid,
        num <= 0x7FF,
        0 < price <= 0xFFFFF,
    ensures
        all_plain(final(list)@),
        final(list)@.len() == old(list)@.len() + 1,
        final(list)@.last().price == price,
        code_category(final(list)@.last().item.0) == category,
        final(list)@.drop_last() == old(list)@,
{
    let ghost a = list@;
    let item = Item::new(category, num);
    list.push(SellItem { item, currency: Currency::GP, marketing: Marketing::Plain, price, sp_price: 0 });
    proof {
        assert(list@.drop_last() =~= a);
        assert(list@.subrange(0, a.len() as int) =~= a);
        lemma_extend_plain(a, list@);
    }
}

/// The salon's catalogue: for each character four hair styles, hair colours and
/// skin colours, ten eye colours, and its face paints.
pub fn build_salon_list() -> (r: Vec<SellItem>)
    ensures
        all_plain(r@),
        r@.len() == 278,
        forall|k: int| 0 <= k < r@.len() ==> salon_category(code_category(#[trigger] r@[k].item.0)),
{
    let mut list: Vec<SellItem> = Vec::new();
    let chars = vec![
        (CharID::Rusk, 15u32),
        (CharID::Miel, 18u32),
        (CharID::Rose, 19u32),
        (CharID::Chocola, 18u32),
        (CharID::Shelly, 18u32),
        (CharID::Gouda, 20u32),
        (CharID::Sect, 16u32),
    ];
    let mut i: usize = 0;
    while i < chars.len()
        invariant
            i <= chars@.len(),
            chars@.len() == 7,
            forall|k: int| 0 <= k < 7 ==> (#[trigger] chars@[k]).1 == face_paints(k),
            all_plain(list@),
            list@.len() == salon_prefix(i as int),
            forall|k: int| 0 <= k < list@.len() ==> salon_category(code_category(#[trigger] list@[k].item.0)),
        decreases chars@.len() - i,
    {
        let (c, num_face_paints) = chars[i];
        let mut num: u32 = 1;
        while num <= 4
            invariant
                1 <= num <= 5,
                all_plain(list@),
                list@.len() == salon_prefix(i as int) + 3 * (num - 1),
                forall|k: int| 0 <= k < list@.len() ==> salon_category(code_category(#[trigger] list@[k].item.0)),
            decreases 5 - num,
        {
            let ghost l0 = list@;
            add_priced(&mut list, ItemCategory::HairStyle(c), num, 15 * num);
            proof {
                lemma_push_salon(l0, list@);
            }
            let ghost l1 = list@;
            add_priced(&mut list, ItemCategory::HairColor(c), num, 5 * num);
            proof {
                lemma_push_salon(l1, list@);
            }
            let ghost l2 = list@;
            add_priced(&mut list, ItemCategory::SkinColor(c), num, 25 * num);
            proof {
                lemma_push_salon(l2, list@);
            }
            num += 1;
        }
        add_range(&mut list, ItemCategory::EyeColor(c), 1, 10, 20);
        add_range(&mut list, ItemCategory::FacePaint(c), 1, num_face_paints, 3);
        i += 1;
    }
    proof {
        reveal_with_fuel(salon_prefix, 8);
    }
    list
}

/// The answer to a purchase; the wire value is in the comment.
#[derive(Clone, Copy, Debug, PartialEq, Eq, Structural)]
pub enum BuyItemResult {
    /// 0
    OK,
    /// -1: not enough money.
    Balance,
    /// -2
    NoItem,
    /// -3: a count of zero, or more than an inventory may hold.
    InvalidCount,
    /// -4: the item is not for sale.
    InvalidItemType,
    /// -5: the price cannot be computed.
    Error,
    /// -6
    NoTicket,
}

/// The index of the first listing of item `item`, if any.
pub fn find_listing(list: &Vec<SellItem>, item: Item) -> (r: Option<usize>)
    ensures
        r matches Some(i) ==> i < list@.len() && list@[i as int].item == item && forall|k: int| 0 <= k < i ==> list@[k].item != item,
        r is None ==> forall|k: int| 0 <= k < list@.len() ==> list@[k].item != item,
{
    let mut i: usize = 0;
    while i < list.len()
        invariant
            i <= list@.len(),
            forall|k: int| 0 <= k < i ==> list@[k].item != item,
        decreases list@.len() - i,
    {
        if list[i].item.0 == item.0 {
            return Some(i);
        }
        i += 1;
    }
    None
}

/// Whether a listing's currency can pay `cost` from `user`'s balance.
pub open spec fn affordable(user: User, currency: Currency, cost: int) -> bool {
    match currency {
        Currency::GP => cost <= user.gp,
        Currency::SC => cost <= user.sc,
        Currency::TicketsOnly => false,
    }
}

/// Buys `counted_item` from the listings `shop` for `user`: the item must be
/// listed, the count must be at least one and, with what the user holds, at most
/// the category's maximum, and the balance must cover count times price. On
/// success the cost is taken from the listing's currency and the items added.
pub fn do_buy_item(shop: &Vec<SellItem>, user: &mut User, counted_item: CountedItem) -> (r: BuyItemResult)
    ensures
        r == buy_outcome(shop@, *old(user), counted_item),
        buy_effect(shop@, *old(user), *final(user), counted_item, r),
{
    let item = counted_item.item();
    let k = match find_listing(shop, item) {
        Some(k) => k,
        None => return BuyItemResult::InvalidItemType,
    };
    let ghost s = choose|j: int| 0 <= j < shop@.len() && shop@[j].item.0 == item.0 && forall|i: int| 0 <= i < j ==> shop@[i].item.0 != item.0;
    proof {
        assert(shop@[k as int].item.0 == item.0);
        if s < k {
            assert(shop@[s].item != item);
        } else if s > k {
            assert(shop@[k as int].item.0 != item.0);
        }
    }
    let listing = shop[k];
    let current_amount = user.item_amount(item);
    let count = counted_item.count();
    let max = item.category().maximum();
    if count == 0 || count > max {
        return BuyItemResult::InvalidCount;
    }
    if current_amount as u64 + count as u64 > max as u64 {
        return BuyItemResult::InvalidCount;
    }
    assert(count as u64 * listing.price as u64 <= 0x3FF * 0xFFFF_FFFF) by (nonlinear_arith)
        requires
            count <= 0x3FF,
            listing.price <= 0xFFFF_FFFF,
    ;
    let cost: u64 = count as u64 * listing.price as u64;
    if cost > i32::MAX as u64 {
        return BuyItemResult::Error;
    }
    let cost = cost as i32;
    if !user.check_balance(listing.currency, cost) {
        return BuyItemResult::Balance;
    }
    user.adjust_balance(listing.currency, -cost);
    user.add_item(counted_item);
    BuyItemResult::OK
}

/// A caddie for hire.
#[derive(Clone, Copy, Debug, PartialEq, Eq, Structural)]
pub struct SellCaddy {
    /// 22 bits.
    pub item: Item,
    pub currency: Currency,
    pub marketing: Marketing,
    pub price_3_hours: u32,
    pub price_3_days: u32,
    pub price_30_days: u32,
    pub infinite_rental: i32,
}

/// The five wire words of a caddie listing: the item with the flags from bit
/// 22 on, the three prices, and the permanent-hire price.
pub open spec fn sell_caddy_words(s: SellCaddy) -> Seq<u32> {
    seq![
        s.item.0 | ((currency_flags(s.currency) | marketing_flags(s.marketing)) << 22),
        s.price_3_hours,
        s.price_3_days,
        s.price_30_days,
        s.infinite_rental as u32,
    ]
}

/// The caddie listing that five wire words describe.
pub open spec fn sell_caddy_of_words(w: Seq<u32>) -> SellCaddy {
    SellCaddy {
        item: Item(w[0] & 0x3FFFFF),
        currency: currency_of_flags(w[0] >> 22),
        marketing: marketing_of_flags(w[0] >> 22),
        price_3_hours: w[1],
        price_3_days: w[2],
        price_30_days: w[3],
        infinite_rental: w[4] as i32,
    }
}

proof fn lemma_caddy_bits(item: u32, flags: u32, rental: i32)
    requires
        item <= 0x3FFFFF,
        flags <= 0x3FF,
    ensures
        (item | (flags << 22)) & 0x3FFFFF == item,
        (item | (flags << 22)) >> 22 == flags,
        (rental as u32) as i32 == rental,
{
    assert((item | (flags << 22)) & 0x3FFFFF == item && (item | (flags << 22)) >> 22 == flags)
        by (bit_vector)
        requires
            item <= 0x3FFFFF,
            flags <= 0x3FF,
    ;
    assert((rental as u32) as i32 == rental) by (bit_vector);
}

/// A caddie listing whose item fits 22 bits survives encoding.
pub proof fn lemma_sell_caddy_round_trip(s: SellCaddy)
    requires
        s.item.0 <= 0x3FFFFF,
    ensures
        sell_caddy_of_words(sell_caddy_words(s)) == s,
{
    let flags = currency_flags(s.currency) | marketing_flags(s.marketing);
    lemma_listing_flags(currency_flags(s.currency), marketing_flags(s.marketing));
    lemma_caddy_bits(s.item.0, flags, s.infinite_rental);
}

impl SellCaddy {
    /// The five wire words; the item is cut to its 22 bits.
    pub fn to_words(&self) -> (r: Vec<u32>)
        requires
            self.item.0 <= 0x3FFFFF,
        ensures
            r@ == sell_caddy_words(*self),
    {
        let flags = currency_to_flags(self.currency) | self.marketing.to_flags();
        let r = vec![
            self.item.0 | (flags << 22),
            self.price_3_hours,
            self.price_3_days,
            self.price_30_days,
            self.infinite_rental as u32,
        ];
        assert(r@ =~= sell_caddy_words(*self));
        r
    }

    /// The caddie listing that five wire words describe.
    pub fn from_words(w: &Vec<u32>) -> (r: SellCaddy)
        requires
            w@.len() == 5,
        ensures
            r == sell_caddy_of_words(w@),
    {
        let flags = w[0] >> 22;
        SellCaddy {
            item: Item(w[0] & 0x3FFFFF),
            currency: currency_from_flags(flags),
            marketing: Marketing::from_flags(flags),
            price_3_hours: w[1],
            price_3_days: w[2],
            price_30_days: w[3],
            infinite_rental: w[4] as i32,
        }
    }
}

/// How many face paints character `k` of the salon list has.
pub open spec fn face_paints(k: int) -> u32 {
    if k == 0 { 15 } else if k == 1 { 18 } else if k == 2 { 19 } else if k == 3 { 18 } else if k == 4 {
        18
    } else if k == 5 { 20 } else { 16 }
}

/// The number of salon listings of the first `i` characters.
pub open spec fn salon_prefix(i: int) -> int
    decreases i,
{
    if i <= 0 { 0 } else { salon_prefix(i - 1) + 22 + face_paints(i - 1) }
}

} // verus!

verus! {

/// The wire words of a list of listings: three per listing, in order.
pub open spec fn listing_words(list: Seq<SellItem>) -> Seq<u32> {
    Seq::new(3 * list.len(), |i: int| sell_item_words(list[i / 3])[i % 3])
}

/// The wire words of a list of listings: three per listing, in order.
pub fn listings_to_words(list: &Vec<SellItem>) -> (r: Vec<u32>)
    requires
        list@.len() < 0x1000_0000,
    ensures
        r@ == listing_words(list@),
{
    let mut r: Vec<u32> = Vec::new();
    let mut k: usize = 0;
    while k < list.len()
        invariant
            k <= list@.len(),
            list@.len() < 0x1000_0000,
            r@ == listing_words(list@.subrange(0, k as int)),
        decreases list@.len() - k,
    {
        let w = list[k].to_words();
        let ghost before = r@;
        r.push(w[0]);
        r.push(w[1]);
        r.push(w[2]);
        proof {
            let sub = list@.subrange(0, k + 1);
            assert forall|i: int| 0 <= i < 3 * (k + 1) implies #[trigger] listing_words(sub)[i] == r@[i] by {
                if i < 3 * k {
                    assert(sub[i / 3] == list@.subrange(0, k as int)[i / 3]);
                    assert(before[i] == listing_words(list@.subrange(0, k as int))[i]);
                } else {
                    assert(i / 3 == k);
                }
            }
            assert(r@ =~= listing_words(sub));
        }
        k += 1;
    }
    assert(list@.subrange(0, list@.len() as int) == list@);
    r
}

/// The first listing of identifier `item` in `shop`.
pub open spec fn listing_of(shop: Seq<SellItem>, item: u32) -> int {
    choose|k: int| 0 <= k < shop.len() && shop[k].item.0 == item && forall|j: int| 0 <= j < k ==> shop[j].item.0 != item
}

/// How a purchase of `ci` from `shop` by `user` is answered: the item must be
/// listed, the count at least one and, with what the user holds, at most the
/// category's maximum, the price computable, and the balance sufficient.
pub open spec fn buy_outcome(shop: Seq<SellItem>, user: User, ci: CountedItem) -> BuyItemResult {
    let item = ci.0 >> 10;
    let count = ci.0 & 0x3FF;
    let max = category_maximum(code_category(item));
    let have = amount_in(user.inventory@, item);
    if forall|k: int| 0 <= k < shop.len() ==> shop[k].item.0 != item {
        BuyItemResult::InvalidItemType
    } else if count == 0 || count > max || have + count > max {
        BuyItemResult::InvalidCount
    } else {
        let s = listing_of(shop, item);
        let cost = count * shop[s].price;
        if cost > i32::MAX {
            BuyItemResult::Error
        } else if !affordable(user, shop[s].currency, cost) {
            BuyItemResult::Balance
        } else {
            BuyItemResult::OK
        }
    }
}

/// What a purchase with answer `r` does to the user: on success the listing's
/// currency drops by the cost and the items are added; otherwise nothing changes.
pub open spec fn buy_effect(shop: Seq<SellItem>, before: User, after: User, ci: CountedItem, r: BuyItemResult) -> bool {
    let item = ci.0 >> 10;
    &&& after.class == before.class
    &&& after.golfbag == before.golfbag
    &&& after.holdbox == before.holdbox
    &&& r != BuyItemResult::OK ==> after == before
    &&& r == BuyItemResult::OK ==> {
        let s = listing_of(shop, item);
        let cost = (ci.0 & 0x3FF) * shop[s].price;
        &&& amount_in(after.inventory@, item) == amount_in(before.inventory@, item) + (ci.0 & 0x3FF)
        &&& shop[s].currency == Currency::GP ==> after.gp == before.gp - cost && after.sc == before.sc
        &&& shop[s].currency == Currency::SC ==> after.sc == before.sc - cost && after.gp == before.gp
    }
}

/// The categories the salon sells: a character's hair style, hair colour, skin
/// colour, eye colour or face paint.
pub open spec fn salon_category(c: ItemCategory) -> bool {
    c is HairStyle || c is HairColor || c is SkinColor || c is EyeColor || c is FacePaint
}

proof fn lemma_push_salon(a: Seq<SellItem>, b: Seq<SellItem>)
    requires
        b.len() == a.len() + 1,
        b.drop_last() == a,
        forall|k: int| 0 <= k < a.len() ==> salon_category(code_category(#[trigger] a[k].item.0)),
        salon_category(code_category(b.last().item.0)),
    ensures
        forall|k: int| 0 <= k < b.len() ==> salon_category(code_category(#[trigger] b[k].item.0)),
{
    assert forall|k: int| 0 <= k < b.len() implies salon_category(code_category(#[trigger] b[k].item.0)) by {
        if k < a.len() {
            assert(b[k] == b.drop_last()[k]);
        }
    }
}

} // verus!
