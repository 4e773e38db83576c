//! The ledger: every vendor, the log of inventory changes, the session tokens
//! and the history of average prices per item type.
use crate::purchase::Order;
use crate::shop::{add_in, holds_in, item_names, min, pos_in, sell_in, update_in, Item, Vendor};
use crate::text::{lower_of, underscored};
use crate::util::{is_rust_type, rust_type, string_views, RUST_TYPE_COUNT};
use vstd::prelude::*;

verus! {

/// Failures of registration and of token lookup.
#[derive(Debug, PartialEq, Eq, Structural)]
pub enum LedgerError {
    ExistingVendor,
    ExistingUrl,
    InvalidVendor,
}

/// A session token as a request carries it.
#[derive(Debug)]
pub struct UUID {
    pub uuid: String,
}

/// One change of goods at a vendor: `change` units of `attribute` at
/// `vendor`, worth `price` bits, recorded under sequence number `id`.
#[derive(Debug)]
pub struct Entry {
    pub id: u64,
    pub vendor: String,
    pub attribute: String,
    pub change: i64,
    pub price: i128,
}

/// One point of an item type's price history: the total value in bits of the
/// market's stock of the type (stocked units times price, over all vendors)
/// and the number of units stocked. Their ratio is the average price; a point
/// with no units stands for a type that nobody stocks.
#[derive(Debug, Clone, Copy, PartialEq, Eq, Structural)]
pub struct AvgPrice {
    pub value: u128,
    pub quantity: u128,
}

/// The settings that shape a new vendor: its initial balance, the quantity
/// of each item type it starts with, and the bounds of how many types.
#[derive(Debug, Clone, Copy, PartialEq, Eq, Structural)]
pub struct MarketConfig {
    pub initial_bits: u64,
    pub item_count: u32,
    pub min_items: usize,
    pub max_items: usize,
}

impl MarketConfig {
    pub open spec fn valid(&self) -> bool {
        self.min_items <= self.max_items < usize::MAX
    }
}

impl Default for MarketConfig {
    fn default() -> (r: MarketConfig)
        ensures
            r == (MarketConfig { initial_bits: 1000, item_count: 50, min_items: 3, max_items: 6 }),
    {
        MarketConfig { initial_bits: 1000, item_count: 50, min_items: 3, max_items: 6 }
    }
}

/// Length of a session token.
pub const TOKEN_LENGTH: usize = 21;

/// The ledger as a mathematical value.
pub struct LedgerView {
    pub version: u64,
    pub vendors: Seq<Vendor>,
    pub entries: Seq<Entry>,
    pub tokens: Seq<Seq<char>>,
    pub vendor_versions: Seq<u64>,
    pub known: Seq<Seq<char>>,
    pub history: Seq<Seq<AvgPrice>>,
    pub config: MarketConfig,
}

/// The names of `vs`, in order.
pub open spec fn vendor_names(vs: Seq<Vendor>) -> Seq<Seq<char>> {
    vs.map_values(|v: Vendor| v.name@)
}

/// The urls of `vs`, in order.
pub open spec fn vendor_urls(vs: Seq<Vendor>) -> Seq<Seq<char>> {
    vs.map_values(|v: Vendor| v.url@)
}

/// The url that a vendor called `name` gets when it names none.
pub open spec fn derived_url(name: Seq<char>) -> Seq<char> {
    underscored(lower_of(name))
}

/// `b` is a copy of `a`.
pub open spec fn same_vendor(a: Vendor, b: Vendor) -> bool {
    &&& b.name == a.name
    &&& b.url == a.url
    &&& b.bits == a.bits
    &&& b.items@ == a.items@
}

/// Stock value of the type `t` at vendor `v`: stocked units times price.
pub open spec fn stock_value(v: Vendor, t: Seq<char>) -> int {
    if v.holds(t) {
        v.item(t).stocked * v.item(t).price
    } else {
        0
    }
}

/// Stocked units of the type `t` at vendor `v`.
pub open spec fn stock_quantity(v: Vendor, t: Seq<char>) -> int {
    if v.holds(t) {
        v.item(t).stocked as int
    } else {
        0
    }
}

/// Stock value of the type `t` over all of `vs`.
pub open spec fn market_value(vs: Seq<Vendor>, t: Seq<char>) -> int
    decreases vs.len(),
{
    if vs.len() == 0 {
        0
    } else {
        market_value(vs.drop_last(), t) + stock_value(vs.last(), t)
    }
}

/// Stocked units of the type `t` over all of `vs`.
pub open spec fn market_quantity(vs: Seq<Vendor>, t: Seq<char>) -> int
    decreases vs.len(),
{
    if vs.len() == 0 {
        0
    } else {
        market_quantity(vs.drop_last(), t) + stock_quantity(vs.last(), t)
    }
}

/// `p` is the price point of type `t` over `vs`, where `known` lists the
/// item types that the ledger tracks; an untracked type records nothing.
pub open spec fn is_avg_point(p: AvgPrice, vs: Seq<Vendor>, known: Seq<Seq<char>>, t: Seq<char>) -> bool {
    if known.contains(t) {
        p.value == market_value(vs, t) && p.quantity == market_quantity(vs, t)
    } else {
        p.value == 0 && p.quantity == 0
    }
}

/// `n` extends every row of `o` by the price point of its catalogue type
/// over `vs`.
pub open spec fn history_extended(
    o: Seq<Seq<AvgPrice>>,
    n: Seq<Seq<AvgPrice>>,
    vs: Seq<Vendor>,
    known: Seq<Seq<char>>,
) -> bool {
    &&& n.len() == o.len()
    &&& forall|i: int|
        0 <= i < o.len() ==> {
            &&& (#[trigger] n[i]).len() == o[i].len() + 1
            &&& n[i].drop_last() == o[i]
            &&& is_avg_point(n[i].last(), vs, known, rust_type(i))
        }
}

/// The url that a registration asks for: the one given, or the one derived
/// from the name.
pub open spec fn registration_url(name: Seq<char>, url: Option<String>) -> Seq<char> {
    match url {
        Some(u) => u@,
        None => derived_url(name),
    }
}

/// The items a new vendor starts with: `count` stocked units of each type of
/// `assortment`, at price 0.
pub open spec fn stock_items(assortment: Seq<String>, count: u32) -> Seq<Item> {
    assortment.map_values(|t: String| Item { name: t, price: 0, stocked: count, stored: 0 })
}

/// The entries that record a new vendor's items.
pub open spec fn registration_entries(id: u64, vendor: String, assortment: Seq<String>, count: u32) -> Seq<Entry> {
    assortment.map_values(|t: String| Entry { id, vendor, attribute: t, change: count as i64, price: 0 })
}

/// `known` with each of `names` appended unless already present.
pub open spec fn with_names(known: Seq<Seq<char>>, names: Seq<Seq<char>>) -> Seq<Seq<char>>
    decreases names.len(),
{
    if names.len() == 0 {
        known
    } else {
        let k = with_names(known, names.drop_last());
        if k.contains(names.last()) {
            k
        } else {
            k.push(names.last())
        }
    }
}

/// `n` and `r` are the ledger and the result after registering `name` with
/// `url` and the initial `assortment` of item types, minting `token`.
pub open spec fn registered(
    o: LedgerView,
    n: LedgerView,
    name: String,
    url: Option<String>,
    assortment: Seq<String>,
    token: String,
    r: Result<String, LedgerError>,
) -> bool {
    if vendor_names(o.vendors).contains(name@) {
        r == Err::<String, LedgerError>(LedgerError::ExistingVendor) && n == o
    } else if url is Some && vendor_urls(o.vendors).contains(url->0@) {
        r == Err::<String, LedgerError>(LedgerError::ExistingUrl) && n == o
    } else {
        let v = n.vendors.last();
        &&& r == Ok::<String, LedgerError>(token)
        &&& n.vendors.len() == o.vendors.len() + 1
        &&& n.vendors.drop_last() == o.vendors
        &&& v.name == name
        &&& v.url@ == registration_url(name@, url)
        &&& v.bits == o.config.initial_bits
        &&& v.items@ == stock_items(assortment, o.config.item_count)
        &&& n.tokens == o.tokens.push(token@)
        &&& n.vendor_versions == o.vendor_versions.push(0)
        &&& n.version == o.version + 4
        &&& n.known == with_names(o.known, string_views(assortment))
        &&& n.entries == o.entries + registration_entries(
            (o.version + 1) as u64,
            name,
            assortment,
            o.config.item_count,
        )
        &&& history_extended(o.history, n.history, o.vendors, n.known)
        &&& n.config == o.config
    }
}

/// An initial assortment that the random draw can give: distinct catalogue
/// types, at least one, and between the configured bounds unless it is the
/// whole catalogue.
pub open spec fn drawn_assortment(a: Seq<String>, config: MarketConfig) -> bool {
    &&& forall|k: int| 0 <= k < a.len() ==> is_rust_type(#[trigger] a[k]@)
    &&& string_views(a).no_duplicates()
    &&& 0 < a.len() <= RUST_TYPE_COUNT
    &&& a.len() < RUST_TYPE_COUNT ==> config.min_items <= a.len() <= config.max_items
}

/// What appending `names` to `known` keeps and adds.
pub proof fn lemma_with_names(known: Seq<Seq<char>>, names: Seq<Seq<char>>)
    ensures
        forall|x: Seq<char>| known.contains(x) ==> #[trigger] with_names(known, names).contains(x),
        forall|k: int| 0 <= k < names.len() ==> with_names(known, names).contains(#[trigger] names[k]),
        forall|x: Seq<char>|
            #[trigger] with_names(known, names).contains(x) ==> known.contains(x) || names.contains(x),
        known.no_duplicates() ==> with_names(known, names).no_duplicates(),
    decreases names.len(),
{
    if names.len() > 0 {
        let init = names.drop_last();
        lemma_with_names(known, init);
        let k = with_names(known, init);
        let w = with_names(known, names);
        assert forall|x: Seq<char>| known.contains(x) implies #[trigger] w.contains(x) by {
            assert(k.contains(x));
            if !k.contains(names.last()) {
                let i = choose|i: int| 0 <= i < k.len() && k[i] == x;
                assert(w[i] == x);
            }
        }
        assert forall|j: int| 0 <= j < names.len() implies w.contains(#[trigger] names[j]) by {
            if j < names.len() - 1 {
                assert(init[j] == names[j]);
                assert(k.contains(names[j]));
                if !k.contains(names.last()) {
                    let i = choose|i: int| 0 <= i < k.len() && k[i] == names[j];
                    assert(w[i] == names[j]);
                }
            } else if !k.contains(names.last()) {
                assert(w[k.len() as int] == names[j]);
            }
        }
        assert forall|x: Seq<char>| #[trigger] w.contains(x) implies known.contains(x) || names.contains(x) by {
            let i = choose|i: int| 0 <= i < w.len() && w[i] == x;
            if i < k.len() {
                assert(k[i] == x);
                assert(k.contains(x));
                if init.contains(x) {
                    let m = choose|m: int| 0 <= m < init.len() && init[m] == x;
                    assert(names[m] == x);
                }
            } else {
                assert(names[names.len() - 1] == x);
            }
        }
    }
}

/// `n` and `r` are the ledger and the understock after the vendor at `s`
/// sells up to `count` stocked units of `item` at `price` to the vendor at
/// `b`. The seller parts with what it has in stock; the buyer receives all
/// `count` units into its stock and pays for the units sold.
pub open spec fn purchased(
    o: LedgerView,
    n: LedgerView,
    item: String,
    count: u32,
    s: int,
    b: int,
    price: u32,
    r: u32,
) -> bool {
    let seller = o.vendors[s];
    let buyer = o.vendors[b];
    let sold = min(count as int, seller.item(item@).stocked as int);
    let after_sale = sell_in(seller.items@, item@, count as int);
    let received = Item { name: item, price, stocked: count, stored: 0 };
    &&& r == count - sold
    &&& n.vendors.len() == o.vendors.len()
    &&& forall|j: int| 0 <= j < o.vendors.len() && j != s && j != b ==> #[trigger] n.vendors[j] == o.vendors[j]
    &&& s != b ==> same_vendor(
        Vendor { items: n.vendors[s].items, ..seller },
        n.vendors[s],
    ) && n.vendors[s].items@ == after_sale
    &&& n.vendors[b].name == buyer.name
    &&& n.vendors[b].url == buyer.url
    &&& n.vendors[b].bits == buyer.bits - price * sold
    &&& n.vendors[b].items@ == add_in(if s == b { after_sale } else { buyer.items@ }, received, false)
    &&& n.entries == o.entries.push(
        Entry {
            id: (o.version + 1) as u64,
            vendor: seller.name,
            attribute: item,
            change: -sold as i64,
            price: (price * sold) as i128,
        },
    ).push(
        Entry {
            id: (o.version + 2) as u64,
            vendor: buyer.name,
            attribute: item,
            change: sold as i64,
            price: -(price * sold) as i128,
        },
    )
    &&& n.version == o.version + 2
    &&& n.tokens == o.tokens
    &&& n.vendor_versions == o.vendor_versions
    &&& n.known == o.known
    &&& history_extended(o.history, n.history, n.vendors, n.known)
    &&& n.config == o.config
}

/// The columns that describe a vendor's items: names, prices and stocked
/// units.
pub open spec fn stock_columns(items: Seq<Item>, c: (Vec<String>, Vec<u32>, Vec<u32>)) -> bool {
    &&& string_views(c.0@) == item_names(items)
    &&& c.1@ == items.map_values(|it: Item| it.price)
    &&& c.2@ == items.map_values(|it: Item| it.stocked)
}

/// `state` lists every vendor of `vs` by name with the columns of its items.
pub open spec fn is_state_of(vs: Seq<Vendor>, state: Seq<(String, (Vec<String>, Vec<u32>, Vec<u32>))>) -> bool {
    &&& state.len() == vs.len()
    &&& forall|j: int|
        0 <= j < vs.len() ==> (#[trigger] state[j]).0@ == vs[j].name@ && stock_columns(vs[j].items@, state[j].1)
}

/// `c` lists a vendor's item names and stored units, with no prices.
pub open spec fn is_store_of(items: Seq<Item>, c: (Vec<String>, Vec<u32>, Vec<u32>)) -> bool {
    &&& string_views(c.0@) == item_names(items)
    &&& c.1@.len() == 0
    &&& c.2@ == items.map_values(|it: Item| it.stored)
}

impl LedgerView {
    /// The parallel lists agree in length, vendor names are unique, every
    /// vendor is well formed and holds only tracked types, the tracked types
    /// are distinct catalogue types, and there is one history row per
    /// catalogue type, all of one length.
    pub open spec fn wf(self) -> bool {
        &&& self.vendors.len() == self.tokens.len()
        &&& self.vendors.len() == self.vendor_versions.len()
        &&& vendor_names(self.vendors).no_duplicates()
        &&& forall|j: int| 0 <= j < self.vendors.len() ==> (#[trigger] self.vendors[j]).wf()
        &&& forall|j: int, k: int|
            0 <= j < self.vendors.len() && 0 <= k < self.vendors[j].items@.len()
                ==> self.known.contains(#[trigger] self.vendors[j].items@[k].name@)
        &&& forall|k: int| 0 <= k < self.known.len() ==> is_rust_type(#[trigger] self.known[k])
        &&& self.known.no_duplicates()
        &&& self.history.len() == RUST_TYPE_COUNT
        &&& forall|i: int|
            0 <= i < RUST_TYPE_COUNT ==> (#[trigger] self.history[i]).len() == self.history[0].len()
        &&& self.config.valid()
    }
}

/// The market's shared state: vendors with their parallel tokens and synced
/// versions, the log of entries, the item types seen so far, and one row of
/// price history per catalogue type.
pub struct Ledger {
    version: u64,
    vendors: Vec<Vendor>,
    entries: Vec<Entry>,
    vendor_ids: Vec<String>,
    vendor_versions: Vec<u64>,
    ledger_items: Vec<String>,
    price_history: Vec<Vec<AvgPrice>>,
    config: MarketConfig,
}

impl View for Ledger {
    type V = LedgerView;

    closed spec fn view(&self) -> LedgerView {
        LedgerView {
            version: self.version,
            vendors: self.vendors@,
            entries: self.entries@,
            tokens: string_views(self.vendor_ids@),
            vendor_versions: self.vendor_versions@,
            known: string_views(self.ledger_items@),
            history: self.price_history@.map_values(|r: Vec<AvgPrice>| r@),
            config: self.config,
        }
    }
}

impl Ledger {
    pub open spec fn wf(&self) -> bool {
        self@.wf()
    }

    /// An empty ledger with the standard settings.
    pub fn new() -> (r: Ledger)
        ensures
            r.wf(),
            r@.version == 0,
            r@.vendors.len() == 0,
            r@.entries.len() == 0,
            r@.known.len() == 0,
            forall|i: int| 0 <= i < RUST_TYPE_COUNT ==> (#[trigger] r@.history[i]).len() == 0,
            r@.config == (MarketConfig {
                initial_bits: 1000,
                item_count: 50,
                min_items: 3,
                max_items: 6,
            }),
    {
        Ledger::with_config(MarketConfig::default())
    }

    /// An empty ledger with the given settings.
    pub fn with_config(config: MarketConfig) -> (r: Ledger)
        requires
            config.valid(),
        ensures
            r.wf(),
            r@.version == 0,
            r@.vendors.len() == 0,
            r@.entries.len() == 0,
            r@.known.len() == 0,
            forall|i: int| 0 <= i < RUST_TYPE_COUNT ==> (#[trigger] r@.history[i]).len() == 0,
            r@.config == config,
    {
        let mut price_history: Vec<Vec<AvgPrice>> = Vec::new();
        let mut i: usize = 0;
        while i < RUST_TYPE_COUNT
            invariant
                i <= RUST_TYPE_COUNT,
                price_history@.len() == i,
                forall|j: int| 0 <= j < i ==> (#[trigger] price_history@[j])@.len() == 0,
            decreases RUST_TYPE_COUNT - i,
        {
            price_history.push(Vec::new());
            i = i + 1;
        }
        let r = Ledger {
            version: 0,
            vendors: Vec::new(),
            entries: Vec::new(),
            vendor_ids: Vec::new(),
            vendor_versions: Vec::new(),
            ledger_items: Vec::new(),
            price_history,
            config,
        };
        proof {
            assert(r@.known =~= Seq::<Seq<char>>::empty());
            assert(r@.tokens =~= Seq::<Seq<char>>::empty());
            assert(vendor_names(r@.vendors) =~= Seq::<Seq<char>>::empty());
        }
        r
    }

    /// The names of all vendors, in order of registration.
    pub fn get_vendor_names(&self) -> (r: Vec<String>)
        ensures
            string_views(r@) == vendor_names(self@.vendors),
    {
        let mut r: Vec<String> = Vec::new();
        let mut i: usize = 0;
        while i < self.vendors.len()
            invariant
                i <= self.vendors@.len(),
                r@.len() == i,
                forall|j: int| 0 <= j < i ==> (#[trigger] r@[j])@ == self@.vendors[j].name@,
            decreases self.vendors@.len() - i,
        {
            r.push(self.vendors[i].name.clone());
            i = i + 1;
        }
        proof {
            assert(string_views(r@) =~= vendor_names(self@.vendors));
        }
        r
    }

    /// The urls of all vendors, in order of registration.
    pub fn get_vendor_urls(&self) -> (r: Vec<String>)
        ensures
            string_views(r@) == vendor_urls(self@.vendors),
    {
        let mut r: Vec<String> = Vec::new();
        let mut i: usize = 0;
        while i < self.vendors.len()
            invariant
                i <= self.vendors@.len(),
                r@.len() == i,
                forall|j: int| 0 <= j < i ==> (#[trigger] r@[j])@ == self@.vendors[j].url@,
            decreases self.vendors@.len() - i,
        {
            r.push(self.vendors[i].url.clone());
            i = i + 1;
        }
        proof {
            assert(string_views(r@) =~= vendor_urls(self@.vendors));
        }
        r
    }

    /// The ledger's version: it grows with every registration and purchase.
    pub fn get_version(&self) -> (r: u64)
        ensures
            r == self@.version,
    {
        self.version
    }

    /// The item types that the ledger tracks, in the order they were first
    /// seen.
    pub fn get_ledger_items(&self) -> (r: Vec<String>)
        ensures
            string_views(r@) == self@.known,
    {
        let r = self.ledger_items.clone();
        proof {
            assert(string_views(r@) =~= string_views(self.ledger_items@));
        }
        r
    }

    /// A copy of the vendor at position `index`.
    pub fn get_vendor(&self, index: usize) -> (r: Vendor)
        requires
            index < self@.vendors.len(),
        ensures
            same_vendor(self@.vendors[index as int], r),
    {
        self.vendors[index].clone()
    }

    /// Copies of all vendors, in order of registration.
    pub fn get_vendors(&self) -> (r: Vec<Vendor>)
        ensures
            r@.len() == self@.vendors.len(),
            forall|j: int| 0 <= j < r@.len() ==> same_vendor(self@.vendors[j], #[trigger] r@[j]),
    {
        self.vendors.clone()
    }

    /// The log of inventory changes, oldest first.
    pub fn get_entries(&self) -> (r: &Vec<Entry>)
        ensures
            r@ == self@.entries,
    {
        &self.entries
    }

    /// The price history of every catalogue type, in catalogue order.
    pub fn get_price_history(&self) -> (r: Vec<Vec<AvgPrice>>)
        ensures
            r@.len() == self@.history.len(),
            forall|i: int| 0 <= i < r@.len() ==> (#[trigger] r@[i])@ == self@.history[i],
    {
        let r = self.price_history.clone();
        proof {
            assert forall|i: int| 0 <= i < r@.len() implies (#[trigger] r@[i])@ == self@.history[i] by {
                assert(r@[i]@ =~= self.price_history@[i]@);
            }
        }
        r
    }

    /// The price history of the catalogue type `item`.
    pub fn get_item_history(&self, item: String) -> (r: Vec<AvgPrice>)
        requires
            self.wf(),
            is_rust_type(item@),
        ensures
            exists|i: int| crate::util::is_first_rust_type_index(item@, i) && r@ == self@.history[i],
    {
        let i = crate::util::get_rust_type_index(item);
        let r = self.price_history[i].clone();
        proof {
            assert(r@ =~= self@.history[i as int]);
        }
        r
    }

    /// The position of the vendor called `name`, if there is one.
    pub fn find_vendor(&self, name: &String) -> (r: Option<usize>)
        ensures
            match r {
                Some(i) => crate::shop::is_first_index(vendor_names(self@.vendors), name@, i as int),
                None => !vendor_names(self@.vendors).contains(name@),
            },
    {
        let mut i: usize = 0;
        while i < self.vendors.len()
            invariant
                i <= self.vendors@.len(),
                forall|j: int| 0 <= j < i ==> vendor_names(self@.vendors)[j] != name@,
            decreases self.vendors@.len() - i,
        {
            if self.vendors[i].name == *name {
                return Some(i);
            }
            i = i + 1;
        }
        proof {
            assert forall|j: int| 0 <= j < vendor_names(self@.vendors).len() implies vendor_names(
                self@.vendors,
            )[j] != name@ by {}
        }
        None
    }

    /// The position of the first vendor whose url is `url`, if there is one.
    pub fn find_vendor_by_url(&self, url: &String) -> (r: Option<usize>)
        ensures
            match r {
                Some(i) => crate::shop::is_first_index(vendor_urls(self@.vendors), url@, i as int),
                None => !vendor_urls(self@.vendors).contains(url@),
            },
    {
        let mut i: usize = 0;
        while i < self.vendors.len()
            invariant
                i <= self.vendors@.len(),
                forall|j: int| 0 <= j < i ==> vendor_urls(self@.vendors)[j] != url@,
            decreases self.vendors@.len() - i,
        {
            if self.vendors[i].url == *url {
                return Some(i);
            }
            i = i + 1;
        }
        proof {
            assert forall|j: int| 0 <= j < vendor_urls(self@.vendors).len() implies vendor_urls(
                self@.vendors,
            )[j] != url@ by {}
        }
        None
    }

    /// The position of the vendor that holds the session token `uuid`.
    pub fn verify_uuid(&self, uuid: String) -> (r: Result<usize, LedgerError>)
        ensures
            match r {
                Ok(i) => crate::shop::is_first_index(self@.tokens, uuid@, i as int),
                Err(e) => e == LedgerError::InvalidVendor && !self@.tokens.contains(uuid@),
            },
    {
        let mut i: usize = 0;
        while i < self.vendor_ids.len()
            invariant
                i <= self.vendor_ids@.len(),
                forall|j: int| 0 <= j < i ==> self@.tokens[j] != uuid@,
            decreases self.vendor_ids@.len() - i,
        {
            if self.vendor_ids[i] == uuid {
                return Ok(i);
            }
            i = i + 1;
        }
        proof {
            assert forall|j: int| 0 <= j < self@.tokens.len() implies self@.tokens[j] != uuid@ by {}
        }
        Err(LedgerError::InvalidVendor)
    }

    /// Total stock value and stocked units of the type `t` over all vendors.
    fn market_point(&self, t: &String) -> (r: AvgPrice)
        ensures
            r.value == market_value(self@.vendors, t@),
            r.quantity == market_quantity(self@.vendors, t@),
    {
        let mut value: u128 = 0;
        let mut quantity: u128 = 0;
        let mut j: usize = 0;
        while j < self.vendors.len()
            invariant
                j <= self.vendors@.len(),
                value == market_value(self@.vendors.subrange(0, j as int), t@),
                quantity == market_quantity(self@.vendors.subrange(0, j as int), t@),
                value <= j * 0xffff_fffe_0000_0001u128,
                quantity <= j * 0xffff_ffffu128,
            decreases self.vendors@.len() - j,
        {
            let v = &self.vendors[j];
            proof {
                assert(self@.vendors.subrange(0, j + 1).drop_last() =~= self@.vendors.subrange(0, j as int));
                assert(self@.vendors.subrange(0, j + 1).last() == self@.vendors[j as int]);
                assert((j + 1) * 0xffff_fffe_0000_0001u128 < 0x1_0000_0000_0000_0000_0000_0000_0000_0000int);
            }
            match v.get_item(t) {
                Some(it) => {
                    let s = it.stocked as u128;
                    let p = it.price as u128;
                    assert(s * p <= 0xffff_fffe_0000_0001u128) by (nonlinear_arith)
                        requires
                            s <= 0xffff_ffffu128,
                            p <= 0xffff_ffffu128,
                    ;
                    value = value + s * p;
                    quantity = quantity + s;
                },
                None => {},
            }
            j = j + 1;
        }
        proof {
            assert(self@.vendors.subrange(0, j as int) =~= self@.vendors);
        }
        AvgPrice { value, quantity }
    }

    /// The price point of every tracked item type, in the order they were
    /// first seen.
    fn calculate_avg_prices(&self) -> (r: Vec<(String, AvgPrice)>)
        ensures
            r@.len() == self@.known.len(),
            forall|k: int|
                0 <= k < r@.len() ==> {
                    &&& (#[trigger] r@[k]).0@ == self@.known[k]
                    &&& r@[k].1.value == market_value(self@.vendors, self@.known[k])
                    &&& r@[k].1.quantity == market_quantity(self@.vendors, self@.known[k])
                },
    {
        let mut r: Vec<(String, AvgPrice)> = Vec::new();
        let mut k: usize = 0;
        while k < self.ledger_items.len()
            invariant
                k <= self.ledger_items@.len(),
                r@.len() == k,
                forall|m: int|
                    0 <= m < k ==> {
                        &&& (#[trigger] r@[m]).0@ == self@.known[m]
                        &&& r@[m].1.value == market_value(self@.vendors, self@.known[m])
                        &&& r@[m].1.quantity == market_quantity(self@.vendors, self@.known[m])
                    },
            decreases self.ledger_items@.len() - k,
        {
            let t = self.ledger_items[k].clone();
            let point = self.market_point(&t);
            r.push((t, point));
            k = k + 1;
        }
        r
    }

    /// Appends `new_vals[i]` to the price history of catalogue type `i`.
    fn update_avg_price(&mut self, new_vals: Vec<AvgPrice>)
        requires
            old(self)@.history.len() == new_vals@.len(),
        ensures
            final(self)@.history.len() == old(self)@.history.len(),
            forall|i: int|
                0 <= i < new_vals@.len() ==> #[trigger] final(self)@.history[i] == old(
                    self,
                )@.history[i].push(new_vals@[i]),
            final(self)@.version == old(self)@.version,
            final(self)@.vendors == old(self)@.vendors,
            final(self)@.entries == old(self)@.entries,
            final(self)@.tokens == old(self)@.tokens,
            final(self)@.vendor_versions == old(self)@.vendor_versions,
            final(self)@.known == old(self)@.known,
            final(self)@.config == old(self)@.config,
    {
        let mut i: usize = 0;
        while i < new_vals.len()
            invariant
                i <= new_vals@.len(),
                self.price_history@.len() == new_vals@.len(),
                forall|j: int|
                    0 <= j < i ==> (#[trigger] self.price_history@[j])@ == old(self).price_history@[j]@.push(
                        new_vals@[j],
                    ),
                forall|j: int|
                    i <= j < new_vals@.len() ==> #[trigger] self.price_history@[j] == old(self).price_history@[j],
                self.version == old(self).version,
                self.vendors == old(self).vendors,
                self.entries == old(self).entries,
                self.vendor_ids == old(self).vendor_ids,
                self.vendor_versions == old(self).vendor_versions,
                self.ledger_items == old(self).ledger_items,
                self.config == old(self).config,
            decreases new_vals@.len() - i,
        {
            let mut row = self.price_history[i].clone();
            proof {
                assert(row@ =~= old(self).price_history@[i as int]@);
            }
            row.push(new_vals[i]);
            self.price_history.set(i, row);
            i = i + 1;
        }
        proof {
            assert forall|j: int| 0 <= j < new_vals@.len() implies #[trigger] self@.history[j] == old(
                self,
            )@.history[j].push(new_vals@[j]) by {}
        }
    }

    /// Records one price point per catalogue type, computed over the current
    /// vendors and tracked types.
    fn record_prices(&mut self)
        requires
            old(self)@.history.len() == RUST_TYPE_COUNT,
            old(self)@.known.no_duplicates(),
        ensures
            history_extended(old(self)@.history, final(self)@.history, old(self)@.vendors, old(self)@.known),
            final(self)@.version == old(self)@.version,
            final(self)@.vendors == old(self)@.vendors,
            final(self)@.entries == old(self)@.entries,
            final(self)@.tokens == old(self)@.tokens,
            final(self)@.vendor_versions == old(self)@.vendor_versions,
            final(self)@.known == old(self)@.known,
            final(self)@.config == old(self)@.config,
    {
        let minimal = self.calculate_avg_prices();
        proof {
            assert(string_views(crate::util::pair_keys(minimal@)) =~= old(self)@.known);
        }
        let full = crate::util::convert_minimal_to_full(minimal);
        self.update_avg_price(full);
        proof {
            let o = old(self)@;
            let n = self@;
            assert forall|i: int| 0 <= i < o.history.len() implies {
                &&& (#[trigger] n.history[i]).len() == o.history[i].len() + 1
                &&& n.history[i].drop_last() == o.history[i]
                &&& is_avg_point(n.history[i].last(), o.vendors, o.known, rust_type(i))
            } by {
                assert(n.history[i].drop_last() =~= o.history[i]);
                if o.known.contains(rust_type(i)) {
                    let k = choose|k: int| 0 <= k < o.known.len() && o.known[k] == rust_type(i);
                    assert(minimal@[k].0@ == rust_type(i));
                }
                else {
                    assert forall|k: int| 0 <= k < minimal@.len() implies (#[trigger] minimal@[k]).0@ != rust_type(i) by {
                        assert(o.known[k] != rust_type(i));
                    }
                }
            }
        }
    }

    /// Tracks the item type `t`, unless it already is.
    fn add_known(&mut self, t: &String)
        ensures
            final(self)@.known == if old(self)@.known.contains(t@) {
                old(self)@.known
            } else {
                old(self)@.known.push(t@)
            },
            final(self)@.version == old(self)@.version,
            final(self)@.vendors == old(self)@.vendors,
            final(self)@.entries == old(self)@.entries,
            final(self)@.tokens == old(self)@.tokens,
            final(self)@.vendor_versions == old(self)@.vendor_versions,
            final(self)@.history == old(self)@.history,
            final(self)@.config == old(self)@.config,
    {
        let mut i: usize = 0;
        while i < self.ledger_items.len()
            invariant
                i <= self.ledger_items@.len(),
                forall|j: int| 0 <= j < i ==> self@.known[j] != t@,
            decreases self.ledger_items@.len() - i,
        {
            if self.ledger_items[i] == *t {
                proof {
                    assert(self@.known[i as int] == t@);
                }
                return;
            }
            i = i + 1;
        }
        proof {
            assert(!self@.known.contains(t@)) by {
                if self@.known.contains(t@) {
                    let j = choose|j: int| 0 <= j < self@.known.len() && self@.known[j] == t@;
                    assert(self@.known[j] != t@);
                }
            }
        }
        self.ledger_items.push(t.clone());
        proof {
            assert(self@.known =~= old(self)@.known.push(t@));
        }
    }

    /// Registers a vendor called `name` under `url`, or under the url derived
    /// from its name when none is given, starting with `item_count` stocked
    /// units of each type of `assortment` and the configured balance, and
    /// hands out `token` as its session token. Fails when the name is taken,
    /// or when a given url is.
    pub fn register_vendor_with(
        &mut self,
        name: String,
        url: Option<String>,
        assortment: Vec<String>,
        token: String,
    ) -> (r: Result<String, LedgerError>)
        requires
            old(self).wf(),
            old(self)@.version + 4 <= u64::MAX,
            forall|k: int| 0 <= k < assortment@.len() ==> is_rust_type(#[trigger] assortment@[k]@),
            string_views(assortment@).no_duplicates(),
        ensures
            final(self).wf(),
            registered(old(self)@, final(self)@, name, url, assortment@, token, r),
    {
        if let Some(_) = self.find_vendor(&name) {
            return Err(LedgerError::ExistingVendor);
        }
        let url_s = match url {
            Some(u) => {
                if let Some(_) = self.find_vendor_by_url(&u) {
                    return Err(LedgerError::ExistingUrl);
                }
                u
            },
            None => crate::text::spaces_to_underscores(&crate::text::lowercase(&name)),
        };
        let ghost o = self@;
        let count = self.config.item_count;
        let id = self.version + 1;
        let mut vendor = Vendor::new(name.clone(), url_s, self.config.initial_bits);
        let mut k: usize = 0;
        while k < assortment.len()
            invariant
                k <= assortment@.len(),
                forall|m: int| 0 <= m < assortment@.len() ==> is_rust_type(#[trigger] assortment@[m]@),
                string_views(assortment@).no_duplicates(),
                count == o.config.item_count,
                id == o.version + 1,
                vendor.name == name,
                vendor.url@ == registration_url(name@, url),
                vendor.bits == o.config.initial_bits,
                vendor.items@ == stock_items(assortment@.subrange(0, k as int), count),
                vendor.wf(),
                self@.known == with_names(o.known, string_views(assortment@.subrange(0, k as int))),
                self@.entries == o.entries + registration_entries(
                    id,
                    name,
                    assortment@.subrange(0, k as int),
                    count,
                ),
                self@.version == o.version,
                self@.vendors == o.vendors,
                self@.tokens == o.tokens,
                self@.vendor_versions == o.vendor_versions,
                self@.history == o.history,
                self@.config == o.config,
            decreases assortment@.len() - k,
        {
            let t = assortment[k].clone();
            let ghost sub = assortment@.subrange(0, k as int);
            let ghost next = assortment@.subrange(0, k + 1);
            proof {
                assert(next =~= sub.push(t));
                assert(string_views(next) =~= string_views(sub).push(t@));
                assert(string_views(next).drop_last() =~= string_views(sub));
                assert(string_views(next).last() == t@);
                assert(!holds_in(vendor.items@, t@)) by {
                    if holds_in(vendor.items@, t@) {
                        let j = choose|j: int| 0 <= j < vendor.items@.len() && item_names(vendor.items@)[j] == t@;
                        assert(string_views(assortment@)[j] == string_views(assortment@)[k as int]);
                    }
                }
            }
            self.add_known(&t);
            self.entries.push(Entry { id, vendor: name.clone(), attribute: t.clone(), change: count as i64, price: 0 });
            vendor.add_item(Item::new(t, 0, count, 0), false);
            proof {
                assert(vendor.items@ =~= stock_items(next, count));
                assert(self@.entries =~= o.entries + registration_entries(id, name, next, count));
            }
            k = k + 1;
        }
        proof {
            assert(assortment@.subrange(0, k as int) =~= assortment@);
            lemma_with_names(o.known, string_views(assortment@));
        }
        self.version = self.version + 4;
        self.record_prices();
        self.vendors.push(vendor);
        self.vendor_versions.push(0);
        self.vendor_ids.push(token.clone());
        proof {
            let n = self@;
            assert(n.vendors.drop_last() =~= o.vendors);
            assert(n.tokens =~= o.tokens.push(token@));
            assert(vendor_names(n.vendors) =~= vendor_names(o.vendors).push(name@));
            assert forall|j: int, m: int|
                0 <= j < n.vendors.len() && 0 <= m < n.vendors[j].items@.len() implies n.known.contains(
                #[trigger] n.vendors[j].items@[m].name@,
            ) by {
                if j < o.vendors.len() {
                    assert(o.known.contains(o.vendors[j].items@[m].name@));
                } else {
                    assert(string_views(assortment@)[m] == n.vendors[j].items@[m].name@);
                }
            }
            assert forall|m: int| 0 <= m < n.known.len() implies is_rust_type(#[trigger] n.known[m]) by {
                assert(n.known.contains(n.known[m]));
                if !o.known.contains(n.known[m]) {
                    let a = choose|a: int| 0 <= a < string_views(assortment@).len() && string_views(assortment@)[a] == n.known[m];
                    assert(is_rust_type(assortment@[a]@));
                } else {
                    let a = choose|a: int| 0 <= a < o.known.len() && o.known[a] == n.known[m];
                }
            }
            assert forall|i: int| 0 <= i < RUST_TYPE_COUNT implies (#[trigger] n.history[i]).len() == n.history[0].len() by {
                assert(o.history[i].len() == o.history[0].len());
            }
        }
        Ok(token)
    }

    /// Registers a vendor called `name` as `register_vendor_with` does, with
    /// an initial assortment of item types drawn at random (between the
    /// configured bounds) and a freshly generated session token.
    pub fn register_vendor(&mut self, name: String, url: Option<String>) -> (r: Result<String, LedgerError>)
        requires
            old(self).wf(),
            old(self)@.version + 4 <= u64::MAX,
        ensures
            final(self).wf(),
            exists|a: Seq<String>, token: String|
                {
                    &&& registered(old(self)@, final(self)@, name, url, a, token, r)
                    &&& drawn_assortment(a, old(self)@.config)
                    &&& token@.len() == TOKEN_LENGTH
                },
    {
        let count = crate::random::random_in_range(self.config.min_items, self.config.max_items + 1);
        let assortment = crate::util::get_rust_types(count);
        let token = crate::random::generate_id(TOKEN_LENGTH);
        proof {
            if count > 0 && count < RUST_TYPE_COUNT {
                assert(assortment@.len() == count);
            }
        }
        let r = self.register_vendor_with(name, url, assortment, token);
        r
    }

    /// Carries out a purchase whose parties and price are settled: the seller
    /// at `seller_pos` sells up to `order.count` stocked units of `order.item`
    /// at `item_price` to the buyer at `buyer_pos`, both are logged, and a
    /// price point is recorded. Returns the understock.
    pub fn purchase(&mut self, order: Order, seller_pos: usize, buyer_pos: usize, item_price: u32) -> (r: u32)
        requires
            old(self).wf(),
            old(self)@.version + 2 <= u64::MAX,
            seller_pos < old(self)@.vendors.len(),
            buyer_pos < old(self)@.vendors.len(),
            old(self)@.vendors[seller_pos as int].holds(order.item@),
            item_price * order.count <= old(self)@.vendors[buyer_pos as int].bits,
            old(self)@.vendors[buyer_pos as int].holds(order.item@) ==> old(self)@.vendors[buyer_pos as int].item(
                order.item@,
            ).stocked + old(self)@.vendors[buyer_pos as int].item(order.item@).stored + order.count
                <= u32::MAX,
        ensures
            final(self).wf(),
            purchased(
                old(self)@,
                final(self)@,
                order.item,
                order.count,
                seller_pos as int,
                buyer_pos as int,
                item_price,
                r,
            ),
    {
        let ghost o = self@;
        let mut seller = self.vendors[seller_pos].clone();
        proof {
            crate::shop::lemma_holds_in(seller.items@, order.item@);
        }
        let understock = match seller.purchase_item(&order.item, order.count) {
            Ok(u) => u,
            Err(_) => 0,
        };
        let sold = order.count - understock;
        let seller_name = seller.name.clone();
        self.vendors.set(seller_pos, seller);
        let ghost mid = self@.vendors[buyer_pos as int];
        proof {
            let after_sale = sell_in(o.vendors[seller_pos as int].items@, order.item@, order.count as int);
            assert(item_names(after_sale) =~= item_names(o.vendors[seller_pos as int].items@));
            assert(o.vendors[seller_pos as int].wf());
            assert(o.vendors[buyer_pos as int].wf());
            assert(mid.wf());
            assert(item_names(mid.items@) =~= item_names(o.vendors[buyer_pos as int].items@));
            assert(sold == min(order.count as int, o.vendors[seller_pos as int].item(order.item@).stocked as int));
            assert(item_price * sold <= item_price * order.count) by (nonlinear_arith)
                requires
                    sold <= order.count,
            ;
            assert(mid.bits == o.vendors[buyer_pos as int].bits);
        }
        let mut buyer = self.vendors[buyer_pos].clone();
        let buyer_name = buyer.name.clone();
        buyer.add_item(Item::new(order.item.clone(), item_price, order.count, 0), false);
        let charge: u64 = item_price as u64 * sold as u64;
        buyer.bits = buyer.bits - charge;
        self.vendors.set(buyer_pos, buyer);
        let value = charge as i128;
        self.entries.push(
            Entry {
                id: self.version + 1,
                vendor: seller_name,
                attribute: order.item.clone(),
                change: 0 - sold as i64,
                price: value,
            },
        );
        self.entries.push(
            Entry {
                id: self.version + 2,
                vendor: buyer_name,
                attribute: order.item.clone(),
                change: sold as i64,
                price: 0 - value,
            },
        );
        self.version = self.version + 2;
        proof {
            let n = self@;
            assert(vendor_names(n.vendors) =~= vendor_names(o.vendors));
            assert forall|j: int| 0 <= j < n.vendors.len() implies (#[trigger] n.vendors[j]).wf() by {
                assert(o.vendors[j].wf());
            }
            assert forall|j: int, m: int|
                0 <= j < n.vendors.len() && 0 <= m < n.vendors[j].items@.len() implies n.known.contains(
                #[trigger] n.vendors[j].items@[m].name@,
            ) by {
                let p = pos_in(o.vendors[seller_pos as int].items@, order.item@);
                assert(o.known.contains(o.vendors[seller_pos as int].items@[p].name@));
                crate::shop::lemma_sell_in_names(o.vendors[seller_pos as int].items@, order.item@, order.count as int);
                crate::shop::lemma_add_in_names(mid.items@, Item { name: order.item, price: item_price, stocked: order.count, stored: 0 }, false);
                if j == buyer_pos {
                    if m < mid.items@.len() {
                        assert(item_names(n.vendors[j].items@)[m] == item_names(o.vendors[j].items@)[m]);
                        assert(o.known.contains(o.vendors[j].items@[m].name@));
                    }
                } else if j == seller_pos {
                    assert(item_names(n.vendors[j].items@)[m] == item_names(o.vendors[j].items@)[m]);
                    assert(o.known.contains(o.vendors[j].items@[m].name@));
                } else {
                    assert(o.known.contains(o.vendors[j].items@[m].name@));
                }
            }
        }
        proof {
            assert(self@.entries =~= o.entries.push(
                Entry {
                    id: (o.version + 1) as u64,
                    vendor: o.vendors[seller_pos as int].name,
                    attribute: order.item,
                    change: -sold as i64,
                    price: (item_price * sold) as i128,
                },
            ).push(
                Entry {
                    id: (o.version + 2) as u64,
                    vendor: o.vendors[buyer_pos as int].name,
                    attribute: order.item,
                    change: sold as i64,
                    price: -(item_price * sold) as i128,
                },
            ));
        }
        self.record_prices();
        understock
    }

    /// Sets the price of the item called `item` at the vendor at `vendor_id`
    /// and moves up to `count` of its units from store to stock (from stock
    /// to store when negative).
    pub fn update_item(&mut self, vendor_id: usize, item: String, price: u32, count: i32)
        requires
            old(self).wf(),
            vendor_id < old(self)@.vendors.len(),
        ensures
            final(self).wf(),
            final(self)@.vendors.len() == old(self)@.vendors.len(),
            forall|j: int| 0 <= j < old(self)@.vendors.len() && j != vendor_id ==> #[trigger] final(self)@.vendors[j] == old(self)@.vendors[j],
            same_vendor(
                Vendor { items: final(self)@.vendors[vendor_id as int].items, ..old(self)@.vendors[vendor_id as int] },
                final(self)@.vendors[vendor_id as int],
            ),
            final(self)@.vendors[vendor_id as int].items@ == update_in(
                old(self)@.vendors[vendor_id as int].items@,
                item@,
                price,
                count as int,
            ),
            final(self)@.version == old(self)@.version,
            final(self)@.entries == old(self)@.entries,
            final(self)@.tokens == old(self)@.tokens,
            final(self)@.vendor_versions == old(self)@.vendor_versions,
            final(self)@.known == old(self)@.known,
            final(self)@.history == old(self)@.history,
            final(self)@.config == old(self)@.config,
    {
        let ghost o = self@;
        let mut vendor = self.vendors[vendor_id].clone();
        proof {
            assert(o.vendors[vendor_id as int].wf());
        }
        vendor.update_item(item, price, count);
        self.vendors.set(vendor_id, vendor);
        proof {
            let n = self@;
            let v = vendor_id as int;
            assert(item_names(n.vendors[v].items@) =~= item_names(o.vendors[v].items@)) by {
                if holds_in(o.vendors[v].items@, item@) {
                    crate::shop::lemma_holds_in(o.vendors[v].items@, item@);
                }
            }
            assert(vendor_names(n.vendors) =~= vendor_names(o.vendors));
            assert forall|j: int| 0 <= j < n.vendors.len() implies (#[trigger] n.vendors[j]).wf() by {
                assert(o.vendors[j].wf());
            }
            assert forall|j: int, m: int|
                0 <= j < n.vendors.len() && 0 <= m < n.vendors[j].items@.len() implies n.known.contains(
                #[trigger] n.vendors[j].items@[m].name@,
            ) by {
                assert(item_names(n.vendors[j].items@)[m] == item_names(o.vendors[j].items@)[m]);
                assert(o.known.contains(o.vendors[j].items@[m].name@));
            }
        }
    }

    /// The names, prices and stocked units of `v`'s items.
    fn stock_of(v: &Vendor) -> (r: (Vec<String>, Vec<u32>, Vec<u32>))
        ensures
            stock_columns(v.items@, r),
    {
        let mut names: Vec<String> = Vec::new();
        let mut prices: Vec<u32> = Vec::new();
        let mut stock: Vec<u32> = Vec::new();
        let mut i: usize = 0;
        while i < v.items.len()
            invariant
                i <= v.items@.len(),
                names@.len() == i,
                prices@.len() == i,
                stock@.len() == i,
                forall|k: int| 0 <= k < i ==> (#[trigger] names@[k])@ == v.items@[k].name@,
                forall|k: int| 0 <= k < i ==> #[trigger] prices@[k] == v.items@[k].price,
                forall|k: int| 0 <= k < i ==> #[trigger] stock@[k] == v.items@[k].stocked,
            decreases v.items@.len() - i,
        {
            names.push(v.items[i].name.clone());
            prices.push(v.items[i].price);
            stock.push(v.items[i].get_count());
            i = i + 1;
        }
        proof {
            assert(string_views(names@) =~= item_names(v.items@));
            assert(prices@ =~= v.items@.map_values(|it: Item| it.price));
            assert(stock@ =~= v.items@.map_values(|it: Item| it.stocked));
        }
        (names, prices, stock)
    }

    /// Every vendor by name, with the names, prices and stocked units of its
    /// items, in order of registration.
    pub fn serialize_state(&self) -> (r: Vec<(String, (Vec<String>, Vec<u32>, Vec<u32>))>)
        ensures
            is_state_of(self@.vendors, r@),
    {
        let mut r: Vec<(String, (Vec<String>, Vec<u32>, Vec<u32>))> = Vec::new();
        let mut j: usize = 0;
        while j < self.vendors.len()
            invariant
                j <= self.vendors@.len(),
                r@.len() == j,
                forall|k: int|
                    0 <= k < j ==> (#[trigger] r@[k]).0@ == self@.vendors[k].name@ && stock_columns(
                        self@.vendors[k].items@,
                        r@[k].1,
                    ),
            decreases self.vendors@.len() - j,
        {
            let columns = Ledger::stock_of(&self.vendors[j]);
            r.push((self.vendors[j].name.clone(), columns));
            j = j + 1;
        }
        r
    }

    /// The names and stored units of the items of the vendor at `vendor_id`,
    /// with an empty list in place of prices.
    pub fn serialize_vendor(&self, vendor_id: usize) -> (r: (Vec<String>, Vec<u32>, Vec<u32>))
        requires
            vendor_id < self@.vendors.len(),
        ensures
            is_store_of(self@.vendors[vendor_id as int].items@, r),
    {
        let v = &self.vendors[vendor_id];
        let mut names: Vec<String> = Vec::new();
        let mut store: Vec<u32> = Vec::new();
        let mut i: usize = 0;
        while i < v.items.len()
            invariant
                i <= v.items@.len(),
                names@.len() == i,
                store@.len() == i,
                forall|k: int| 0 <= k < i ==> (#[trigger] names@[k])@ == v.items@[k].name@,
                forall|k: int| 0 <= k < i ==> #[trigger] store@[k] == v.items@[k].stored,
            decreases v.items@.len() - i,
        {
            names.push(v.items[i].name.clone());
            store.push(v.items[i].get_stored());
            i = i + 1;
        }
        proof {
            assert(string_views(names@) =~= item_names(v.items@));
            assert(store@ =~= v.items@.map_values(|it: Item| it.stored));
        }
        (names, Vec::new(), store)
    }

    /// For the vendor holding the session token `uuid`: the market's state,
    /// the vendor's own store, and its position; the vendor is marked as
    /// synced with the current version.
    pub fn request_state(&mut self, uuid: String) -> (r: Result<
        (usize, Vec<(String, (Vec<String>, Vec<u32>, Vec<u32>))>, (Vec<String>, Vec<u32>, Vec<u32>)),
        LedgerError,
    >)
        requires
            old(self).wf(),
        ensures
            final(self).wf(),
            match r {
                Ok((id, state, store)) => {
                    &&& crate::shop::is_first_index(old(self)@.tokens, uuid@, id as int)
                    &&& is_state_of(old(self)@.vendors, state@)
                    &&& is_store_of(old(self)@.vendors[id as int].items@, store)
                    &&& final(self)@ == LedgerView {
                        vendor_versions: old(self)@.vendor_versions.update(id as int, old(self)@.version),
                        ..old(self)@
                    }
                },
                Err(e) => {
                    &&& e == LedgerError::InvalidVendor
                    &&& !old(self)@.tokens.contains(uuid@)
                    &&& final(self)@ == old(self)@
                },
            },
    {
        let id = match self.verify_uuid(uuid) {
            Ok(id) => id,
            Err(e) => return Err(e),
        };
        let store = self.serialize_vendor(id);
        let state = self.serialize_state();
        self.vendor_versions.set(id, self.version);
        proof {
            assert(self@ =~= LedgerView {
                vendor_versions: old(self)@.vendor_versions.update(id as int, old(self)@.version),
                ..old(self)@
            });
        }
        Ok((id, state, store))
    }
}

/// Once a vendor is registered under a name, registering that name again
/// fails with `ExistingVendor` and leaves the ledger as it was, whatever url
/// the second registration asks for.
pub proof fn lemma_name_taken(
    o: LedgerView,
    m: LedgerView,
    n: LedgerView,
    first: String,
    first_url: Option<String>,
    first_assortment: Seq<String>,
    first_token: String,
    first_result: Result<String, LedgerError>,
    second: String,
    second_url: Option<String>,
    second_assortment: Seq<String>,
    second_token: String,
    second_result: Result<String, LedgerError>,
)
    requires
        registered(o, m, first, first_url, first_assortment, first_token, first_result),
        first_result is Ok,
        registered(m, n, second, second_url, second_assortment, second_token, second_result),
        second@ == first@,
    ensures
        second_result == Err::<String, LedgerError>(LedgerError::ExistingVendor),
        n == m,
{
    assert(vendor_names(m.vendors)[m.vendors.len() - 1] == first@);
}

/// Once a vendor is registered under a url, a registration that asks for
/// the same url under a free name fails with `ExistingUrl` and leaves the
/// ledger as it was.
pub proof fn lemma_url_taken(
    o: LedgerView,
    m: LedgerView,
    n: LedgerView,
    first: String,
    first_url: Option<String>,
    first_assortment: Seq<String>,
    first_token: String,
    first_result: Result<String, LedgerError>,
    second: String,
    second_url: String,
    second_assortment: Seq<String>,
    second_token: String,
    second_result: Result<String, LedgerError>,
)
    requires
        registered(o, m, first, first_url, first_assortment, first_token, first_result),
        first_result is Ok,
        registered(m, n, second, Some(second_url), second_assortment, second_token, second_result),
        second_url@ == registration_url(first@, first_url),
        !vendor_names(m.vendors).contains(second@),
    ensures
        second_result == Err::<String, LedgerError>(LedgerError::ExistingUrl),
        n == m,
{
    assert(vendor_urls(m.vendors)[m.vendors.len() - 1] == second_url@);
}

/// A vendor registered without a url gets its name, lowercased, with every
/// space replaced by an underscore.
pub proof fn lemma_derived_url(
    o: LedgerView,
    n: LedgerView,
    name: String,
    assortment: Seq<String>,
    token: String,
    r: Result<String, LedgerError>,
)
    requires
        registered(o, n, name, None, assortment, token, r),
        r is Ok,
    ensures
        n.vendors.last().url@ == underscored(lower_of(name@)),
{
}

/// After a registration the ledger tracks every item type of the new vendor.
/// On a ledger that tracked no type before, the tracked types are exactly
/// the new vendor's, and there is at least one when its assortment is not
/// empty.
pub proof fn lemma_registration_tracks_types(
    o: LedgerView,
    n: LedgerView,
    name: String,
    url: Option<String>,
    assortment: Seq<String>,
    token: String,
    r: Result<String, LedgerError>,
)
    requires
        o.wf(),
        registered(o, n, name, url, assortment, token, r),
        r is Ok,
    ensures
        forall|k: int|
            0 <= k < n.vendors.last().items@.len() ==> n.known.contains(
                #[trigger] n.vendors.last().items@[k].name@,
            ),
        o.known.len() == 0 ==> n.known.to_set() == item_names(n.vendors.last().items@).to_set(),
        assortment.len() > 0 ==> n.known.len() > 0,
{
    let v = n.vendors.last();
    let names = string_views(assortment);
    lemma_with_names(o.known, names);
    assert(item_names(v.items@) =~= names);
    assert forall|k: int| 0 <= k < v.items@.len() implies n.known.contains(#[trigger] v.items@[k].name@) by {
        assert(names[k] == v.items@[k].name@);
    }
    if o.known.len() == 0 {
        assert forall|x: Seq<char>| n.known.to_set().contains(x) <==> item_names(v.items@).to_set().contains(x) by {
            if n.known.contains(x) {
                assert(!o.known.contains(x));
            }
        }
        assert(n.known.to_set() =~= item_names(v.items@).to_set());
    }
    if assortment.len() > 0 {
        assert(n.known.contains(names[0]));
    }
}

/// The token minted by a registration, when no vendor held it before,
/// resolves to the new vendor's position.
pub proof fn lemma_token_resolves(
    o: LedgerView,
    n: LedgerView,
    name: String,
    url: Option<String>,
    assortment: Seq<String>,
    token: String,
    r: Result<String, LedgerError>,
)
    requires
        o.wf(),
        registered(o, n, name, url, assortment, token, r),
        r is Ok,
        !o.tokens.contains(token@),
    ensures
        crate::shop::is_first_index(n.tokens, token@, o.vendors.len() as int),
        n.vendors[o.vendors.len() as int].name == name,
{
    assert forall|j: int| 0 <= j < o.vendors.len() implies n.tokens[j] != token@ by {
        assert(n.tokens[j] == o.tokens[j]);
    }
}

/// Reading the vendor names twice from one ledger gives the same names in
/// the same order.
pub proof fn lemma_vendor_names_stable(l: LedgerView, first: Seq<String>, second: Seq<String>)
    requires
        string_views(first) == vendor_names(l.vendors),
        string_views(second) == vendor_names(l.vendors),
    ensures
        string_views(first) == string_views(second),
{
}

} // verus!
