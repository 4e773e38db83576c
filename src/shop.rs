//! Goods and the vendors that hold them.
use crate::ledger::{same_vendor, Ledger, LedgerError, LedgerView};
use crate::util::{field, pair_views};
use vstd::prelude::*;

verus! {

/// Raised when a vendor does not hold the item that an operation names.
#[derive(Debug, PartialEq, Eq, Structural)]
pub enum ShopError {
    ItemNotFound,
}

/// An item of merchandise with a price in bits and two quantity pools:
/// `stocked`, available for sale, and `stored`, held but not yet shelved.
#[derive(Debug)]
pub struct Item {
    pub name: String,
    pub price: u32,
    pub stocked: u32,
    pub stored: u32,
}

/// A change of stock requested by the vendor that owns the token `uuid`:
/// set the item's price and move `stock` units from store to stock (or back,
/// when negative).
#[derive(Debug)]
pub struct AuthItem {
    pub name: String,
    pub price: u32,
    pub stock: i32,
    pub uuid: String,
}

pub open spec fn min(a: int, b: int) -> int {
    if a <= b {
        a
    } else {
        b
    }
}

impl Item {
    /// Both pools together fit in a `u32`.
    pub open spec fn fits(&self) -> bool {
        self.stocked + self.stored <= u32::MAX
    }

    /// `b` is `a` with the given quantities.
    pub open spec fn with_pools(a: Item, b: Item, stocked: int, stored: int) -> bool {
        &&& b.name == a.name
        &&& b.price == a.price
        &&& b.stocked == stocked
        &&& b.stored == stored
    }

    pub fn new(name: String, price: u32, stocked: u32, stored: u32) -> (r: Item)
        ensures
            r == (Item { name, price, stocked, stored }),
    {
        Item { name, price, stocked, stored }
    }

    /// The vendor's stock of this item.
    pub fn get_count(&self) -> (r: u32)
        ensures
            r == self.stocked,
    {
        self.stocked
    }

    /// The vendor's store of this item.
    pub fn get_stored(&self) -> (r: u32)
        ensures
            r == self.stored,
    {
        self.stored
    }

    /// Sells `count` stocked units, as many as there are, and returns the
    /// shortfall.
    fn sell_item(&mut self, count: u32) -> (r: u32)
        ensures
            Item::with_pools(
                *old(self),
                *final(self),
                old(self).stocked - min(count as int, old(self).stocked as int),
                old(self).stored as int,
            ),
            r == count - min(count as int, old(self).stocked as int),
    {
        let sold: u32 = if self.stocked >= count {
            count
        } else {
            self.stocked
        };
        *self = Item {
            name: self.name.clone(),
            price: self.price,
            stocked: self.stocked - sold,
            stored: self.stored,
        };
        count - sold
    }

    /// Moves `count` stored units to stock, or all of the store when it holds
    /// fewer.
    fn stock_item(&mut self, count: u32)
        requires
            old(self).fits(),
        ensures
            Item::with_pools(
                *old(self),
                *final(self),
                old(self).stocked + min(count as int, old(self).stored as int),
                old(self).stored - min(count as int, old(self).stored as int),
            ),
    {
        let moved: u32 = if count <= self.stored {
            count
        } else {
            self.stored
        };
        *self = Item {
            name: self.name.clone(),
            price: self.price,
            stocked: self.stocked + moved,
            stored: self.stored - moved,
        };
    }

    /// Adds `count` units to the store.
    fn store_item(&mut self, count: u32)
        requires
            old(self).stocked + old(self).stored + count <= u32::MAX,
        ensures
            Item::with_pools(
                *old(self),
                *final(self),
                old(self).stocked as int,
                old(self).stored + count,
            ),
    {
        *self = Item {
            name: self.name.clone(),
            price: self.price,
            stocked: self.stocked,
            stored: self.stored + count,
        };
    }

    /// Both pools together.
    pub fn total(&self) -> (r: u32)
        requires
            self.fits(),
        ensures
            r == self.stocked + self.stored,
    {
        self.stocked + self.stored
    }

    /// Sets the price and, for a positive `count`, shelves up to `count`
    /// stored units; for a negative one, unshelves up to `-count` stocked
    /// units.
    fn update(&mut self, price: u32, count: i32)
        requires
            old(self).fits(),
        ensures
            final(self).name == old(self).name,
            final(self).price == price,
            count > 0 ==> final(self).stocked == old(self).stocked + min(
                count as int,
                old(self).stored as int,
            ) && final(self).stored == old(self).stored - min(
                count as int,
                old(self).stored as int,
            ),
            count <= 0 ==> final(self).stocked == old(self).stocked - min(
                -count,
                old(self).stocked as int,
            ) && final(self).stored == old(self).stored + min(
                -count,
                old(self).stocked as int,
            ),
    {
        if count > 0 {
            let diff: u32 = if self.stored <= count as u32 {
                self.stored
            } else {
                count as u32
            };
            *self = Item {
                name: self.name.clone(),
                price,
                stocked: self.stocked + diff,
                stored: self.stored - diff,
            };
        } else {
            let wanted: i64 = 0 - count as i64;
            let diff: u32 = if (self.stocked as i64) <= wanted {
                self.stocked
            } else {
                wanted as u32
            };
            *self = Item {
                name: self.name.clone(),
                price,
                stocked: self.stocked - diff,
                stored: self.stored + diff,
            };
        }
    }
}

impl Clone for Item {
    fn clone(&self) -> (r: Item)
        ensures
            r == *self,
    {
        Item { name: self.name.clone(), price: self.price, stocked: self.stocked, stored: self.stored }
    }
}

/// Two items agree in name, price and both quantities.
pub open spec fn same_item(a: Item, b: Item) -> bool {
    &&& a.name@ == b.name@
    &&& a.price == b.price
    &&& a.stocked == b.stocked
    &&& a.stored == b.stored
}

impl PartialEq for Item {
    fn eq(&self, other: &Item) -> (r: bool) {
        self.name == other.name && self.price == other.price && self.stocked == other.stocked
            && self.stored == other.stored
    }
}

impl vstd::std_specs::cmp::PartialEqSpecImpl for Item {
    open spec fn obeys_eq_spec() -> bool {
        true
    }

    open spec fn eq_spec(&self, other: &Item) -> bool {
        same_item(*self, *other)
    }
}

/// The names of a sequence of items.
pub open spec fn item_names(items: Seq<Item>) -> Seq<Seq<char>> {
    items.map_values(|i: Item| i.name@)
}

/// `i` is the first position in `names` that holds `name`.
pub open spec fn is_first_index(names: Seq<Seq<char>>, name: Seq<char>, i: int) -> bool {
    &&& 0 <= i < names.len()
    &&& names[i] == name
    &&& forall|j: int| 0 <= j < i ==> names[j] != name
}

/// The first position in `names` that holds `name`.
pub open spec fn first_pos(names: Seq<Seq<char>>, name: Seq<char>) -> int {
    choose|i: int| is_first_index(names, name, i)
}

/// The first position that holds `name` is the one that `first_pos` picks.
pub proof fn lemma_first_pos(names: Seq<Seq<char>>, name: Seq<char>, i: int)
    requires
        is_first_index(names, name, i),
    ensures
        first_pos(names, name) == i,
{
    let k = first_pos(names, name);
    assert(is_first_index(names, name, k));
    if k < i {
        assert(names[k] == name);
    } else if i < k {
        assert(names[i] == name);
    }
}

/// True when one of `items` is called `name`.
pub open spec fn holds_in(items: Seq<Item>, name: Seq<char>) -> bool {
    item_names(items).contains(name)
}

/// The position of the first of `items` called `name`.
pub open spec fn pos_in(items: Seq<Item>, name: Seq<char>) -> int {
    choose|i: int| is_first_index(item_names(items), name, i)
}

/// `items` after selling `count` stocked units of the item called `name`.
pub open spec fn sell_in(items: Seq<Item>, name: Seq<char>, count: int) -> Seq<Item> {
    if holds_in(items, name) {
        let p = pos_in(items, name);
        let it = items[p];
        items.update(
            p,
            Item {
                name: it.name,
                price: it.price,
                stocked: (it.stocked - min(count, it.stocked as int)) as u32,
                stored: it.stored,
            },
        )
    } else {
        items
    }
}

/// `items` after receiving `item`: an item of the same name takes the
/// incoming total into its store, or into its stock unless `store` is set;
/// otherwise `item` is appended.
pub open spec fn add_in(items: Seq<Item>, item: Item, store: bool) -> Seq<Item> {
    if holds_in(items, item.name@) {
        let p = pos_in(items, item.name@);
        let it = items[p];
        let q = item.stocked + item.stored;
        items.update(
            p,
            Item {
                name: it.name,
                price: it.price,
                stocked: (if store {
                    it.stocked as int
                } else {
                    it.stocked + q
                }) as u32,
                stored: (if store {
                    it.stored + q
                } else {
                    it.stored as int
                }) as u32,
            },
        )
    } else {
        items.push(item)
    }
}

/// `items` after setting the price of the item called `name` and shelving
/// (`count > 0`) or unshelving (`count <= 0`) up to `|count|` of its units.
pub open spec fn update_in(items: Seq<Item>, name: Seq<char>, price: u32, count: int) -> Seq<
    Item,
> {
    if holds_in(items, name) {
        let p = pos_in(items, name);
        let it = items[p];
        let moved = if count > 0 {
            min(count, it.stored as int)
        } else {
            -min(-count, it.stocked as int)
        };
        items.update(
            p,
            Item {
                name: it.name,
                price,
                stocked: (it.stocked + moved) as u32,
                stored: (it.stored - moved) as u32,
            },
        )
    } else {
        items
    }
}

/// Item names are unique and each item's pools fit in a `u32`.
pub open spec fn items_wf(items: Seq<Item>) -> bool {
    &&& item_names(items).no_duplicates()
    &&& forall|i: int| 0 <= i < items.len() ==> #[trigger] items[i].fits()
}

/// The first position that holds `name` is the one that `pos_in` picks.
pub proof fn lemma_pos_in(items: Seq<Item>, name: Seq<char>, i: int)
    requires
        is_first_index(item_names(items), name, i),
    ensures
        pos_in(items, name) == i,
        holds_in(items, name),
{
    let k = pos_in(items, name);
    assert(is_first_index(item_names(items), name, k));
    if k < i {
        assert(item_names(items)[k] == name);
    } else if i < k {
        assert(item_names(items)[i] == name);
    }
}

/// A held item has a first position.
pub proof fn lemma_holds_in(items: Seq<Item>, name: Seq<char>)
    requires
        holds_in(items, name),
    ensures
        is_first_index(item_names(items), name, pos_in(items, name)),
        items[pos_in(items, name)].name@ == name,
{
    item_names(items).index_of_first_ensures(name);
    let i = item_names(items).index_of_first(name)->0;
    lemma_pos_in(items, name, i);
}

/// Selling keeps the item names.
pub proof fn lemma_sell_in_names(items: Seq<Item>, name: Seq<char>, count: int)
    ensures
        item_names(sell_in(items, name, count)) == item_names(items),
{
    if holds_in(items, name) {
        lemma_holds_in(items, name);
    }
    assert(item_names(sell_in(items, name, count)) =~= item_names(items));
}

/// Receiving an item keeps the names, or appends the new one.
pub proof fn lemma_add_in_names(items: Seq<Item>, item: Item, store: bool)
    ensures
        item_names(add_in(items, item, store)) == if holds_in(items, item.name@) {
            item_names(items)
        } else {
            item_names(items).push(item.name@)
        },
{
    if holds_in(items, item.name@) {
        lemma_holds_in(items, item.name@);
        assert(item_names(add_in(items, item, store)) =~= item_names(items));
    } else {
        assert(item_names(add_in(items, item, store)) =~= item_names(items).push(item.name@));
    }
}

/// A vendor in the market: a unique name and url, a balance of bits and the
/// items it holds.
#[derive(Debug)]
pub struct Vendor {
    pub name: String,
    pub url: String,
    pub bits: u64,
    pub items: Vec<Item>,
}

impl Vendor {
    /// True when the vendor holds an item called `name`.
    pub open spec fn holds(&self, name: Seq<char>) -> bool {
        holds_in(self.items@, name)
    }

    /// The vendor's item called `name`.
    pub open spec fn item(&self, name: Seq<char>) -> Item {
        self.items@[pos_in(self.items@, name)]
    }

    pub open spec fn wf(&self) -> bool {
        items_wf(self.items@)
    }

    pub fn new(name: String, url: String, bits: u64) -> (r: Vendor)
        ensures
            r.name == name,
            r.url == url,
            r.bits == bits,
            r.items@ == Seq::<Item>::empty(),
    {
        Vendor { name, url, bits, items: Vec::new() }
    }

    /// The position of the item called `name`, if the vendor holds one.
    fn grab_item(&self, name: &String) -> (r: Option<usize>)
        ensures
            match r {
                Some(i) => is_first_index(item_names(self.items@), name@, i as int) && i == pos_in(
                    self.items@,
                    name@,
                ),
                None => !self.holds(name@),
            },
    {
        let mut i: usize = 0;
        while i < self.items.len()
            invariant
                i <= self.items@.len(),
                forall|j: int| 0 <= j < i ==> item_names(self.items@)[j] != name@,
            decreases self.items@.len() - i,
        {
            if self.items[i].name == *name {
                proof {
                    lemma_pos_in(self.items@, name@, i as int);
                }
                return Some(i);
            }
            i = i + 1;
        }
        proof {
            assert forall|j: int| 0 <= j < item_names(self.items@).len() implies item_names(
                self.items@,
            )[j] != name@ by {}
        }
        None
    }

    /// Adds `item` to the vendor. An item of the same name that the vendor
    /// already holds receives the incoming quantity into its store, which is
    /// then shelved at once unless `store` is set; otherwise `item` is added
    /// as it is.
    pub fn add_item(&mut self, item: Item, store: bool)
        requires
            item.fits(),
            old(self).holds(item.name@) ==> old(self).item(item.name@).stocked + old(self).item(
                item.name@,
            ).stored + item.stocked + item.stored <= u32::MAX,
        ensures
            final(self).name == old(self).name,
            final(self).url == old(self).url,
            final(self).bits == old(self).bits,
            final(self).items@ == add_in(old(self).items@, item, store),
            old(self).wf() ==> final(self).wf(),
    {
        match self.grab_item(&item.name) {
            Some(i) => {
                let count = item.total();
                let mut held = self.items[i].clone();
                held.store_item(count);
                if !store {
                    held.stock_item(count);
                }
                self.items.set(i, held);
                proof {
                    assert(item_names(self.items@) =~= item_names(old(self).items@));
                    assert(self.items@ =~= add_in(old(self).items@, item, store));
                    assert forall|j: int| 0 <= j < self.items@.len() && old(self).wf() implies #[trigger] self.items@[j].fits() by {
                        assert(old(self).items@[j].fits());
                    }
                }
            },
            None => {
                self.items.push(item);
                proof {
                    assert(item_names(self.items@) =~= item_names(old(self).items@).push(item.name@));
                    assert forall|j: int| 0 <= j < self.items@.len() && old(self).wf() implies #[trigger] self.items@[j].fits() by {
                        if j < old(self).items@.len() {
                            assert(old(self).items@[j].fits());
                        }
                    }
                }
            },
        }
    }

    /// True when the vendor holds an item called `name`.
    pub fn contains(&mut self, name: &String) -> (r: bool)
        ensures
            *final(self) == *old(self),
            r == old(self).holds(name@),
    {
        match self.get_item(name) {
            Some(_) => true,
            None => false,
        }
    }

    /// The vendor's item called `name`, if it holds one.
    pub fn get_item(&self, name: &String) -> (r: Option<&Item>)
        ensures
            self.holds(name@) ==> r == Some(&self.item(name@)),
            !self.holds(name@) ==> r is None,
    {
        match self.grab_item(name) {
            Some(i) => Some(&self.items[i]),
            None => None,
        }
    }

    /// A copy of all the vendor's items.
    pub fn get_items(&self) -> (r: Vec<Item>)
        ensures
            r@ == self.items@,
    {
        let r = self.items.clone();
        proof {
            assert(r@ =~= self.items@);
        }
        r
    }

    /// Sells `count` stocked units of the item called `item` and returns the
    /// understock: the part of `count` that the stock could not cover.
    pub fn purchase_item(&mut self, item: &String, count: u32) -> (r: Result<u32, ShopError>)
        ensures
            final(self).name == old(self).name,
            final(self).url == old(self).url,
            final(self).bits == old(self).bits,
            final(self).items@ == sell_in(old(self).items@, item@, count as int),
            r == if old(self).holds(item@) {
                Ok::<u32, ShopError>(
                    (count - min(count as int, old(self).item(item@).stocked as int)) as u32,
                )
            } else {
                Err::<u32, ShopError>(ShopError::ItemNotFound)
            },
            old(self).wf() ==> final(self).wf(),
    {
        match self.grab_item(item) {
            Some(i) => {
                let mut held = self.items[i].clone();
                let understock = held.sell_item(count);
                self.items.set(i, held);
                proof {
                    assert(item_names(self.items@) =~= item_names(old(self).items@));
                    assert(self.items@ =~= sell_in(old(self).items@, item@, count as int));
                    assert forall|j: int| 0 <= j < self.items@.len() && old(self).wf() implies #[trigger] self.items@[j].fits() by {
                        assert(old(self).items@[j].fits());
                    }
                }
                Ok(understock)
            },
            None => Err(ShopError::ItemNotFound),
        }
    }

    /// Sets the price of the item called `item` and moves up to `count` units
    /// from its store to its stock (from stock to store when `count` is
    /// negative). Nothing changes when the vendor does not hold the item.
    pub fn update_item(&mut self, item: String, price: u32, count: i32)
        requires
            old(self).wf(),
        ensures
            final(self).name == old(self).name,
            final(self).url == old(self).url,
            final(self).bits == old(self).bits,
            final(self).items@ == update_in(old(self).items@, item@, price, count as int),
            final(self).wf(),
    {
        match self.grab_item(&item) {
            Some(i) => {
                let mut held = self.items[i].clone();
                held.update(price, count);
                self.items.set(i, held);
                proof {
                    assert(item_names(self.items@) =~= item_names(old(self).items@));
                    assert(self.items@ =~= update_in(old(self).items@, item@, price, count as int));
                    assert forall|j: int| 0 <= j < self.items@.len() implies #[trigger] self.items@[j].fits() by {
                        assert(old(self).items@[j].fits());
                    }
                }
            },
            None => {},
        }
    }
}

impl Clone for Vendor {
    fn clone(&self) -> (r: Vendor)
        ensures
            r.name == self.name,
            r.url == self.url,
            r.bits == self.bits,
            r.items@ == self.items@,
    {
        let items = self.items.clone();
        proof {
            assert(items@ =~= self.items@);
        }
        Vendor { name: self.name.clone(), url: self.url.clone(), bits: self.bits, items }
    }
}

impl PartialEq for Vendor {
    fn eq(&self, other: &Vendor) -> (r: bool) {
        if !(self.name == other.name && self.url == other.url && self.bits == other.bits
            && self.items.len() == other.items.len()) {
            return false;
        }
        let mut i: usize = 0;
        while i < self.items.len()
            invariant
                i <= self.items@.len(),
                self.items@.len() == other.items@.len(),
                forall|j: int| 0 <= j < i ==> same_item(#[trigger] self.items@[j], other.items@[j]),
            decreases self.items@.len() - i,
        {
            if !(self.items[i] == other.items[i]) {
                return false;
            }
            i = i + 1;
        }
        true
    }
}

impl vstd::std_specs::cmp::PartialEqSpecImpl for Vendor {
    open spec fn obeys_eq_spec() -> bool {
        true
    }

    open spec fn eq_spec(&self, other: &Vendor) -> bool {
        &&& self.name@ == other.name@
        &&& self.url@ == other.url@
        &&& self.bits == other.bits
        &&& self.items@.len() == other.items@.len()
        &&& forall|j: int| 0 <= j < self.items@.len() ==> same_item(#[trigger] self.items@[j], other.items@[j])
    }
}

/// The vendor holding the token `auth_item.uuid` sets the price of its item
/// `auth_item.name` and shelves (or unshelves) up to `auth_item.stock` units.
/// Returns the vendor's position, or `InvalidVendor` for an unknown token,
/// in which case nothing changes.
pub fn stock(auth_item: AuthItem, ledger: &mut Ledger) -> (r: Result<usize, LedgerError>)
    requires
        old(ledger).wf(),
    ensures
        final(ledger).wf(),
        match r {
            Ok(id) => {
                let o = old(ledger)@;
                let n = final(ledger)@;
                &&& is_first_index(o.tokens, auth_item.uuid@, id as int)
                &&& n.vendors.len() == o.vendors.len()
                &&& forall|j: int| 0 <= j < o.vendors.len() && j != id ==> #[trigger] n.vendors[j] == o.vendors[j]
                &&& same_vendor(Vendor { items: n.vendors[id as int].items, ..o.vendors[id as int] }, n.vendors[id as int])
                &&& n.vendors[id as int].items@ == update_in(
                    o.vendors[id as int].items@,
                    auth_item.name@,
                    auth_item.price,
                    auth_item.stock as int,
                )
                &&& n == LedgerView { vendors: n.vendors, ..o }
            },
            Err(e) => e == LedgerError::InvalidVendor && !old(ledger)@.tokens.contains(auth_item.uuid@)
                && final(ledger)@ == old(ledger)@,
        },
{
    let vendor_id = match ledger.verify_uuid(auth_item.uuid) {
        Ok(id) => id,
        Err(e) => return Err(e),
    };
    ledger.update_item(vendor_id, auth_item.name, auth_item.price, auth_item.stock);
    Ok(vendor_id)
}

/// The members of the response to a stock request.
pub open spec fn stock_pairs(r: Result<usize, LedgerError>) -> Seq<(Seq<char>, Seq<char>)> {
    match r {
        Ok(_) => seq![("success"@, "true"@)],
        Err(_) => seq![("UUID"@, "not recognized"@), ("success"@, "false"@)],
    }
}

/// The members of the response to a stock request, keys in lexicographic
/// order.
pub fn stock_fields(r: &Result<usize, LedgerError>) -> (out: Vec<(String, String)>)
    ensures
        pair_views(out@) == stock_pairs(*r),
{
    let mut out: Vec<(String, String)> = Vec::new();
    match r {
        Ok(_) => out.push(field("success", "true".to_owned())),
        Err(_) => {
            out.push(field("UUID", "not recognized".to_owned()));
            out.push(field("success", "false".to_owned()));
        },
    }
    proof {
        assert(pair_views(out@) =~= stock_pairs(*r));
    }
    out
}

} // verus!
