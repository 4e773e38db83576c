//! Purchase orders: resolving the parties, checking stock and funds, and
//! handing the transaction to the ledger.
use crate::ledger::{purchased, vendor_names, Ledger, LedgerView};
use crate::shop::{
    first_pos, item_names, lemma_add_in_names, lemma_first_pos, lemma_holds_in, lemma_pos_in,
    lemma_sell_in_names, min, pos_in, Item,
};
use crate::text::{decimal, to_decimal};
use crate::util::{field, pair_views};
use vstd::prelude::*;

verus! {

/// A purchase order: `count` units of `item` go from the vendor called
/// `from` (the seller) to the vendor holding the session token `to` (the
/// buyer).
#[derive(Debug)]
pub struct Order {
    pub item: String,
    pub count: u32,
    pub from: String,
    pub to: String,
}


/// What a completed purchase reports: the understock, the total of the order
/// at the seller's price, and the names of both parties.
#[derive(Debug)]
pub struct Receipt {
    pub understock: u32,
    pub total: u64,
    pub seller: String,
    pub buyer: String,
}

/// Why a purchase order was turned down. Nothing changes in the ledger.
#[derive(Debug, PartialEq, Eq, Structural)]
pub enum PurchaseError {
    /// No vendor has the seller's name (`seller`), or none holds the buyer's
    /// token (`buyer`).
    NotFound { seller: bool, buyer: bool },
    /// The seller does not hold the item.
    ItemNotFound,
    /// The seller holds the item but has none in stock.
    OutOfStock,
    /// The order's total, at the requested quantity, exceeds the buyer's bits.
    CannotAfford,
    /// The buyer's holding of the item would no longer fit in a `u32`.
    TooMany,
}

/// The outcome of `order` on the ledger `o`, leading to `n`.
pub open spec fn order_outcome(o: LedgerView, n: LedgerView, order: Order, r: Result<Receipt, PurchaseError>) -> bool {
    let seller_found = vendor_names(o.vendors).contains(order.from@);
    let buyer_found = o.tokens.contains(order.to@);
    let s = first_pos(vendor_names(o.vendors), order.from@);
    let b = first_pos(o.tokens, order.to@);
    let seller = o.vendors[s];
    let buyer = o.vendors[b];
    let held = seller.item(order.item@);
    let total = held.price * order.count;
    if !seller_found || !buyer_found {
        r == Err::<Receipt, PurchaseError>(PurchaseError::NotFound { seller: !seller_found, buyer: !buyer_found })
            && n == o
    } else if !seller.holds(order.item@) {
        r == Err::<Receipt, PurchaseError>(PurchaseError::ItemNotFound) && n == o
    } else if held.stocked == 0 {
        r == Err::<Receipt, PurchaseError>(PurchaseError::OutOfStock) && n == o
    } else if total > buyer.bits {
        r == Err::<Receipt, PurchaseError>(PurchaseError::CannotAfford) && n == o
    } else if buyer.holds(order.item@) && buyer.item(order.item@).stocked + buyer.item(order.item@).stored
        + order.count > u32::MAX {
        r == Err::<Receipt, PurchaseError>(PurchaseError::TooMany) && n == o
    } else {
        &&& r is Ok
        &&& r->Ok_0.total == total
        &&& r->Ok_0.seller == seller.name
        &&& r->Ok_0.buyer == buyer.name
        &&& purchased(o, n, order.item, order.count, s, b, held.price, r->Ok_0.understock)
    }
}

/// Carries out `order`: finds the seller by name and the buyer by token,
/// checks that the seller has the item in stock and that the buyer can pay
/// for the whole order, and then has the ledger perform the purchase.
pub fn purchase(order: Order, ledger: &mut Ledger) -> (r: Result<Receipt, PurchaseError>)
    requires
        old(ledger).wf(),
        old(ledger)@.version + 2 <= u64::MAX,
    ensures
        final(ledger).wf(),
        order_outcome(old(ledger)@, final(ledger)@, order, r),
{
    let ghost o = ledger@;
    let buyer_pos = ledger.verify_uuid(order.to.clone());
    let seller_pos = ledger.find_vendor(&order.from);
    let (seller_pos, buyer_pos) = match (seller_pos, buyer_pos) {
        (Some(s), Ok(b)) => (s, b),
        (s, b) => {
            return Err(PurchaseError::NotFound { seller: s.is_none(), buyer: b.is_err() });
        },
    };
    proof {
        lemma_first_pos(vendor_names(o.vendors), order.from@, seller_pos as int);
        lemma_first_pos(o.tokens, order.to@, buyer_pos as int);
    }
    let from = ledger.get_vendor(seller_pos);
    let (item_price, item_count) = match from.get_item(&order.item) {
        Some(i) => (i.price, i.get_count()),
        None => return Err(PurchaseError::ItemNotFound),
    };
    if item_count == 0 {
        return Err(PurchaseError::OutOfStock);
    }
    let to = ledger.get_vendor(buyer_pos);
    assert(item_price * order.count <= u32::MAX * u32::MAX) by (nonlinear_arith)
        requires
            item_price <= u32::MAX,
            order.count <= u32::MAX,
    ;
    let total: u64 = item_price as u64 * order.count as u64;
    if total > to.bits {
        return Err(PurchaseError::CannotAfford);
    }
    match to.get_item(&order.item) {
        Some(i) => {
            if i.get_count() as u64 + i.get_stored() as u64 + order.count as u64 > u32::MAX as u64 {
                return Err(PurchaseError::TooMany);
            }
        },
        None => {},
    }
    let seller = from.name;
    let buyer = to.name;
    let understock = ledger.purchase(order, seller_pos, buyer_pos, item_price);
    Ok(Receipt { understock, total, seller, buyer })
}
/// The position of the seller that `order` names.
pub open spec fn seller_of(o: LedgerView, order: Order) -> int {
    first_pos(vendor_names(o.vendors), order.from@)
}

/// The position of the buyer whose token `order` carries.
pub open spec fn buyer_of(o: LedgerView, order: Order) -> int {
    first_pos(o.tokens, order.to@)
}

/// When a purchase between two vendors goes through, with `sold` the smaller
/// of the ordered quantity and the seller's stock: the understock is the
/// rest of the order, the seller's stock of the item drops by `sold`, the
/// buyer pays `sold` times the price, and the buyer's stock of the item grows
/// by the whole ordered quantity.
pub proof fn lemma_purchase_moves_stock(o: LedgerView, n: LedgerView, order: Order, r: Result<Receipt, PurchaseError>)
    requires
        o.wf(),
        order_outcome(o, n, order, r),
        r is Ok,
        seller_of(o, order) != buyer_of(o, order),
    ensures
        ({
            let s = seller_of(o, order);
            let b = buyer_of(o, order);
            let stock = o.vendors[s].item(order.item@).stocked;
            let price = o.vendors[s].item(order.item@).price;
            let sold = min(order.count as int, stock as int);
            let before = if o.vendors[b].holds(order.item@) {
                o.vendors[b].item(order.item@).stocked as int
            } else {
                0
            };
            &&& r->Ok_0.understock == order.count - sold
            &&& n.vendors[s].item(order.item@).stocked == stock - sold
            &&& n.vendors[b].bits == o.vendors[b].bits - price * sold
            &&& n.vendors[b].holds(order.item@)
            &&& n.vendors[b].item(order.item@).stocked == before + order.count
        }),
{
    let s = seller_of(o, order);
    let b = buyer_of(o, order);
    let name = order.item@;
    let seller = o.vendors[s];
    let buyer = o.vendors[b];
    let received = Item { name: order.item, price: seller.item(name).price, stocked: order.count, stored: 0 };
    lemma_holds_in(seller.items@, name);
    lemma_sell_in_names(seller.items@, name, order.count as int);
    assert(pos_in(n.vendors[s].items@, name) == pos_in(seller.items@, name));
    lemma_add_in_names(buyer.items@, received, false);
    if buyer.holds(name) {
        lemma_holds_in(buyer.items@, name);
        assert(pos_in(n.vendors[b].items@, name) == pos_in(buyer.items@, name));
    } else {
        let k = buyer.items@.len() as int;
        assert(item_names(n.vendors[b].items@)[k] == name);
        assert forall|j: int| 0 <= j < k implies item_names(n.vendors[b].items@)[j] != name by {
            assert(item_names(n.vendors[b].items@)[j] == item_names(buyer.items@)[j]);
        }
        lemma_pos_in(n.vendors[b].items@, name, k);
    }
}

/// An order whose total at the requested quantity exceeds the buyer's bits is
/// turned down with `CannotAfford` and changes nothing, even when the seller
/// could only have filled part of it for less.
pub proof fn lemma_unaffordable_rejected(o: LedgerView, n: LedgerView, order: Order, r: Result<Receipt, PurchaseError>)
    requires
        order_outcome(o, n, order, r),
        vendor_names(o.vendors).contains(order.from@),
        o.tokens.contains(order.to@),
        o.vendors[seller_of(o, order)].holds(order.item@),
        o.vendors[seller_of(o, order)].item(order.item@).stocked > 0,
        o.vendors[seller_of(o, order)].item(order.item@).price * order.count > o.vendors[buyer_of(
            o,
            order,
        )].bits,
    ensures
        r == Err::<Receipt, PurchaseError>(PurchaseError::CannotAfford),
        n == o,
{
}

/// The members of the response to a purchase order.
pub open spec fn purchase_pairs(r: Result<Receipt, PurchaseError>) -> Seq<(Seq<char>, Seq<char>)> {
    match r {
        Ok(receipt) => seq![
            ("buyer"@, receipt.buyer@),
            ("seller"@, receipt.seller@),
            ("success"@, "true"@),
            ("total"@, decimal(receipt.total as nat)),
            ("understock"@, decimal(receipt.understock as nat)),
        ],
        Err(PurchaseError::NotFound { seller, buyer }) => (if buyer {
            seq![("buyer"@, "not found"@)]
        } else {
            Seq::empty()
        }) + (if seller {
            seq![("seller"@, "not found"@)]
        } else {
            Seq::empty()
        }),
        Err(PurchaseError::ItemNotFound) => seq![("item"@, "not found at seller"@)],
        Err(PurchaseError::OutOfStock) => seq![("item"@, "out of stock"@)],
        Err(PurchaseError::CannotAfford) => seq![("buyer"@, "cannot afford the purchase"@)],
        Err(PurchaseError::TooMany) => seq![("buyer"@, "cannot hold that many"@)],
    }
}

/// The members of the response to a purchase order, keys in lexicographic
/// order.
pub fn purchase_fields(r: &Result<Receipt, PurchaseError>) -> (out: Vec<(String, String)>)
    ensures
        pair_views(out@) == purchase_pairs(*r),
{
    let mut out: Vec<(String, String)> = Vec::new();
    match r {
        Ok(receipt) => {
            out.push(field("buyer", receipt.buyer.clone()));
            out.push(field("seller", receipt.seller.clone()));
            out.push(field("success", "true".to_owned()));
            out.push(field("total", to_decimal(receipt.total)));
            out.push(field("understock", to_decimal(receipt.understock as u64)));
        },
        Err(PurchaseError::NotFound { seller, buyer }) => {
            if *buyer {
                out.push(field("buyer", "not found".to_owned()));
            }
            if *seller {
                out.push(field("seller", "not found".to_owned()));
            }
        },
        Err(PurchaseError::ItemNotFound) => {
            out.push(field("item", "not found at seller".to_owned()));
        },
        Err(PurchaseError::OutOfStock) => {
            out.push(field("item", "out of stock".to_owned()));
        },
        Err(PurchaseError::CannotAfford) => {
            out.push(field("buyer", "cannot afford the purchase".to_owned()));
        },
        Err(PurchaseError::TooMany) => {
            out.push(field("buyer", "cannot hold that many".to_owned()));
        },
    }
    proof {
        assert(pair_views(out@) =~= purchase_pairs(*r));
    }
    out
}

} // verus!
