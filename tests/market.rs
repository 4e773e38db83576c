use code_market::authorization::{register, Registration, RegistrationError};
use code_market::ledger::{AvgPrice, Ledger, LedgerError, MarketConfig, TOKEN_LENGTH};
use code_market::names::{catchphrase_generator, name_generator};
use code_market::purchase::{purchase, Order, PurchaseError};
use code_market::shop::{stock, AuthItem, Item, ShopError, Vendor};
use code_market::util::{
    convert_minimal_to_full, find_rust_type, get_rust_type_index, get_rust_types, rust_type_name,
    RUST_TYPE_COUNT,
};
use std::collections::HashSet;

fn types(names: &[&str]) -> Vec<String> {
    names.iter().map(|s| s.to_string()).collect()
}

/// A ledger with a seller "Seller" holding only `u16` (token "seller-token")
/// and a buyer "Buyer" holding only `bool` (token "buyer-token").
fn two_vendors(config: MarketConfig, u16_price: u32) -> Ledger {
    let mut ledger = Ledger::with_config(config);
    ledger
        .register_vendor_with("Seller".to_string(), None, types(&["u16"]), "seller-token".to_string())
        .unwrap();
    ledger
        .register_vendor_with("Buyer".to_string(), None, types(&["bool"]), "buyer-token".to_string())
        .unwrap();
    stock(
        AuthItem { name: "u16".to_string(), price: u16_price, stock: 0, uuid: "seller-token".to_string() },
        &mut ledger,
    )
    .unwrap();
    ledger
}

fn order(item: &str, count: u32, from: &str, to: &str) -> Order {
    Order { item: item.to_string(), count, from: from.to_string(), to: to.to_string() }
}

fn stocked(ledger: &Ledger, vendor: usize, item: &str) -> u32 {
    ledger.get_vendor(vendor).get_item(&item.to_string()).unwrap().get_count()
}

#[test]
fn same_name_fails_with_existing_vendor() {
    let mut ledger = Ledger::new();
    assert!(ledger.register_vendor("Alpha".to_string(), None).is_ok());
    let second = ledger.register_vendor("Alpha".to_string(), Some("elsewhere".to_string()));
    assert_eq!(second, Err(LedgerError::ExistingVendor));
    assert_eq!(ledger.get_vendor_names().len(), 1);
    assert_eq!(ledger.get_version(), 4);
}

#[test]
fn same_url_fails_with_existing_url() {
    let mut ledger = Ledger::new();
    assert!(ledger.register_vendor("Alpha".to_string(), Some("shop".to_string())).is_ok());
    let second = ledger.register_vendor("Beta".to_string(), Some("shop".to_string()));
    assert_eq!(second, Err(LedgerError::ExistingUrl));
    assert_eq!(ledger.get_vendor_urls(), vec!["shop".to_string()]);
}

#[test]
fn taken_name_wins_over_taken_url() {
    let mut ledger = Ledger::new();
    assert!(ledger.register_vendor("Alpha".to_string(), Some("shop".to_string())).is_ok());
    let second = ledger.register_vendor("Alpha".to_string(), Some("shop".to_string()));
    assert_eq!(second, Err(LedgerError::ExistingVendor));
}

#[test]
fn derived_url_is_lowercase_with_underscores() {
    let mut ledger = Ledger::new();
    assert!(ledger.register_vendor("Cold Vendor".to_string(), None).is_ok());
    assert_eq!(ledger.get_vendor_urls(), vec!["cold_vendor".to_string()]);
}

#[test]
fn first_registration_tracks_exactly_its_types() {
    let mut ledger = Ledger::new();
    assert!(ledger.register_vendor("Alpha".to_string(), None).is_ok());
    let known: HashSet<String> = ledger.get_ledger_items().into_iter().collect();
    let held: HashSet<String> =
        ledger.get_vendor(0).get_items().iter().map(|i| i.name.clone()).collect();
    assert!(!known.is_empty());
    assert_eq!(known, held);
}

#[test]
fn random_assortment_respects_configuration() {
    let mut ledger = Ledger::new();
    let token = ledger.register_vendor("Alpha".to_string(), None).unwrap();
    assert_eq!(token.chars().count(), TOKEN_LENGTH);
    let items = ledger.get_vendor(0).get_items();
    assert!(items.len() >= 3 && items.len() <= 6);
    let names: HashSet<String> = items.iter().map(|i| i.name.clone()).collect();
    assert_eq!(names.len(), items.len());
    for item in items.iter() {
        assert!(find_rust_type(&item.name).is_some());
        assert_eq!(item.price, 0);
        assert_eq!(item.get_count(), 50);
        assert_eq!(item.get_stored(), 0);
    }
    assert_eq!(ledger.get_vendor(0).bits, 1000);
}

#[test]
fn purchase_with_enough_stock() {
    let mut ledger = two_vendors(MarketConfig::default(), 2);
    let receipt = purchase(order("u16", 50, "Seller", "buyer-token"), &mut ledger).unwrap();
    assert_eq!(receipt.understock, 0);
    assert_eq!(receipt.total, 100);
    assert_eq!(receipt.seller, "Seller");
    assert_eq!(receipt.buyer, "Buyer");
    assert_eq!(stocked(&ledger, 0, "u16"), 0);
    assert_eq!(ledger.get_vendor(1).bits, 900);
    assert_eq!(stocked(&ledger, 1, "u16"), 50);
    assert_eq!(ledger.get_version(), 10);
}

#[test]
fn purchase_beyond_stock_reports_understock() {
    let config = MarketConfig { item_count: 30, ..MarketConfig::default() };
    let mut ledger = two_vendors(config, 2);
    let receipt = purchase(order("u16", 50, "Seller", "buyer-token"), &mut ledger).unwrap();
    assert_eq!(receipt.understock, 20);
    assert_eq!(stocked(&ledger, 0, "u16"), 0);
    assert_eq!(ledger.get_vendor(1).bits, 1000 - 30 * 2);
    assert_eq!(stocked(&ledger, 1, "u16"), 50);
}

#[test]
fn unaffordable_order_changes_nothing() {
    let config = MarketConfig { item_count: 30, ..MarketConfig::default() };
    let mut ledger = two_vendors(config, 30);
    let version = ledger.get_version();
    let entries = ledger.get_entries().len();
    let result = purchase(order("u16", 50, "Seller", "buyer-token"), &mut ledger);
    assert!(matches!(result, Err(PurchaseError::CannotAfford)));
    assert_eq!(ledger.get_version(), version);
    assert_eq!(ledger.get_entries().len(), entries);
    assert_eq!(stocked(&ledger, 0, "u16"), 30);
    assert_eq!(ledger.get_vendor(1).bits, 1000);
    assert!(ledger.get_vendor(1).get_item(&"u16".to_string()).is_none());
}

#[test]
fn purchase_logs_two_entries() {
    let mut ledger = two_vendors(MarketConfig::default(), 2);
    let before = ledger.get_entries().len();
    purchase(order("u16", 20, "Seller", "buyer-token"), &mut ledger).unwrap();
    let entries = ledger.get_entries();
    assert_eq!(entries.len(), before + 2);
    let debit = &entries[before];
    let credit = &entries[before + 1];
    assert_eq!((debit.id, debit.vendor.as_str(), debit.attribute.as_str()), (9, "Seller", "u16"));
    assert_eq!((debit.change, debit.price), (-20, 40));
    assert_eq!((credit.id, credit.vendor.as_str(), credit.attribute.as_str()), (10, "Buyer", "u16"));
    assert_eq!((credit.change, credit.price), (20, -40));
}

#[test]
fn purchase_soft_errors() {
    let mut ledger = two_vendors(MarketConfig::default(), 2);
    let r = purchase(order("u16", 1, "Nobody", "buyer-token"), &mut ledger);
    assert!(matches!(r, Err(PurchaseError::NotFound { seller: true, buyer: false })));
    let r = purchase(order("u16", 1, "Seller", "no-token"), &mut ledger);
    assert!(matches!(r, Err(PurchaseError::NotFound { seller: false, buyer: true })));
    let r = purchase(order("u16", 1, "Nobody", "no-token"), &mut ledger);
    assert!(matches!(r, Err(PurchaseError::NotFound { seller: true, buyer: true })));
    let r = purchase(order("char", 1, "Seller", "buyer-token"), &mut ledger);
    assert!(matches!(r, Err(PurchaseError::ItemNotFound)));
    purchase(order("u16", 50, "Seller", "buyer-token"), &mut ledger).unwrap();
    let r = purchase(order("u16", 1, "Seller", "buyer-token"), &mut ledger);
    assert!(matches!(r, Err(PurchaseError::OutOfStock)));
}

#[test]
fn purchase_that_overflows_the_buyer_is_refused() {
    let config = MarketConfig { item_count: u32::MAX, ..MarketConfig::default() };
    let mut ledger = Ledger::with_config(config);
    ledger.register_vendor_with("Seller".to_string(), None, types(&["u16"]), "s".to_string()).unwrap();
    ledger.register_vendor_with("Buyer".to_string(), None, types(&["u16"]), "b".to_string()).unwrap();
    let r = purchase(order("u16", 1, "Seller", "b"), &mut ledger);
    assert!(matches!(r, Err(PurchaseError::TooMany)));
}

#[test]
fn tokens_resolve_to_their_vendor() {
    let mut ledger = Ledger::new();
    let first = ledger.register_vendor("Alpha".to_string(), None).unwrap();
    let second = ledger.register_vendor("Beta".to_string(), None).unwrap();
    assert_eq!(ledger.verify_uuid(first), Ok(0));
    assert_eq!(ledger.verify_uuid(second), Ok(1));
    assert_eq!(ledger.verify_uuid("unknown".to_string()), Err(LedgerError::InvalidVendor));
}

#[test]
fn vendor_names_read_twice_agree() {
    let mut ledger = Ledger::new();
    ledger.register_vendor("Alpha".to_string(), None).unwrap();
    ledger.register_vendor("Beta".to_string(), None).unwrap();
    assert_eq!(ledger.get_vendor_names(), ledger.get_vendor_names());
    assert_eq!(ledger.get_vendor_names(), vec!["Alpha".to_string(), "Beta".to_string()]);
}

#[test]
fn price_history_records_value_and_quantity() {
    let mut ledger = Ledger::new();
    ledger
        .register_vendor_with("Seller".to_string(), None, types(&["u16"]), "s".to_string())
        .unwrap();
    stock(AuthItem { name: "u16".to_string(), price: 2, stock: 0, uuid: "s".to_string() }, &mut ledger)
        .unwrap();
    ledger
        .register_vendor_with("Other".to_string(), None, types(&["u16", "bool"]), "o".to_string())
        .unwrap();
    let u16_history = ledger.get_item_history("u16".to_string());
    assert_eq!(u16_history.len(), 2);
    // The first point is taken before the seller itself joins the market.
    assert_eq!(u16_history[0], AvgPrice { value: 0, quantity: 0 });
    assert_eq!(u16_history[1], AvgPrice { value: 100, quantity: 50 });
    assert_eq!(ledger.get_item_history("bool".to_string()), vec![AvgPrice { value: 0, quantity: 0 }; 2]);
    purchase(order("u16", 10, "Other", "s"), &mut ledger).unwrap();
    let u16_history = ledger.get_item_history("u16".to_string());
    // Seller: 60 stocked at 2 (10 merged in); Other: 40 stocked at 0.
    assert_eq!(u16_history[2], AvgPrice { value: 120, quantity: 100 });
    let history = ledger.get_price_history();
    assert_eq!(history.len(), RUST_TYPE_COUNT);
    assert!(history.iter().all(|row| row.len() == 3));
}

#[test]
fn full_conversion_spreads_points_over_catalogue() {
    let point = AvgPrice { value: 5, quantity: 2 };
    let full = convert_minimal_to_full(vec![("u16".to_string(), point)]);
    assert_eq!(full.len(), RUST_TYPE_COUNT);
    assert_eq!(full[2], point);
    assert_eq!(full[0], AvgPrice { value: 0, quantity: 0 });
    assert_eq!(full[15], AvgPrice { value: 0, quantity: 0 });
}

#[test]
fn catalogue_lookups() {
    assert_eq!(get_rust_type_index("u16".to_string()), 2);
    assert_eq!(get_rust_type_index("never".to_string()), 15);
    assert_eq!(find_rust_type(&"nope".to_string()), None);
    assert_eq!(rust_type_name(13), "str");
    let all = get_rust_types(0);
    assert_eq!(all.len(), RUST_TYPE_COUNT);
    assert_eq!(all[0], "bool");
    let some = get_rust_types(5);
    assert_eq!(some.len(), 5);
    let distinct: HashSet<&String> = some.iter().collect();
    assert_eq!(distinct.len(), 5);
    assert_eq!(get_rust_types(40).len(), RUST_TYPE_COUNT);
}

#[test]
fn stock_request_moves_units_and_sets_price() {
    let mut ledger = Ledger::new();
    ledger
        .register_vendor_with("Seller".to_string(), None, types(&["u16"]), "s".to_string())
        .unwrap();
    let r = stock(AuthItem { name: "u16".to_string(), price: 7, stock: -20, uuid: "s".to_string() }, &mut ledger);
    assert_eq!(r, Ok(0));
    let item = ledger.get_vendor(0).get_item(&"u16".to_string()).unwrap().clone();
    assert_eq!((item.price, item.get_count(), item.get_stored()), (7, 30, 20));
    stock(AuthItem { name: "u16".to_string(), price: 7, stock: 50, uuid: "s".to_string() }, &mut ledger)
        .unwrap();
    let item = ledger.get_vendor(0).get_item(&"u16".to_string()).unwrap().clone();
    assert_eq!((item.get_count(), item.get_stored()), (50, 0));
    let r = stock(AuthItem { name: "u16".to_string(), price: 1, stock: 1, uuid: "x".to_string() }, &mut ledger);
    assert_eq!(r, Err(LedgerError::InvalidVendor));
}

#[test]
fn vendor_item_pools() {
    let mut v = Vendor::new("V".to_string(), "v".to_string(), 10);
    v.add_item(Item::new("u8".to_string(), 3, 5, 5), false);
    v.add_item(Item::new("u8".to_string(), 9, 1, 2), true);
    let item = v.get_item(&"u8".to_string()).unwrap();
    assert_eq!((item.price, item.get_count(), item.get_stored(), item.total()), (3, 5, 8, 13));
    v.add_item(Item::new("u8".to_string(), 9, 4, 0), false);
    let item = v.get_item(&"u8".to_string()).unwrap();
    assert_eq!((item.get_count(), item.get_stored()), (9, 8));
    assert_eq!(v.items.len(), 1);
    assert_eq!(v.purchase_item(&"u8".to_string(), 4), Ok(0));
    assert_eq!(v.purchase_item(&"u8".to_string(), 7), Ok(2));
    assert_eq!(v.purchase_item(&"i8".to_string(), 1), Err(ShopError::ItemNotFound));
    assert!(v.contains(&"u8".to_string()));
    assert!(!v.contains(&"i8".to_string()));
    v.update_item("u8".to_string(), 4, 3);
    let item = v.get_item(&"u8".to_string()).unwrap();
    assert_eq!((item.price, item.get_count(), item.get_stored()), (4, 3, 5));
    let copy = v.clone();
    assert!(copy == v);
}

#[test]
fn registration_requests() {
    let mut ledger = Ledger::new();
    let empty = register(Registration { vendor_name: "".to_string(), vendor_url: "x".to_string() }, &mut ledger);
    assert_eq!(empty, Err(RegistrationError::EmptyName));
    let token = register(
        Registration { vendor_name: "Some Shop".to_string(), vendor_url: "http://x".to_string() },
        &mut ledger,
    )
    .unwrap();
    assert_eq!(token.chars().count(), TOKEN_LENGTH);
    assert_eq!(ledger.get_vendor_urls(), vec!["some_shop".to_string()]);
    let taken = register(
        Registration { vendor_name: "Other".to_string(), vendor_url: "some_shop".to_string() },
        &mut ledger,
    );
    assert_eq!(taken, Err(RegistrationError::InUse));
    let taken = register(
        Registration { vendor_name: "Some Shop".to_string(), vendor_url: "fresh".to_string() },
        &mut ledger,
    );
    assert_eq!(taken, Err(RegistrationError::InUse));
}

#[test]
fn state_request_needs_a_known_token() {
    let mut ledger = Ledger::new();
    ledger
        .register_vendor_with("Seller".to_string(), None, types(&["u16", "i8"]), "s".to_string())
        .unwrap();
    let (id, state, store) = ledger.request_state("s".to_string()).unwrap();
    assert_eq!(id, 0);
    assert_eq!(state.len(), 1);
    assert_eq!(state[0].0, "Seller");
    assert_eq!((state[0].1).0, types(&["u16", "i8"]));
    assert_eq!((state[0].1).1, vec![0, 0]);
    assert_eq!((state[0].1).2, vec![50, 50]);
    assert_eq!(store, (types(&["u16", "i8"]), vec![], vec![0, 0]));
    assert!(matches!(ledger.request_state("t".to_string()), Err(LedgerError::InvalidVendor)));
}

#[test]
fn generated_names_and_catchphrases() {
    let name = name_generator();
    assert_eq!(name.split(' ').count() >= 2, true);
    assert!(!catchphrase_generator().is_empty());
}
