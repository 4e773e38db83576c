use code_market::authorization::{register, Registration};
use code_market::ledger::{AvgPrice, Ledger, MarketConfig};
use code_market::names::name_generator;
use code_market::purchase::{purchase, Order};
use code_market::shop::{stock, AuthItem, Item, Vendor};
use code_market::util::{get_rust_type_index, get_rust_types};
use std::collections::HashSet;

fn create_test_ledger(generate: usize) -> (Ledger, Vec<String>) {
    let mut session_ledger = Ledger::new();
    let mut ids = vec![];
    for _ in 0..generate {
        ids.push(session_ledger.register_vendor(name_generator(), None).unwrap());
    }
    (session_ledger, ids)
}

fn empty_point() -> AvgPrice {
    AvgPrice { value: 0, quantity: 0 }
}

#[test]
fn test_get_item_history() {
    let mut ledger = Ledger::new();
    let _ = ledger.register_vendor("test".to_string(), None);
    for s in get_rust_types(0) {
        if !ledger.get_ledger_items().contains(&s.to_string()) {
            assert_eq!(ledger.get_item_history(s.to_string()), vec![empty_point()]);
        }
    }
}

#[test]
fn test_get_ledger_items() {
    let mut ledger = Ledger::new();
    let _ = ledger.register_vendor("test".to_string(), None);
    let vendor_items: Vec<String> = ledger
        .get_vendor(0)
        .get_items()
        .iter()
        .map(|x| x.name.clone())
        .collect();
    let ledger_items: Vec<String> = ledger.get_ledger_items();
    let vi: HashSet<&String> = vendor_items.iter().collect();
    let li: HashSet<&String> = ledger_items.iter().collect();
    assert_eq!(vi, li);
}

#[test]
fn test_get_price_history() {
    let mut ledger = Ledger::new();
    let _ = ledger.register_vendor("test".to_string(), None);
    let ledger_items: Vec<String> = ledger.get_ledger_items();
    let price_history = ledger.get_price_history();
    for rt in get_rust_types(0) {
        if !ledger_items.contains(&rt.to_string()) {
            assert_eq!(price_history[get_rust_type_index(rt.to_string())], vec![empty_point()]);
        }
    }
}

#[test]
fn test_get_vendor() {
    let mut ledger = Ledger::new();
    let _ = ledger.register_vendor("test".to_string(), None);
    let v = ledger.get_vendor(0);
    assert_eq!("test".to_string(), v.name);
}

#[test]
fn test_get_vendors() {
    let mut ledger = Ledger::new();
    let _ = ledger.register_vendor("test".to_string(), None);
    let _ = ledger.register_vendor("test2".to_string(), None);
    let vs = ledger.get_vendors();
    assert_eq!(vs.len(), 2);
}

#[test]
fn test_get_vendor_names() {
    let mut ledger = Ledger::new();
    let _ = ledger.register_vendor("test".to_string(), None);
    let _ = ledger.register_vendor("test2".to_string(), None);
    let vn = ledger.get_vendor_names();
    assert!(vn.contains(&"test".to_string()));
    assert!(vn.contains(&"test2".to_string()));
}

#[test]
fn test_get_vendor_urls() {
    let mut ledger = Ledger::new();
    let _ = ledger.register_vendor("test".to_string(), None);
    let _ = ledger.register_vendor("test2".to_string(), Some("test".to_string()));
    let vn = ledger.get_vendor_names();
    assert!(vn.contains(&"test".to_string()));
    assert_eq!(vn.len(), 1);
}

#[test]
fn test_get_version() {
    // The version grows by 4 per registration whatever the assortment; the
    // assortment is pinned to 4 types so that both sides agree.
    let config = MarketConfig { min_items: 4, max_items: 4, ..MarketConfig::default() };
    let mut ledger = Ledger::with_config(config);
    let _ = ledger.register_vendor("test".to_string(), None);
    assert_eq!(ledger.get_version() as usize, ledger.get_ledger_items().len());
}

#[test]
fn test_new_item() {
    let i = Item::new(String::from("test_item"), 1, 32, 32);
    assert_eq!(&i.name[..], "test_item");
    assert_eq!(i.price, 1);
    assert_eq!(i.get_count(), 32);
}

#[test]
fn test_new_vendor() {
    let v = Vendor::new(String::from("Test Vendor"), String::from("test_vendor"), 100);
    assert_eq!(&v.name[..], "Test Vendor");
    assert_eq!(v.bits, 100);
    assert_eq!(v.items, vec![]);
}

#[test]
fn test_purchase() {
    let mut ledger = Ledger::new();
    let id1 = ledger.register_vendor("test".to_string(), None).unwrap();
    let v1_items = ledger.get_ledger_items();
    let id2 = ledger.register_vendor("test2".to_string(), None).unwrap();

    let stock_response = stock(
        AuthItem { name: v1_items[0].clone(), price: 1, stock: 5, uuid: id1.clone() },
        &mut ledger,
    );
    assert!(stock_response.is_ok());

    let purchase_response = purchase(
        Order { item: v1_items[0].clone(), count: 5, from: "test".to_string(), to: id2 },
        &mut ledger,
    );
    assert!(purchase_response.is_ok());
}

#[test]
fn test_register_endpoint() {
    let (mut ledger, _) = create_test_ledger(0);
    let response = register(
        Registration { vendor_name: "vendor".to_string(), vendor_url: "vendor".to_string() },
        &mut ledger,
    );
    assert!(response.is_ok());
}

#[test]
fn test_register_vendor() {
    let mut ledger = Ledger::new();
    let _ = ledger.register_vendor("Test Name".to_string(), None);
    assert!(ledger.get_ledger_items().len() > 0);
    assert_eq!(ledger.get_vendor_names(), ["Test Name".to_string()]);
    assert_eq!(ledger.get_vendor_urls(), ["test_name".to_string()]);
}

#[test]
fn test_register_endpoint_partial() {
    let mut ledger = Ledger::new();
    let response = register(
        Registration { vendor_name: "vendor".to_string(), vendor_url: "".to_string() },
        &mut ledger,
    );
    assert!(response.is_ok());
}

#[test]
fn test_serialize_state() {
    let mut ledger = Ledger::new();
    assert!(ledger.serialize_state().is_empty());
    let _ = ledger.register_vendor("test".to_string(), None);
    assert!(ledger.serialize_state().iter().any(|(name, _)| name == "test"));
}

#[test]
fn test_serialize_vendor() {
    let mut ledger = Ledger::new();
    let _ = ledger.register_vendor("test".to_string(), None);
    let sv = ledger.serialize_vendor(0);
    assert_eq!(sv.1.len(), 0);
    assert_eq!(sv.0.len(), sv.2.len());
}

#[test]
fn test_vendor_add_item() {
    let v = &mut Vendor::new(String::from("Vendor"), String::from("vendor"), 1000);
    v.add_item(Item::new(String::from("f32"), 32, 100, 100), false);
    let item = v.get_item(&String::from("f32")).unwrap();
    assert_eq!(item.price, 32);
    assert_eq!(item.get_count(), 100);
}

#[test]
fn test_vendor_purchase_item() {
    let v = &mut Vendor::new(String::from("Vendor"), String::from("vendor"), 1000);
    let f32 = String::from("f32");
    let u8 = String::from("u8");
    let stir = String::from("str");
    v.add_item(Item::new(f32.clone(), 32, 100, 100), false);
    v.add_item(Item::new(u8.clone(), 8, 100, 100), false);
    v.add_item(Item::new(stir.clone(), 1, 40, 40), false);
    let _ = v.purchase_item(&u8, 70);
    let _ = v.purchase_item(&stir, 50);
    assert_eq!(30, v.get_item(&u8).unwrap().get_count());
    assert_eq!(0, v.get_item(&stir).unwrap().get_count());
}

#[test]
fn test_verify_uuid() {
    let (ledger, ids) = create_test_ledger(3);
    for i in ids {
        assert!(match ledger.verify_uuid(i) {
            Ok(_) => true,
            Err(_) => false,
        });
    }
}
