use code_market::authorization::{registration_fields, RegistrationError};
use code_market::ledger::{Ledger, LedgerError};
use code_market::purchase::{purchase, purchase_fields, Order, PurchaseError, Receipt};
use code_market::shop::stock_fields;
use code_market::util::construct_json;

fn pairs(items: &[(&str, &str)]) -> Vec<(String, String)> {
    items.iter().map(|(k, v)| (k.to_string(), v.to_string())).collect()
}

#[test]
fn json_object_of_several_members() {
    let json = construct_json(&pairs(&[("buyer", "B"), ("success", "true")]));
    assert_eq!(json, "{ \"buyer\": \"B\", \"success\": \"true\" }");
}

#[test]
fn json_object_of_one_member() {
    assert_eq!(construct_json(&pairs(&[("uuid", "abc")])), "{ \"uuid\": \"abc\" }");
}

#[test]
fn json_object_of_no_members() {
    assert_eq!(construct_json(&vec![]), " }");
}

#[test]
fn receipt_members_in_key_order() {
    let receipt = Receipt { understock: 20, total: 1234567, seller: "S".to_string(), buyer: "B".to_string() };
    let fields = purchase_fields(&Ok(receipt));
    assert_eq!(
        fields,
        pairs(&[
            ("buyer", "B"),
            ("seller", "S"),
            ("success", "true"),
            ("total", "1234567"),
            ("understock", "20"),
        ])
    );
    assert_eq!(
        construct_json(&fields),
        "{ \"buyer\": \"B\", \"seller\": \"S\", \"success\": \"true\", \"total\": \"1234567\", \"understock\": \"20\" }"
    );
}

#[test]
fn purchase_error_members() {
    let both = purchase_fields(&Err(PurchaseError::NotFound { seller: true, buyer: true }));
    assert_eq!(both, pairs(&[("buyer", "not found"), ("seller", "not found")]));
    let stock = purchase_fields(&Err(PurchaseError::OutOfStock));
    assert_eq!(stock, pairs(&[("item", "out of stock")]));
    let afford = purchase_fields(&Err(PurchaseError::CannotAfford));
    assert_eq!(afford, pairs(&[("buyer", "cannot afford the purchase")]));
}

#[test]
fn purchase_response_end_to_end() {
    let mut ledger = Ledger::new();
    ledger.register_vendor("Seller".to_string(), None).unwrap();
    let buyer = ledger.register_vendor("Buyer".to_string(), None).unwrap();
    let item = ledger.get_vendor(0).get_items()[0].name.clone();
    let result = purchase(Order { item, count: 60, from: "Seller".to_string(), to: buyer }, &mut ledger);
    let json = construct_json(&purchase_fields(&result));
    assert!(json.contains("\"success\": \"true\""));
    assert!(json.contains("\"total\": \"0\""));
    assert!(json.contains("\"understock\": \"10\""));
}

#[test]
fn registration_and_stock_members() {
    assert_eq!(registration_fields(&Ok("tok".to_string())), pairs(&[("uuid", "tok")]));
    assert_eq!(registration_fields(&Err(RegistrationError::EmptyName)), pairs(&[("vendor_name", "is empty")]));
    assert_eq!(registration_fields(&Err(RegistrationError::InUse)), pairs(&[("vendor_name", "is in use")]));
    assert_eq!(stock_fields(&Ok(3)), pairs(&[("success", "true")]));
    assert_eq!(
        stock_fields(&Err(LedgerError::InvalidVendor)),
        pairs(&[("UUID", "not recognized"), ("success", "false")])
    );
}
