use origin_trace::market::{Marketplace, SECONDS_PER_MONTH};
use origin_trace::matching::DeviceSpec;
use origin_trace::model::{Entity, Gate, MarketError, Role};

fn seller_with_device(m: &mut Marketplace, specs: &str, price: u32) -> (u64, u64) {
    let seller = m.add_user("Sam".to_string(), "sam@shop.test".to_string(), Role::Seller).unwrap();
    let device = m.add_device(seller, "Phone".to_string(), specs.to_string(), price).unwrap();
    (seller, device)
}

#[test]
fn added_user_reads_back() {
    let mut m = Marketplace::new();
    let id = m.add_user("Ada".to_string(), "ada@mail.test".to_string(), Role::Buyer).unwrap();
    assert_eq!(id, 1);
    let u = m.get_user(id).unwrap();
    assert_eq!(u.id, 1);
    assert_eq!(u.name, "Ada");
    assert_eq!(u.email, "ada@mail.test");
    assert_eq!(u.role, Role::Buyer);
    let second = m.add_user("Bo".to_string(), "bo@mail.test".to_string(), Role::Seller).unwrap();
    assert_eq!(second, 2);
    assert!(m.get_user(3).is_none());
}

#[test]
fn update_and_delete_user_are_self_only() {
    let mut m = Marketplace::new();
    let id = m.add_user("Ada".to_string(), "a@x.test".to_string(), Role::Buyer).unwrap();
    assert_eq!(
        m.update_user(9, "X".to_string(), "x@x.test".to_string(), Role::Seller),
        Err(MarketError::Forbidden(Gate::SelfOnly))
    );
    assert_eq!(m.update_user(id, "Ada L".to_string(), "l@x.test".to_string(), Role::Seller), Ok(()));
    let u = m.get_user(id).unwrap();
    assert_eq!(u.name, "Ada L");
    assert_eq!(u.role, Role::Seller);
    assert_eq!(m.delete_user(9), Err(MarketError::Forbidden(Gate::SelfOnly)));
    assert_eq!(m.delete_user(id), Ok(()));
    assert!(m.get_user(id).is_none());
}

#[test]
fn device_addition_needs_an_existing_seller() {
    let mut m = Marketplace::new();
    let buyer = m.add_user("B".to_string(), "b@x.test".to_string(), Role::Buyer).unwrap();
    let spec = m.add_user("S".to_string(), "s@x.test".to_string(), Role::Specialist).unwrap();
    let seller = m.add_user("T".to_string(), "t@x.test".to_string(), Role::Seller).unwrap();
    assert_eq!(
        m.add_device(buyer, "D".to_string(), "phone".to_string(), 100),
        Err(MarketError::Forbidden(Gate::Role))
    );
    assert_eq!(
        m.add_device(spec, "D".to_string(), "phone".to_string(), 100),
        Err(MarketError::Forbidden(Gate::Role))
    );
    assert_eq!(
        m.add_device(42, "D".to_string(), "phone".to_string(), 100),
        Err(MarketError::NotFound(Entity::User))
    );
    assert!(m.list_devices().is_empty());
    let id = m.add_device(seller, "D".to_string(), "phone".to_string(), 100).unwrap();
    assert_eq!(id, 1);
    let d = m.get_device(id).unwrap();
    assert_eq!(d.user_id, seller);
    assert_eq!(d.price_usd(), 100);
    assert_eq!(m.list_user_devices(seller).len(), 1);
    assert!(m.list_user_devices(buyer).is_empty());
}

#[test]
fn device_deletion_is_for_its_owner() {
    let mut m = Marketplace::new();
    let (seller, device) = seller_with_device(&mut m, "phone", 10);
    assert_eq!(m.delete_device(seller + 1, device), Err(MarketError::Forbidden(Gate::Ownership)));
    assert_eq!(m.delete_device(seller, 99), Err(MarketError::NotFound(Entity::Device)));
    assert_eq!(m.delete_device(seller, device), Ok(()));
    assert!(m.get_device(device).is_none());
}

#[test]
fn contract_expiry_and_ownership() {
    let mut m = Marketplace::new();
    let (seller, device) = seller_with_device(&mut m, "phone", 10);
    let buyer = m.add_user("B".to_string(), "b@x.test".to_string(), Role::Buyer).unwrap();
    assert_eq!(
        m.create_contract(buyer, buyer, device, 12, 1_000),
        Err(MarketError::Forbidden(Gate::Ownership))
    );
    assert_eq!(
        m.create_contract(seller, buyer, 77, 12, 1_000),
        Err(MarketError::NotFound(Entity::Device))
    );
    let id = m.create_contract(seller, buyer, device, 3, 1_000).unwrap();
    assert_eq!(id, 1);
    let c = m.get_contract(id).unwrap();
    assert_eq!(SECONDS_PER_MONTH, 2_592_000);
    assert_eq!(c.expiry_date, 1_000 + 3 * 2_592_000);
    assert_eq!(c.expiry_date, 7_777_000);
    assert_eq!(c.seller_id, seller);
    assert_eq!(c.buyer_id, buyer);
    assert_eq!(c.warranty_months, 3);
    assert_eq!(
        m.create_contract(seller, buyer, device, 1, u64::MAX - 5),
        Err(MarketError::Validation)
    );
    assert_eq!(m.list_contracts().len(), 1);
    assert_eq!(m.delete_contract(id), Ok(()));
    assert_eq!(m.delete_contract(id), Err(MarketError::NotFound(Entity::Contract)));
}

#[test]
fn reports_need_a_specialist_and_a_device() {
    let mut m = Marketplace::new();
    let (seller, device) = seller_with_device(&mut m, "phone", 10);
    let spec = m.add_user("S".to_string(), "s@x.test".to_string(), Role::Specialist).unwrap();
    assert_eq!(
        m.add_report(seller, device, "S".to_string(), "ok".to_string(), 5),
        Err(MarketError::Forbidden(Gate::Role))
    );
    assert_eq!(
        m.add_report(99, device, "S".to_string(), "ok".to_string(), 5),
        Err(MarketError::NotFound(Entity::User))
    );
    assert_eq!(
        m.add_report(spec, 99, "S".to_string(), "ok".to_string(), 5),
        Err(MarketError::NotFound(Entity::Device))
    );
    let r = m.add_report(spec, device, "S".to_string(), "fine".to_string(), 5).unwrap();
    let rep = m.get_report(r).unwrap();
    assert_eq!(rep.device_id, device);
    assert_eq!(rep.notes, "fine");
    assert_eq!(rep.timestamp, 5);
    assert_eq!(m.list_reports().len(), 1);
    assert_eq!(m.list_device_reports(device).len(), 1);
    assert!(m.list_device_reports(device + 1).is_empty());
    assert_eq!(m.list_user_reports(seller).len(), 1);
    assert!(m.list_user_reports(spec).is_empty());
}

#[test]
fn report_deletion_by_specialist_or_owner() {
    let mut m = Marketplace::new();
    let (seller, device) = seller_with_device(&mut m, "phone", 10);
    let author = m.add_user("A".to_string(), "a@x.test".to_string(), Role::Specialist).unwrap();
    let other_spec = m.add_user("O".to_string(), "o@x.test".to_string(), Role::Specialist).unwrap();
    let buyer = m.add_user("B".to_string(), "b@x.test".to_string(), Role::Buyer).unwrap();
    let other_seller = m.add_user("P".to_string(), "p@x.test".to_string(), Role::Seller).unwrap();
    let r1 = m.add_report(author, device, "A".to_string(), "n1".to_string(), 1).unwrap();
    let r2 = m.add_report(author, device, "A".to_string(), "n2".to_string(), 2).unwrap();
    assert_eq!(m.delete_report(buyer, r1), Err(MarketError::Forbidden(Gate::Disjunctive)));
    assert_eq!(m.delete_report(other_seller, r1), Err(MarketError::Forbidden(Gate::Disjunctive)));
    assert_eq!(m.delete_report(555, r1), Err(MarketError::NotFound(Entity::User)));
    assert_eq!(m.delete_report(buyer, 555), Err(MarketError::NotFound(Entity::Report)));
    assert_eq!(m.delete_report(other_spec, r1), Ok(()));
    assert_eq!(m.delete_report(seller, r2), Ok(()));
    assert!(m.list_reports().is_empty());
}

#[test]
fn report_on_removed_device_cannot_be_deleted() {
    let mut m = Marketplace::new();
    let (seller, device) = seller_with_device(&mut m, "phone", 10);
    let author = m.add_user("A".to_string(), "a@x.test".to_string(), Role::Specialist).unwrap();
    let r = m.add_report(author, device, "A".to_string(), "n".to_string(), 1).unwrap();
    assert_eq!(m.delete_device(seller, device), Ok(()));
    assert_eq!(m.delete_report(author, r), Err(MarketError::NotFound(Entity::Device)));
    assert!(m.list_user_reports(seller).is_empty());
}

#[test]
fn adding_a_device_twice_keeps_one_entry() {
    let mut m = Marketplace::new();
    let (_, d1) = seller_with_device(&mut m, "phone", 10);
    let buyer = m.add_user("B".to_string(), "b@x.test".to_string(), Role::Buyer).unwrap();
    assert_eq!(m.add_to_cart(buyer, d1), Ok(()));
    assert_eq!(m.add_to_cart(buyer, d1), Ok(()));
    let cart = m.get_cart(buyer).unwrap();
    assert_eq!(cart.user_id, buyer);
    assert_eq!(cart.device_ids, vec![d1]);
}

#[test]
fn cart_rules() {
    let mut m = Marketplace::new();
    let (seller, d1) = seller_with_device(&mut m, "phone", 10);
    let d2 = m.add_device(seller, "Tab".to_string(), "tablet".to_string(), 20).unwrap();
    let buyer = m.add_user("B".to_string(), "b@x.test".to_string(), Role::Buyer).unwrap();
    assert_eq!(m.add_to_cart(seller, d1), Err(MarketError::Forbidden(Gate::Role)));
    assert_eq!(m.add_to_cart(404, d1), Err(MarketError::Forbidden(Gate::Role)));
    assert_eq!(m.add_to_cart(buyer, 404), Err(MarketError::NotFound(Entity::Device)));
    assert!(m.get_cart(buyer).is_none());
    assert_eq!(m.remove_from_cart(buyer, d1), Err(MarketError::NotFound(Entity::Cart)));
    assert_eq!(m.clear_cart(buyer), Err(MarketError::NotFound(Entity::Cart)));
    assert_eq!(m.add_to_cart(buyer, d2), Ok(()));
    assert_eq!(m.add_to_cart(buyer, d1), Ok(()));
    assert_eq!(m.get_cart(buyer).unwrap().device_ids, vec![d2, d1]);
    assert_eq!(m.remove_from_cart(buyer, d2), Ok(()));
    assert_eq!(m.get_cart(buyer).unwrap().device_ids, vec![d1]);
    assert_eq!(m.clear_cart(buyer), Ok(()));
    assert!(m.get_cart(buyer).is_none());
    assert_eq!(m.checkout_cart(buyer, 3), Err(MarketError::NotFound(Entity::Cart)));
}

#[test]
fn checkout_skips_devices_that_are_gone() {
    let mut m = Marketplace::new();
    let seller = m.add_user("S".to_string(), "s@x.test".to_string(), Role::Seller).unwrap();
    let other = m.add_user("T".to_string(), "t@x.test".to_string(), Role::Seller).unwrap();
    for i in 1..=9u64 {
        let owner = if i == 9 { other } else { seller };
        let id = m.add_device(owner, format!("D{}", i), "phone".to_string(), 10).unwrap();
        assert_eq!(id, i);
    }
    let buyer = m.add_user("B".to_string(), "b@x.test".to_string(), Role::Buyer).unwrap();
    for d in [5u64, 7, 9] {
        assert_eq!(m.add_to_cart(buyer, d), Ok(()));
    }
    assert_eq!(m.delete_device(seller, 7), Ok(()));
    let orders = m.checkout_cart(buyer, 1_234).unwrap();
    assert_eq!(orders.len(), 2);
    assert_eq!(orders[0].device_id, 5);
    assert_eq!(orders[0].seller_id, seller);
    assert_eq!(orders[0].buyer_id, buyer);
    assert_eq!(orders[0].id, 1);
    assert_eq!(orders[0].timestamp, 1_234);
    assert_eq!(orders[1].device_id, 9);
    assert_eq!(orders[1].seller_id, other);
    assert_eq!(orders[1].id, 2);
    let left: Vec<u64> = m.list_devices().iter().map(|d| d.id).collect();
    assert_eq!(left, vec![1, 2, 3, 4, 6, 8]);
    assert!(m.get_cart(buyer).is_none());
    assert_eq!(m.list_orders(), orders);
}

#[test]
fn checkout_of_vanished_devices_succeeds_empty() {
    let mut m = Marketplace::new();
    let (seller, d) = seller_with_device(&mut m, "phone", 10);
    let buyer = m.add_user("B".to_string(), "b@x.test".to_string(), Role::Buyer).unwrap();
    assert_eq!(m.add_to_cart(buyer, d), Ok(()));
    assert_eq!(m.delete_device(seller, d), Ok(()));
    assert_eq!(m.checkout_cart(buyer, 1), Ok(vec![]));
    assert!(m.get_cart(buyer).is_none());
}

fn spec_of(kind: &str, budget: u32, hard: &[&str], soft: &[&str], never: &[&str]) -> DeviceSpec {
    DeviceSpec {
        device_type: kind.to_string(),
        primary_use: "daily".to_string(),
        budget_usd: budget,
        hard_constraints: hard.iter().map(|s| s.to_string()).collect(),
        soft_preferences: soft.iter().map(|s| s.to_string()).collect(),
        must_not_have: never.iter().map(|s| s.to_string()).collect(),
    }
}

#[test]
fn matching_filters_on_every_rule() {
    let mut m = Marketplace::new();
    let s = m.add_user("S".to_string(), "s@x.test".to_string(), Role::Seller).unwrap();
    let a = m.add_device(s, "A".to_string(), "laptop 16GB SSD".to_string(), 900).unwrap();
    let b = m.add_device(s, "B".to_string(), "laptop 16GB SSD refurbished".to_string(), 800).unwrap();
    let _c = m.add_device(s, "C".to_string(), "laptop 8GB SSD".to_string(), 500).unwrap();
    let _d = m.add_device(s, "D".to_string(), "laptop 16GB SSD".to_string(), 1500).unwrap();
    let _e = m.add_device(s, "E".to_string(), "phone 16GB SSD".to_string(), 300).unwrap();
    let f = m.add_device(s, "F".to_string(), "gaming laptop 32GB 16GB SSD".to_string(), 1000).unwrap();
    let wanted = spec_of("laptop", 1000, &["16GB", "SSD"], &["light"], &["refurbished"]);
    let found: Vec<u64> = m.check_device_in_storage(&wanted).iter().map(|d| d.id).collect();
    assert_eq!(found, vec![a, f]);
    let lenient = spec_of("laptop", 1000, &["16GB", "SSD"], &[], &[]);
    let found: Vec<u64> = m.check_device_in_storage(&lenient).iter().map(|d| d.id).collect();
    assert_eq!(found, vec![a, b, f]);
    let case_sensitive = spec_of("Laptop", 5000, &[], &[], &[]);
    assert!(m.check_device_in_storage(&case_sensitive).is_empty());
}

#[test]
fn explanation_context_ignores_case() {
    let mut m = Marketplace::new();
    let (_, d) = seller_with_device(&mut m, "Battery: 5000mAh", 10);
    let found = m.explain_context(d, "BATTERY").unwrap();
    assert_eq!(found, "Battery: 5000mAh");
    let missing = m.explain_context(d, "Camera").unwrap();
    assert_eq!(missing, "No specific info about 'Camera'. Full specs: Battery: 5000mAh");
    assert_eq!(m.explain_context(99, "x"), Err(MarketError::NotFound(Entity::Device)));
    assert_eq!(
        origin_trace::explain::explanation_prompt(&found),
        "Explain the following part of the device: Battery: 5000mAh"
    );
    assert_eq!(
        origin_trace::explain::explanation_reply("abc"),
        "Explanation from AI: abc"
    );
}

#[test]
fn request_bodies_are_json() {
    assert_eq!(
        origin_trace::gateway::model_request_body("a \"b\""),
        br#"{"user_message":"a \"b\""}"#.to_vec()
    );
    assert_eq!(
        origin_trace::gateway::query_request_body("hi"),
        br#"{"few_shot":{},"user_message":"hi"}"#.to_vec()
    );
}
