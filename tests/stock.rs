use retailchain::inventory::{InventoryError, InventoryManager};
use retailchain::supply_chain::{SupplyChainError, SupplyChainManager};
use retailchain::SupplyChainAction;

fn stocked(quantity: u32) -> (InventoryManager, u128) {
    let mut inventory = InventoryManager::new(10);
    let product = inventory.add_product(
        "Phone".to_string(),
        "P-1".to_string(),
        "A phone".to_string(),
        99_999,
        quantity,
        "Maker".to_string(),
    );
    (inventory, product.id)
}

#[test]
fn added_product_is_found() {
    let (inventory, id) = stocked(50);
    let product = inventory.get_product(id).unwrap();
    assert_eq!(product.name, "Phone");
    assert_eq!(product.sku, "P-1");
    assert_eq!(product.price, 99_999);
    assert_eq!(product.quantity, 50);
    assert_eq!(inventory.get_all_products().len(), 1);
    assert!(inventory.get_product(id.wrapping_add(1)).is_none());
}

#[test]
fn selling_takes_stock_out() {
    let (mut inventory, id) = stocked(50);
    assert_eq!(inventory.sell_product(id, 1), Ok(()));
    assert_eq!(inventory.get_product(id).unwrap().quantity, 49);
    assert_eq!(inventory.sell_product(id, 49), Ok(()));
    assert_eq!(inventory.get_product(id).unwrap().quantity, 0);
}

#[test]
fn selling_more_than_stock_fails() {
    let (mut inventory, id) = stocked(3);
    assert_eq!(inventory.sell_product(id, 4), Err(InventoryError::InsufficientStock));
    assert_eq!(inventory.get_product(id).unwrap().quantity, 3);
}

#[test]
fn unknown_product_is_reported() {
    let (mut inventory, id) = stocked(3);
    let other = id.wrapping_add(1);
    assert_eq!(inventory.sell_product(other, 1), Err(InventoryError::ProductNotFound));
    assert_eq!(inventory.update_stock(other, 1), Err(InventoryError::ProductNotFound));
}

#[test]
fn low_stock_is_at_or_below_threshold() {
    let (mut inventory, id) = stocked(50);
    assert!(inventory.get_low_stock_products().is_empty());
    assert_eq!(inventory.update_stock(id, 10), Ok(()));
    assert_eq!(inventory.get_low_stock_products().len(), 1);
    assert_eq!(inventory.update_stock(id, 11), Ok(()));
    assert!(inventory.get_low_stock_products().is_empty());
}

#[test]
fn movements_need_a_known_product() {
    let (inventory, id) = stocked(5);
    let product = inventory.get_product(id).unwrap().clone();
    let mut chain = SupplyChainManager::new();
    let r = chain.record_movement(
        id,
        "Factory".to_string(),
        "Maker".to_string(),
        SupplyChainAction::Manufactured,
        serde_json::Value::Null,
    );
    assert!(matches!(r, Err(SupplyChainError::ProductNotFound)));
    assert_eq!(chain.verify_authenticity(id), Err(SupplyChainError::ProductNotFound));
    assert_eq!(chain.get_product_movements_count(id), None);
    assert_eq!(chain.get_current_location(id), None);
    assert!(chain.get_product_history(id).is_none());

    chain.add_product(product);
    let rec = chain
        .record_movement(
            id,
            "Factory".to_string(),
            "Maker".to_string(),
            SupplyChainAction::Manufactured,
            serde_json::Value::Bool(true),
        )
        .unwrap();
    assert_eq!(rec.product_id, id);
    assert_eq!(rec.location, "Factory");
    assert_eq!(rec.metadata, serde_json::Value::Bool(true));
}

#[test]
fn history_and_authenticity() {
    let (inventory, id) = stocked(5);
    let mut chain = SupplyChainManager::new();
    chain.add_product(inventory.get_product(id).unwrap().clone());

    chain
        .record_movement(
            id,
            "Warehouse".to_string(),
            "Logistics".to_string(),
            SupplyChainAction::Shipped,
            serde_json::Value::Null,
        )
        .unwrap();
    assert_eq!(chain.verify_authenticity(id), Ok(false));
    chain
        .record_movement(
            id,
            "Factory".to_string(),
            "Maker".to_string(),
            SupplyChainAction::Manufactured,
            serde_json::Value::Null,
        )
        .unwrap();
    chain
        .record_movement(
            id,
            "Store".to_string(),
            "Customer".to_string(),
            SupplyChainAction::Sold,
            serde_json::Value::Null,
        )
        .unwrap();
    assert_eq!(chain.verify_authenticity(id), Ok(true));
    assert_eq!(chain.get_product_movements_count(id), Some(3));
    assert_eq!(chain.get_current_location(id), Some("Store".to_string()));
    let history = chain.get_product_history(id).unwrap();
    assert_eq!(history.len(), 3);
    assert_eq!(history[0].location, "Warehouse");
    assert_eq!(history[2].action, SupplyChainAction::Sold);
}
