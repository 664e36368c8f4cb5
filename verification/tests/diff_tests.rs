use arcade_monitor::ShopItem;
use arcade_monitor::diff_items;

fn base_item(name: &str) -> ShopItem {
    ShopItem { full_name: name.into(), ..Default::default() }
}

#[test]
fn diff_price_diff() {
    let old = ShopItem { full_name: "Test".into(), price: 1, ..Default::default() };

    let new = ShopItem { full_name: "Test".into(), price: 2, ..Default::default() };

    assert_eq!(
        diff_items(old, new),
        Some("*Item updated*\n*Name:* Test\n*Price:* 1 → 2 🔼".into())
    );
}

#[test]
fn diff_description_diff() {
    let old = ShopItem {
        full_name: "Test".into(),
        description: Some("Lorem ipsum".into()),
        ..Default::default()
    };

    let new = ShopItem {
        full_name: "Test".into(),
        description: Some("Dolor sit amet".into()),
        ..Default::default()
    };

    assert_eq!(
        diff_items(old, new),
        Some("*Item updated*\n*Name:* Test\n*Description:* Lorem ipsum → Dolor sit amet".into())
    );
}

#[test]
fn diff_fulfillment_info() {
    let old = ShopItem {
        full_name: "Test".into(),
        fulfillment_description: Some("Lorem ipsum".into()),
        ..Default::default()
    };

    let new = ShopItem {
        full_name: "Test".into(),
        fulfillment_description: Some("Dolor sit amet".into()),
        ..Default::default()
    };

    assert_eq!(
        diff_items(old, new),
        Some(
            "*Item updated*\n*Name:* Test\n*Fulfillment info:* Lorem ipsum → Dolor sit amet".into()
        )
    );
}

#[test]
fn diff_stock_diff_limited_update() {
    let old = ShopItem { full_name: "Test".into(), stock: Some(10), ..Default::default() };

    let new = ShopItem { full_name: "Test".into(), stock: Some(9), ..Default::default() };

    assert_eq!(
        diff_items(old, new),
        Some("*Item updated*\n*Name:* Test\n*Stock:* 10 → 9 🔽".into())
    );
}

#[test]
fn diff_stock_diff_limited_to_unlimited() {
    let old = ShopItem { full_name: "Test".into(), stock: Some(10), ..Default::default() };

    let new = ShopItem { full_name: "Test".into(), stock: None, ..Default::default() };

    assert_eq!(
        diff_items(old, new),
        Some("*Item updated*\n*Name:* Test\n*Stock:* 10 → Unlimited".into())
    );
}

#[test]
fn diff_stock_diff_unlimited_to_limited() {
    let old = ShopItem { full_name: "Test".into(), stock: None, ..Default::default() };

    let new = ShopItem { full_name: "Test".into(), stock: Some(10), ..Default::default() };

    assert_eq!(
        diff_items(old, new),
        Some("*Item updated*\n*Name:* Test\n*Stock:* Unlimited → 10".into())
    );
}

#[test]
fn diff_equal_items_no_diff() {
    let item = ShopItem { full_name: "Test".into(), price: 1, ..Default::default() };

    assert_eq!(diff_items(item.clone(), item), None);
}

#[test]
fn diff_name_change_shows_both_names() {
    let old = base_item("Old Name");
    let new = base_item("New Name");

    assert_eq!(
        diff_items(old, new),
        Some("*Item updated*\n*Name:* Old Name → New Name".into())
    );
}

#[test]
fn diff_multi_digit_price() {
    let old = ShopItem { full_name: "Test".into(), price: 12345, ..Default::default() };
    let new = ShopItem { full_name: "Test".into(), price: 907, ..Default::default() };

    assert_eq!(
        diff_items(old, new),
        Some("*Item updated*\n*Name:* Test\n*Price:* 12345 → 907 🔽".into())
    );
}

#[test]
fn diff_price_line_precedes_description_line() {
    let old = ShopItem {
        full_name: "Test".into(),
        description: Some("Lorem ipsum".into()),
        price: 1,
        ..Default::default()
    };

    let new = ShopItem {
        full_name: "Test".into(),
        description: Some("Dolor sit amet".into()),
        price: 2,
        ..Default::default()
    };

    assert_eq!(
        diff_items(old, new),
        Some(
            "*Item updated*\n*Name:* Test\n*Price:* 1 → 2 🔼\n*Description:* Lorem ipsum → Dolor sit amet"
                .into()
        )
    );
}
