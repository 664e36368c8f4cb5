use arcade_monitor::ShopItem;
use arcade_monitor::SlackBlock;
use arcade_monitor::format_deleted_item;
use arcade_monitor::format_item_diff;
use arcade_monitor::format_new_item;
use arcade_monitor::get_plain_body;
use arcade_monitor::get_slack_body;

#[test]
fn slack_body_is_correct() {
    let body = get_slack_body(&vec!["Test 1".into(), "Test 2".into(), "Test 3".into()]);
    assert_eq!(
        body,
        vec![
            SlackBlock::Header("Changes detected in the shop".into()),
            SlackBlock::Section("Test 1".into()),
            SlackBlock::Divider,
            SlackBlock::Section("Test 2".into()),
            SlackBlock::Divider,
            SlackBlock::Section("Test 3".into()),
            SlackBlock::Divider,
            SlackBlock::Context("Arcade Monitor v1.0.0".into()),
        ]
    );
}

#[test]
fn slack_body_without_reports_keeps_header_and_footer() {
    let body = get_slack_body(&vec![]);
    assert_eq!(
        body,
        vec![
            SlackBlock::Header("Changes detected in the shop".into()),
            SlackBlock::Context("Arcade Monitor v1.0.0".into()),
        ]
    );
}

#[test]
fn plain_body_joins_with_blank_lines() {
    let body = get_plain_body(&vec!["Test 1".into(), "Test 2".into()]);
    assert_eq!(body, "Test 1\n\nTest 2");
}

#[test]
fn item_formatted() {
    let item = ShopItem {
        full_name: "Test".into(),
        description: Some("Lorem ipsum".into()),
        fulfillment_description: Some("Dolor sit amet".into()),
        price: 1,
        stock: Some(10),
        ..Default::default()
    };

    assert_eq!(
        format_new_item(&item),
        "*New item added*\n\n*Name:* Test\n*Description:* Lorem ipsum\n*Fulfillment info:* Dolor sit amet\n*Price:* 1\n*Stock:* 10"
    );
}

#[test]
fn new_item_without_optional_fields_uses_sentinels() {
    let item = ShopItem { full_name: "Test".into(), price: 3, ..Default::default() };

    assert_eq!(
        format_new_item(&item),
        "*New item added*\n\n*Name:* Test\n*Description:* _not set_\n*Fulfillment info:* _not set_\n*Price:* 3\n*Stock:* Unlimited"
    );
}

#[test]
fn deleted_item_without_description_uses_sentinel() {
    let item = ShopItem { full_name: "Test".into(), price: 7, ..Default::default() };

    assert_eq!(
        format_deleted_item(&item),
        "*Item DELETED:* Test\n*Description:* _not set_\n*Price:* 7"
    );
}

#[test]
fn format_price_diff() {
    let old = ShopItem { full_name: "Test".into(), price: 1, ..Default::default() };

    let new = ShopItem { full_name: "Test".into(), price: 2, ..Default::default() };

    assert_eq!(
        format_item_diff(&old, &new, None),
        Some("*Name:* Test\n*Price:* 1 → 2 🔼".into())
    );
}

#[test]
fn price_diff_downward_marker() {
    let old = ShopItem { full_name: "Test".into(), price: 2, ..Default::default() };

    let new = ShopItem { full_name: "Test".into(), price: 1, ..Default::default() };

    assert_eq!(
        format_item_diff(&old, &new, None),
        Some("*Name:* Test\n*Price:* 2 → 1 🔽".into())
    );
}

#[test]
fn price_diff_with_real_price_entry() {
    let old = ShopItem { full_name: "Test".into(), price: 1, ..Default::default() };

    let new = ShopItem { full_name: "Test".into(), price: 2, ..Default::default() };

    assert_eq!(
        format_item_diff(&old, &new, Some(100)),
        Some("*Name:* Test\n*Price:* 1 → 2 🔼\n*Real price:* 100".into())
    );
}

#[test]
fn format_description_diff() {
    let old = ShopItem {
        full_name: "Test".into(),
        description: Some("Lorem ipsum".into()),
        ..Default::default()
    };

    let new = ShopItem {
        full_name: "Test".into(),
        description: Some("Dolor sit amet".into()),
        ..Default::default()
    };

    assert_eq!(
        format_item_diff(&old, &new, None),
        Some("*Name:* Test\n*Description:* Lorem ipsum → Dolor sit amet".into())
    );
}

#[test]
fn description_unset_renders_sentinel() {
    let old = ShopItem { full_name: "Test".into(), ..Default::default() };

    let new = ShopItem {
        full_name: "Test".into(),
        description: Some("Dolor sit amet".into()),
        ..Default::default()
    };

    assert_eq!(
        format_item_diff(&old, &new, None),
        Some("*Name:* Test\n*Description:* _not set_ → Dolor sit amet".into())
    );
}

#[test]
fn format_stock_diff_limited_update() {
    let old = ShopItem { full_name: "Test".into(), stock: Some(10), ..Default::default() };

    let new = ShopItem { full_name: "Test".into(), stock: Some(9), ..Default::default() };

    assert_eq!(
        format_item_diff(&old, &new, None),
        Some("*Name:* Test\n*Stock:* 10 → 9 🔽".into())
    );
}

#[test]
fn stock_diff_upward_marker() {
    let old = ShopItem { full_name: "Test".into(), stock: Some(9), ..Default::default() };

    let new = ShopItem { full_name: "Test".into(), stock: Some(10), ..Default::default() };

    assert_eq!(
        format_item_diff(&old, &new, None),
        Some("*Name:* Test\n*Stock:* 9 → 10 🔼".into())
    );
}

#[test]
fn format_stock_diff_limited_to_unlimited() {
    let old = ShopItem { full_name: "Test".into(), stock: Some(10), ..Default::default() };

    let new = ShopItem { full_name: "Test".into(), stock: None, ..Default::default() };

    assert_eq!(
        format_item_diff(&old, &new, None),
        Some("*Name:* Test\n*Stock:* 10 → Unlimited".into())
    );
}

#[test]
fn format_stock_diff_unlimited_to_limited() {
    let old = ShopItem { full_name: "Test".into(), stock: None, ..Default::default() };

    let new = ShopItem { full_name: "Test".into(), stock: Some(10), ..Default::default() };

    assert_eq!(
        format_item_diff(&old, &new, None),
        Some("*Name:* Test\n*Stock:* Unlimited → 10".into())
    );
}

#[test]
fn test_fulfillment_info() {
    let old = ShopItem {
        full_name: "Test".into(),
        fulfillment_description: Some("Lorem ipsum".into()),
        ..Default::default()
    };

    let new = ShopItem {
        full_name: "Test".into(),
        fulfillment_description: Some("Dolor sit amet".into()),
        ..Default::default()
    };

    assert_eq!(
        format_item_diff(&old, &new, None),
        Some("*Name:* Test\n*Fulfillment info:* Lorem ipsum → Dolor sit amet".into())
    );
}

#[test]
fn format_equal_items_no_diff() {
    let item = ShopItem { full_name: "Test".into(), price: 1, ..Default::default() };

    assert_eq!(format_item_diff(&item, &item, None), None);
}
