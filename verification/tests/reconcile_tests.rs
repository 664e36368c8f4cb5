use arcade_monitor::CycleOutcome;
use arcade_monitor::ShopItem;
use arcade_monitor::diff_old_new_items;
use arcade_monitor::evaluate_cycle;

#[test]
fn deleted_items_notification() {
    let item_1 = ShopItem {
        full_name: "Item 1".into(),
        description: Some("Description 1".into()),
        price: 200,
        id: "1".into(),
        ..Default::default()
    };
    let item_2 = ShopItem {
        full_name: "Item 2".into(),
        description: Some("Description 2".into()),
        price: 50,
        id: "2".into(),
        ..Default::default()
    };

    let old_items = vec![item_1.clone(), item_2.clone()];
    let new_items = vec![item_1.clone()];

    let result = diff_old_new_items(
        &old_items,
        &new_items,
        &vec![("1".into(), 100), ("2".into(), 200)],
    );

    assert_eq!(result.len(), 1);
    assert_eq!(
        result[0],
        "*Item DELETED:* Item 2\n*Description:* Description 2\n*Price:* 50"
    );
}

#[test]
fn pure_addition_yields_one_added_report() {
    let old_items: Vec<ShopItem> = vec![];
    let new_items = vec![ShopItem {
        full_name: "Widget".into(),
        price: 5,
        stock: None,
        id: "1".into(),
        ..Default::default()
    }];

    let result = diff_old_new_items(&old_items, &new_items, &vec![]);

    assert_eq!(result.len(), 1);
    assert_eq!(
        result[0],
        "*New item added*\n\n*Name:* Widget\n*Description:* _not set_\n*Fulfillment info:* _not set_\n*Price:* 5\n*Stock:* Unlimited"
    );
}

#[test]
fn pure_deletion_yields_one_deleted_report() {
    let old_items = vec![ShopItem {
        full_name: "Widget".into(),
        price: 5,
        id: "1".into(),
        ..Default::default()
    }];
    let new_items: Vec<ShopItem> = vec![];

    let result = diff_old_new_items(&old_items, &new_items, &vec![]);

    assert_eq!(result.len(), 1);
    assert_eq!(
        result[0],
        "*Item DELETED:* Widget\n*Description:* _not set_\n*Price:* 5"
    );
}

#[test]
fn identical_catalogs_yield_no_reports() {
    let items = vec![ShopItem {
        full_name: "Widget".into(),
        price: 5,
        id: "1".into(),
        ..Default::default()
    }];

    let result = diff_old_new_items(&items, &items, &vec![]);

    assert_eq!(result.len(), 0);
}

#[test]
fn modifications_precede_deletions_in_new_then_old_order() {
    let old_a = ShopItem { full_name: "A".into(), price: 1, id: "a".into(), ..Default::default() };
    let old_b = ShopItem { full_name: "B".into(), price: 1, id: "b".into(), ..Default::default() };
    let new_c = ShopItem { full_name: "C".into(), price: 2, id: "c".into(), ..Default::default() };
    let new_a = ShopItem { full_name: "A".into(), price: 3, id: "a".into(), ..Default::default() };

    let old_items = vec![old_a, old_b];
    let new_items = vec![new_c, new_a];

    let result = diff_old_new_items(&old_items, &new_items, &vec![]);

    assert_eq!(result.len(), 3);
    assert!(result[0].starts_with("*New item added*"));
    assert!(result[0].contains("*Name:* C"));
    assert_eq!(result[1], "*Name:* A\n*Price:* 1 → 3 🔼");
    assert!(result[2].starts_with("*Item DELETED:* B"));
}

#[test]
fn duplicate_identities_match_first_old_item() {
    let old_first = ShopItem { full_name: "First".into(), price: 1, id: "x".into(), ..Default::default() };
    let old_second = ShopItem { full_name: "Second".into(), price: 2, id: "x".into(), ..Default::default() };
    let new_item = ShopItem { full_name: "First".into(), price: 4, id: "x".into(), ..Default::default() };

    let old_items = vec![old_first, old_second];
    let new_items = vec![new_item];

    let result = diff_old_new_items(&old_items, &new_items, &vec![]);

    assert_eq!(result[0], "*Name:* First\n*Price:* 1 → 4 🔼");
}

#[test]
fn real_price_table_feeds_the_price_line() {
    let old = ShopItem { full_name: "Widget".into(), price: 5, id: "1".into(), ..Default::default() };
    let new = ShopItem { full_name: "Widget".into(), price: 6, id: "1".into(), ..Default::default() };

    let result = diff_old_new_items(&vec![old], &vec![new], &vec![("1".into(), 120)]);

    assert_eq!(result.len(), 1);
    assert_eq!(result[0], "*Name:* Widget\n*Price:* 5 → 6 🔼\n*Real price:* 120");
}

#[test]
fn cycle_without_snapshot_is_first_run() {
    let new_items = vec![ShopItem { full_name: "Widget".into(), id: "1".into(), ..Default::default() }];

    let outcome = evaluate_cycle(&None, &new_items, &vec![]);

    assert!(matches!(outcome, CycleOutcome::FirstRun));
}

#[test]
fn cycle_without_changes_reports_none() {
    let items = vec![ShopItem { full_name: "Widget".into(), id: "1".into(), ..Default::default() }];

    let outcome = evaluate_cycle(&Some(items.clone()), &items, &vec![]);

    assert!(matches!(outcome, CycleOutcome::NoChanges));
}

#[test]
fn cycle_with_changes_carries_the_reports() {
    let old = ShopItem { full_name: "Widget".into(), price: 1, id: "1".into(), ..Default::default() };
    let new = ShopItem { full_name: "Widget".into(), price: 2, id: "1".into(), ..Default::default() };

    let outcome = evaluate_cycle(&Some(vec![old]), &vec![new], &vec![]);

    match outcome {
        CycleOutcome::Changes(reports) => {
            assert_eq!(reports, vec![String::from("*Name:* Widget\n*Price:* 1 → 2 🔼")]);
        }
        _ => panic!("expected changes"),
    }
}
