use vstd::prelude::*;
use vstd::seq_lib::*;

use crate::items::ItemModel;
use crate::items::ShopItem;
use crate::items::opt_int;
use crate::render::deleted_item_text;
use crate::render::format_deleted_item;
use crate::render::format_item_diff;
use crate::render::format_new_item;
use crate::render::item_diff_text;
use crate::render::new_item_text;

verus! {

/// The first item of `olds` whose identity key is `id`, if any. Duplicate
/// identities are tolerated defensively: the first match wins.
pub open spec fn first_match(olds: Seq<ItemModel>, id: Seq<char>) -> Option<ItemModel>
    decreases olds.len(),
{
    if olds.len() == 0 {
        None
    } else if olds[0].id == id {
        Some(olds[0])
    } else {
        first_match(olds.drop_first(), id)
    }
}

/// Whether some item of `items` carries the identity key `id`.
pub open spec fn has_id(items: Seq<ItemModel>, id: Seq<char>) -> bool {
    exists|k: int| 0 <= k < items.len() && items[k].id == id
}

/// The side table's first real-price entry for `id`, if any.
pub open spec fn price_for(table: Seq<(Seq<char>, i32)>, id: Seq<char>) -> Option<int>
    decreases table.len(),
{
    if table.len() == 0 {
        None
    } else if table[0].0 == id {
        Some(table[0].1 as int)
    } else {
        price_for(table.drop_first(), id)
    }
}

/// Every item of the catalog satisfies the data-model invariant.
pub open spec fn catalog_wf(items: Seq<ItemModel>) -> bool {
    forall|k: int| 0 <= k < items.len() ==> (#[trigger] items[k]).wf()
}

/// Every real price of the side table is non-negative.
pub open spec fn table_wf(table: Seq<(Seq<char>, i32)>) -> bool {
    forall|k: int| 0 <= k < table.len() ==> (#[trigger] table[k]).1 >= 0
}

/// The reports for one item of the new catalog: nothing when an old item
/// of the same identity is value-equal, a field-level diff when one
/// differs, and an added-item report when the identity is new.
pub open spec fn entry_reports(
    olds: Seq<ItemModel>,
    item: ItemModel,
    table: Seq<(Seq<char>, i32)>,
) -> Seq<Seq<char>> {
    match first_match(olds, item.id) {
        Some(o) => if o == item {
            Seq::empty()
        } else {
            seq![item_diff_text(o, item, price_for(table, item.id))]
        },
        None => seq![new_item_text(item)],
    }
}

/// The modification and addition reports, in new-catalog order.
pub open spec fn upd_reports(
    olds: Seq<ItemModel>,
    news: Seq<ItemModel>,
    table: Seq<(Seq<char>, i32)>,
) -> Seq<Seq<char>>
    decreases news.len(),
{
    if news.len() == 0 {
        Seq::empty()
    } else {
        upd_reports(olds, news.drop_last(), table) + entry_reports(olds, news.last(), table)
    }
}

/// The deletion reports, in old-catalog order: one per old item whose
/// identity no new item carries.
pub open spec fn del_reports(olds: Seq<ItemModel>, news: Seq<ItemModel>) -> Seq<Seq<char>>
    decreases olds.len(),
{
    if olds.len() == 0 {
        Seq::empty()
    } else {
        del_reports(olds.drop_last(), news) + (if has_id(news, olds.last().id) {
            Seq::empty()
        } else {
            seq![deleted_item_text(olds.last())]
        })
    }
}

/// The complete ordered report list of one reconciliation cycle:
/// modifications and additions in new-catalog order, then deletions in
/// old-catalog order.
pub open spec fn reconcile_reports(
    olds: Seq<ItemModel>,
    news: Seq<ItemModel>,
    table: Seq<(Seq<char>, i32)>,
) -> Seq<Seq<char>> {
    upd_reports(olds, news, table) + del_reports(olds, news)
}

/// The number of new-catalog items whose identity no old item carries:
/// each produces exactly one added-item report.
pub open spec fn count_added(olds: Seq<ItemModel>, news: Seq<ItemModel>) -> nat
    decreases news.len(),
{
    if news.len() == 0 {
        0
    } else {
        count_added(olds, news.drop_last()) + (if first_match(olds, news.last().id) is None {
            1nat
        } else {
            0nat
        })
    }
}

/// The number of new-catalog items matched by identity to an old item
/// they are not value-equal to: each produces exactly one modification
/// report, and a value-equal match produces none.
pub open spec fn count_modified(
    olds: Seq<ItemModel>,
    news: Seq<ItemModel>,
) -> nat
    decreases news.len(),
{
    if news.len() == 0 {
        0
    } else {
        count_modified(olds, news.drop_last()) + (match first_match(olds, news.last().id) {
            Some(o) => if o == news.last() {
                0nat
            } else {
                1nat
            },
            None => 0nat,
        })
    }
}

/// The number of old-catalog items whose identity no new item carries:
/// each produces exactly one deleted-item report.
pub open spec fn count_deleted(olds: Seq<ItemModel>, news: Seq<ItemModel>) -> nat
    decreases olds.len(),
{
    if olds.len() == 0 {
        0
    } else {
        count_deleted(olds.drop_last(), news) + (if has_id(news, olds.last().id) {
            0nat
        } else {
            1nat
        })
    }
}

proof fn lemma_upd_reports_len(
    olds: Seq<ItemModel>,
    news: Seq<ItemModel>,
    table: Seq<(Seq<char>, i32)>,
)
    ensures
        upd_reports(olds, news, table).len() == count_added(olds, news) + count_modified(
            olds,
            news,
        ),
    decreases news.len(),
{
    if news.len() > 0 {
        lemma_upd_reports_len(olds, news.drop_last(), table);
    }
}

proof fn lemma_del_reports_len(olds: Seq<ItemModel>, news: Seq<ItemModel>)
    ensures
        del_reports(olds, news).len() == count_deleted(olds, news),
    decreases olds.len(),
{
    if olds.len() > 0 {
        lemma_del_reports_len(olds.drop_last(), news);
    }
}

/// Reconciliation completeness: every identity only the new catalog
/// carries yields exactly one added report, every identity only the old
/// catalog carries yields exactly one deleted report, every matched
/// identity yields one modification report unless the two items are
/// value-equal, and the total report count is the sum of the three.
pub proof fn lemma_reconciliation_complete(
    olds: Seq<ItemModel>,
    news: Seq<ItemModel>,
    table: Seq<(Seq<char>, i32)>,
)
    ensures
        reconcile_reports(olds, news, table).len() == count_added(olds, news) + count_modified(
            olds,
            news,
        ) + count_deleted(olds, news),
{
    lemma_upd_reports_len(olds, news, table);
    lemma_del_reports_len(olds, news);
}

/// The set of identity keys of a catalog.
pub open spec fn id_set(items: Seq<ItemModel>) -> Set<Seq<char>> {
    items.map_values(|it: ItemModel| it.id).to_set()
}

/// No identity key repeats within the catalog; a well-formed feed never
/// produces duplicates.
pub open spec fn unique_ids(items: Seq<ItemModel>) -> bool {
    forall|j: int, k: int| 0 <= j < k < items.len() ==> items[j].id != items[k].id
}

proof fn lemma_id_set_membership(items: Seq<ItemModel>, id: Seq<char>)
    ensures
        id_set(items).contains(id) <==> has_id(items, id),
{
    broadcast use vstd::set::group_set_axioms;

    let mapped = items.map_values(|it: ItemModel| it.id);
    if has_id(items, id) {
        let k = choose|k: int| 0 <= k < items.len() && items[k].id == id;
        assert(mapped[k] == id);
        assert(mapped.contains(id));
    }
    if mapped.to_set().contains(id) {
        assert(mapped.contains(id));
        let k = choose|k: int| 0 <= k < mapped.len() && mapped[k] == id;
        assert(items[k].id == id);
    }
}

proof fn lemma_first_match_none(olds: Seq<ItemModel>, id: Seq<char>)
    ensures
        first_match(olds, id) is None <==> !has_id(olds, id),
    decreases olds.len(),
{
    if olds.len() > 0 {
        if olds[0].id == id {
            assert(has_id(olds, id));
        } else {
            let rest = olds.drop_first();
            lemma_first_match_none(rest, id);
            if has_id(olds, id) {
                let k = choose|k: int| 0 <= k < olds.len() && olds[k].id == id;
                assert(rest[k - 1].id == id);
                assert(has_id(rest, id));
            }
            if has_id(rest, id) {
                let k = choose|k: int| 0 <= k < rest.len() && rest[k].id == id;
                assert(olds[k + 1].id == id);
                assert(has_id(olds, id));
            }
        }
    }
}

proof fn lemma_id_set_snoc(news: Seq<ItemModel>)
    requires
        news.len() > 0,
    ensures
        id_set(news) =~= id_set(news.drop_last()).insert(news.last().id),
{
    broadcast use vstd::set::group_set_axioms;

    let pre = news.drop_last();
    let x = news.last();
    assert forall|a: Seq<char>| id_set(news).contains(a) implies id_set(pre).insert(
        x.id,
    ).contains(a) by {
        lemma_id_set_membership(news, a);
        let k = choose|k: int| 0 <= k < news.len() && news[k].id == a;
        if k < news.len() - 1 {
            assert(pre[k].id == a);
            assert(has_id(pre, a));
            lemma_id_set_membership(pre, a);
        }
    }
    assert forall|a: Seq<char>| id_set(pre).insert(x.id).contains(a) implies id_set(
        news,
    ).contains(a) by {
        lemma_id_set_membership(news, a);
        if a == x.id {
            assert(news[news.len() - 1].id == a);
            assert(has_id(news, a));
        } else {
            lemma_id_set_membership(pre, a);
            let k = choose|k: int| 0 <= k < pre.len() && pre[k].id == a;
            assert(news[k].id == a);
            assert(has_id(news, a));
        }
    }
}

proof fn lemma_count_added_sets(olds: Seq<ItemModel>, news: Seq<ItemModel>)
    requires
        unique_ids(news),
    ensures
        count_added(olds, news) == id_set(news).difference(id_set(olds)).len(),
    decreases news.len(),
{
    broadcast use vstd::set::group_set_axioms, vstd::seq_lib::seq_to_set_is_finite;

    if news.len() == 0 {
        assert(news.map_values(|it: ItemModel| it.id) =~= Seq::<Seq<char>>::empty());
        assert(id_set(news) =~= Set::<Seq<char>>::empty());
        assert(id_set(news).difference(id_set(olds)) =~= Set::<Seq<char>>::empty());
    } else {
        let pre = news.drop_last();
        let x = news.last();
        assert(unique_ids(pre)) by {
            assert(forall|j: int| 0 <= j < pre.len() ==> pre[j] == news[j]);
        }
        lemma_count_added_sets(olds, pre);
        lemma_first_match_none(olds, x.id);
        lemma_id_set_membership(olds, x.id);
        lemma_id_set_snoc(news);
        let d_pre = id_set(pre).difference(id_set(olds));
        let d_news = id_set(news).difference(id_set(olds));
        assert(id_set(pre).finite());
        assert(d_pre.finite());
        if first_match(olds, x.id) is None {
            assert(!has_id(pre, x.id)) by {
                if has_id(pre, x.id) {
                    let k = choose|k: int| 0 <= k < pre.len() && pre[k].id == x.id;
                    assert(news[k].id == news[news.len() - 1].id);
                }
            }
            lemma_id_set_membership(pre, x.id);
            assert(!d_pre.contains(x.id));
            assert(d_news =~= d_pre.insert(x.id));
            assert(d_news.len() == d_pre.len() + 1);
        } else {
            assert(id_set(olds).contains(x.id));
            assert(d_news =~= d_pre);
        }
    }
}

proof fn lemma_count_deleted_sets(olds: Seq<ItemModel>, news: Seq<ItemModel>)
    requires
        unique_ids(olds),
    ensures
        count_deleted(olds, news) == id_set(olds).difference(id_set(news)).len(),
    decreases olds.len(),
{
    broadcast use vstd::set::group_set_axioms, vstd::seq_lib::seq_to_set_is_finite;

    if olds.len() == 0 {
        assert(olds.map_values(|it: ItemModel| it.id) =~= Seq::<Seq<char>>::empty());
        assert(id_set(olds) =~= Set::<Seq<char>>::empty());
        assert(id_set(olds).difference(id_set(news)) =~= Set::<Seq<char>>::empty());
    } else {
        let pre = olds.drop_last();
        let x = olds.last();
        assert(unique_ids(pre)) by {
            assert(forall|j: int| 0 <= j < pre.len() ==> pre[j] == olds[j]);
        }
        lemma_count_deleted_sets(pre, news);
        lemma_id_set_membership(news, x.id);
        lemma_id_set_snoc(olds);
        let d_pre = id_set(pre).difference(id_set(news));
        let d_olds = id_set(olds).difference(id_set(news));
        assert(id_set(pre).finite());
        assert(d_pre.finite());
        if !has_id(news, x.id) {
            assert(!has_id(pre, x.id)) by {
                if has_id(pre, x.id) {
                    let k = choose|k: int| 0 <= k < pre.len() && pre[k].id == x.id;
                    assert(olds[k].id == olds[olds.len() - 1].id);
                }
            }
            lemma_id_set_membership(pre, x.id);
            assert(!d_pre.contains(x.id));
            assert(d_olds =~= d_pre.insert(x.id));
            assert(d_olds.len() == d_pre.len() + 1);
        } else {
            assert(id_set(news).contains(x.id));
            assert(d_olds =~= d_pre);
        }
    }
}

/// The identities carried by both catalogs whose matched pair — the first
/// old item of the identity against the new item of the identity — is not
/// value-equal: each produces exactly one modification report.
pub open spec fn modified_ids(olds: Seq<ItemModel>, news: Seq<ItemModel>) -> Set<Seq<char>> {
    Set::new(
        |id: Seq<char>|
            exists|k: int|
                0 <= k < news.len() && (#[trigger] news[k]).id == id && (match first_match(
                    olds,
                    id,
                ) {
                    Some(o) => o != news[k],
                    None => false,
                }),
    )
}

proof fn lemma_modified_ids_finite(olds: Seq<ItemModel>, news: Seq<ItemModel>)
    ensures
        modified_ids(olds, news).finite(),
        modified_ids(olds, news).len() <= id_set(news).len(),
{
    broadcast use vstd::set::group_set_axioms, vstd::seq_lib::seq_to_set_is_finite;

    assert forall|id: Seq<char>| modified_ids(olds, news).contains(id) implies id_set(
        news,
    ).contains(id) by {
        let k = choose|k: int|
            0 <= k < news.len() && (#[trigger] news[k]).id == id && (match first_match(olds, id) {
                Some(o) => o != news[k],
                None => false,
            });
        assert(has_id(news, id));
        lemma_id_set_membership(news, id);
    }
    vstd::set_lib::lemma_len_subset(modified_ids(olds, news), id_set(news));
}

proof fn lemma_count_modified_sets(olds: Seq<ItemModel>, news: Seq<ItemModel>)
    requires
        unique_ids(news),
    ensures
        count_modified(olds, news) == modified_ids(olds, news).len(),
    decreases news.len(),
{
    broadcast use vstd::set::group_set_axioms, vstd::seq_lib::seq_to_set_is_finite;

    if news.len() == 0 {
        assert(modified_ids(olds, news) =~= Set::<Seq<char>>::empty());
    } else {
        let pre = news.drop_last();
        let x = news.last();
        assert(unique_ids(pre)) by {
            assert(forall|j: int| 0 <= j < pre.len() ==> pre[j] == news[j]);
        }
        lemma_count_modified_sets(olds, pre);
        lemma_modified_ids_finite(olds, pre);
        let m_pre = modified_ids(olds, pre);
        let m_news = modified_ids(olds, news);
        // No earlier item carries the last identity.
        assert(forall|k: int| 0 <= k < pre.len() ==> (#[trigger] pre[k]).id != x.id) by {
            assert(forall|k: int|
                0 <= k < news.len() - 1 ==> (#[trigger] news[k]).id != news[news.len() - 1].id);
        }
        // Membership in the two sets agrees on every identity but the last.
        assert forall|id: Seq<char>| id != x.id implies (m_news.contains(id) <==> m_pre.contains(
            id,
        )) by {
            if m_news.contains(id) {
                let k = choose|k: int|
                    0 <= k < news.len() && (#[trigger] news[k]).id == id && (match first_match(
                        olds,
                        id,
                    ) {
                        Some(o) => o != news[k],
                        None => false,
                    });
                assert(k != news.len() - 1);
                assert(pre[k] == news[k]);
                assert(m_pre.contains(id));
            }
            if m_pre.contains(id) {
                let k = choose|k: int|
                    0 <= k < pre.len() && (#[trigger] pre[k]).id == id && (match first_match(
                        olds,
                        id,
                    ) {
                        Some(o) => o != pre[k],
                        None => false,
                    });
                assert(news[k] == pre[k]);
                assert(m_news.contains(id));
            }
        }
        assert(!m_pre.contains(x.id)) by {
            if m_pre.contains(x.id) {
                let k = choose|k: int|
                    0 <= k < pre.len() && (#[trigger] pre[k]).id == x.id && (match first_match(
                        olds,
                        x.id,
                    ) {
                        Some(o) => o != pre[k],
                        None => false,
                    });
            }
        }
        let last_modified = match first_match(olds, x.id) {
            Some(o) => o != x,
            None => false,
        };
        if last_modified {
            assert(m_news.contains(x.id)) by {
                assert(news[news.len() - 1].id == x.id);
            }
            assert(m_news =~= m_pre.insert(x.id));
            assert(m_news.len() == m_pre.len() + 1);
        } else {
            assert(!m_news.contains(x.id)) by {
                if m_news.contains(x.id) {
                    let k = choose|k: int|
                        0 <= k < news.len() && (#[trigger] news[k]).id == x.id && (match first_match(
                            olds,
                            x.id,
                        ) {
                            Some(o) => o != news[k],
                            None => false,
                        });
                    assert(k == news.len() - 1);
                }
            }
            assert(m_news =~= m_pre);
        }
    }
}

/// Reconciliation completeness over identity sets: with identities unique
/// within each catalog, every identity only the new catalog carries
/// contributes exactly one added report, every identity only the old
/// catalog carries exactly one deleted report, and every shared identity
/// one modification report unless the matched items are value-equal — so
/// the total report count is `|N\O| + |O\N| + |modified identities|`.
pub proof fn lemma_reconciliation_complete_sets(
    olds: Seq<ItemModel>,
    news: Seq<ItemModel>,
    table: Seq<(Seq<char>, i32)>,
)
    requires
        unique_ids(olds),
        unique_ids(news),
    ensures
        reconcile_reports(olds, news, table).len() == id_set(news).difference(id_set(olds)).len()
            + id_set(olds).difference(id_set(news)).len() + modified_ids(olds, news).len(),
{
    lemma_reconciliation_complete(olds, news, table);
    lemma_count_added_sets(olds, news);
    lemma_count_deleted_sets(olds, news);
    lemma_count_modified_sets(olds, news);
}

/// Ordering determinism, new side: the reports of a prefix of the new
/// catalog stand unchanged, in order, at the front of the full report
/// list — later items only append.
pub proof fn lemma_upd_reports_ordered(
    olds: Seq<ItemModel>,
    news: Seq<ItemModel>,
    table: Seq<(Seq<char>, i32)>,
    i: int,
)
    requires
        0 <= i <= news.len(),
    ensures
        upd_reports(olds, news.take(i), table).is_prefix_of(upd_reports(olds, news, table)),
    decreases news.len() - i,
{
    if i == news.len() {
        assert(news.take(i) =~= news);
        assert(upd_reports(olds, news.take(i), table) =~= upd_reports(olds, news, table));
    } else {
        lemma_upd_reports_ordered(olds, news, table, i + 1);
        assert(news.take(i + 1).drop_last() =~= news.take(i));
        assert(news.take(i + 1).last() == news[i]);
        let shorter = upd_reports(olds, news.take(i), table);
        let longer = upd_reports(olds, news.take(i + 1), table);
        let whole = upd_reports(olds, news, table);
        assert(longer == shorter + entry_reports(olds, news[i], table));
        assert(shorter =~= longer.subrange(0, shorter.len() as int));
        assert(shorter =~= whole.subrange(0, shorter.len() as int));
    }
}

/// Ordering determinism, old side: the deletion reports of a prefix of
/// the old catalog stand unchanged, in order, at the front of the full
/// deletion list. Together with `lemma_upd_reports_ordered` and the
/// definition of `reconcile_reports` as updates followed by deletions,
/// the report order is modifications and additions in new-catalog order,
/// then deletions in old-catalog order.
pub proof fn lemma_del_reports_ordered(olds: Seq<ItemModel>, news: Seq<ItemModel>, i: int)
    requires
        0 <= i <= olds.len(),
    ensures
        del_reports(olds.take(i), news).is_prefix_of(del_reports(olds, news)),
    decreases olds.len() - i,
{
    if i == olds.len() {
        assert(olds.take(i) =~= olds);
        assert(del_reports(olds.take(i), news) =~= del_reports(olds, news));
    } else {
        lemma_del_reports_ordered(olds, news, i + 1);
        assert(olds.take(i + 1).drop_last() =~= olds.take(i));
        assert(olds.take(i + 1).last() == olds[i]);
        let shorter = del_reports(olds.take(i), news);
        let longer = del_reports(olds.take(i + 1), news);
        let whole = del_reports(olds, news);
        assert(shorter =~= longer.subrange(0, shorter.len() as int));
        assert(shorter =~= whole.subrange(0, shorter.len() as int));
    }
}

/// A well-formed side table only ever yields non-negative real prices.
proof fn lemma_price_for_wf(table: Seq<(Seq<char>, i32)>, id: Seq<char>)
    requires
        table_wf(table),
    ensures
        price_for(table, id) matches Some(p) ==> p >= 0,
    decreases table.len(),
{
    if table.len() > 0 {
        assert(table[0].1 >= 0);
        assert(forall|k: int|
            0 <= k < table.drop_first().len() ==> (#[trigger] table.drop_first()[k]) == table[k
                + 1]);
        lemma_price_for_wf(table.drop_first(), id);
    }
}

/// Finds the index of the first old item with the given identity key.
fn find_old_index(olds: &Vec<ShopItem>, id: &String) -> (r: Option<usize>)
    ensures
        r matches Some(j) ==> j < olds.len() && first_match(olds.deep_view(), id@) == Some(
            olds.deep_view()[j as int],
        ),
        r is None ==> first_match(olds.deep_view(), id@) is None,
{
    let ghost dv = olds.deep_view();
    proof {
        assert(dv.skip(0) =~= dv);
    }
    let mut i: usize = 0;
    while i < olds.len()
        invariant
            i <= olds.len(),
            dv == olds.deep_view(),
            first_match(dv, id@) == first_match(dv.skip(i as int), id@),
        decreases olds.len() - i,
    {
        if olds[i].id == *id {
            proof {
                assert(dv.skip(i as int)[0] == dv[i as int]);
            }
            return Some(i);
        }
        proof {
            assert(dv.skip(i as int).drop_first() =~= dv.skip(i + 1));
            assert(dv.skip(i as int)[0] == dv[i as int]);
        }
        i = i + 1;
    }
    proof {
        assert(dv.skip(olds.len() as int) =~= Seq::<ItemModel>::empty());
    }
    None
}

/// Looks up the real price of an identity in the side table.
fn real_price_for(table: &Vec<(String, i32)>, id: &String) -> (r: Option<i32>)
    ensures
        opt_int(r) == price_for(table.deep_view(), id@),
{
    let ghost dv = table.deep_view();
    proof {
        assert(dv.skip(0) =~= dv);
    }
    let mut i: usize = 0;
    while i < table.len()
        invariant
            i <= table.len(),
            dv == table.deep_view(),
            price_for(dv, id@) == price_for(dv.skip(i as int), id@),
        decreases table.len() - i,
    {
        if table[i].0 == *id {
            proof {
                assert(dv.skip(i as int)[0] == dv[i as int]);
            }
            return Some(table[i].1);
        }
        proof {
            assert(dv.skip(i as int).drop_first() =~= dv.skip(i + 1));
            assert(dv.skip(i as int)[0] == dv[i as int]);
        }
        i = i + 1;
    }
    proof {
        assert(dv.skip(table.len() as int) =~= Seq::<(Seq<char>, i32)>::empty());
    }
    None
}

/// Whether some item of the catalog carries the given identity key.
fn id_in_items(items: &Vec<ShopItem>, id: &String) -> (r: bool)
    ensures
        r == has_id(items.deep_view(), id@),
{
    let ghost dv = items.deep_view();
    let mut i: usize = 0;
    while i < items.len()
        invariant
            i <= items.len(),
            dv == items.deep_view(),
            forall|k: int| 0 <= k < i ==> (#[trigger] dv[k]).id != id@,
        decreases items.len() - i,
    {
        if items[i].id == *id {
            proof {
                assert(dv[i as int].id == id@);
            }
            return true;
        }
        i = i + 1;
    }
    false
}

/// Classifies every identity of the old and new catalogs and produces the
/// complete ordered report list for one reconciliation cycle:
/// modification and addition reports in new-catalog order, then deletion
/// reports in old-catalog order.
pub fn diff_old_new_items(
    old_items: &Vec<ShopItem>,
    new_items: &Vec<ShopItem>,
    real_prices: &Vec<(String, i32)>,
) -> (r: Vec<String>)
    requires
        catalog_wf(old_items.deep_view()),
        catalog_wf(new_items.deep_view()),
        table_wf(real_prices.deep_view()),
    ensures
        r.deep_view() == reconcile_reports(
            old_items.deep_view(),
            new_items.deep_view(),
            real_prices.deep_view(),
        ),
{
    let ghost odv = old_items.deep_view();
    let ghost ndv = new_items.deep_view();
    let ghost tdv = real_prices.deep_view();
    let mut result: Vec<String> = Vec::new();

    let mut i: usize = 0;
    while i < new_items.len()
        invariant
            i <= new_items.len(),
            odv == old_items.deep_view(),
            ndv == new_items.deep_view(),
            tdv == real_prices.deep_view(),
            catalog_wf(odv),
            catalog_wf(ndv),
            table_wf(tdv),
            result.deep_view() =~= upd_reports(odv, ndv.take(i as int), tdv),
        decreases new_items.len() - i,
    {
        let item = &new_items[i];
        let ghost r_before = result.deep_view();
        match find_old_index(old_items, &item.id) {
            Some(j) => {
                let old = &old_items[j];
                let rp = real_price_for(real_prices, &item.id);
                proof {
                    assert(odv[j as int].wf());
                    assert(ndv[i as int].wf());
                    lemma_price_for_wf(tdv, item.id@);
                }
                if let Some(d) = format_item_diff(old, item, rp) {
                    result.push(d);
                }
            },
            None => {
                proof {
                    assert(ndv[i as int].wf());
                }
                result.push(format_new_item(item));
            },
        }
        proof {
            assert(ndv.take(i + 1).drop_last() =~= ndv.take(i as int));
            assert(ndv.take(i + 1).last() == ndv[i as int]);
            assert(result.deep_view() =~= r_before + entry_reports(odv, ndv[i as int], tdv));
            assert(result.deep_view() =~= upd_reports(odv, ndv.take(i + 1), tdv));
        }
        i = i + 1;
    }
    proof {
        assert(ndv.take(new_items@.len() as int) =~= ndv);
    }

    let mut k: usize = 0;
    while k < old_items.len()
        invariant
            k <= old_items.len(),
            odv == old_items.deep_view(),
            ndv == new_items.deep_view(),
            tdv == real_prices.deep_view(),
            catalog_wf(odv),
            result.deep_view() =~= upd_reports(odv, ndv, tdv) + del_reports(
                odv.take(k as int),
                ndv,
            ),
        decreases old_items.len() - k,
    {
        let item = &old_items[k];
        let ghost r_before = result.deep_view();
        let present = id_in_items(new_items, &item.id);
        if !present {
            proof {
                assert(odv[k as int].wf());
            }
            result.push(format_deleted_item(item));
        }
        proof {
            assert(odv.take(k + 1).drop_last() =~= odv.take(k as int));
            assert(odv.take(k + 1).last() == odv[k as int]);
            if present {
                assert(result.deep_view() =~= r_before);
            } else {
                assert(result.deep_view() =~= r_before + seq![deleted_item_text(odv[k as int])]);
            }
            assert(result.deep_view() =~= upd_reports(odv, ndv, tdv) + del_reports(
                odv.take(k + 1),
                ndv,
            ));
        }
        k = k + 1;
    }
    proof {
        assert(odv.take(old_items@.len() as int) =~= odv);
    }
    result
}

} // verus!
