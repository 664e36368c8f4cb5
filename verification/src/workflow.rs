use vstd::prelude::*;

use crate::items::ShopItem;
use crate::reconcile::catalog_wf;
use crate::reconcile::diff_old_new_items;
use crate::reconcile::reconcile_reports;
use crate::reconcile::table_wf;

verus! {

/// What one scrape cycle decided. The surrounding workflow performs the
/// matching action: store the fetched catalog and report that there was
/// nothing to compare, report that nothing changed, or deliver the
/// reports and then store the fetched catalog.
pub enum CycleOutcome {
    /// No prior snapshot exists; there is nothing to compare against.
    FirstRun,
    /// The catalogs reconcile without a single report.
    NoChanges,
    /// The ordered, non-empty report list of this cycle.
    Changes(Vec<String>),
}

/// The decision core of one scrape cycle: given the persisted snapshot
/// (if any), the freshly fetched catalog and the real-price side table,
/// decides what the cycle found. A missing snapshot short-circuits the
/// reconciler entirely; otherwise the outcome carries exactly the
/// reconciler's report list whenever it is non-empty.
pub fn evaluate_cycle(
    old_items: &Option<Vec<ShopItem>>,
    new_items: &Vec<ShopItem>,
    real_prices: &Vec<(String, i32)>,
) -> (r: CycleOutcome)
    requires
        old_items matches Some(o) ==> catalog_wf(o.deep_view()),
        catalog_wf(new_items.deep_view()),
        table_wf(real_prices.deep_view()),
    ensures
        r is FirstRun <==> old_items is None,
        old_items matches Some(o) ==> {
            let reports = reconcile_reports(
                o.deep_view(),
                new_items.deep_view(),
                real_prices.deep_view(),
            );
            &&& (r is NoChanges <==> reports.len() == 0)
            &&& (r matches CycleOutcome::Changes(v) ==> v.deep_view() == reports)
        },
{
    match old_items {
        Some(o) => {
            let reports = diff_old_new_items(o, new_items, real_prices);
            if reports.len() == 0 {
                CycleOutcome::NoChanges
            } else {
                CycleOutcome::Changes(reports)
            }
        },
        None => CycleOutcome::FirstRun,
    }
}

} // verus!
