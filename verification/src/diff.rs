use vstd::prelude::*;

use crate::items::ItemModel;
use crate::items::ShopItem;
use crate::items::opt_i32_eq;
use crate::items::opt_string_eq;
use crate::render::item_diff_lines;
use crate::render::render_description_line;
use crate::render::render_fulfillment_line;
use crate::render::render_name_line;
use crate::render::render_price_line;
use crate::render::render_stock_line;
use crate::strutil::join_strings;
use crate::strutil::joined;

verus! {

/// The lines of an update report: a fixed leading marker, then the field
/// lines of the item differ — the name line, then one line per changed
/// field in the order price, description, fulfillment info, stock, with
/// directional markers on numeric changes. No real-price information is
/// consulted here.
pub open spec fn update_lines(old: ItemModel, new: ItemModel) -> Seq<Seq<char>> {
    seq!["*Item updated*"@] + item_diff_lines(old, new, None)
}

/// An update report: its lines joined with newlines.
pub open spec fn update_text(old: ItemModel, new: ItemModel) -> Seq<char> {
    joined(update_lines(old, new), "\n"@)
}

/// Compares two items of one identity and produces an update report under
/// a fixed leading marker, or nothing when the items are value-equal.
pub fn diff_items(old: ShopItem, new: ShopItem) -> (r: Option<String>)
    requires
        old.wf(),
        new.wf(),
    ensures
        r is None <==> old@ == new@,
        r matches Some(s) ==> s@ == update_text(old@, new@),
{
    if old == new {
        // The items are the exact same
        return None;
    }
    let mut result: Vec<String> = Vec::new();
    result.push(String::from_str("*Item updated*"));
    result.push(render_name_line(&old.full_name, &new.full_name));

    if old.price != new.price {
        result.push(render_price_line(old.price, new.price));
    }

    if !opt_string_eq(&old.description, &new.description) {
        result.push(render_description_line(&old.description, &new.description));
    }

    if !opt_string_eq(&old.fulfillment_description, &new.fulfillment_description) {
        result.push(render_fulfillment_line(&old.fulfillment_description, &new.fulfillment_description));
    }

    if !opt_i32_eq(old.stock, new.stock) {
        result.push(render_stock_line(old.stock, new.stock));
    }

    proof {
        assert(result.deep_view() =~= update_lines(old@, new@));
    }
    Some(join_strings(&result, "\n"))
}

} // verus!
