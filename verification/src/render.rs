use vstd::prelude::*;

use crate::items::ItemModel;
use crate::items::ShopItem;
use crate::items::opt_int;
use crate::items::opt_view;
use crate::strutil::append_dec;
use crate::strutil::dec_str;
use crate::strutil::joined;

verus! {

/// An optional string field as display text: the value itself, or the
/// fixed sentinel when the field is not set.
pub open spec fn opt_text(o: Option<Seq<char>>) -> Seq<char> {
    match o {
        Some(s) => s,
        None => "_not set_"@,
    }
}

/// A stock level as display text: the count, or the fixed sentinel for
/// unlimited availability.
pub open spec fn stock_text(o: Option<int>) -> Seq<char> {
    match o {
        Some(s) => dec_str(s as nat),
        None => "Unlimited"@,
    }
}

/// The name line of a diff report. The name is always shown, as a
/// contextual header; both values appear only when the name changed.
pub open spec fn name_line(o: Seq<char>, n: Seq<char>) -> Seq<char> {
    if o != n {
        "*Name:* "@ + o + " → "@ + n
    } else {
        "*Name:* "@ + n
    }
}

/// The price line of a diff report, with a directional marker: down when
/// the price decreased, up otherwise.
pub open spec fn price_line(o: int, n: int) -> Seq<char> {
    "*Price:* "@ + dec_str(o as nat) + " → "@ + dec_str(n as nat) + " "@ + (if n < o {
        "🔽"@
    } else {
        "🔼"@
    })
}

/// The line showing the externally supplied real price of an item, shown
/// under a price change when the side table has an entry for the identity.
pub open spec fn real_price_line(p: int) -> Seq<char> {
    "*Real price:* "@ + dec_str(p as nat)
}

/// The description line of a diff report.
pub open spec fn description_line(o: Option<Seq<char>>, n: Option<Seq<char>>) -> Seq<char> {
    "*Description:* "@ + opt_text(o) + " → "@ + opt_text(n)
}

/// The fulfillment-info line of a diff report.
pub open spec fn fulfillment_line(o: Option<Seq<char>>, n: Option<Seq<char>>) -> Seq<char> {
    "*Fulfillment info:* "@ + opt_text(o) + " → "@ + opt_text(n)
}

/// The stock line of a diff report. A directional marker appears only
/// when both sides are finite; direction is undefined against unlimited
/// availability.
pub open spec fn stock_line(o: Option<int>, n: Option<int>) -> Seq<char> {
    "*Stock:* "@ + stock_text(o) + " → "@ + stock_text(n) + (match (o, n) {
        (Some(ov), Some(nv)) => if nv < ov {
            " 🔽"@
        } else {
            " 🔼"@
        },
        _ => Seq::<char>::empty(),
    })
}

/// The lines of a field-level diff report between two items of one
/// identity: the name line, then one line per changed field, in the fixed
/// order price, description, fulfillment info, stock. A real-price line
/// follows the price line when the side table supplies a value.
pub open spec fn item_diff_lines(old: ItemModel, new: ItemModel, real_price: Option<int>) -> Seq<
    Seq<char>,
> {
    seq![name_line(old.name, new.name)] + (if old.price != new.price {
        seq![price_line(old.price, new.price)] + (match real_price {
            Some(p) => seq![real_price_line(p)],
            None => Seq::empty(),
        })
    } else {
        Seq::empty()
    }) + (if old.description != new.description {
        seq![description_line(old.description, new.description)]
    } else {
        Seq::empty()
    }) + (if old.fulfillment != new.fulfillment {
        seq![fulfillment_line(old.fulfillment, new.fulfillment)]
    } else {
        Seq::empty()
    }) + (if old.stock != new.stock {
        seq![stock_line(old.stock, new.stock)]
    } else {
        Seq::empty()
    })
}

/// A field-level diff report: its lines joined with newlines.
pub open spec fn item_diff_text(old: ItemModel, new: ItemModel, real_price: Option<int>) -> Seq<
    char,
> {
    joined(item_diff_lines(old, new, real_price), "\n"@)
}

/// The report for a newly added item: every field, optional ones shown
/// through their sentinels.
pub open spec fn new_item_text(item: ItemModel) -> Seq<char> {
    "*New item added*\n\n*Name:* "@ + item.name + "\n*Description:* "@ + opt_text(item.description)
        + "\n*Fulfillment info:* "@ + opt_text(item.fulfillment) + "\n*Price:* "@ + dec_str(
        item.price as nat,
    ) + "\n*Stock:* "@ + stock_text(item.stock)
}

/// The report for a removed item: name, description and price.
pub open spec fn deleted_item_text(item: ItemModel) -> Seq<char> {
    "*Item DELETED:* "@ + item.name + "\n*Description:* "@ + opt_text(item.description)
        + "\n*Price:* "@ + dec_str(item.price as nat)
}

/// Field isolation: when the name is the only changed field, the report
/// holds exactly the name line.
pub proof fn lemma_field_isolation_name(old: ItemModel, new: ItemModel, real_price: Option<int>)
    requires
        old.name != new.name,
        old.price == new.price,
        old.description == new.description,
        old.fulfillment == new.fulfillment,
        old.stock == new.stock,
    ensures
        item_diff_lines(old, new, real_price) =~= seq![name_line(old.name, new.name)],
{
}

/// Field isolation: when the price is the only changed field, the report
/// holds exactly the mandatory name line and the price line, followed by
/// the real-price line when the side table supplies a value.
pub proof fn lemma_field_isolation_price(old: ItemModel, new: ItemModel, real_price: Option<int>)
    requires
        old.name == new.name,
        old.price != new.price,
        old.description == new.description,
        old.fulfillment == new.fulfillment,
        old.stock == new.stock,
    ensures
        item_diff_lines(old, new, real_price) =~= seq![
            name_line(old.name, new.name),
            price_line(old.price, new.price),
        ] + (match real_price {
            Some(p) => seq![real_price_line(p)],
            None => Seq::empty(),
        }),
{
}

/// Field isolation: when the description is the only changed field, the
/// report holds exactly the mandatory name line and the description line.
pub proof fn lemma_field_isolation_description(
    old: ItemModel,
    new: ItemModel,
    real_price: Option<int>,
)
    requires
        old.name == new.name,
        old.price == new.price,
        old.description != new.description,
        old.fulfillment == new.fulfillment,
        old.stock == new.stock,
    ensures
        item_diff_lines(old, new, real_price) =~= seq![
            name_line(old.name, new.name),
            description_line(old.description, new.description),
        ],
{
}

/// Field isolation: when the fulfillment info is the only changed field,
/// the report holds exactly the mandatory name line and the
/// fulfillment-info line.
pub proof fn lemma_field_isolation_fulfillment(
    old: ItemModel,
    new: ItemModel,
    real_price: Option<int>,
)
    requires
        old.name == new.name,
        old.price == new.price,
        old.description == new.description,
        old.fulfillment != new.fulfillment,
        old.stock == new.stock,
    ensures
        item_diff_lines(old, new, real_price) =~= seq![
            name_line(old.name, new.name),
            fulfillment_line(old.fulfillment, new.fulfillment),
        ],
{
}

/// Field isolation: when the stock is the only changed field, the report
/// holds exactly the mandatory name line and the stock line.
pub proof fn lemma_field_isolation_stock(old: ItemModel, new: ItemModel, real_price: Option<int>)
    requires
        old.name == new.name,
        old.price == new.price,
        old.description == new.description,
        old.fulfillment == new.fulfillment,
        old.stock != new.stock,
    ensures
        item_diff_lines(old, new, real_price) =~= seq![
            name_line(old.name, new.name),
            stock_line(old.stock, new.stock),
        ],
{
}

/// Appends an optional string field, or the not-set sentinel.
pub(crate) fn append_opt_str(s: &mut String, o: &Option<String>)
    ensures
        final(s)@ == old(s)@ + opt_text(opt_view(*o)),
{
    match o {
        Some(v) => s.append(v.as_str()),
        None => s.append("_not set_"),
    }
}

/// Appends a stock level, or the unlimited sentinel.
pub(crate) fn append_stock(s: &mut String, o: Option<i32>)
    requires
        o matches Some(v) ==> v >= 0,
    ensures
        final(s)@ == old(s)@ + stock_text(opt_int(o)),
{
    match o {
        Some(v) => append_dec(s, v as u32),
        None => s.append("Unlimited"),
    }
}

/// Renders the name line of a diff report.
pub(crate) fn render_name_line(o: &String, n: &String) -> (r: String)
    ensures
        r@ == name_line(o@, n@),
{
    let mut r = String::from_str("*Name:* ");
    if *o == *n {
        r.append(n.as_str());
    } else {
        r.append(o.as_str());
        r.append(" → ");
        r.append(n.as_str());
        proof {
            assert(r@ =~= name_line(o@, n@));
        }
    }
    r
}

/// Renders the price line, marker included.
pub(crate) fn render_price_line(o: i32, n: i32) -> (r: String)
    requires
        o >= 0,
        n >= 0,
    ensures
        r@ == price_line(o as int, n as int),
{
    let mut r = String::from_str("*Price:* ");
    append_dec(&mut r, o as u32);
    r.append(" → ");
    append_dec(&mut r, n as u32);
    r.append(" ");
    if n < o {
        r.append("🔽");
    } else {
        r.append("🔼");
    }
    proof {
        assert(r@ =~= price_line(o as int, n as int));
    }
    r
}

/// Renders the real-price line.
pub(crate) fn render_real_price_line(p: i32) -> (r: String)
    requires
        p >= 0,
    ensures
        r@ == real_price_line(p as int),
{
    let mut r = String::from_str("*Real price:* ");
    append_dec(&mut r, p as u32);
    r
}

/// Renders the description line.
pub(crate) fn render_description_line(o: &Option<String>, n: &Option<String>) -> (r: String)
    ensures
        r@ == description_line(opt_view(*o), opt_view(*n)),
{
    let mut r = String::from_str("*Description:* ");
    append_opt_str(&mut r, o);
    r.append(" → ");
    append_opt_str(&mut r, n);
    proof {
        assert(r@ =~= description_line(opt_view(*o), opt_view(*n)));
    }
    r
}

/// Renders the fulfillment-info line.
pub(crate) fn render_fulfillment_line(o: &Option<String>, n: &Option<String>) -> (r: String)
    ensures
        r@ == fulfillment_line(opt_view(*o), opt_view(*n)),
{
    let mut r = String::from_str("*Fulfillment info:* ");
    append_opt_str(&mut r, o);
    r.append(" → ");
    append_opt_str(&mut r, n);
    proof {
        assert(r@ =~= fulfillment_line(opt_view(*o), opt_view(*n)));
    }
    r
}

/// Renders the stock line, with a marker only for finite-to-finite changes.
pub(crate) fn render_stock_line(o: Option<i32>, n: Option<i32>) -> (r: String)
    requires
        o matches Some(v) ==> v >= 0,
        n matches Some(v) ==> v >= 0,
    ensures
        r@ == stock_line(opt_int(o), opt_int(n)),
{
    let mut r = String::from_str("*Stock:* ");
    append_stock(&mut r, o);
    r.append(" → ");
    append_stock(&mut r, n);
    if o.is_some() && n.is_some() {
        let ov = o.unwrap();
        let nv = n.unwrap();
        if nv < ov {
            r.append(" 🔽");
        } else {
            r.append(" 🔼");
        }
    }
    proof {
        assert(r@ =~= stock_line(opt_int(o), opt_int(n)));
    }
    r
}

/// Compares two items of one identity and produces a field-level change
/// report, or nothing when the items are value-equal.
///
/// `real_price` is the side table's entry for the items' identity, if any:
/// when present, a real-price line follows the price line of the report.
pub fn format_item_diff(old: &ShopItem, new: &ShopItem, real_price: Option<i32>) -> (r: Option<
    String,
>)
    requires
        old.wf(),
        new.wf(),
        real_price matches Some(p) ==> p >= 0,
    ensures
        r is None <==> old@ == new@,
        r matches Some(s) ==> s@ == item_diff_text(old@, new@, opt_int(real_price)),
{
    if *old == *new {
        // The items are the exact same
        return None;
    }
    let mut result: Vec<String> = Vec::new();

    result.push(render_name_line(&old.full_name, &new.full_name));

    if old.price != new.price {
        result.push(render_price_line(old.price, new.price));
        if let Some(p) = real_price {
            result.push(render_real_price_line(p));
        }
    }

    if !crate::items::opt_string_eq(&old.description, &new.description) {
        result.push(render_description_line(&old.description, &new.description));
    }

    if !crate::items::opt_string_eq(&old.fulfillment_description, &new.fulfillment_description) {
        result.push(render_fulfillment_line(&old.fulfillment_description, &new.fulfillment_description));
    }

    if !crate::items::opt_i32_eq(old.stock, new.stock) {
        result.push(render_stock_line(old.stock, new.stock));
    }

    proof {
        assert(result.deep_view() =~= item_diff_lines(old@, new@, opt_int(real_price)));
    }
    Some(crate::strutil::join_strings(&result, "\n"))
}

/// Renders the report for a newly added item.
pub fn format_new_item(item: &ShopItem) -> (r: String)
    requires
        item.wf(),
    ensures
        r@ == new_item_text(item@),
{
    let mut r = String::from_str("*New item added*\n\n*Name:* ");
    r.append(item.full_name.as_str());
    r.append("\n*Description:* ");
    append_opt_str(&mut r, &item.description);
    r.append("\n*Fulfillment info:* ");
    append_opt_str(&mut r, &item.fulfillment_description);
    r.append("\n*Price:* ");
    append_dec(&mut r, item.price as u32);
    r.append("\n*Stock:* ");
    append_stock(&mut r, item.stock);
    proof {
        assert(r@ =~= new_item_text(item@));
    }
    r
}

/// One block of the structured chat payload. The surrounding application
/// serialises blocks into the webhook's wire format.
#[derive(Clone, Debug, PartialEq)]
pub enum SlackBlock {
    /// The leading plain-text header.
    Header(String),
    /// One change report, as markdown content.
    Section(String),
    /// The visual separator after each report.
    Divider,
    /// The trailing context line.
    Context(String),
}

/// Spec-level value of one payload block.
pub enum BlockModel {
    Header(Seq<char>),
    Section(Seq<char>),
    Divider,
    Context(Seq<char>),
}

impl View for SlackBlock {
    type V = BlockModel;

    open spec fn view(&self) -> BlockModel {
        match self {
            SlackBlock::Header(s) => BlockModel::Header(s@),
            SlackBlock::Section(s) => BlockModel::Section(s@),
            SlackBlock::Divider => BlockModel::Divider,
            SlackBlock::Context(s) => BlockModel::Context(s@),
        }
    }
}

impl DeepView for SlackBlock {
    type V = BlockModel;

    open spec fn deep_view(&self) -> BlockModel {
        self@
    }
}

/// The header text of the structured payload.
pub open spec fn payload_header_text() -> Seq<char> {
    "Changes detected in the shop"@
}

/// The footer text of the structured payload: the monitor's version string.
pub open spec fn payload_footer_text() -> Seq<char> {
    "Arcade Monitor v1.0.0"@
}

/// One content block and one divider block per report, in report order.
pub open spec fn section_blocks(reports: Seq<Seq<char>>) -> Seq<BlockModel>
    decreases reports.len(),
{
    if reports.len() == 0 {
        Seq::empty()
    } else {
        section_blocks(reports.drop_last()) + seq![
            BlockModel::Section(reports.last()),
            BlockModel::Divider,
        ]
    }
}

/// The whole structured payload: header, content/divider pairs, footer.
pub open spec fn slack_blocks(reports: Seq<Seq<char>>) -> Seq<BlockModel> {
    seq![BlockModel::Header(payload_header_text())] + section_blocks(reports) + seq![
        BlockModel::Context(payload_footer_text()),
    ]
}

/// What the structured payload holds at one block position: the header
/// first, then a content block immediately followed by a divider block per
/// report, in report order, then the footer.
pub open spec fn block_at(reports: Seq<Seq<char>>, j: int) -> BlockModel {
    if j == 0 {
        BlockModel::Header(payload_header_text())
    } else if j <= 2 * reports.len() {
        if (j - 1) % 2 == 0 {
            BlockModel::Section(reports[(j - 1) / 2])
        } else {
            BlockModel::Divider
        }
    } else {
        BlockModel::Context(payload_footer_text())
    }
}

/// The structured payload holds exactly `1 + 2k + 1` blocks for `k`
/// reports, each position holding the block that `block_at` names: no
/// block omitted or reordered.
pub proof fn lemma_structured_payload_shape(reports: Seq<Seq<char>>)
    ensures
        slack_blocks(reports).len() == 2 * reports.len() + 2,
        forall|j: int| #![trigger slack_blocks(reports)[j]]
            0 <= j < 2 * reports.len() + 2 ==> slack_blocks(reports)[j] == block_at(reports, j),
{
    lemma_section_blocks_shape(reports);
    assert forall|j: int| #![trigger slack_blocks(reports)[j]]
        0 <= j < 2 * reports.len() + 2 implies slack_blocks(reports)[j] == block_at(
        reports,
        j,
    ) by {
        if 1 <= j <= 2 * reports.len() {
            assert(slack_blocks(reports)[j] == section_blocks(reports)[j - 1]);
        }
    }
}

/// The content/divider pairs stand at the even offsets, in report order.
proof fn lemma_section_blocks_shape(reports: Seq<Seq<char>>)
    ensures
        section_blocks(reports).len() == 2 * reports.len(),
        forall|j: int| #![trigger section_blocks(reports)[j]]
            0 <= j < 2 * reports.len() ==> section_blocks(reports)[j] == (if j % 2 == 0 {
                BlockModel::Section(reports[j / 2])
            } else {
                BlockModel::Divider
            }),
    decreases reports.len(),
{
    if reports.len() > 0 {
        let pre = reports.drop_last();
        lemma_section_blocks_shape(pre);
        assert forall|j: int| #![trigger section_blocks(reports)[j]]
            0 <= j < 2 * reports.len() implies section_blocks(reports)[j] == (if j % 2 == 0 {
            BlockModel::Section(reports[j / 2])
        } else {
            BlockModel::Divider
        }) by {
            if j < 2 * pre.len() {
                assert(section_blocks(reports)[j] == section_blocks(pre)[j]);
                if j % 2 == 0 {
                    assert(pre[j / 2] == reports[j / 2]);
                }
            } else {
                assert(section_blocks(reports)[j] == seq![
                    BlockModel::Section(reports.last()),
                    BlockModel::Divider,
                ][j - 2 * pre.len()]);
            }
        }
    }
}

/// Packages the ordered list of change reports as the structured payload
/// for the block-based chat webhook.
pub fn get_slack_body(diffs: &Vec<String>) -> (r: Vec<SlackBlock>)
    ensures
        r.deep_view() == slack_blocks(diffs.deep_view()),
        r@.len() == 2 * diffs@.len() + 2,
{
    let mut r: Vec<SlackBlock> = Vec::new();
    r.push(SlackBlock::Header(String::from_str("Changes detected in the shop")));
    let mut i: usize = 0;
    while i < diffs.len()
        invariant
            i <= diffs.len(),
            r.deep_view() =~= seq![BlockModel::Header(payload_header_text())] + section_blocks(
                diffs.deep_view().take(i as int),
            ),
        decreases diffs.len() - i,
    {
        let ghost r_before = r.deep_view();
        let content = diffs[i].clone();
        proof {
            assert(content@ == diffs.deep_view()[i as int]);
        }
        r.push(SlackBlock::Section(content));
        r.push(SlackBlock::Divider);
        proof {
            let parts = diffs.deep_view();
            assert(parts.take(i + 1).drop_last() =~= parts.take(i as int));
            assert(parts.take(i + 1).last() == parts[i as int]);
            assert(section_blocks(parts.take(i + 1)) == section_blocks(parts.take(i as int))
                + seq![BlockModel::Section(parts[i as int]), BlockModel::Divider]);
            assert(r.deep_view() =~= r_before + seq![
                BlockModel::Section(parts[i as int]),
                BlockModel::Divider,
            ]);
            assert(r.deep_view() =~= seq![BlockModel::Header(payload_header_text())]
                + section_blocks(parts.take(i + 1)));
        }
        i = i + 1;
    }
    r.push(SlackBlock::Context(String::from_str("Arcade Monitor v1.0.0")));
    proof {
        assert(diffs.deep_view().take(diffs@.len() as int) =~= diffs.deep_view());
        assert(r.deep_view() =~= slack_blocks(diffs.deep_view()));
        lemma_structured_payload_shape(diffs.deep_view());
    }
    r
}

/// Packages the ordered list of change reports as the plain-text payload:
/// the reports joined with a blank line between them.
pub fn get_plain_body(diffs: &Vec<String>) -> (r: String)
    ensures
        r@ == joined(diffs.deep_view(), "\n\n"@),
{
    crate::strutil::join_strings(diffs, "\n\n")
}

/// Renders the report for a removed item.
pub fn format_deleted_item(item: &ShopItem) -> (r: String)
    requires
        item.wf(),
    ensures
        r@ == deleted_item_text(item@),
{
    let mut r = String::from_str("*Item DELETED:* ");
    r.append(item.full_name.as_str());
    r.append("\n*Description:* ");
    append_opt_str(&mut r, &item.description);
    r.append("\n*Price:* ");
    append_dec(&mut r, item.price as u32);
    proof {
        assert(r@ =~= deleted_item_text(item@));
    }
    r
}

} // verus!
