use vstd::prelude::*;

verus! {

/// Mathematical model of a catalog entry: each field as a spec-level value.
/// `None` for `description` or `fulfillment` means the field is not set
/// (rendered with a fixed sentinel); `None` for `stock` means unlimited
/// availability, which is distinct from a stock of zero.
pub struct ItemModel {
    pub name: Seq<char>,
    pub description: Option<Seq<char>>,
    pub fulfillment: Option<Seq<char>>,
    pub price: int,
    pub stock: Option<int>,
    pub id: Seq<char>,
}

impl ItemModel {
    /// The data-model invariant: prices and finite stock counts are never
    /// negative.
    pub open spec fn wf(self) -> bool {
        &&& self.price >= 0
        &&& match self.stock {
            Some(s) => s >= 0,
            None => true,
        }
    }
}

/// The spec-level value of an optional string field.
pub open spec fn opt_view(o: Option<String>) -> Option<Seq<char>> {
    match o {
        Some(s) => Some(s@),
        None => None,
    }
}

/// The spec-level value of an optional numeric field.
pub open spec fn opt_int(o: Option<i32>) -> Option<int> {
    match o {
        Some(v) => Some(v as int),
        None => None,
    }
}

/// One purchasable entry of the shop catalog. `id` is the identity key:
/// the stable field that matches an item across two catalog snapshots.
#[derive(Clone, Debug)]
pub struct ShopItem {
    pub full_name: String,
    pub description: Option<String>,
    pub fulfillment_description: Option<String>,
    pub price: i32,
    pub stock: Option<i32>,
    pub id: String,
}

/// An ordered catalog snapshot.
pub type ShopItems = Vec<ShopItem>;

impl View for ShopItem {
    type V = ItemModel;

    open spec fn view(&self) -> ItemModel {
        ItemModel {
            name: self.full_name@,
            description: opt_view(self.description),
            fulfillment: opt_view(self.fulfillment_description),
            price: self.price as int,
            stock: opt_int(self.stock),
            id: self.id@,
        }
    }
}

impl DeepView for ShopItem {
    type V = ItemModel;

    open spec fn deep_view(&self) -> ItemModel {
        self@
    }
}

impl ShopItem {
    /// The data-model invariant, stated on the executable type.
    pub open spec fn wf(&self) -> bool {
        self@.wf()
    }
}

/// Compares two optional strings by value; absence only equals absence.
pub(crate) fn opt_string_eq(a: &Option<String>, b: &Option<String>) -> (r: bool)
    ensures
        r == (opt_view(*a) == opt_view(*b)),
{
    match a {
        Some(x) => match b {
            Some(y) => *x == *y,
            None => false,
        },
        None => b.is_none(),
    }
}

/// Compares two optional stock counts; unlimited only equals unlimited.
pub(crate) fn opt_i32_eq(a: Option<i32>, b: Option<i32>) -> (r: bool)
    ensures
        r == (opt_int(a) == opt_int(b)),
{
    match a {
        Some(x) => match b {
            Some(y) => x == y,
            None => false,
        },
        None => b.is_none(),
    }
}

impl PartialEq for ShopItem {
    /// Value equality: every field matches, the identity key included.
    fn eq(&self, other: &Self) -> (r: bool) {
        let name_eq = self.full_name == other.full_name;
        let desc_eq = opt_string_eq(&self.description, &other.description);
        let ful_eq = opt_string_eq(&self.fulfillment_description, &other.fulfillment_description);
        let price_eq = self.price == other.price;
        let stock_eq = opt_i32_eq(self.stock, other.stock);
        let id_eq = self.id == other.id;
        name_eq && desc_eq && ful_eq && price_eq && stock_eq && id_eq
    }
}

impl vstd::std_specs::cmp::PartialEqSpecImpl for ShopItem {
    open spec fn obeys_eq_spec() -> bool {
        true
    }

    open spec fn eq_spec(&self, other: &ShopItem) -> bool {
        self@ == other@
    }
}

impl Default for ShopItem {
    /// An empty entry: blank strings, no optional fields, price zero.
    fn default() -> (r: Self)
        ensures
            r@ == (ItemModel {
                name: Seq::<char>::empty(),
                description: None,
                fulfillment: None,
                price: 0,
                stock: None,
                id: Seq::<char>::empty(),
            }),
    {
        ShopItem {
            full_name: String::new(),
            description: None,
            fulfillment_description: None,
            price: 0,
            stock: None,
            id: String::new(),
        }
    }
}

} // verus!
