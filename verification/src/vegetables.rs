//! Garden produce with fixed prices.

use vstd::prelude::*;

verus! {

/// A piece of produce, labelled with its display name.
#[allow(non_camel_case_types)]
#[derive(Debug, Clone, Copy, PartialEq, Eq)]
pub enum F_Product<'a> {
    Carrot(&'a str),
    Radish(&'a str),
    Cabbage(&'a str),
}

/// The fixed price of a piece of produce.
pub open spec fn spec_price(product: F_Product) -> int {
    match product {
        F_Product::Carrot(_) => 10,
        F_Product::Radish(_) => 20,
        F_Product::Cabbage(_) => 30,
    }
}

impl<'a> F_Product<'a> {
    /// The price of `product`, by its kind alone.
    pub fn price(product: &F_Product) -> (price: i32)
        ensures
            price == spec_price(*product),
    {
        match product {
            F_Product::Carrot(_) => 10,
            F_Product::Radish(_) => 20,
            F_Product::Cabbage(_) => 30,
        }
    }
}

} // verus!
