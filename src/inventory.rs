//! Stock kept per product, with a threshold below which stock counts as low.
use vstd::prelude::*;

use crate::clock::now_rfc3339;

verus! {

/// A product in stock.
#[derive(Debug)]
pub struct Product {
    /// The product's identifier (the 128 bits of a UUID).
    pub id: u128,
    pub sku: String,
    pub name: String,
    pub description: String,
    /// The unit price in cents.
    pub price: u64,
    pub quantity: u32,
    pub manufacturer: String,
    /// The time the product was added, as RFC 3339 text.
    pub created_at: String,
}

impl Clone for Product {
    fn clone(&self) -> (r: Product)
        ensures
            r == *self,
    {
        Product {
            id: self.id,
            sku: self.sku.clone(),
            name: self.name.clone(),
            description: self.description.clone(),
            price: self.price,
            quantity: self.quantity,
            manufacturer: self.manufacturer.clone(),
            created_at: self.created_at.clone(),
        }
    }
}

/// Why a stock change was refused.
#[derive(Debug, Clone, Copy, PartialEq, Eq, Structural)]
pub enum InventoryError {
    ProductNotFound,
    InsufficientStock,
}

/// Relies on `uuid::Uuid::new_v4` and `Uuid::as_u128`: a random identifier.
/// Nothing is stated of its value.
#[verifier::external_body]
fn new_product_id() -> u128 {
    uuid::Uuid::new_v4().as_u128()
}

/// No two products share an identifier.
pub open spec fn ids_unique(s: Seq<Product>) -> bool {
    forall|i: int, j: int| 0 <= i < s.len() && 0 <= j < s.len() && i != j ==> s[i].id != s[j].id
}

/// Some product has identifier `id`.
pub open spec fn has_id(s: Seq<Product>, id: u128) -> bool {
    exists|i: int| 0 <= i < s.len() && s[i].id == id
}

/// The products that `s` refers to.
pub open spec fn referenced(s: Seq<&Product>) -> Seq<Product> {
    s.map_values(|p: &Product| *p)
}

/// The products of `s` whose quantity is at most `threshold`, in order.
pub open spec fn low_stock(s: Seq<Product>, threshold: u32) -> Seq<Product> {
    s.filter(|p: Product| p.quantity <= threshold)
}

/// The position of the product with identifier `id`.
pub(crate) fn position_of(products: &Vec<Product>, id: u128) -> (r: Option<usize>)
    ensures
        match r {
            None => !has_id(products@, id),
            Some(i) => i < products@.len() && products@[i as int].id == id,
        },
{
    let mut i: usize = 0;
    while i < products.len()
        invariant
            i <= products@.len(),
            forall|j: int| 0 <= j < i ==> products@[j].id != id,
        decreases products@.len() - i,
    {
        if products[i].id == id {
            return Some(i);
        }
        i += 1;
    }
    None
}

/// The products in stock, keyed by identifier.
pub struct InventoryManager {
    products: Vec<Product>,
    low_stock_threshold: u32,
}

impl InventoryManager {
    /// The products, in the order they were first added.
    pub closed spec fn stock(&self) -> Seq<Product> {
        self.products@
    }

    /// The quantity at or below which stock counts as low.
    pub closed spec fn threshold(&self) -> u32 {
        self.low_stock_threshold
    }

    /// Identifiers are unique.
    pub open spec fn wf(&self) -> bool {
        ids_unique(self.stock())
    }

    /// An empty inventory.
    pub fn new(low_stock_threshold: u32) -> (r: Self)
        ensures
            r.wf(),
            r.stock() == Seq::<Product>::empty(),
            r.threshold() == low_stock_threshold,
    {
        InventoryManager { products: Vec::new(), low_stock_threshold }
    }

    /// Adds a product under a new random identifier and returns it. A product
    /// that already holds that identifier is replaced.
    pub fn add_product(
        &mut self,
        name: String,
        sku: String,
        description: String,
        price: u64,
        quantity: u32,
        manufacturer: String,
    ) -> (r: Product)
        requires
            old(self).wf(),
        ensures
            final(self).wf(),
            final(self).threshold() == old(self).threshold(),
            r.name == name && r.sku == sku && r.description == description,
            r.price == price && r.quantity == quantity && r.manufacturer == manufacturer,
            has_id(old(self).stock(), r.id) ==> exists|i: int|
                0 <= i < old(self).stock().len() && old(self).stock()[i].id == r.id
                    && final(self).stock() == old(self).stock().update(i, r),
            !has_id(old(self).stock(), r.id) ==> final(self).stock() == old(self).stock().push(r),
    {
        let product = Product {
            id: new_product_id(),
            sku,
            name,
            description,
            price,
            quantity,
            manufacturer,
            created_at: now_rfc3339(),
        };
        let copy = product.clone();
        match position_of(&self.products, product.id) {
            Some(i) => {
                self.products.set(i, product);
            },
            None => {
                self.products.push(product);
            },
        }
        copy
    }

    /// Sets the quantity of the product with identifier `product_id`.
    pub fn update_stock(&mut self, product_id: u128, new_quantity: u32) -> (r: Result<(), InventoryError>)
        requires
            old(self).wf(),
        ensures
            final(self).wf(),
            final(self).threshold() == old(self).threshold(),
            r is Err <==> !has_id(old(self).stock(), product_id),
            r is Err ==> r == Err::<(), InventoryError>(InventoryError::ProductNotFound)
                && final(self).stock() == old(self).stock(),
            r is Ok ==> exists|i: int|
                0 <= i < old(self).stock().len() && old(self).stock()[i].id == product_id
                    && final(self).stock() == old(self).stock().update(
                    i,
                    Product { quantity: new_quantity, ..old(self).stock()[i] },
                ),
    {
        match position_of(&self.products, product_id) {
            None => Err(InventoryError::ProductNotFound),
            Some(i) => {
                let mut product = self.products[i].clone();
                product.quantity = new_quantity;
                self.products.set(i, product);
                Ok(())
            },
        }
    }

    /// Takes `quantity` units of the product with identifier `product_id` out
    /// of stock, when that many are there.
    pub fn sell_product(&mut self, product_id: u128, quantity: u32) -> (r: Result<(), InventoryError>)
        requires
            old(self).wf(),
        ensures
            final(self).wf(),
            final(self).threshold() == old(self).threshold(),
            (r == Err::<(), InventoryError>(InventoryError::ProductNotFound)) <==> !has_id(
                old(self).stock(),
                product_id,
            ),
            r is Err ==> final(self).stock() == old(self).stock(),
            forall|i: int|
                0 <= i < old(self).stock().len() && old(self).stock()[i].id == product_id ==> {
                    &&& (r == Err::<(), InventoryError>(InventoryError::InsufficientStock)
                        <==> old(self).stock()[i].quantity < quantity)
                    &&& r is Ok ==> final(self).stock() == old(self).stock().update(
                        i,
                        Product {
                            quantity: (old(self).stock()[i].quantity - quantity) as u32,
                            ..old(self).stock()[i]
                        },
                    )
                },
    {
        match position_of(&self.products, product_id) {
            None => Err(InventoryError::ProductNotFound),
            Some(i) => {
                if self.products[i].quantity < quantity {
                    return Err(InventoryError::InsufficientStock);
                }
                let mut product = self.products[i].clone();
                product.quantity = product.quantity - quantity;
                self.products.set(i, product);
                Ok(())
            },
        }
    }

    /// The products whose quantity is at most the threshold.
    pub fn get_low_stock_products(&self) -> (r: Vec<&Product>)
        ensures
            referenced(r@) == low_stock(self.stock(), self.threshold()),
    {
        let mut out: Vec<&Product> = Vec::new();
        let mut i: usize = 0;
        while i < self.products.len()
            invariant
                i <= self.products@.len(),
                referenced(out@) == low_stock(
                    self.products@.take(i as int),
                    self.low_stock_threshold,
                ),
            decreases self.products@.len() - i,
        {
            let ghost before = self.products@.take(i as int);
            assert(self.products@.take(i + 1).drop_last() == before);
            reveal(Seq::filter);
            let p = &self.products[i];
            if p.quantity <= self.low_stock_threshold {
                out.push(p);
            }
            i += 1;
            assert(referenced(out@) =~= low_stock(
                self.products@.take(i as int),
                self.low_stock_threshold,
            ));
        }
        assert(self.products@.take(self.products@.len() as int) =~= self.products@);
        out
    }

    /// The product with identifier `product_id`.
    pub fn get_product(&self, product_id: u128) -> (r: Option<&Product>)
        requires
            self.wf(),
        ensures
            match r {
                None => !has_id(self.stock(), product_id),
                Some(p) => p.id == product_id && self.stock().contains(*p),
            },
    {
        match position_of(&self.products, product_id) {
            None => None,
            Some(i) => Some(&self.products[i]),
        }
    }

    /// Every product, in the order they were first added.
    pub fn get_all_products(&self) -> (r: Vec<&Product>)
        ensures
            referenced(r@) == self.stock(),
    {
        let mut out: Vec<&Product> = Vec::new();
        let mut i: usize = 0;
        while i < self.products.len()
            invariant
                i <= self.products@.len(),
                referenced(out@) == self.products@.take(i as int),
            decreases self.products@.len() - i,
        {
            let ghost prev = out@;
            let p = &self.products[i];
            out.push(p);
            assert(referenced(out@) =~= referenced(prev).push(*p));
            assert(self.products@.take(i + 1) =~= self.products@.take(i as int).push(self.products@[i as int]));
            i += 1;
        }
        assert(self.products@.take(self.products@.len() as int) =~= self.products@);
        out
    }
}

} // verus!
