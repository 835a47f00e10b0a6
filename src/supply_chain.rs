//! A log of where each product has been, and checks on that log.
use vstd::prelude::*;

use crate::clock::now_rfc3339;
use crate::inventory::{has_id, position_of, Product};
use crate::models::SupplyChainAction;

verus! {

#[verifier::external_type_specification]
#[verifier::external_body]
pub struct ExValue(serde_json::Value);

/// Relies on the derived `Clone` of `serde_json::Value`: the copy is the same value.
pub assume_specification[ <serde_json::Value as Clone>::clone ](v: &serde_json::Value) -> (r: serde_json::Value)
    ensures
        r == *v,
;

/// One movement of a product.
#[derive(Debug)]
pub struct SupplyChainRecord {
    /// The product's identifier (the 128 bits of a UUID).
    pub product_id: u128,
    pub location: String,
    pub handler: String,
    /// The time of the movement, as RFC 3339 text.
    pub timestamp: String,
    pub action: SupplyChainAction,
    /// Free-form details, carried as they are.
    pub metadata: serde_json::Value,
}

impl Clone for SupplyChainRecord {
    fn clone(&self) -> (r: SupplyChainRecord)
        ensures
            r == *self,
    {
        SupplyChainRecord {
            product_id: self.product_id,
            location: self.location.clone(),
            handler: self.handler.clone(),
            timestamp: self.timestamp.clone(),
            action: self.action,
            metadata: self.metadata.clone(),
        }
    }
}

/// Why a supply-chain request was refused.
#[derive(Debug, Clone, Copy, PartialEq, Eq, Structural)]
pub enum SupplyChainError {
    ProductNotFound,
    InvalidMovement,
}

/// The movements of product `id`, oldest first.
pub open spec fn history(records: Seq<SupplyChainRecord>, id: u128) -> Seq<SupplyChainRecord> {
    records.filter(|r: SupplyChainRecord| r.product_id == id)
}

/// Some movement of `h` is a manufacture.
pub open spec fn has_manufacture(h: Seq<SupplyChainRecord>) -> bool {
    exists|k: int| 0 <= k < h.len() && h[k].action == SupplyChainAction::Manufactured
}

/// The records that `s` refers to.
pub open spec fn referenced_records(s: Seq<&SupplyChainRecord>) -> Seq<SupplyChainRecord> {
    s.map_values(|r: &SupplyChainRecord| *r)
}

/// Known products and the movements recorded for them.
pub struct SupplyChainManager {
    records: Vec<SupplyChainRecord>,
    products: Vec<Product>,
}

impl SupplyChainManager {
    /// Every movement, in the order it was recorded.
    pub closed spec fn records(&self) -> Seq<SupplyChainRecord> {
        self.records@
    }

    /// The known products.
    pub closed spec fn products(&self) -> Seq<Product> {
        self.products@
    }

    /// A manager that knows no product.
    pub fn new() -> (r: Self)
        ensures
            r.records() == Seq::<SupplyChainRecord>::empty(),
            r.products() == Seq::<Product>::empty(),
    {
        SupplyChainManager { records: Vec::new(), products: Vec::new() }
    }

    /// Makes a product known; one with the same identifier is replaced.
    pub fn add_product(&mut self, product: Product)
        ensures
            final(self).records() == old(self).records(),
            has_id(old(self).products(), product.id) ==> exists|i: int|
                0 <= i < old(self).products().len() && old(self).products()[i].id == product.id
                    && final(self).products() == old(self).products().update(i, product),
            !has_id(old(self).products(), product.id) ==> final(self).products() == old(
                self,
            ).products().push(product),
    {
        match position_of(&self.products, product.id) {
            Some(i) => {
                self.products.set(i, product);
            },
            None => {
                self.products.push(product);
            },
        }
    }

    /// Records a movement of a known product, stamped with the current time.
    pub fn record_movement(
        &mut self,
        product_id: u128,
        location: String,
        handler: String,
        action: SupplyChainAction,
        metadata: serde_json::Value,
    ) -> (r: Result<SupplyChainRecord, SupplyChainError>)
        ensures
            final(self).products() == old(self).products(),
            r is Err <==> !has_id(old(self).products(), product_id),
            match r {
                Err(e) => e == SupplyChainError::ProductNotFound && final(self).records() == old(
                    self,
                ).records(),
                Ok(rec) => {
                    &&& final(self).records() == old(self).records().push(rec)
                    &&& rec.product_id == product_id
                    &&& rec.location == location
                    &&& rec.handler == handler
                    &&& rec.action == action
                    &&& rec.metadata == metadata
                },
            },
    {
        if position_of(&self.products, product_id).is_none() {
            return Err(SupplyChainError::ProductNotFound);
        }
        let record = SupplyChainRecord {
            product_id,
            location,
            handler,
            timestamp: now_rfc3339(),
            action,
            metadata,
        };
        let copy = record.clone();
        self.records.push(record);
        Ok(copy)
    }

    /// The movements of product `product_id`, oldest first; `None` when it has none.
    pub fn get_product_history(&self, product_id: u128) -> (r: Option<Vec<&SupplyChainRecord>>)
        ensures
            match r {
                None => history(self.records(), product_id).len() == 0,
                Some(v) => history(self.records(), product_id).len() > 0 && referenced_records(v@)
                    == history(self.records(), product_id),
            },
    {
        let mut out: Vec<&SupplyChainRecord> = Vec::new();
        let mut i: usize = 0;
        while i < self.records.len()
            invariant
                i <= self.records@.len(),
                referenced_records(out@) == history(self.records@.take(i as int), product_id),
            decreases self.records@.len() - i,
        {
            let ghost prev = out@;
            assert(self.records@.take(i + 1).drop_last() == self.records@.take(i as int));
            reveal(Seq::filter);
            let rec = &self.records[i];
            if rec.product_id == product_id {
                out.push(rec);
                assert(referenced_records(out@) =~= referenced_records(prev).push(*rec));
            }
            i += 1;
        }
        assert(self.records@.take(self.records@.len() as int) =~= self.records@);
        if out.len() == 0 {
            None
        } else {
            Some(out)
        }
    }

    /// Whether product `product_id` was manufactured somewhere along its
    /// recorded movements; an error when it has none.
    pub fn verify_authenticity(&self, product_id: u128) -> (r: Result<bool, SupplyChainError>)
        ensures
            match r {
                Err(e) => e == SupplyChainError::ProductNotFound && history(self.records(), product_id).len() == 0,
                Ok(b) => history(self.records(), product_id).len() > 0 && b == has_manufacture(
                    history(self.records(), product_id),
                ),
            },
    {
        match self.get_product_history(product_id) {
            None => Err(SupplyChainError::ProductNotFound),
            Some(h) => {
                let ghost hs = history(self.records(), product_id);
                let mut i: usize = 0;
                while i < h.len()
                    invariant
                        i <= h@.len(),
                        referenced_records(h@) == hs,
                        hs == history(self.records(), product_id),
                        hs.len() > 0,
                        forall|k: int| 0 <= k < i ==> hs[k].action != SupplyChainAction::Manufactured,
                    decreases h@.len() - i,
                {
                    assert(*h@[i as int] == hs[i as int]);
                    if h[i].action == SupplyChainAction::Manufactured {
                        assert(has_manufacture(hs));
                        return Ok(true);
                    }
                    i += 1;
                }
                Ok(false)
            },
        }
    }

    /// Where product `product_id` was last recorded; `None` when it has no movement.
    pub fn get_current_location(&self, product_id: u128) -> (r: Option<String>)
        ensures
            match r {
                None => history(self.records(), product_id).len() == 0,
                Some(s) => history(self.records(), product_id).len() > 0 && s@ == history(
                    self.records(),
                    product_id,
                ).last().location@,
            },
    {
        match self.get_product_history(product_id) {
            None => None,
            Some(h) => {
                let last = h[h.len() - 1];
                assert(*h@[h@.len() - 1] == history(self.records(), product_id).last());
                Some(last.location.clone())
            },
        }
    }

    /// How many movements product `product_id` has; `None` when it has none.
    pub fn get_product_movements_count(&self, product_id: u128) -> (r: Option<usize>)
        ensures
            match r {
                None => history(self.records(), product_id).len() == 0,
                Some(n) => n > 0 && n == history(self.records(), product_id).len(),
            },
    {
        match self.get_product_history(product_id) {
            None => None,
            Some(h) => Some(h.len()),
        }
    }
}

} // verus!
