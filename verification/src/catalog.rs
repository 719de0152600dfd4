//! The product catalog: a mapping from product name to product record,
//! keys unique, entries kept in insertion order.

use vstd::prelude::*;
use crate::errors::InventoryError;
use crate::product::{Product, ProductV, with_quantity};

verus! {

/// No two entries of `cat` share a name.
pub open spec fn unique_names(cat: Seq<ProductV>) -> bool {
    forall|i: int, j: int| 0 <= i < j < cat.len() ==> cat[i].name != cat[j].name
}

/// Whether some entry of `cat` carries this name.
pub open spec fn contains_name(cat: Seq<ProductV>, name: Seq<char>) -> bool {
    exists|i: int| 0 <= i < cat.len() && cat[i].name == name
}

/// The position of the first entry of `cat` with this name
/// (meaningful when `contains_name(cat, name)` holds).
pub open spec fn idx_of(cat: Seq<ProductV>, name: Seq<char>) -> int
    decreases cat.len(),
{
    if cat.len() == 0 {
        0
    } else if cat[0].name == name {
        0
    } else {
        1 + idx_of(cat.drop_first(), name)
    }
}

/// The entry of `cat` with this name, if any.
pub open spec fn spec_lookup(cat: Seq<ProductV>, name: Seq<char>) -> Option<ProductV> {
    if contains_name(cat, name) {
        Some(cat[idx_of(cat, name)])
    } else {
        None
    }
}

/// When the name is present, `idx_of` is in range, names its entry,
/// and no earlier entry carries the name.
pub proof fn lemma_idx_of(cat: Seq<ProductV>, name: Seq<char>)
    requires
        contains_name(cat, name),
    ensures
        0 <= idx_of(cat, name) < cat.len(),
        cat[idx_of(cat, name)].name == name,
        forall|j: int| 0 <= j < idx_of(cat, name) ==> cat[j].name != name,
    decreases cat.len(),
{
    assert(cat.len() > 0);
    if cat[0].name == name {
    } else {
        let rest = cat.drop_first();
        let i = choose|i: int| 0 <= i < cat.len() && cat[i].name == name;
        assert(i >= 1);
        assert(rest[i - 1] == cat[i]);
        assert(contains_name(rest, name));
        lemma_idx_of(rest, name);
        let k = idx_of(rest, name);
        assert(cat[1 + k] == rest[k]);
        assert forall|j: int| 0 <= j < 1 + k implies cat[j].name != name by {
            if j >= 1 {
                assert(rest[j - 1] == cat[j]);
            }
        }
    }
}

/// The first match determines `idx_of`: if `cat[i]` carries the name and no
/// earlier entry does, then `idx_of` is exactly `i`.
pub proof fn lemma_first_match(cat: Seq<ProductV>, name: Seq<char>, i: int)
    requires
        0 <= i < cat.len(),
        cat[i].name == name,
        forall|j: int| 0 <= j < i ==> cat[j].name != name,
    ensures
        contains_name(cat, name),
        idx_of(cat, name) == i,
{
    assert(contains_name(cat, name)) by {
        assert(0 <= i < cat.len() && cat[i].name == name);
    }
    lemma_idx_of(cat, name);
    let k = idx_of(cat, name);
    if k < i {
        assert(cat[k].name != name);
    }
    if k > i {
        assert(cat[i].name != name);
    }
}

/// Law: adding a product to a catalog that does not hold its name, then
/// looking that name up, yields exactly the product that was added. `add`'s
/// contract appends the entry; `lookup`'s returns `spec_lookup`.
pub proof fn lemma_add_then_lookup(cat: Seq<ProductV>, p: ProductV)
    requires
        !contains_name(cat, p.name),
    ensures
        spec_lookup(cat.push(p), p.name) == Some(p),
{
    let cat1 = cat.push(p);
    assert(cat1[cat.len() as int] == p);
    assert forall|j: int| 0 <= j < cat.len() implies cat1[j].name != p.name by {
        assert(cat1[j] == cat[j]);
    }
    lemma_first_match(cat1, p.name, cat.len() as int);
}

/// Law: once a product is added its name is present, so a second `add` of
/// any product with the same name fails with `DuplicateKey` and, by `add`'s
/// contract, leaves the catalog — and with it its size — unchanged.
pub proof fn lemma_add_then_duplicate_add_fails(cat: Seq<ProductV>, p: ProductV)
    ensures
        contains_name(cat.push(p), p.name),
        cat.push(p).len() == cat.len() + 1,
{
    assert(cat.push(p)[cat.len() as int] == p);
}

/// The confirmation text `delete` returns for this name.
pub open spec fn spec_delete_message(name: Seq<char>) -> Seq<char> {
    "Product '"@ + name + "' removed successfully"@
}

/// The live mapping from product name to product record.
pub struct Catalog {
    products: Vec<Product>,
}

impl View for Catalog {
    type V = Seq<ProductV>;

    closed spec fn view(&self) -> Seq<ProductV> {
        Seq::new(self.products@.len(), |i: int| self.products@[i]@)
    }
}

impl Catalog {
    /// The catalog invariant: entry names are pairwise distinct.
    pub open spec fn wf(&self) -> bool {
        unique_names(self@)
    }

    /// An empty catalog.
    pub fn new() -> (c: Catalog)
        ensures
            c@ == Seq::<ProductV>::empty(),
            c.wf(),
    {
        let c = Catalog { products: Vec::new() };
        proof {
            assert(c@ =~= Seq::<ProductV>::empty());
        }
        c
    }

    /// How many products the catalog holds.
    pub fn len(&self) -> (n: usize)
        ensures
            n == self@.len(),
    {
        self.products.len()
    }

    /// The `i`-th product, in insertion order; reports iterate with this.
    pub fn get(&self, i: usize) -> (p: &Product)
        requires
            i < self@.len(),
        ensures
            p@ == self@[i as int],
    {
        &self.products[i]
    }

    /// The position of the entry with this name, if any.
    fn position_of(&self, name: &String) -> (r: Option<usize>)
        ensures
            match r {
                Some(i) => contains_name(self@, name@) && i == idx_of(self@, name@),
                None => !contains_name(self@, name@),
            },
    {
        let n = self.products.len();
        let mut k: usize = 0;
        while k < n
            invariant
                k <= n,
                n == self.products@.len(),
                forall|j: int| 0 <= j < k ==> self@[j].name != name@,
            decreases n - k,
        {
            if self.products[k].name == *name {
                proof {
                    lemma_first_match(self@, name@, k as int);
                }
                return Some(k);
            }
            k = k + 1;
        }
        proof {
            assert forall|i: int| 0 <= i < self@.len() implies self@[i].name != name@ by {}
        }
        None
    }

    /// Whether a product with this name is in the catalog.
    pub fn contains(&self, name: &String) -> (b: bool)
        ensures
            b == contains_name(self@, name@),
    {
        match self.position_of(name) {
            Some(_) => true,
            None => false,
        }
    }

    /// The product with this name, if any.
    pub fn lookup(&self, name: &String) -> (r: Option<&Product>)
        ensures
            match r {
                Some(p) => spec_lookup(self@, name@) == Some(p@),
                None => spec_lookup(self@, name@) is None,
            },
    {
        match self.position_of(name) {
            Some(i) => {
                proof {
                    lemma_idx_of(self@, name@);
                }
                Some(&self.products[i])
            },
            None => None,
        }
    }

    /// Inserts a new product. Fails with `DuplicateKey`, changing nothing,
    /// when the name is already present; otherwise appends the entry.
    pub fn add(&mut self, product: Product) -> (r: Result<(), InventoryError>)
        requires
            old(self).wf(),
        ensures
            final(self).wf(),
            match r {
                Ok(u) => !contains_name(old(self)@, product@.name) && final(self)@ == old(self)@.push(
                    product@,
                ),
                Err(e) => e == InventoryError::DuplicateKey && contains_name(
                    old(self)@,
                    product@.name,
                ) && final(self)@ == old(self)@,
            },
    {
        if self.contains(&product.name) {
            Err(InventoryError::DuplicateKey)
        } else {
            let ghost c0 = self@;
            let ghost pv = product@;
            self.products.push(product);
            proof {
                assert(self@ =~= c0.push(pv));
                assert forall|i: int, j: int|
                    0 <= i < j < self@.len() implies self@[i].name != self@[j].name by {
                    if j < c0.len() {
                    } else {
                        assert(self@[j] == pv);
                        assert(self@[i] == c0[i]);
                    }
                }
            }
            Ok(())
        }
    }

    /// Replaces every field of the stored product with this name.
    /// Fails with `NotFound`, changing nothing, when the name is absent.
    pub fn update(&mut self, product: Product) -> (r: Result<(), InventoryError>)
        requires
            old(self).wf(),
        ensures
            final(self).wf(),
            match r {
                Ok(u) => contains_name(old(self)@, product@.name) && final(self)@ == old(
                    self,
                )@.update(idx_of(old(self)@, product@.name), product@),
                Err(e) => e == InventoryError::NotFound && !contains_name(old(self)@, product@.name)
                    && final(self)@ == old(self)@,
            },
    {
        match self.position_of(&product.name) {
            Some(i) => {
                let ghost c0 = self@;
                let ghost pv = product@;
                proof {
                    lemma_idx_of(self@, product.name@);
                }
                self.products[i] = product;
                proof {
                    assert(self@ =~= c0.update(i as int, pv));
                    assert(c0[i as int].name == pv.name);
                    assert forall|a: int, b: int|
                        0 <= a < b < self@.len() implies self@[a].name != self@[b].name by {
                        assert(c0[a].name != c0[b].name);
                    }
                }
                Ok(())
            },
            None => Err(InventoryError::NotFound),
        }
    }

    /// Removes the product with this name and returns a confirmation that
    /// contains the name. Fails with `NotFound`, changing nothing, when the
    /// name is absent. Past ledger entries are unaffected.
    pub fn delete(&mut self, name: &String) -> (r: Result<String, InventoryError>)
        requires
            old(self).wf(),
        ensures
            final(self).wf(),
            match r {
                Ok(msg) => contains_name(old(self)@, name@) && final(self)@ == old(self)@.remove(
                    idx_of(old(self)@, name@),
                ) && msg@ == spec_delete_message(name@),
                Err(e) => e == InventoryError::NotFound && !contains_name(old(self)@, name@)
                    && final(self)@ == old(self)@,
            },
    {
        match self.position_of(name) {
            Some(i) => {
                let ghost c0 = self@;
                proof {
                    lemma_idx_of(self@, name@);
                }
                self.products.remove(i);
                proof {
                    assert(self@ =~= c0.remove(i as int));
                    assert forall|a: int, b: int|
                        0 <= a < b < self@.len() implies self@[a].name != self@[b].name by {
                        let a0: int = if a < i { a } else { a + 1 };
                        let b0: int = if b < i { b } else { b + 1 };
                        assert(self@[a] == c0[a0]);
                        assert(self@[b] == c0[b0]);
                        assert(c0[a0].name != c0[b0].name);
                    }
                }
                let mut msg = String::from_str("Product '");
                msg.append(name.as_str());
                msg.append("' removed successfully");
                proof {
                    assert(msg@ =~= spec_delete_message(name@));
                }
                Ok(msg)
            },
            None => Err(InventoryError::NotFound),
        }
    }

    /// Sets the stored quantity of the product with this name and returns a
    /// snapshot of the product as it stands afterwards. Fails with
    /// `NotFound`, changing nothing, when the name is absent.
    pub fn set_quantity(&mut self, name: &String, quantity: u64) -> (r: Result<
        Product,
        InventoryError,
    >)
        requires
            old(self).wf(),
        ensures
            final(self).wf(),
            match r {
                Ok(snap) => contains_name(old(self)@, name@) && final(self)@ == old(self)@.update(
                    idx_of(old(self)@, name@),
                    with_quantity(old(self)@[idx_of(old(self)@, name@)], quantity),
                ) && snap@ == with_quantity(old(self)@[idx_of(old(self)@, name@)], quantity),
                Err(e) => e == InventoryError::NotFound && !contains_name(old(self)@, name@)
                    && final(self)@ == old(self)@,
            },
    {
        match self.position_of(name) {
            Some(i) => {
                let ghost c0 = self@;
                proof {
                    lemma_idx_of(self@, name@);
                }
                self.products[i].quantity = quantity;
                let snap = self.products[i].clone();
                proof {
                    assert(self@ =~= c0.update(i as int, with_quantity(c0[i as int], quantity)));
                    assert forall|a: int, b: int|
                        0 <= a < b < self@.len() implies self@[a].name != self@[b].name by {
                        assert(c0[a].name != c0[b].name);
                    }
                }
                Ok(snap)
            },
            None => Err(InventoryError::NotFound),
        }
    }
}

} // verus!
