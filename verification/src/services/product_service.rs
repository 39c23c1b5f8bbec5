//! The read-only product catalog.

use crate::models::{Product, ProductV};
use crate::text::string_eq;
use vstd::prelude::*;

verus! {

/// The first product of `catalog` whose key is `id`, if any.
pub open spec fn find_product(catalog: Seq<ProductV>, id: Seq<char>) -> Option<ProductV>
    decreases catalog.len(),
{
    if catalog.len() == 0 {
        None
    } else if catalog[0].identifier == id {
        Some(catalog[0])
    } else {
        find_product(catalog.drop_first(), id)
    }
}

pub proof fn lemma_find_product_skip(catalog: Seq<ProductV>, id: Seq<char>, i: int)
    requires
        0 <= i <= catalog.len(),
        forall|j: int| 0 <= j < i ==> catalog[j].identifier != id,
    ensures
        find_product(catalog, id) == find_product(catalog.skip(i), id),
    decreases i,
{
    if i > 0 {
        assert(catalog.len() > 0);
        assert(catalog[0].identifier != id);
        assert(catalog.drop_first().skip(i - 1) =~= catalog.skip(i));
        lemma_find_product_skip(catalog.drop_first(), id, i - 1);
    } else {
        assert(catalog.skip(0) =~= catalog);
    }
}

/// The catalog interface: a lookup by key and the full listing. A failing
/// implementation reports `Err`; whatever it returns must reflect its
/// catalog. An implementation that declares itself infallible owes a
/// successful answer on every call.
pub trait ProductService {
    spec fn catalog(&self) -> Seq<ProductV>;

    /// Whether this catalog can never fail a call.
    spec fn infallible(&self) -> bool;

    fn get_available_products(&self) -> (r: Result<Vec<Product>, ()>)
        ensures
            r matches Ok(v) ==> v.deep_view() == self.catalog(),
            self.infallible() ==> r is Ok,
    ;

    fn get_product_with_identifier(&self, identifier: &str) -> (r: Result<Option<Product>, ()>)
        ensures
            r matches Ok(p) ==> (match p {
                Some(q) => find_product(self.catalog(), identifier@) == Some(q@),
                None => find_product(self.catalog(), identifier@) is None,
            }),
            self.infallible() ==> r is Ok,
    ;
}

/// An in-memory catalog; lookups never fail.
pub struct ProductServiceImpl {
    pub products: Vec<Product>,
}

impl ProductServiceImpl {
    pub fn new(products: Vec<Product>) -> (r: Self)
        ensures
            r.products == products,
    {
        ProductServiceImpl { products }
    }
}

impl ProductService for ProductServiceImpl {
    open spec fn catalog(&self) -> Seq<ProductV> {
        self.products.deep_view()
    }

    open spec fn infallible(&self) -> bool {
        true
    }

    fn get_available_products(&self) -> (r: Result<Vec<Product>, ()>)
        ensures
            r is Ok,
    {
        let mut listing: Vec<Product> = Vec::new();
        let mut i: usize = 0;
        while i < self.products.len()
            invariant
                i <= self.products.len(),
                listing.deep_view() =~= self.products.deep_view().take(i as int),
            decreases self.products.len() - i,
        {
            let ghost before = listing.deep_view();
            listing.push(self.products[i].duplicate());
            proof {
                assert(listing.deep_view() =~= before.push(self.products.deep_view()[i as int]));
                assert(before.push(self.products.deep_view()[i as int]) =~= self.products.deep_view()
                    .take(i as int + 1));
            }
            i += 1;
        }
        proof {
            assert(listing.deep_view() =~= self.products.deep_view());
        }
        Ok(listing)
    }

    fn get_product_with_identifier(&self, identifier: &str) -> (r: Result<Option<Product>, ()>)
        ensures
            r is Ok,
    {
        let ghost catalog = self.products.deep_view();
        let mut i: usize = 0;
        while i < self.products.len()
            invariant
                i <= self.products.len(),
                catalog == self.products.deep_view(),
                forall|j: int| 0 <= j < i ==> (#[trigger] catalog[j]).identifier != identifier@,
            decreases self.products.len() - i,
        {
            if string_eq(self.products[i].identifier.as_str(), identifier) {
                proof {
                    lemma_find_product_skip(catalog, identifier@, i as int);
                    assert(catalog.skip(i as int)[0] == catalog[i as int]);
                }
                return Ok(Some(self.products[i].duplicate()));
            }
            i += 1;
        }
        proof {
            lemma_find_product_skip(catalog, identifier@, catalog.len() as int);
            assert(catalog.skip(catalog.len() as int).len() == 0);
        }
        Ok(None)
    }
}

} // verus!
