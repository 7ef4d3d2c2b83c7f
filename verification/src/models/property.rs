use vstd::prelude::*;

use super::search::{property_embedding, spec_embedding, spec_property_text, Embedding};

verus! {

/// A property listing as stored.
#[derive(Debug, Clone)]
pub struct Property {
    pub id: i32,
    pub name: Option<String>,
    pub image_url: Option<String>,
    pub region: Option<String>,
    pub bedroom_no: Option<i32>,
    pub price: Option<i32>,
}

/// The text of an optional field, the empty text where it is absent.
pub open spec fn text_or_empty(o: Option<String>) -> Seq<char> {
    match o {
        Some(s) => s@,
        None => Seq::empty(),
    }
}

/// The number of an optional field, zero where it is absent.
pub open spec fn number_or_zero(o: Option<i32>) -> i32 {
    match o {
        Some(v) => v,
        None => 0,
    }
}

/// The text of an optional field, borrowed, or the empty string.
pub fn str_or_empty(o: &Option<String>) -> (s: &str)
    ensures
        s@ == text_or_empty(*o),
{
    match o {
        Some(s) => s.as_str(),
        None => {
            proof {
                reveal_strlit("");
            }
            ""
        },
    }
}

/// The embedding that a stored listing gets when it has none: absent text
/// fields count as empty and absent numbers as zero.
pub open spec fn spec_listing_embedding(p: Property) -> Seq<nat> {
    spec_embedding(
        spec_property_text(
            text_or_empty(p.name),
            text_or_empty(p.region),
            number_or_zero(p.bedroom_no),
            number_or_zero(p.price),
        ),
    )
}

/// An embedding to store for the listing with the given id.
pub struct EmbeddingUpdate {
    pub id: i32,
    pub embedding: Embedding,
}

/// Backfill embeddings for properties that have none: one update per row,
/// in the order of the rows.
pub fn backfill_embeddings(rows: &Vec<Property>) -> (updates: Vec<EmbeddingUpdate>)
    ensures
        updates@.len() == rows@.len(),
        forall|i: int|
            0 <= i < rows@.len() ==> {
                &&& (#[trigger] updates@[i]).id == rows@[i].id
                &&& updates@[i].embedding@ == spec_listing_embedding(rows@[i])
            },
{
    let mut updates: Vec<EmbeddingUpdate> = Vec::new();
    let mut i: usize = 0;
    while i < rows.len()
        invariant
            i <= rows@.len(),
            updates@.len() == i,
            forall|j: int|
                0 <= j < i ==> {
                    &&& (#[trigger] updates@[j]).id == rows@[j].id
                    &&& updates@[j].embedding@ == spec_listing_embedding(rows@[j])
                },
        decreases rows@.len() - i,
    {
        let p = &rows[i];
        let bedroom_no = match p.bedroom_no {
            Some(v) => v,
            None => 0,
        };
        let price = match p.price {
            Some(v) => v,
            None => 0,
        };
        let embedding = property_embedding(
            str_or_empty(&p.name),
            str_or_empty(&p.region),
            bedroom_no,
            price,
        );
        updates.push(EmbeddingUpdate { id: p.id, embedding });
        i = i + 1;
    }
    updates
}


/// Whether a listing's bedroom count lies between `min` and `max`; a
/// listing without a count lies in no range.
pub open spec fn bedrooms_between(p: Property, min: i32, max: i32) -> bool {
    p.bedroom_no matches Some(n) && min <= n <= max
}

/// The listings of `rows` whose bedroom count lies between `min` and `max`,
/// in their order.
pub open spec fn rows_with_bedrooms(rows: Seq<Property>, min: i32, max: i32) -> Seq<Property>
    decreases rows.len(),
{
    if rows.len() == 0 {
        Seq::empty()
    } else {
        let rest = rows_with_bedrooms(rows.drop_last(), min, max);
        if bedrooms_between(rows.last(), min, max) {
            rest.push(rows.last())
        } else {
            rest
        }
    }
}

fn select_bedrooms(rows: Vec<Property>, min: i32, max: i32) -> (r: Vec<Property>)
    ensures
        r@ == rows_with_bedrooms(rows@, min, max),
{
    let ghost all = rows@;
    let n = rows.len();
    let mut rows = rows;
    let mut kept: Vec<Property> = Vec::new();
    let mut i: usize = 0;
    while rows.len() > 0
        invariant
            i <= all.len(),
            all.len() == n,
            rows@ == all.skip(i as int),
            kept@ == rows_with_bedrooms(all.take(i as int), min, max),
        decreases rows@.len(),
    {
        let p = rows.remove(0);
        assert(all.take(i + 1).drop_last() =~= all.take(i as int));
        assert(all.take(i + 1).last() == p);
        let keep = match p.bedroom_no {
            Some(n) => min <= n && n <= max,
            None => false,
        };
        if keep {
            kept.push(p);
        }
        i = i + 1;
        assert(rows@ =~= all.skip(i as int));
    }
    assert(all.take(i as int) =~= all);
    kept
}

/// The one-bedroom listings among `rows`, in their order.
pub fn one_bedroom(rows: Vec<Property>) -> (r: Vec<Property>)
    ensures
        r@ == rows_with_bedrooms(rows@, 1, 1),
        forall|p: Property|
            #[trigger] r@.contains(p) <==> (rows@.contains(p) && (p.bedroom_no matches Some(n) && n == 1)),
{
    let ghost all = rows@;
    let r = select_bedrooms(rows, 1, 1);
    proof {
        assert forall|p: Property| #[trigger] r@.contains(p) <==> (all.contains(p) && (p.bedroom_no matches Some(n) && n == 1)) by {
            lemma_bedroom_page_members(all, 1, 1, p);
        }
    }
    r
}

/// The two-bedroom listings among `rows`, in their order.
pub fn two_bedroom(rows: Vec<Property>) -> (r: Vec<Property>)
    ensures
        r@ == rows_with_bedrooms(rows@, 2, 2),
        forall|p: Property|
            #[trigger] r@.contains(p) <==> (rows@.contains(p) && (p.bedroom_no matches Some(n) && n == 2)),
{
    let ghost all = rows@;
    let r = select_bedrooms(rows, 2, 2);
    proof {
        assert forall|p: Property| #[trigger] r@.contains(p) <==> (all.contains(p) && (p.bedroom_no matches Some(n) && n == 2)) by {
            lemma_bedroom_page_members(all, 2, 2, p);
        }
    }
    r
}

/// The listings with three or more bedrooms among `rows`, in their order.
pub fn three_bedroom(rows: Vec<Property>) -> (r: Vec<Property>)
    ensures
        r@ == rows_with_bedrooms(rows@, 3, i32::MAX),
        forall|p: Property|
            #[trigger] r@.contains(p) <==> (rows@.contains(p) && (p.bedroom_no matches Some(n) && n >= 3)),
{
    let ghost all = rows@;
    let r = select_bedrooms(rows, 3, i32::MAX);
    proof {
        assert forall|p: Property| #[trigger] r@.contains(p) <==> (all.contains(p) && (p.bedroom_no matches Some(n) && n >= 3)) by {
            lemma_bedroom_page_members(all, 3, i32::MAX, p);
        }
    }
    r
}

/// A bedroom page shows exactly the listings of its range: each one it
/// shows is one of the rows and lies in the range, and each row in the
/// range is shown.
pub proof fn lemma_bedroom_page_members(rows: Seq<Property>, min: i32, max: i32, p: Property)
    ensures
        rows_with_bedrooms(rows, min, max).contains(p) <==> (rows.contains(p) && bedrooms_between(
            p,
            min,
            max,
        )),
    decreases rows.len(),
{
    if rows.len() > 0 {
        let init = rows.drop_last();
        lemma_bedroom_page_members(init, min, max, p);
        let rest = rows_with_bedrooms(init, min, max);
        assert(rows =~= init.push(rows.last()));
        if rows.contains(p) && !init.contains(p) {
            let k = choose|k: int| 0 <= k < rows.len() && rows[k] == p;
            if k < rows.len() - 1 {
                assert(init[k] == p);
            }
        }
        if init.contains(p) {
            let k = choose|k: int| 0 <= k < init.len() && init[k] == p;
            assert(rows[k] == p);
        }
        if bedrooms_between(rows.last(), min, max) {
            let r = rest.push(rows.last());
            if r.contains(p) && !rest.contains(p) {
                let k = choose|k: int| 0 <= k < r.len() && r[k] == p;
                if k < rest.len() {
                    assert(rest[k] == p);
                }
            }
            if rest.contains(p) {
                let k = choose|k: int| 0 <= k < rest.len() && rest[k] == p;
                assert(r[k] == p);
            }
            assert(r[rest.len() as int] == rows.last());
        }
        assert(rows[rows.len() - 1] == rows.last());
    }
}

/// The row positions that a bedroom page shows, in increasing order.
spec fn page_positions(rows: Seq<Property>, min: i32, max: i32) -> Seq<int>
    decreases rows.len(),
{
    if rows.len() == 0 {
        Seq::empty()
    } else {
        let rest = page_positions(rows.drop_last(), min, max);
        let last = rows.last();
        if last.bedroom_no matches Some(n) && min <= n <= max {
            rest.push(rows.len() - 1)
        } else {
            rest
        }
    }
}

proof fn lemma_page_positions(rows: Seq<Property>, min: i32, max: i32)
    ensures
        ({
            let page = rows_with_bedrooms(rows, min, max);
            let idx = page_positions(rows, min, max);
            &&& idx.len() == page.len()
            &&& forall|k: int|
                0 <= k < idx.len() ==> 0 <= #[trigger] idx[k] < rows.len() && page[k] == rows[idx[k]]
            &&& forall|k: int, l: int| 0 <= k < l < idx.len() ==> idx[k] < idx[l]
        }),
    decreases rows.len(),
{
    if rows.len() > 0 {
        let init = rows.drop_last();
        lemma_page_positions(init, min, max);
        let page0 = rows_with_bedrooms(init, min, max);
        let idx0 = page_positions(init, min, max);
        assert forall|k: int| 0 <= k < idx0.len() implies 0 <= #[trigger] idx0[k] < rows.len()
            && page0[k] == rows[idx0[k]] by {
            assert(init[idx0[k]] == rows[idx0[k]]);
        }
    }
}

/// A bedroom page lists, in the order of the rows, the rows whose bedroom
/// count is present and lies between `min` and `max`: each entry is a row,
/// at positions that strictly increase along the page.
pub proof fn lemma_bedroom_page_in_row_order(rows: Seq<Property>, min: i32, max: i32)
    ensures
        exists|idx: Seq<int>|
            #![trigger idx.len()]
            {
                let page = rows_with_bedrooms(rows, min, max);
                &&& idx.len() == page.len()
                &&& forall|k: int|
                    0 <= k < idx.len() ==> 0 <= #[trigger] idx[k] < rows.len() && page[k]
                        == rows[idx[k]] && (page[k].bedroom_no matches Some(n) && min <= n <= max)
                &&& forall|k: int, l: int| 0 <= k < l < idx.len() ==> idx[k] < idx[l]
            },
{
    lemma_page_positions(rows, min, max);
    let idx = page_positions(rows, min, max);
    let page = rows_with_bedrooms(rows, min, max);
    assert forall|k: int| 0 <= k < idx.len() implies (#[trigger] page[k].bedroom_no matches Some(n)
        && min <= n <= max) by {
        lemma_page_position_in_range(rows, min, max, k);
    }
}

proof fn lemma_page_position_in_range(rows: Seq<Property>, min: i32, max: i32, k: int)
    requires
        0 <= k < page_positions(rows, min, max).len(),
    ensures
        rows[page_positions(rows, min, max)[k]].bedroom_no matches Some(n) && min <= n <= max,
    decreases rows.len(),
{
    let init = rows.drop_last();
    let idx0 = page_positions(init, min, max);
    if k < idx0.len() {
        lemma_page_position_in_range(init, min, max, k);
        lemma_page_positions(init, min, max);
        assert(init[idx0[k]] == rows[idx0[k]]);
    }
}

/// The embedding backfilled for a stored listing is that of its own name,
/// region, bedroom count and price, exactly as stored; an absent name or
/// region counts as empty text and an absent count or price as zero.
pub proof fn lemma_backfill_uses_stored_fields(p: Property)
    ensures
        spec_listing_embedding(p) == spec_embedding(
            spec_property_text(
                match p.name {
                    Some(n) => n@,
                    None => Seq::empty(),
                },
                match p.region {
                    Some(r) => r@,
                    None => Seq::empty(),
                },
                match p.bedroom_no {
                    Some(b) => b,
                    None => 0,
                },
                match p.price {
                    Some(v) => v,
                    None => 0,
                },
            ),
        ),
{
}

/// The one-bedroom, two-bedroom and three-or-more pages never show the
/// same listing twice over: the ranges do not overlap.
pub proof fn lemma_bedroom_pages_disjoint(p: Property)
    ensures
        !(bedrooms_between(p, 1, 1) && bedrooms_between(p, 2, 2)),
        !(bedrooms_between(p, 1, 1) && bedrooms_between(p, 3, i32::MAX)),
        !(bedrooms_between(p, 2, 2) && bedrooms_between(p, 3, i32::MAX)),
{
}

} // verus!
