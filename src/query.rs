//! Bucket queries: which name prefix the service can filter by, which
//! listed buckets the other criteria keep, their order and how many are
//! shown.
use vstd::prelude::*;
use vstd::relations::sorted_by;
use crate::auth::opt_text;
use crate::cli::{BucketSortField, SortOrder};
use crate::text::{contains_str, has_substring, lemma_text_le_total, lemma_text_le_transitive, text_le, text_le_exec};
use crate::types::BucketStatus;
use crate::validation::{ends_with, starts_with};

verus! {

broadcast use vstd::seq_lib::group_to_multiset_ensures;

/// The criteria of a bucket query.  Creation bounds are in whole seconds
/// since the epoch.
#[derive(Clone, Debug)]
pub struct BucketQueryParams {
    pub pattern: Option<String>,
    pub name_contains: Option<String>,
    pub name_prefix: Option<String>,
    pub name_suffix: Option<String>,
    pub status_filter: Option<BucketStatus>,
    pub created_after: Option<i64>,
    pub created_before: Option<i64>,
    pub encrypted_only: bool,
    pub sort_by: BucketSortField,
    pub sort_order: SortOrder,
    pub limit: Option<usize>,
}

/// What a query reads of a listed bucket: its name, status, creation time
/// in whole seconds and in milliseconds, and whether it is encrypted.
#[derive(Debug)]
pub struct BucketListing {
    pub name: String,
    pub status: Option<BucketStatus>,
    pub creation_secs: i64,
    pub creation_ms: i64,
    pub encrypted: bool,
}

/// The prefix to ask the service to filter by: the pattern when it is the
/// only name criterion, else the name prefix when it is, else none.
pub open spec fn api_prefix_spec(p: BucketQueryParams) -> Option<Seq<char>> {
    if p.pattern is Some && p.name_contains is None && p.name_prefix is None && p.name_suffix is None {
        opt_text(p.pattern)
    } else if p.name_prefix is Some && p.pattern is None && p.name_contains is None
        && p.name_suffix is None {
        opt_text(p.name_prefix)
    } else {
        None
    }
}

pub fn api_prefix(p: &BucketQueryParams) -> (r: Option<String>)
    ensures
        opt_text(r) == api_prefix_spec(*p),
{
    let only_pattern = p.pattern.is_some() && p.name_contains.is_none() && p.name_prefix.is_none()
        && p.name_suffix.is_none();
    let only_prefix = p.name_prefix.is_some() && p.pattern.is_none() && p.name_contains.is_none()
        && p.name_suffix.is_none();
    if only_pattern {
        match &p.pattern {
            Some(s) => Some(s.clone()),
            None => None,
        }
    } else if only_prefix {
        match &p.name_prefix {
            Some(s) => Some(s.clone()),
            None => None,
        }
    } else {
        None
    }
}

pub open spec fn opt_holds(o: Option<String>, pred: spec_fn(Seq<char>) -> bool) -> bool {
    match o {
        Some(s) => pred(s@),
        None => true,
    }
}

/// The criteria keep bucket `b`.  Where the service already filtered by
/// prefix, the pattern, contains and prefix criteria are not applied again.
pub open spec fn keeps(p: BucketQueryParams, b: BucketListing, server_filtered: bool) -> bool {
    let name = b.name@;
    &&& (server_filtered || (opt_holds(p.pattern, |x: Seq<char>| starts_with(name, x)) && opt_holds(
        p.name_contains,
        |x: Seq<char>| has_substring(name, x),
    ) && opt_holds(p.name_prefix, |x: Seq<char>| starts_with(name, x))))
    &&& opt_holds(p.name_suffix, |x: Seq<char>| ends_with(name, x))
    &&& (p.status_filter is Some ==> b.status == p.status_filter)
    &&& (p.created_after matches Some(a) ==> b.creation_secs >= a)
    &&& (p.created_before matches Some(z) ==> b.creation_secs <= z)
    &&& (p.encrypted_only ==> b.encrypted)
}

/// The buckets of `s` that the criteria keep, in order.
pub open spec fn kept_listings(s: Seq<BucketListing>, p: BucketQueryParams, server_filtered: bool) -> Seq<
    BucketListing,
>
    decreases s.len(),
{
    if s.len() == 0 {
        s
    } else {
        let rest = kept_listings(s.drop_first(), p, server_filtered);
        if keeps(p, s[0], server_filtered) {
            seq![s[0]] + rest
        } else {
            rest
        }
    }
}

fn opt_starts_with(name: &str, o: &Option<String>) -> (r: bool)
    ensures
        r == opt_holds(*o, |x: Seq<char>| starts_with(name@, x)),
{
    match o {
        Some(x) => {
            let n = name.unicode_len();
            let m = x.as_str().unicode_len();
            m <= n && crate::text::str_eq(name.substring_char(0, m), x.as_str())
        },
        None => true,
    }
}

fn opt_ends_with(name: &str, o: &Option<String>) -> (r: bool)
    ensures
        r == opt_holds(*o, |x: Seq<char>| ends_with(name@, x)),
{
    match o {
        Some(x) => {
            let n = name.unicode_len();
            let m = x.as_str().unicode_len();
            m <= n && crate::text::str_eq(name.substring_char(n - m, n), x.as_str())
        },
        None => true,
    }
}

fn opt_contains(name: &str, o: &Option<String>) -> (r: bool)
    ensures
        r == opt_holds(*o, |x: Seq<char>| has_substring(name@, x)),
{
    match o {
        Some(x) => contains_str(name, x.as_str()),
        None => true,
    }
}

fn keeps_exec(p: &BucketQueryParams, b: &BucketListing, server_filtered: bool) -> (r: bool)
    ensures
        r == keeps(*p, *b, server_filtered),
{
    let name = b.name.as_str();
    let names_ok = server_filtered || (opt_starts_with(name, &p.pattern) && opt_contains(
        name,
        &p.name_contains,
    ) && opt_starts_with(name, &p.name_prefix));
    let status_ok = match p.status_filter {
        Some(s) => match b.status {
            Some(t) => s == t,
            None => false,
        },
        None => true,
    };
    let after_ok = match p.created_after {
        Some(a) => b.creation_secs >= a,
        None => true,
    };
    let before_ok = match p.created_before {
        Some(z) => b.creation_secs <= z,
        None => true,
    };
    names_ok && opt_ends_with(name, &p.name_suffix) && status_ok && after_ok && before_ok && (
    !p.encrypted_only || b.encrypted)
}

/// The buckets that the criteria keep, in their order.
pub fn filter_buckets(p: &BucketQueryParams, buckets: Vec<BucketListing>, server_filtered: bool) -> (r:
    Vec<BucketListing>)
    ensures
        r@ == kept_listings(buckets@, *p, server_filtered),
{
    let ghost all = buckets@;
    let mut rest = buckets;
    let mut out: Vec<BucketListing> = Vec::new();
    while rest.len() > 0
        invariant
            out@ + kept_listings(rest@, *p, server_filtered) == kept_listings(all, *p, server_filtered),
        decreases rest.len(),
    {
        let ghost before = rest@;
        let x = rest.remove(0);
        assert(rest@ =~= before.drop_first());
        let keep = keeps_exec(p, &x, server_filtered);
        let ghost out_before = out@;
        if keep {
            out.push(x);
            assert(out@ + kept_listings(rest@, *p, server_filtered) =~= out_before + kept_listings(
                before,
                *p,
                server_filtered,
            ));
        }
    }
    assert(out@ + kept_listings(rest@, *p, server_filtered) =~= out@);
    out
}

/// The order of a listing: by name or by creation time, ascending or
/// descending.
pub open spec fn listing_le(by: BucketSortField, order: SortOrder, a: BucketListing, b: BucketListing) -> bool {
    match (by, order) {
        (BucketSortField::Name, SortOrder::Asc) => text_le(a.name@, b.name@),
        (BucketSortField::Name, SortOrder::Desc) => text_le(b.name@, a.name@),
        (BucketSortField::Created, SortOrder::Asc) => a.creation_ms <= b.creation_ms,
        (BucketSortField::Created, SortOrder::Desc) => b.creation_ms <= a.creation_ms,
    }
}

pub open spec fn listing_order(by: BucketSortField, order: SortOrder) -> spec_fn(BucketListing, BucketListing) -> bool {
    |a: BucketListing, b: BucketListing| listing_le(by, order, a, b)
}

proof fn lemma_listing_le_total(by: BucketSortField, order: SortOrder, a: BucketListing, b: BucketListing)
    ensures
        listing_le(by, order, a, b) || listing_le(by, order, b, a),
{
    lemma_text_le_total(a.name@, b.name@);
}

proof fn lemma_listing_le_transitive(
    by: BucketSortField,
    order: SortOrder,
    a: BucketListing,
    b: BucketListing,
    c: BucketListing,
)
    requires
        listing_le(by, order, a, b),
        listing_le(by, order, b, c),
    ensures
        listing_le(by, order, a, c),
{
    match (by, order) {
        (BucketSortField::Name, SortOrder::Asc) => lemma_text_le_transitive(a.name@, b.name@, c.name@),
        (BucketSortField::Name, SortOrder::Desc) => lemma_text_le_transitive(c.name@, b.name@, a.name@),
        _ => {},
    }
}

fn listing_le_exec(by: BucketSortField, order: SortOrder, a: &BucketListing, b: &BucketListing) -> (r: bool)
    ensures
        r == listing_le(by, order, *a, *b),
{
    match (by, order) {
        (BucketSortField::Name, SortOrder::Asc) => text_le_exec(a.name.as_str(), b.name.as_str()),
        (BucketSortField::Name, SortOrder::Desc) => text_le_exec(b.name.as_str(), a.name.as_str()),
        (BucketSortField::Created, SortOrder::Asc) => a.creation_ms <= b.creation_ms,
        (BucketSortField::Created, SortOrder::Desc) => b.creation_ms <= a.creation_ms,
    }
}

/// Sorts listings by the given field and direction; listings that compare
/// equal keep their relative order.
pub fn sort_buckets(buckets: Vec<BucketListing>, by: BucketSortField, order: SortOrder) -> (r: Vec<
    BucketListing,
>)
    ensures
        sorted_by(r@, listing_order(by, order)),
        r@.to_multiset() == buckets@.to_multiset(),
{
    let ghost all = buckets@;
    let mut rest = buckets;
    let mut out: Vec<BucketListing> = Vec::new();
    while rest.len() > 0
        invariant
            sorted_by(out@, listing_order(by, order)),
            out@.to_multiset().add(rest@.to_multiset()) == all.to_multiset(),
        decreases rest.len(),
    {
        let ghost rest_before = rest@;
        let x = rest.remove(0);
        let mut j: usize = 0;
        let mut stop = false;
        while !stop
            invariant
                j <= out.len(),
                forall|k: int| 0 <= k < j ==> listing_le(by, order, #[trigger] out@[k], x),
                stop ==> (j == out.len() || !listing_le(by, order, out@[j as int], x)),
            decreases out.len() - j + (if stop { 0int } else { 1int }),
        {
            if j == out.len() || !listing_le_exec(by, order, &out[j], &x) {
                stop = true;
            } else {
                j = j + 1;
            }
        }
        let ghost vo = out@;
        let ghost xv = x;
        out.insert(j, x);
        proof {
            broadcast use vstd::multiset::group_multiset_axioms;

            let le = listing_order(by, order);
            if j < vo.len() {
                lemma_listing_le_total(by, order, xv, vo[j as int]);
            }
            assert forall|a: int, b: int| 0 <= a < b < out@.len() implies #[trigger] le(
                out@[a],
                out@[b],
            ) by {
                if b < j {
                    assert(le(vo[a], vo[b]));
                } else if b == j {
                } else if a < j {
                    assert(le(vo[a], vo[b - 1]));
                } else if a == j {
                    if b - 1 > j {
                        assert(le(vo[j as int], vo[b - 1]));
                        lemma_listing_le_transitive(by, order, xv, vo[j as int], vo[b - 1]);
                    }
                } else {
                    assert(le(vo[a - 1], vo[b - 1]));
                }
            }
            assert(rest_before =~= seq![xv] + rest@);
            vstd::seq_lib::lemma_multiset_commutative(seq![xv], rest@);
            assert(out@.to_multiset() =~= vo.to_multiset().insert(xv));
            assert(out@.to_multiset().add(rest@.to_multiset()) =~= all.to_multiset());
        }
    }
    proof {
        broadcast use vstd::multiset::group_multiset_axioms;

        assert(rest@.to_multiset() =~= vstd::multiset::Multiset::empty());
        assert(out@.to_multiset().add(rest@.to_multiset()) =~= out@.to_multiset());
    }
    out
}

/// The buckets a query shows: those the criteria keep (the service having
/// filtered by `api_prefix` where there is one), in the requested order,
/// at most `limit` of them.
pub fn select_buckets(p: &BucketQueryParams, buckets: Vec<BucketListing>) -> (r: Vec<BucketListing>)
    ensures
        ({
            let kept = kept_listings(buckets@, *p, api_prefix_spec(*p) is Some);
            exists|s: Seq<BucketListing>|
                {
                    &&& s.to_multiset() == kept.to_multiset()
                    &&& sorted_by(s, listing_order(p.sort_by, p.sort_order))
                    &&& r@ == match p.limit {
                        Some(n) => if n < s.len() {
                            s.take(n as int)
                        } else {
                            s
                        },
                        None => s,
                    }
                }
        }),
{
    let server_filtered = api_prefix(p).is_some();
    let kept = filter_buckets(p, buckets, server_filtered);
    let mut sorted = sort_buckets(kept, p.sort_by, p.sort_order);
    let ghost s = sorted@;
    match p.limit {
        Some(n) => {
            if n < sorted.len() {
                sorted.truncate(n);
                assert(sorted@ =~= s.take(n as int));
            }
        },
        None => {},
    }
    sorted
}

} // verus!
