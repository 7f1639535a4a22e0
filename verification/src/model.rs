//! The catalog's data: risk levels, catalog entries, installed entries and
//! the order in which the list shows them.
use std::cmp::Ordering;
use vstd::prelude::*;
use vstd::std_specs::cmp::PartialEqSpecImpl;
use vstd::std_specs::cmp::PartialOrdSpecImpl;

use crate::text::{chars_of, lower, lowercase, text_less, text_lt, lemma_text_lt_irreflexive, lemma_text_lt_total, lemma_text_lt_transitive};

verus! {

/// How risky it is to remove a package.
#[derive(Clone, Copy, Debug, PartialEq, Eq, Structural)]
pub enum Risk {
    Safe,
    Caution,
    Advanced,
}

impl Risk {
    /// The rank of a risk level in the list order: safe first, advanced last.
    pub open spec fn rank(self) -> u8 {
        match self {
            Risk::Safe => 0,
            Risk::Caution => 1,
            Risk::Advanced => 2,
        }
    }

    /// The rank of this risk level in the list order.
    pub fn sort_key(self) -> (k: u8)
        ensures
            k == self.rank(),
    {
        match self {
            Risk::Safe => 0,
            Risk::Caution => 1,
            Risk::Advanced => 2,
        }
    }
}

/// One package of the catalog.
#[derive(Clone, Debug)]
pub struct PackageEntry {
    pub id: String,
    pub category: String,
    pub description: String,
    pub risk: Risk,
}

/// A catalog package that is installed on the device, with its selection mark.
#[derive(Clone, Debug)]
pub struct InstalledBloat {
    pub meta: PackageEntry,
    pub selected: bool,
}

/// What the list order compares: the risk rank, then the lower-case
/// category, then the package id.
pub struct OrderKey {
    pub rank: u8,
    pub category: Seq<char>,
    pub id: Seq<char>,
}

/// The order key of an entry.
pub open spec fn order_key(b: InstalledBloat) -> OrderKey {
    OrderKey { rank: b.meta.risk.rank(), category: lower(b.meta.category@), id: b.meta.id@ }
}

/// Strict lexicographic order on order keys.
pub open spec fn key_before(x: OrderKey, y: OrderKey) -> bool {
    ||| x.rank < y.rank
    ||| x.rank == y.rank && text_lt(x.category, y.category)
    ||| x.rank == y.rank && x.category == y.category && text_lt(x.id, y.id)
}

/// The three-way comparison of two entries in the list order.
pub open spec fn compare_spec(a: InstalledBloat, b: InstalledBloat) -> Ordering {
    if key_before(order_key(a), order_key(b)) {
        Ordering::Less
    } else if key_before(order_key(b), order_key(a)) {
        Ordering::Greater
    } else {
        Ordering::Equal
    }
}

/// No key comes before itself.
pub proof fn lemma_key_irreflexive(x: OrderKey)
    ensures
        !key_before(x, x),
{
    lemma_text_lt_irreflexive(x.category);
    lemma_text_lt_irreflexive(x.id);
}

/// Two keys are equal exactly when neither comes before the other, and at
/// most one comes before the other.
pub proof fn lemma_key_total(x: OrderKey, y: OrderKey)
    ensures
        x == y <==> (!key_before(x, y) && !key_before(y, x)),
        !(key_before(x, y) && key_before(y, x)),
{
    lemma_text_lt_total(x.category, y.category);
    lemma_text_lt_total(x.id, y.id);
    lemma_key_irreflexive(x);
}

/// The key order is transitive.
pub proof fn lemma_key_transitive(x: OrderKey, y: OrderKey, z: OrderKey)
    requires
        key_before(x, y),
        key_before(y, z),
    ensures
        key_before(x, z),
{
    if x.rank == y.rank && y.rank == z.rank {
        if text_lt(x.category, y.category) && text_lt(y.category, z.category) {
            lemma_text_lt_transitive(x.category, y.category, z.category);
        }
        lemma_text_lt_irreflexive(x.category);
        if x.category == y.category && y.category == z.category && text_lt(x.id, y.id) && text_lt(
            y.id,
            z.id,
        ) {
            lemma_text_lt_transitive(x.id, y.id, z.id);
        }
    }
}

/// The list order of two entries is a total order on their keys: `Less` and
/// `Greater` swap when the entries swap, `Equal` holds exactly for equal keys,
/// and `Less` is transitive.
pub proof fn lemma_compare_total_order(a: InstalledBloat, b: InstalledBloat, c: InstalledBloat)
    ensures
        (compare_spec(a, b) == Ordering::Less) <==> (compare_spec(b, a) == Ordering::Greater),
        (compare_spec(a, b) == Ordering::Equal) <==> (order_key(a) == order_key(b)),
        compare_spec(a, a) == Ordering::Equal,
        compare_spec(a, b) == Ordering::Less && compare_spec(b, c) == Ordering::Less
            ==> compare_spec(a, c) == Ordering::Less,
{
    lemma_key_total(order_key(a), order_key(b));
    lemma_key_irreflexive(order_key(a));
    if key_before(order_key(a), order_key(b)) && key_before(order_key(b), order_key(c)) {
        lemma_key_transitive(order_key(a), order_key(b), order_key(c));
    }
}

/// The order key of an entry, computed.
pub struct SortKey {
    pub rank: u8,
    pub category: Vec<char>,
    pub id: Vec<char>,
}

impl SortKey {
    /// The key that this value holds.
    pub open spec fn key(&self) -> OrderKey {
        OrderKey { rank: self.rank, category: self.category@, id: self.id@ }
    }
}

impl InstalledBloat {
    /// The order key of this entry.
    pub fn sort_key(&self) -> (k: SortKey)
        ensures
            k.key() == order_key(*self),
    {
        let lowered = lowercase(self.meta.category.as_str());
        SortKey {
            rank: self.meta.risk.sort_key(),
            category: chars_of(lowered.as_str()),
            id: chars_of(self.meta.id.as_str()),
        }
    }

    /// Three-way comparison in the list order: by risk, then by category
    /// ignoring case, then by package id.
    pub fn compare(&self, other: &Self) -> (res: Ordering)
        ensures
            res == compare_spec(*self, *other),
    {
        let a = self.sort_key();
        let b = other.sort_key();
        if key_less(&a, &b) {
            Ordering::Less
        } else if key_less(&b, &a) {
            Ordering::Greater
        } else {
            Ordering::Equal
        }
    }
}

/// Whether key `a` comes before key `b`.
pub fn key_less(a: &SortKey, b: &SortKey) -> (res: bool)
    ensures
        res == key_before(a.key(), b.key()),
{
    if a.rank < b.rank {
        return true;
    }
    if a.rank > b.rank {
        return false;
    }
    if text_less(&a.category, &b.category) {
        return true;
    }
    if text_less(&b.category, &a.category) {
        proof {
            lemma_text_lt_total(a.category@, b.category@);
        }
        return false;
    }
    proof {
        lemma_text_lt_total(a.category@, b.category@);
    }
    text_less(&a.id, &b.id)
}

/// Two installed entries are the same package when their ids agree.
impl PartialEq for InstalledBloat {
    fn eq(&self, other: &Self) -> (res: bool) {
        self.meta.id == other.meta.id
    }
}

impl PartialEqSpecImpl for InstalledBloat {
    open spec fn obeys_eq_spec() -> bool {
        true
    }

    open spec fn eq_spec(&self, other: &InstalledBloat) -> bool {
        self.meta.id@ == other.meta.id@
    }
}

impl Eq for InstalledBloat {

}

/// Installed entries are ordered by `compare`.
impl PartialOrd for InstalledBloat {
    fn partial_cmp(&self, other: &Self) -> (res: Option<Ordering>) {
        Some(self.compare(other))
    }
}

impl PartialOrdSpecImpl for InstalledBloat {
    open spec fn obeys_partial_cmp_spec() -> bool {
        true
    }

    open spec fn partial_cmp_spec(&self, other: &InstalledBloat) -> Option<Ordering> {
        Some(compare_spec(*self, *other))
    }
}

} // verus!
