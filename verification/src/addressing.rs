//! Facet addressing: a request (a set of facets) resolves to exactly one
//! kind, or is refused, or is found ambiguous with the facets that would
//! split the survivors named. There is never a ranked guess.
//!
//! Resolving touches only the posting lists of the requested facets, so the
//! work a request does depends on the request, not on how many kinds the
//! field holds.

use vstd::prelude::*;
use crate::order::{
    contains_str, insert_sorted, lemma_sorted_no_duplicates, strictly_sorted, views,
};
use crate::kindgen::{entry_view, spec_manifest, universe_manifest, KindSpec};
use crate::text::{append_decimal, decimal, str_eq};

verus! {

/// Why an address could not be issued.
#[derive(Debug, Clone, PartialEq, Eq)]
pub enum RefuseReason {
    /// The request named no facets.
    NoFacets,
    /// The request named a facet outside the field's vocabulary.
    UnknownFacet(String),
    /// Every requested facet is known, but no kind carries all of them.
    NoMatch { matched: Vec<&'static str> },
}

/// The three outcomes of resolving a request.
#[derive(Debug, Clone, PartialEq, Eq)]
pub enum Verdict {
    /// Exactly one kind carries every requested facet.
    Address { tag: &'static str, matched: Vec<&'static str> },
    /// No address could be issued.
    Refuse(RefuseReason),
    /// Several kinds qualify; adding any one of `add_one_of` to the request
    /// narrows them. An empty `add_one_of` means the candidates carry the
    /// same facets and cannot be told apart in this field.
    Ambiguous {
        matched: Vec<&'static str>,
        candidates: Vec<&'static str>,
        add_one_of: Vec<&'static str>,
    },
}

/// A facet field: every item with the facets it carries, and the inverted
/// index from each facet to the items posted under it.
#[derive(Debug, Clone)]
pub struct AddressedField {
    items: Vec<(&'static str, Vec<&'static str>)>,
    postings: Vec<(&'static str, Vec<&'static str>)>,
}

// ---------- Tables: vectors of (name, names) as maps ----------

/// The names that key a table.
pub open spec fn keys_of(v: Seq<(&'static str, Vec<&'static str>)>) -> Seq<Seq<char>> {
    v.map_values(|e: (&'static str, Vec<&'static str>)| e.0@)
}

/// A table read as a map from each key to the set of names listed with it
/// (a later row wins over an earlier one with the same key).
pub open spec fn table_map(v: Seq<(&'static str, Vec<&'static str>)>) -> Map<
    Seq<char>,
    Set<Seq<char>>,
>
    decreases v.len(),
{
    if v.len() == 0 {
        Map::empty()
    } else {
        table_map(v.drop_last()).insert(v.last().0@, views(v.last().1@).to_set())
    }
}

/// No key twice, and no name twice in a row's list.
pub open spec fn table_wf(v: Seq<(&'static str, Vec<&'static str>)>) -> bool {
    &&& keys_of(v).no_duplicates()
    &&& forall|i: int| 0 <= i < v.len() ==> (#[trigger] views(v[i].1@)).no_duplicates()
}

proof fn lemma_table_dom(v: Seq<(&'static str, Vec<&'static str>)>)
    ensures
        table_map(v).dom() == keys_of(v).to_set(),
    decreases v.len(),
{
    if v.len() > 0 {
        lemma_table_dom(v.drop_last());
        assert(keys_of(v.drop_last()) =~= keys_of(v).drop_last());
        assert(keys_of(v).to_set() =~= keys_of(v.drop_last()).to_set().insert(v.last().0@)) by {
            assert forall|k: Seq<char>| keys_of(v).to_set().contains(k) implies keys_of(
                v.drop_last(),
            ).to_set().insert(v.last().0@).contains(k) by {
                let i = choose|i: int| 0 <= i < keys_of(v).len() && keys_of(v)[i] == k;
                if i < v.len() - 1 {
                    assert(keys_of(v.drop_last())[i] == k);
                }
            }
            assert forall|k: Seq<char>| keys_of(v.drop_last()).to_set().insert(
                v.last().0@,
            ).contains(k) implies keys_of(v).to_set().contains(k) by {
                if k == v.last().0@ {
                    assert(keys_of(v)[v.len() - 1] == k);
                } else {
                    let i = choose|i: int|
                        0 <= i < keys_of(v.drop_last()).len() && keys_of(v.drop_last())[i] == k;
                    assert(keys_of(v)[i] == k);
                }
            }
        }
    } else {
        assert(keys_of(v).to_set() =~= Set::empty());
    }
}

proof fn lemma_table_at(v: Seq<(&'static str, Vec<&'static str>)>, i: int)
    requires
        keys_of(v).no_duplicates(),
        0 <= i < v.len(),
    ensures
        table_map(v).dom().contains(v[i].0@),
        table_map(v)[v[i].0@] == views(v[i].1@).to_set(),
    decreases v.len(),
{
    if i < v.len() - 1 {
        assert(keys_of(v.drop_last()) =~= keys_of(v).drop_last());
        assert(keys_of(v)[i] != keys_of(v)[v.len() - 1]);
        lemma_table_at(v.drop_last(), i);
    }
}

proof fn lemma_table_facts(v: Seq<(&'static str, Vec<&'static str>)>)
    requires
        table_wf(v),
    ensures
        forall|i: int|
            0 <= i < v.len() ==> table_map(v).dom().contains(#[trigger] v[i].0@) && table_map(
                v,
            )[v[i].0@] == views(v[i].1@).to_set() && table_map(v)[v[i].0@].len() == v[i].1.len(),
        forall|k: Seq<char>|
            #[trigger] table_map(v).dom().contains(k) ==> exists|i: int|
                0 <= i < v.len() && v[i].0@ == k,
        table_map(v).dom().len() == v.len(),
        forall|k: Seq<char>| #[trigger] table_map(v).dom().contains(k) ==> table_map(v)[k].finite(),
{
    lemma_table_dom(v);
    assert forall|i: int| 0 <= i < v.len() implies table_map(v).dom().contains(
        #[trigger] v[i].0@,
    ) && table_map(v)[v[i].0@] == views(v[i].1@).to_set() && table_map(v)[v[i].0@].len()
        == v[i].1.len() by {
        lemma_table_at(v, i);
        assert(views(v[i].1@).no_duplicates());
        views(v[i].1@).unique_seq_to_set();
    }
    assert forall|k: Seq<char>| #[trigger] table_map(v).dom().contains(k) implies exists|i: int|
        0 <= i < v.len() && v[i].0@ == k by {
        let i = choose|i: int| 0 <= i < keys_of(v).len() && keys_of(v)[i] == k;
        assert(v[i].0@ == k);
    }
    keys_of(v).unique_seq_to_set();
}

proof fn lemma_table_update(
    v: Seq<(&'static str, Vec<&'static str>)>,
    i: int,
    e: (&'static str, Vec<&'static str>),
)
    requires
        table_wf(v),
        0 <= i < v.len(),
        e.0@ == v[i].0@,
        views(e.1@).no_duplicates(),
    ensures
        table_wf(v.update(i, e)),
        table_map(v.update(i, e)) == table_map(v).insert(e.0@, views(e.1@).to_set()),
{
    let w = v.update(i, e);
    assert(keys_of(w) =~= keys_of(v));
    assert forall|j: int| 0 <= j < w.len() implies (#[trigger] views(w[j].1@)).no_duplicates() by {
        if j != i {
            assert(views(w[j].1@) == views(v[j].1@));
        }
    }
    lemma_table_dom(v);
    lemma_table_dom(w);
    assert forall|k: Seq<char>| #[trigger] table_map(w).dom().contains(k) implies table_map(w)[k]
        == table_map(v).insert(e.0@, views(e.1@).to_set())[k] by {
        let j = choose|j: int| 0 <= j < keys_of(w).len() && keys_of(w)[j] == k;
        assert(keys_of(w)[j] == w[j].0@);
        lemma_table_at(w, j);
        if j != i {
            assert(keys_of(v)[i] != keys_of(v)[j]);
            lemma_table_at(v, j);
        }
    }
    assert(keys_of(v)[i] == e.0@);
    assert(table_map(w) =~= table_map(v).insert(e.0@, views(e.1@).to_set()));
}

proof fn lemma_table_push(v: Seq<(&'static str, Vec<&'static str>)>, e: (&'static str, Vec<&'static str>))
    requires
        table_wf(v),
        !table_map(v).dom().contains(e.0@),
        views(e.1@).no_duplicates(),
    ensures
        table_wf(v.push(e)),
        table_map(v.push(e)) == table_map(v).insert(e.0@, views(e.1@).to_set()),
{
    let w = v.push(e);
    assert(w.drop_last() =~= v);
    lemma_table_dom(v);
    assert(keys_of(w) =~= keys_of(v).push(e.0@));
    assert forall|a: int, b: int| 0 <= a < b < keys_of(w).len() implies keys_of(w)[a] != keys_of(
        w,
    )[b] by {
        if b == v.len() {
            assert(keys_of(v).contains(keys_of(w)[a]));
        }
    }
    assert forall|j: int| 0 <= j < w.len() implies (#[trigger] views(w[j].1@)).no_duplicates() by {
        if j < v.len() {
            assert(views(w[j].1@) == views(v[j].1@));
        }
    }
}

/// Where `k` keys the table, if it does.
fn find_key(v: &Vec<(&'static str, Vec<&'static str>)>, k: &str) -> (r: Option<usize>)
    ensures
        match r {
            Some(i) => i < v.len() && v@[i as int].0@ == k@,
            None => !keys_of(v@).contains(k@),
        },
{
    let mut i: usize = 0;
    while i < v.len()
        invariant
            i <= v.len(),
            forall|j: int| 0 <= j < i ==> v@[j].0@ != k@,
        decreases v.len() - i,
    {
        if str_eq(v[i].0, k) {
            return Some(i);
        }
        i = i + 1;
    }
    assert forall|j: int| 0 <= j < keys_of(v@).len() implies keys_of(v@)[j] != k@ by {
        assert(keys_of(v@)[j] == v@[j].0@);
    }
    None
}

// ---------- What a request resolves to ----------

/// What resolving a request comes to, stated with sets.
pub enum Resolution {
    NoFacets,
    UnknownFacet(Seq<char>),
    NoMatch(Set<Seq<char>>),
    Address(Seq<char>, Set<Seq<char>>),
    Ambiguous(Set<Seq<char>>, Set<Seq<char>>, Set<Seq<char>>),
}

/// Every requested facet is in the vocabulary (the posting map's keys).
pub open spec fn all_known(postings: Map<Seq<char>, Set<Seq<char>>>, r: Seq<Seq<char>>) -> bool {
    forall|k: int| 0 <= k < r.len() ==> postings.dom().contains(#[trigger] r[k])
}

/// `j` is the first position of the request whose facet is unknown.
pub open spec fn is_first_unknown(
    postings: Map<Seq<char>, Set<Seq<char>>>,
    r: Seq<Seq<char>>,
    j: int,
) -> bool {
    &&& 0 <= j < r.len()
    &&& !postings.dom().contains(r[j])
    &&& forall|k: int| 0 <= k < j ==> postings.dom().contains(#[trigger] r[k])
}

/// `x` is posted under every facet of `req`.
pub open spec fn posted_under_all(
    postings: Map<Seq<char>, Set<Seq<char>>>,
    req: Set<Seq<char>>,
    x: Seq<char>,
) -> bool {
    forall|f: Seq<char>| #[trigger] req.contains(f) ==> postings[f].contains(x)
}

/// The items posted under every requested facet.
pub open spec fn candidates_of(
    postings: Map<Seq<char>, Set<Seq<char>>>,
    req: Set<Seq<char>>,
) -> Set<Seq<char>> {
    Set::new(|x: Seq<char>| posted_under_all(postings, req, x))
}

/// Some candidate carries `f`.
pub open spec fn some_carry(
    items: Map<Seq<char>, Set<Seq<char>>>,
    cands: Set<Seq<char>>,
    f: Seq<char>,
) -> bool {
    exists|c: Seq<char>| #[trigger] cands.contains(c) && items[c].contains(f)
}

/// Every candidate carries `f`.
pub open spec fn all_carry(
    items: Map<Seq<char>, Set<Seq<char>>>,
    cands: Set<Seq<char>>,
    f: Seq<char>,
) -> bool {
    forall|c: Seq<char>| #[trigger] cands.contains(c) ==> items[c].contains(f)
}

/// The facets some but not all candidates carry, less those requested.
pub open spec fn discriminators_of(
    items: Map<Seq<char>, Set<Seq<char>>>,
    cands: Set<Seq<char>>,
    req: Set<Seq<char>>,
) -> Set<Seq<char>> {
    Set::new(
        |f: Seq<char>| some_carry(items, cands, f) && !all_carry(items, cands, f) && !req.contains(f),
    )
}

/// The verdict a request earns: an unknown facet (the first one) is refused,
/// an empty request is refused, and otherwise the candidates decide.
pub open spec fn resolution(
    items: Map<Seq<char>, Set<Seq<char>>>,
    postings: Map<Seq<char>, Set<Seq<char>>>,
    r: Seq<Seq<char>>,
) -> Resolution {
    if !all_known(postings, r) {
        Resolution::UnknownFacet(r[choose|j: int| is_first_unknown(postings, r, j)])
    } else if r.len() == 0 {
        Resolution::NoFacets
    } else {
        let req = r.to_set();
        let c = candidates_of(postings, req);
        if c.len() == 0 {
            Resolution::NoMatch(req)
        } else if c.len() == 1 {
            Resolution::Address(c.choose(), req)
        } else {
            Resolution::Ambiguous(req, c, discriminators_of(items, c, req))
        }
    }
}

/// Adds the size of `m`'s entry for each element folded in.
pub open spec fn weigher(m: Map<Seq<char>, Set<Seq<char>>>) -> spec_fn(int, Seq<char>) -> int {
    |acc: int, x: Seq<char>| acc + m[x].len()
}

/// The total size of `m`'s entries for the elements of `s`.
pub open spec fn weight(m: Map<Seq<char>, Set<Seq<char>>>, s: Set<Seq<char>>) -> int {
    s.fold(0int, weigher(m))
}

/// The posting entries a request touches: the requested facets' posting
/// lists, and the candidates' facet sets when several remain. Refusals for
/// an unknown facet or an empty request touch nothing.
pub open spec fn resolution_cost(
    items: Map<Seq<char>, Set<Seq<char>>>,
    postings: Map<Seq<char>, Set<Seq<char>>>,
    r: Seq<Seq<char>>,
) -> int {
    if !all_known(postings, r) || r.len() == 0 {
        0
    } else {
        let req = r.to_set();
        let c = candidates_of(postings, req);
        weight(postings, req) + if c.len() > 1 {
            weight(items, c)
        } else {
            0
        }
    }
}

/// `x`, or `usize::MAX` where it is larger.
pub open spec fn capped(x: int) -> int {
    if x <= usize::MAX {
        x
    } else {
        usize::MAX as int
    }
}

/// `v` lists the set `s` in order, each once.
pub open spec fn sorted_as(v: Vec<&'static str>, s: Set<Seq<char>>) -> bool {
    strictly_sorted(views(v@)) && views(v@).to_set() == s
}

/// The verdict states the resolution.
pub open spec fn verdict_is(v: Verdict, r: Resolution) -> bool {
    match r {
        Resolution::NoFacets => v matches Verdict::Refuse(RefuseReason::NoFacets),
        Resolution::UnknownFacet(f) => v matches Verdict::Refuse(RefuseReason::UnknownFacet(s))
            && s@ == f,
        Resolution::NoMatch(m) => v matches Verdict::Refuse(RefuseReason::NoMatch { matched })
            && sorted_as(matched, m),
        Resolution::Address(t, m) => v matches Verdict::Address { tag, matched } && tag@ == t
            && sorted_as(matched, m),
        Resolution::Ambiguous(m, c, d) => v matches Verdict::Ambiguous {
            matched,
            candidates,
            add_one_of,
        } && sorted_as(matched, m) && sorted_as(candidates, c) && sorted_as(add_one_of, d),
    }
}

proof fn lemma_weight_empty(m: Map<Seq<char>, Set<Seq<char>>>)
    ensures
        weight(m, Set::empty()) == 0,
{
    vstd::set::fold::lemma_fold_empty(0int, weigher(m));
}

proof fn lemma_weight_insert(m: Map<Seq<char>, Set<Seq<char>>>, s: Set<Seq<char>>, x: Seq<char>)
    requires
        s.finite(),
        !s.contains(x),
    ensures
        weight(m, s.insert(x)) == weight(m, s) + m[x].len(),
{
    let f = weigher(m);
    assert(vstd::set::fold::is_fun_commutative(f)) by {
        assert forall|a1: Seq<char>, a2: Seq<char>, b: int| #[trigger] f(f(b, a1), a2) == f(
            f(b, a2),
            a1,
        ) by {}
    }
    vstd::set::fold::lemma_fold_insert(s, 0int, f, x);
}

proof fn lemma_first_unknown_unique(
    postings: Map<Seq<char>, Set<Seq<char>>>,
    r: Seq<Seq<char>>,
    j: int,
)
    requires
        is_first_unknown(postings, r, j),
    ensures
        !all_known(postings, r),
        (choose|i: int| is_first_unknown(postings, r, i)) == j,
{
    let i = choose|i: int| is_first_unknown(postings, r, i);
    assert(is_first_unknown(postings, r, i));
    if i < j {
        assert(postings.dom().contains(r[i]));
    } else if i > j {
        assert(postings.dom().contains(r[j]));
    }
}

proof fn lemma_first_unknown_exists(
    postings: Map<Seq<char>, Set<Seq<char>>>,
    r: Seq<Seq<char>>,
    k: int,
)
    requires
        0 <= k < r.len(),
        !postings.dom().contains(r[k]),
    ensures
        exists|j: int| is_first_unknown(postings, r, j),
    decreases k,
{
    if forall|i: int| 0 <= i < k ==> postings.dom().contains(#[trigger] r[i]) {
        assert(is_first_unknown(postings, r, k));
    } else {
        let i = choose|i: int| 0 <= i < k && !postings.dom().contains(#[trigger] r[i]);
        lemma_first_unknown_exists(postings, r, i);
    }
}

/// `a + b`, or `usize::MAX` where that is larger.
fn add_capped(a: usize, b: usize) -> (r: usize)
    ensures
        r == capped(a + b),
{
    if a > usize::MAX - b {
        usize::MAX
    } else {
        a + b
    }
}

/// Where `k` keys the table, known to be there.
fn key_index(v: &Vec<(&'static str, Vec<&'static str>)>, k: &str) -> (i: usize)
    requires
        keys_of(v@).contains(k@),
    ensures
        i < v.len(),
        v@[i as int].0@ == k@,
{
    match find_key(v, k) {
        Some(i) => i,
        None => {
            proof {
                assert(false);
            }
            0
        },
    }
}

// ---------- The field's model ----------

/// The posting map after `item` is posted under each facet of `facets`.
pub open spec fn posted(
    postings: Map<Seq<char>, Set<Seq<char>>>,
    item: Seq<char>,
    facets: Set<Seq<char>>,
) -> Map<Seq<char>, Set<Seq<char>>> {
    Map::new(
        |f: Seq<char>| postings.dom().contains(f) || facets.contains(f),
        |f: Seq<char>|
            if facets.contains(f) {
                if postings.dom().contains(f) {
                    postings[f].insert(item)
                } else {
                    set![item]
                }
            } else {
                postings[f]
            },
    )
}

/// Every name in a posting list is an item of the field.
pub open spec fn postings_name_items(
    items: Map<Seq<char>, Set<Seq<char>>>,
    postings: Map<Seq<char>, Set<Seq<char>>>,
) -> bool {
    forall|f: Seq<char>, i: Seq<char>|
        #![trigger postings[f].contains(i)]
        postings.dom().contains(f) && postings[f].contains(i) ==> items.dom().contains(i)
}

/// Every item is posted under each of its facets.
pub open spec fn items_are_posted(
    items: Map<Seq<char>, Set<Seq<char>>>,
    postings: Map<Seq<char>, Set<Seq<char>>>,
) -> bool {
    forall|i: Seq<char>, f: Seq<char>|
        #![trigger items[i].contains(f)]
        items.dom().contains(i) && items[i].contains(f) ==> postings.dom().contains(f)
            && postings[f].contains(i)
}

/// Every posting list is finite.
pub open spec fn postings_finite(postings: Map<Seq<char>, Set<Seq<char>>>) -> bool {
    forall|f: Seq<char>| #[trigger] postings.dom().contains(f) ==> postings[f].finite()
}

proof fn lemma_posted_step(
    pm0: Map<Seq<char>, Set<Seq<char>>>,
    item: Seq<char>,
    done: Set<Seq<char>>,
    f: Seq<char>,
    pm: Map<Seq<char>, Set<Seq<char>>>,
)
    requires
        pm == posted(pm0, item, done),
        !done.contains(f),
    ensures
        pm.dom().contains(f) <==> pm0.dom().contains(f),
        pm0.dom().contains(f) ==> pm[f] == pm0[f],
        posted(pm0, item, done.insert(f)) == pm.insert(
            f,
            if pm0.dom().contains(f) {
                pm0[f].insert(item)
            } else {
                set![item]
            },
        ),
{
    assert(posted(pm0, item, done.insert(f)) =~= pm.insert(
        f,
        if pm0.dom().contains(f) {
            pm0[f].insert(item)
        } else {
            set![item]
        },
    ));
}

proof fn lemma_register_keeps(
    im0: Map<Seq<char>, Set<Seq<char>>>,
    pm0: Map<Seq<char>, Set<Seq<char>>>,
    item: Seq<char>,
    fs: Set<Seq<char>>,
)
    requires
        postings_name_items(im0, pm0),
        items_are_posted(im0, pm0),
    ensures
        postings_name_items(im0.insert(item, fs), posted(pm0, item, fs)),
        items_are_posted(im0.insert(item, fs), posted(pm0, item, fs)),
{
    let im = im0.insert(item, fs);
    let pm = posted(pm0, item, fs);
    assert forall|f: Seq<char>, i: Seq<char>|
        pm.dom().contains(f) && #[trigger] pm[f].contains(i) implies im.dom().contains(i) by {
        if i != item {
            if fs.contains(f) && pm0.dom().contains(f) {
                assert(pm0[f].contains(i));
            } else if !fs.contains(f) {
                assert(pm0[f].contains(i));
            }
        }
    }
    assert forall|i: Seq<char>, f: Seq<char>|
        im.dom().contains(i) && #[trigger] im[i].contains(f) implies pm.dom().contains(f)
            && pm[f].contains(i) by {
        if i != item {
            assert(im0[i].contains(f));
        }
    }
}

impl AddressedField {
    /// Each item and the facets it carries.
    pub closed spec fn item_map(&self) -> Map<Seq<char>, Set<Seq<char>>> {
        table_map(self.items@)
    }

    /// Each facet and the items posted under it.
    pub closed spec fn posting_map(&self) -> Map<Seq<char>, Set<Seq<char>>> {
        table_map(self.postings@)
    }

    /// The representation is sound, and the two maps agree as far as
    /// registration keeps them in step.
    pub closed spec fn wf(&self) -> bool {
        &&& table_wf(self.items@)
        &&& table_wf(self.postings@)
        &&& postings_name_items(self.item_map(), self.posting_map())
        &&& items_are_posted(self.item_map(), self.posting_map())
    }

    /// A well-formed field's posting lists are finite and name its items,
    /// and each item is posted under its facets.
    pub proof fn lemma_wf(&self)
        requires
            self.wf(),
        ensures
            postings_name_items(self.item_map(), self.posting_map()),
            items_are_posted(self.item_map(), self.posting_map()),
            postings_finite(self.posting_map()),
            self.item_map().dom().finite(),
            self.posting_map().dom().finite(),
    {
        lemma_table_facts(self.postings@);
        lemma_table_dom(self.postings@);
        lemma_table_dom(self.items@);
    }

    /// An empty field.
    pub fn new() -> (f: Self)
        ensures
            f.wf(),
            f.item_map() == Map::<Seq<char>, Set<Seq<char>>>::empty(),
            f.posting_map() == Map::<Seq<char>, Set<Seq<char>>>::empty(),
    {
        AddressedField { items: Vec::new(), postings: Vec::new() }
    }

    /// Add one item with its facets, updating both indexes. The item's
    /// facet set is replaced if it was already there; it is added to the
    /// posting list of each of its facets (lists it was on before keep it).
    /// An item with no facets is part of the census but in no posting list.
    pub fn register(&mut self, item: &'static str, facets: &[&'static str])
        requires
            old(self).wf(),
        ensures
            final(self).wf(),
            final(self).item_map() == old(self).item_map().insert(
                item@,
                views(facets@).to_set(),
            ),
            final(self).posting_map() == posted(
                old(self).posting_map(),
                item@,
                views(facets@).to_set(),
            ),
    {
        let ghost im0 = self.item_map();
        let ghost pm0 = self.posting_map();
        proof {
            self.lemma_wf();
        }
        // The facets, each once.
        let mut set: Vec<&'static str> = Vec::new();
        let mut j: usize = 0;
        while j < facets.len()
            invariant
                j <= facets.len(),
                views(set@).no_duplicates(),
                views(set@).to_set() == views(facets@.subrange(0, j as int)).to_set(),
            decreases facets.len() - j,
        {
            let f = facets[j];
            let ghost before = views(set@);
            if !contains_str(&set, f) {
                set.push(f);
                assert(views(set@) =~= before.push(f@));
                proof {
                    before.lemma_push_to_set_commute(f@);
                }
            } else {
                assert(before.to_set().insert(f@) =~= before.to_set());
            }
            proof {
                views(facets@.subrange(0, j as int)).lemma_push_to_set_commute(f@);
            }
            assert(views(facets@.subrange(0, j + 1)) =~= views(facets@.subrange(0, j as int)).push(
                f@,
            ));
            assert(views(set@).to_set() =~= views(facets@.subrange(0, j + 1)).to_set());
            j = j + 1;
        }
        assert(facets@.subrange(0, facets.len() as int) =~= facets@);
        let ghost fs = views(set@).to_set();
        // Post the item under each facet.
        let mut k: usize = 0;
        while k < set.len()
            invariant
                k <= set.len(),
                views(set@).no_duplicates(),
                fs == views(set@).to_set(),
                table_wf(self.postings@),
                self.items@ == old(self).items@,
                table_map(self.postings@) == posted(
                    pm0,
                    item@,
                    views(set@.subrange(0, k as int)).to_set(),
                ),
            decreases set.len() - k,
        {
            let f = set[k];
            let ghost done = views(set@.subrange(0, k as int)).to_set();
            let ghost pm = table_map(self.postings@);
            assert(views(set@.subrange(0, k + 1)).to_set() =~= done.insert(f@)) by {
                assert(views(set@.subrange(0, k + 1)) =~= views(set@.subrange(0, k as int)).push(
                    f@,
                ));
                views(set@.subrange(0, k as int)).lemma_push_to_set_commute(f@);
            }
            assert(!done.contains(f@)) by {
                if done.contains(f@) {
                    let q = choose|q: int|
                        0 <= q < views(set@.subrange(0, k as int)).len() && views(
                            set@.subrange(0, k as int),
                        )[q] == f@;
                    assert(views(set@)[q] == views(set@)[k as int]);
                }
            }
            proof {
                lemma_posted_step(pm0, item@, done, f@, pm);
            }
            match find_key(&self.postings, f) {
                Some(p) => {
                    proof {
                        lemma_table_facts(self.postings@);
                    }
                    if !contains_str(&self.postings[p].1, item) {
                        let ghost before = self.postings@;
                        let mut entry: (&'static str, Vec<&'static str>) = (f, Vec::new());
                        self.postings.set_and_swap(p, &mut entry);
                        let ghost old_list = views(entry.1@);
                        entry.1.push(item);
                        assert(views(entry.1@) =~= old_list.push(item@));
                        self.postings.set(p, entry);
                        assert(self.postings@ =~= before.update(p as int, entry));
                        proof {
                            lemma_table_update(before, p as int, entry);
                            old_list.lemma_push_to_set_commute(item@);
                        }
                    } else {
                        assert(pm[f@].insert(item@) =~= pm[f@]);
                    }
                },
                None => {
                    proof {
                        lemma_table_dom(self.postings@);
                    }
                    let mut list: Vec<&'static str> = Vec::new();
                    list.push(item);
                    let ghost before = self.postings@;
                    assert(views(list@) =~= seq![item@]);
                    assert(views(list@).to_set() =~= set![item@]) by {
                        assert(views(list@)[0] == item@);
                    }
                    self.postings.push((f, list));
                    proof {
                        lemma_table_push(before, (f, list));
                    }
                },
            }
            k = k + 1;
        }
        assert(set@.subrange(0, set.len() as int) =~= set@);
        proof {
            lemma_register_keeps(im0, pm0, item@, fs);
        }
        let ghost items0 = self.items@;
        match find_key(&self.items, item) {
            Some(i) => {
                let e = (item, set);
                self.items.set(i, e);
                proof {
                    lemma_table_update(items0, i as int, e);
                }
            },
            None => {
                proof {
                    lemma_table_dom(items0);
                }
                let e = (item, set);
                self.items.push(e);
                proof {
                    lemma_table_push(items0, e);
                }
            },
        }
    }
}


impl AddressedField {
    /// Normalize the request to the field's own facet names, in order and
    /// each once, with the size of their posting lists; or the position of
    /// the first facet outside the vocabulary.
    fn gather(&self, request: &[&str]) -> (out: Result<(Vec<&'static str>, usize), usize>)
        requires
            self.wf(),
        ensures
            match out {
                Err(j) => is_first_unknown(self.posting_map(), views(request@), j as int),
                Ok((m, c)) => all_known(self.posting_map(), views(request@)) && sorted_as(
                    m,
                    views(request@).to_set(),
                ) && c == capped(weight(self.posting_map(), views(request@).to_set())),
            },
    {
        proof {
            lemma_table_facts(self.postings@);
            lemma_table_dom(self.postings@);
            lemma_weight_empty(self.posting_map());
        }
        let ghost pm = self.posting_map();
        let ghost rv = views(request@);
        let mut matched: Vec<&'static str> = Vec::new();
        let mut cost: usize = 0;
        let mut j: usize = 0;
        assert(rv.subrange(0, 0).to_set() =~= Set::<Seq<char>>::empty());
        assert(views(matched@).to_set() =~= Set::<Seq<char>>::empty());
        while j < request.len()
            invariant
                j <= request.len(),
                rv == views(request@),
                pm == self.posting_map(),
                self.wf(),
                table_map(self.postings@).dom() == keys_of(self.postings@).to_set(),
                forall|i: int|
                    0 <= i < self.postings@.len() ==> pm[#[trigger] self.postings@[i].0@].len()
                        == self.postings@[i].1.len(),
                forall|k: int| 0 <= k < j ==> pm.dom().contains(#[trigger] rv[k]),
                strictly_sorted(views(matched@)),
                views(matched@).to_set() == rv.subrange(0, j as int).to_set(),
                cost == capped(weight(pm, rv.subrange(0, j as int).to_set())),
            decreases request.len() - j,
        {
            let f = request[j];
            assert(rv[j as int] == f@);
            match find_key(&self.postings, f) {
                None => {
                    return Err(j);
                },
                Some(p) => {
                    let canon = self.postings[p].0;
                    let ghost s0 = rv.subrange(0, j as int).to_set();
                    proof {
                        assert(rv.subrange(0, j + 1) =~= rv.subrange(0, j as int).push(f@));
                        rv.subrange(0, j as int).lemma_push_to_set_commute(f@);
                        vstd::seq_lib::seq_to_set_is_finite(rv.subrange(0, j as int));
                        assert(keys_of(self.postings@)[p as int] == f@);
                    }
                    if !contains_str(&matched, canon) {
                        let n = self.postings[p].1.len();
                        proof {
                            lemma_weight_insert(pm, s0, f@);
                        }
                        cost = add_capped(cost, n);
                        insert_sorted(&mut matched, canon);
                    } else {
                        assert(s0.insert(f@) =~= s0);
                    }
                    j = j + 1;
                },
            }
        }
        assert(rv.subrange(0, request.len() as int) =~= rv);
        Ok((matched, cost))
    }

    /// Whether `c` is posted under every facet of `matched`.
    fn posted_under_each(&self, matched: &Vec<&'static str>, c: &str) -> (r: bool)
        requires
            self.wf(),
            forall|k: int|
                0 <= k < matched.len() ==> self.posting_map().dom().contains(
                    #[trigger] views(matched@)[k],
                ),
        ensures
            r == posted_under_all(self.posting_map(), views(matched@).to_set(), c@),
    {
        proof {
            lemma_table_facts(self.postings@);
            lemma_table_dom(self.postings@);
        }
        let ghost pm = self.posting_map();
        let ghost mv = views(matched@);
        let mut b: usize = 0;
        while b < matched.len()
            invariant
                b <= matched.len(),
                mv == views(matched@),
                pm == self.posting_map(),
                table_map(self.postings@).dom() == keys_of(self.postings@).to_set(),
                forall|i: int|
                    0 <= i < self.postings@.len() ==> pm[#[trigger] self.postings@[i].0@]
                        == views(self.postings@[i].1@).to_set(),
                forall|k: int| 0 <= k < matched.len() ==> pm.dom().contains(#[trigger] mv[k]),
                forall|k: int| 0 <= k < b ==> pm[#[trigger] mv[k]].contains(c@),
            decreases matched.len() - b,
        {
            assert(mv[b as int] == matched@[b as int]@);
            let p = key_index(&self.postings, matched[b]);
            assert(self.postings@[p as int].0@ == mv[b as int]);
            if !contains_str(&self.postings[p].1, c) {
                assert(!pm[mv[b as int]].contains(c@));
                assert(mv.to_set().contains(mv[b as int]));
                return false;
            }
            b = b + 1;
        }
        assert forall|f: Seq<char>| #[trigger] mv.to_set().contains(f) implies pm[f].contains(c@) by {
            let k = choose|k: int| 0 <= k < mv.len() && mv[k] == f;
        }
        true
    }

    /// The candidates of a known, non-empty normalized request.
    fn candidates(&self, matched: &Vec<&'static str>) -> (c: Vec<&'static str>)
        requires
            self.wf(),
            matched.len() > 0,
            forall|k: int|
                0 <= k < matched.len() ==> self.posting_map().dom().contains(
                    #[trigger] views(matched@)[k],
                ),
        ensures
            sorted_as(c, candidates_of(self.posting_map(), views(matched@).to_set())),
    {
        proof {
            lemma_table_facts(self.postings@);
            lemma_table_dom(self.postings@);
        }
        let ghost pm = self.posting_map();
        let ghost req = views(matched@).to_set();
        assert(views(matched@)[0] == matched@[0]@);
        let p0 = key_index(&self.postings, matched[0]);
        let list = &self.postings[p0].1;
        let ghost lv = views(list@);
        assert(pm[matched@[0]@] == lv.to_set());
        let mut cands: Vec<&'static str> = Vec::new();
        let mut a: usize = 0;
        while a < list.len()
            invariant
                a <= list.len(),
                lv == views(list@),
                pm == self.posting_map(),
                req == views(matched@).to_set(),
                self.wf(),
                forall|k: int|
                    0 <= k < matched.len() ==> pm.dom().contains(#[trigger] views(matched@)[k]),
                strictly_sorted(views(cands@)),
                forall|x: Seq<char>|
                    #[trigger] views(cands@).contains(x) <==> (lv.subrange(0, a as int).contains(x)
                        && posted_under_all(pm, req, x)),
            decreases list.len() - a,
        {
            let c = list[a];
            let ghost pre = lv.subrange(0, a as int);
            let ghost post = lv.subrange(0, a + 1);
            assert(lv[a as int] == c@);
            assert(post =~= pre.push(c@));
            let ghost before = views(cands@);
            if self.posted_under_each(matched, c) {
                insert_sorted(&mut cands, c);
                assert forall|x: Seq<char>| #[trigger] views(cands@).contains(x) <==> (post.contains(x) && posted_under_all(pm, req, x)) by {
                    assert(views(cands@).to_set().contains(x) == views(cands@).contains(x));
                    assert(before.to_set().contains(x) == before.contains(x));
                    if pre.contains(x) {
                        let q = choose|q: int|
                            0 <= q < pre.len() && pre[q]
                                == x;
                        assert(post[q] == x);
                    }
                    if post.contains(x) && x != c@ {
                        let q = choose|q: int|
                            0 <= q < post.len() && post[q] == x;
                        assert(pre[q] == x);
                    }
                    if x == c@ {
                        assert(post[a as int] == x);
                    }
                }
            } else {
                assert forall|x: Seq<char>| #[trigger] views(cands@).contains(x) <==> (post.contains(x) && posted_under_all(pm, req, x)) by {
                    if pre.contains(x) {
                        let q = choose|q: int|
                            0 <= q < pre.len() && pre[q]
                                == x;
                        assert(post[q] == x);
                    }
                    if post.contains(x) && x != c@ {
                        let q = choose|q: int|
                            0 <= q < post.len() && post[q] == x;
                        assert(pre[q] == x);
                    }
                }
            }
            a = a + 1;
        }
        assert(lv.subrange(0, list.len() as int) =~= lv);
        assert forall|x: Seq<char>| views(cands@).to_set().contains(x) <==> candidates_of(
            pm,
            req,
        ).contains(x) by {
            if posted_under_all(pm, req, x) {
                assert(req.contains(matched@[0]@));
                assert(lv.to_set().contains(x));
            }
        }
        assert(views(cands@).to_set() =~= candidates_of(pm, req));
        cands
    }
}


/// Some of the first `a` candidates carries `x`.
spec fn seen_in(
    items: Map<Seq<char>, Set<Seq<char>>>,
    cv: Seq<Seq<char>>,
    a: int,
    x: Seq<char>,
) -> bool {
    exists|k: int| 0 <= k < a && #[trigger] items[cv[k]].contains(x)
}

impl AddressedField {
    /// Whether every candidate carries `f`.
    fn each_carries(&self, cands: &Vec<&'static str>, f: &str) -> (r: bool)
        requires
            self.wf(),
            forall|k: int|
                0 <= k < cands.len() ==> self.item_map().dom().contains(
                    #[trigger] views(cands@)[k],
                ),
        ensures
            r == all_carry(self.item_map(), views(cands@).to_set(), f@),
    {
        proof {
            lemma_table_facts(self.items@);
            lemma_table_dom(self.items@);
        }
        let ghost im = self.item_map();
        let ghost cv = views(cands@);
        let mut b: usize = 0;
        while b < cands.len()
            invariant
                b <= cands.len(),
                cv == views(cands@),
                im == self.item_map(),
                table_map(self.items@).dom() == keys_of(self.items@).to_set(),
                forall|i: int|
                    0 <= i < self.items@.len() ==> im[#[trigger] self.items@[i].0@] == views(
                        self.items@[i].1@,
                    ).to_set(),
                forall|k: int| 0 <= k < cands.len() ==> im.dom().contains(#[trigger] cv[k]),
                forall|k: int| 0 <= k < b ==> im[#[trigger] cv[k]].contains(f@),
            decreases cands.len() - b,
        {
            assert(cv[b as int] == cands@[b as int]@);
            let i = key_index(&self.items, cands[b]);
            assert(self.items@[i as int].0@ == cv[b as int]);
            if !contains_str(&self.items[i].1, f) {
                assert(!im[cv[b as int]].contains(f@));
                assert(cv.to_set().contains(cv[b as int]));
                return false;
            }
            b = b + 1;
        }
        assert forall|c: Seq<char>| #[trigger] cv.to_set().contains(c) implies im[c].contains(f@) by {
            let k = choose|k: int| 0 <= k < cv.len() && cv[k] == c;
        }
        true
    }

    /// The discriminators of the candidates of a request, with the total
    /// size of the candidates' facet sets.
    fn discriminators(&self, matched: &Vec<&'static str>, cands: &Vec<&'static str>) -> (out: (
        Vec<&'static str>,
        usize,
    ))
        requires
            self.wf(),
            views(cands@).no_duplicates(),
            forall|k: int|
                0 <= k < cands.len() ==> self.item_map().dom().contains(
                    #[trigger] views(cands@)[k],
                ),
        ensures
            sorted_as(
                out.0,
                discriminators_of(
                    self.item_map(),
                    views(cands@).to_set(),
                    views(matched@).to_set(),
                ),
            ),
            out.1 == capped(weight(self.item_map(), views(cands@).to_set())),
    {
        proof {
            lemma_table_facts(self.items@);
            lemma_table_dom(self.items@);
            lemma_weight_empty(self.item_map());
        }
        let ghost im = self.item_map();
        let ghost cv = views(cands@);
        let ghost cs = cv.to_set();
        let ghost req = views(matched@).to_set();
        let mut add: Vec<&'static str> = Vec::new();
        let mut w: usize = 0;
        let mut a: usize = 0;
        assert(cv.subrange(0, 0).to_set() =~= Set::<Seq<char>>::empty());
        while a < cands.len()
            invariant
                a <= cands.len(),
                self.wf(),
                cv == views(cands@),
                cs == cv.to_set(),
                cv.no_duplicates(),
                im == self.item_map(),
                req == views(matched@).to_set(),
                table_map(self.items@).dom() == keys_of(self.items@).to_set(),
                forall|i: int|
                    0 <= i < self.items@.len() ==> im[#[trigger] self.items@[i].0@] == views(
                        self.items@[i].1@,
                    ).to_set() && im[self.items@[i].0@].len() == self.items@[i].1.len(),
                forall|k: int| 0 <= k < cands.len() ==> im.dom().contains(#[trigger] cv[k]),
                strictly_sorted(views(add@)),
                forall|x: Seq<char>|
                    #[trigger] views(add@).contains(x) <==> (seen_in(im, cv, a as int, x)
                        && !all_carry(im, cs, x) && !req.contains(x)),
                w == capped(weight(im, cv.subrange(0, a as int).to_set())),
            decreases cands.len() - a,
        {
            let c = cands[a];
            assert(cv[a as int] == c@);
            let i = key_index(&self.items, c);
            let fs = &self.items[i].1;
            let ghost fv = views(fs@);
            assert(im[c@] == fv.to_set());
            proof {
                let pre = cv.subrange(0, a as int);
                assert(cv.subrange(0, a + 1) =~= pre.push(c@));
                pre.lemma_push_to_set_commute(c@);
                vstd::seq_lib::seq_to_set_is_finite(pre);
                assert(!pre.contains(c@)) by {
                    if pre.contains(c@) {
                        let q = choose|q: int| 0 <= q < pre.len() && pre[q] == c@;
                        assert(cv[q] == cv[a as int]);
                    }
                }
                lemma_weight_insert(im, pre.to_set(), c@);
            }
            w = add_capped(w, fs.len());
            let mut b: usize = 0;
            while b < fs.len()
                invariant
                    b <= fs.len(),
                    self.wf(),
                    fv == views(fs@),
                    im[c@] == fv.to_set(),
                    cv[a as int] == c@,
                    a < cands.len(),
                    cv == views(cands@),
                    cs == cv.to_set(),
                    im == self.item_map(),
                    req == views(matched@).to_set(),
                    forall|k: int| 0 <= k < cands.len() ==> im.dom().contains(#[trigger] cv[k]),
                    strictly_sorted(views(add@)),
                    forall|x: Seq<char>|
                        #[trigger] views(add@).contains(x) <==> ((seen_in(im, cv, a as int, x)
                            || fv.subrange(0, b as int).contains(x)) && !all_carry(im, cs, x)
                            && !req.contains(x)),
                decreases fs.len() - b,
            {
                let f = fs[b];
                assert(fv[b as int] == f@);
                let ghost pre = fv.subrange(0, b as int);
                let ghost post = fv.subrange(0, b + 1);
                assert(post =~= pre.push(f@));
                let ghost before = views(add@);
                let fresh = !contains_str(matched, f) && !self.each_carries(cands, f);
                if fresh {
                    insert_sorted(&mut add, f);
                }
                assert forall|x: Seq<char>| #[trigger] views(add@).contains(x) <==> ((seen_in(
                    im,
                    cv,
                    a as int,
                    x,
                ) || post.contains(x)) && !all_carry(im, cs, x) && !req.contains(x)) by {
                    assert(views(add@).to_set().contains(x) == views(add@).contains(x));
                    assert(before.to_set().contains(x) == before.contains(x));
                    if pre.contains(x) {
                        let q = choose|q: int| 0 <= q < pre.len() && pre[q] == x;
                        assert(post[q] == x);
                    }
                    if post.contains(x) && x != f@ {
                        let q = choose|q: int| 0 <= q < post.len() && post[q] == x;
                        assert(pre[q] == x);
                    }
                    if x == f@ {
                        assert(post[b as int] == x);
                        assert(views(matched@).contains(f@) == req.contains(f@));
                    }
                }
                b = b + 1;
            }
            assert(fv.subrange(0, fs.len() as int) =~= fv);
            assert forall|x: Seq<char>| #[trigger] views(add@).contains(x) <==> (seen_in(
                im,
                cv,
                a + 1,
                x,
            ) && !all_carry(im, cs, x) && !req.contains(x)) by {
                if seen_in(im, cv, a + 1, x) && !seen_in(im, cv, a as int, x) {
                    let k = choose|k: int| 0 <= k < a + 1 && #[trigger] im[cv[k]].contains(x);
                    assert(k == a);
                    assert(fv.to_set().contains(x));
                }
                if fv.contains(x) {
                    assert(im[cv[a as int]].contains(x));
                }
                if seen_in(im, cv, a as int, x) {
                    let k = choose|k: int| 0 <= k < a && #[trigger] im[cv[k]].contains(x);
                    assert(0 <= k < a + 1 && im[cv[k]].contains(x));
                }
            }
            a = a + 1;
        }
        assert(cv.subrange(0, cands.len() as int) =~= cv);
        assert forall|x: Seq<char>| views(add@).to_set().contains(x) <==> discriminators_of(
            im,
            cs,
            req,
        ).contains(x) by {
            if seen_in(im, cv, cands.len() as int, x) {
                let k = choose|k: int| 0 <= k < cands.len() && #[trigger] im[cv[k]].contains(x);
                assert(cs.contains(cv[k]));
            }
            if some_carry(im, cs, x) {
                let c = choose|c: Seq<char>| #[trigger] cs.contains(c) && im[c].contains(x);
                let k = choose|k: int| 0 <= k < cv.len() && cv[k] == c;
                assert(im[cv[k]].contains(x));
            }
        }
        assert(views(add@).to_set() =~= discriminators_of(im, cs, req));
        (add, w)
    }
}


impl AddressedField {
    /// Resolve a request, and report how many posting entries were touched:
    /// the requested facets' posting lists, plus the candidates' facet sets
    /// when several remain (capped at `usize::MAX`). The count depends on
    /// the request and never on items outside those postings.
    pub fn resolve_counting(&self, request: &[&str]) -> (out: (Verdict, usize))
        requires
            self.wf(),
        ensures
            verdict_is(out.0, resolution(self.item_map(), self.posting_map(), views(request@))),
            out.1 == capped(resolution_cost(self.item_map(), self.posting_map(), views(request@))),
    {
        let ghost im = self.item_map();
        let ghost pm = self.posting_map();
        let ghost rv = views(request@);
        proof {
            self.lemma_wf();
        }
        match self.gather(request) {
            Err(j) => {
                proof {
                    lemma_first_unknown_unique(pm, rv, j as int);
                    assert(rv[j as int] == request@[j as int]@);
                }
                (Verdict::Refuse(RefuseReason::UnknownFacet(request[j].to_owned())), 0)
            },
            Ok((matched, cost)) => {
                let ghost req = rv.to_set();
                proof {
                    lemma_sorted_no_duplicates(views(matched@));
                }
                if matched.len() == 0 {
                    proof {
                        if rv.len() > 0 {
                            assert(req.contains(rv[0]));
                        }
                    }
                    return (Verdict::Refuse(RefuseReason::NoFacets), 0);
                }
                proof {
                    assert(rv.len() > 0) by {
                        assert(views(matched@).to_set().contains(views(matched@)[0]));
                    }
                    assert forall|k: int| 0 <= k < matched.len() implies pm.dom().contains(
                        #[trigger] views(matched@)[k],
                    ) by {
                        assert(req.contains(views(matched@)[k]));
                        let q = choose|q: int| 0 <= q < rv.len() && rv[q] == views(matched@)[k];
                    }
                }
                let cands = self.candidates(&matched);
                let ghost cs = candidates_of(pm, req);
                proof {
                    lemma_sorted_no_duplicates(views(cands@));
                }
                if cands.len() == 0 {
                    (Verdict::Refuse(RefuseReason::NoMatch { matched }), cost)
                } else if cands.len() == 1 {
                    let tag = cands[0];
                    proof {
                        assert(views(cands@)[0] == tag@);
                        assert(cs =~= set![tag@]) by {
                            assert(views(cands@) =~= seq![tag@]);
                        }
                        assert(cs.contains(cs.choose()));
                    }
                    (Verdict::Address { tag, matched }, cost)
                } else {
                    proof {
                        assert forall|k: int| 0 <= k < cands.len() implies im.dom().contains(
                            #[trigger] views(cands@)[k],
                        ) by {
                            let x = views(cands@)[k];
                            assert(cs.contains(x));
                            assert(req.contains(views(matched@)[0]));
                            assert(pm[views(matched@)[0]].contains(x));
                        }
                    }
                    let (add, w) = self.discriminators(&matched, &cands);
                    let total = add_capped(cost, w);
                    (Verdict::Ambiguous { matched, candidates: cands, add_one_of: add }, total)
                }
            },
        }
    }

    /// Resolve a request into the one verdict it earns.
    pub fn resolve(&self, request: &[&str]) -> (v: Verdict)
        requires
            self.wf(),
        ensures
            verdict_is(v, resolution(self.item_map(), self.posting_map(), views(request@))),
    {
        self.resolve_counting(request).0
    }

    /// Number of items in the census.
    pub fn len(&self) -> (n: usize)
        requires
            self.wf(),
        ensures
            n == self.item_map().dom().len(),
    {
        proof {
            lemma_table_facts(self.items@);
        }
        self.items.len()
    }

    /// Whether the census is empty.
    pub fn is_empty(&self) -> (b: bool)
        requires
            self.wf(),
        ensures
            b == (self.item_map().dom().len() == 0),
    {
        proof {
            lemma_table_facts(self.items@);
        }
        self.items.len() == 0
    }

    /// The field's facet vocabulary, sorted.
    pub fn vocabulary(&self) -> (v: Vec<&'static str>)
        requires
            self.wf(),
        ensures
            sorted_as(v, self.posting_map().dom()),
    {
        proof {
            lemma_table_dom(self.postings@);
        }
        let ghost keys = keys_of(self.postings@);
        let mut v: Vec<&'static str> = Vec::new();
        let mut i: usize = 0;
        assert(views(v@).to_set() =~= keys.subrange(0, 0).to_set());
        while i < self.postings.len()
            invariant
                i <= self.postings.len(),
                keys == keys_of(self.postings@),
                strictly_sorted(views(v@)),
                views(v@).to_set() == keys.subrange(0, i as int).to_set(),
            decreases self.postings.len() - i,
        {
            let k = self.postings[i].0;
            assert(keys[i as int] == k@);
            assert(keys.subrange(0, i + 1) =~= keys.subrange(0, i as int).push(k@));
            proof {
                keys.subrange(0, i as int).lemma_push_to_set_commute(k@);
            }
            insert_sorted(&mut v, k);
            i = i + 1;
        }
        assert(keys.subrange(0, self.postings.len() as int) =~= keys);
        v
    }
}


// ---------- The field of the universe ----------

/// The items of a field registered from manifest rows, in order.
pub open spec fn manifest_items(m: Seq<(Seq<char>, Option<KindSpec>, Seq<Seq<char>>)>) -> Map<
    Seq<char>,
    Set<Seq<char>>,
>
    decreases m.len(),
{
    if m.len() == 0 {
        Map::empty()
    } else {
        manifest_items(m.drop_last()).insert(m.last().0, m.last().2.to_set())
    }
}

/// The postings of a field registered from manifest rows, in order.
pub open spec fn manifest_postings(m: Seq<(Seq<char>, Option<KindSpec>, Seq<Seq<char>>)>) -> Map<
    Seq<char>,
    Set<Seq<char>>,
>
    decreases m.len(),
{
    if m.len() == 0 {
        Map::empty()
    } else {
        posted(manifest_postings(m.drop_last()), m.last().0, m.last().2.to_set())
    }
}

proof fn lemma_manifest_items_dom(m: Seq<(Seq<char>, Option<KindSpec>, Seq<Seq<char>>)>)
    ensures
        manifest_items(m).dom() == m.map_values(
            |e: (Seq<char>, Option<KindSpec>, Seq<Seq<char>>)| e.0,
        ).to_set(),
    decreases m.len(),
{
    let names = m.map_values(|e: (Seq<char>, Option<KindSpec>, Seq<Seq<char>>)| e.0);
    if m.len() == 0 {
        assert(names.to_set() =~= Set::empty());
    } else {
        lemma_manifest_items_dom(m.drop_last());
        let rest = m.drop_last().map_values(
            |e: (Seq<char>, Option<KindSpec>, Seq<Seq<char>>)| e.0,
        );
        assert(names =~= rest.push(m.last().0));
        rest.lemma_push_to_set_commute(m.last().0);
    }
}

impl AddressedField {
    /// The field over the universe: every manifest entry, registered in
    /// order under its tag name with its declared facets. Its items are
    /// exactly the manifest's tag names.
    pub fn from_universe() -> (f: Self)
        ensures
            f.wf(),
            f.item_map() == manifest_items(spec_manifest()),
            f.posting_map() == manifest_postings(spec_manifest()),
            f.item_map().dom() == spec_manifest().map_values(
                |e: (Seq<char>, Option<KindSpec>, Seq<Seq<char>>)| e.0,
            ).to_set(),
    {
        let m = universe_manifest();
        let ghost sm = spec_manifest();
        let mut field = AddressedField::new();
        let mut i: usize = 0;
        assert(sm.subrange(0, 0) =~= Seq::<(Seq<char>, Option<KindSpec>, Seq<Seq<char>>)>::empty());
        while i < m.len()
            invariant
                i <= m.len(),
                m@.map_values(|e: crate::kindgen::UniverseEntry| entry_view(e)) == sm,
                field.wf(),
                field.item_map() == manifest_items(sm.subrange(0, i as int)),
                field.posting_map() == manifest_postings(sm.subrange(0, i as int)),
            decreases m.len() - i,
        {
            let entry = &m[i];
            let facets = entry.facets();
            assert(sm[i as int] == entry_view(*entry));
            assert(sm.subrange(0, i + 1).drop_last() =~= sm.subrange(0, i as int));
            assert(views(facets@) =~= facets@.map_values(|s: &'static str| s@));
            field.register(entry.tag_name, facets.as_slice());
            i = i + 1;
        }
        assert(sm.subrange(0, m.len() as int) =~= sm);
        proof {
            lemma_manifest_items_dom(sm);
        }
        field
    }

    /// Whether `item` is in the census.
    pub fn has_item(&self, item: &str) -> (b: bool)
        requires
            self.wf(),
        ensures
            b == self.item_map().dom().contains(item@),
    {
        proof {
            lemma_table_dom(self.items@);
        }
        match find_key(&self.items, item) {
            Some(i) => {
                assert(keys_of(self.items@)[i as int] == item@);
                true
            },
            None => false,
        }
    }
}

// ---------- Flatness ----------

/// The facet every decoy carries.
pub open spec fn decoy_facet() -> Seq<char> {
    "__decoy_facet"@
}

/// The name of the `i`-th decoy.
pub open spec fn decoy_name(i: nat) -> Seq<char> {
    "__decoy_"@ + decimal(i)
}

/// The items after `n` decoys have been registered.
pub open spec fn padded_items(items: Map<Seq<char>, Set<Seq<char>>>, n: nat) -> Map<
    Seq<char>,
    Set<Seq<char>>,
>
    decreases n,
{
    if n == 0 {
        items
    } else {
        padded_items(items, (n - 1) as nat).insert(decoy_name((n - 1) as nat), set![decoy_facet()])
    }
}

/// The postings after `n` decoys have been registered.
pub open spec fn padded_postings(postings: Map<Seq<char>, Set<Seq<char>>>, n: nat) -> Map<
    Seq<char>,
    Set<Seq<char>>,
>
    decreases n,
{
    if n == 0 {
        postings
    } else {
        posted(
            padded_postings(postings, (n - 1) as nat),
            decoy_name((n - 1) as nat),
            set![decoy_facet()],
        )
    }
}

/// Resolving any single facet of the vocabulary touches as many entries
/// as it does once a thousand decoys are registered.
pub open spec fn flat(
    items: Map<Seq<char>, Set<Seq<char>>>,
    postings: Map<Seq<char>, Set<Seq<char>>>,
) -> bool {
    forall|f: Seq<char>|
        #[trigger] postings.dom().contains(f) ==> capped(resolution_cost(items, postings, seq![f]))
            == capped(
            resolution_cost(padded_items(items, 1000), padded_postings(postings, 1000), seq![f]),
        )
}

/// `String::leak`: gives up the string's buffer for the rest of the program
/// and returns it as a string slice with the same characters.
#[verifier::external_body]
fn leak_string(s: String) -> (r: &'static str)
    ensures
        r@ == s@,
{
    s.leak()
}

impl AddressedField {
    /// A copy of the field.
    fn duplicate(&self) -> (c: Self)
        requires
            self.wf(),
        ensures
            c.wf(),
            c.item_map() == self.item_map(),
            c.posting_map() == self.posting_map(),
    {
        let items = copy_table(&self.items);
        let postings = copy_table(&self.postings);
        proof {
            lemma_table_same(self.items@, items@);
            lemma_table_same(self.postings@, postings@);
        }
        AddressedField { items, postings }
    }

    /// Check flatness on this field: resolving each facet of the vocabulary
    /// does the same work with a thousand decoys registered (each carrying a
    /// facet of its own) as without them.
    pub fn prove_flat(&self) -> (ok: bool)
        requires
            self.wf(),
        ensures
            ok == flat(self.item_map(), self.posting_map()),
    {
        let ghost im = self.item_map();
        let ghost pm = self.posting_map();
        let mut padded = self.duplicate();
        let mut decoy_facets: Vec<&'static str> = Vec::new();
        decoy_facets.push("__decoy_facet");
        proof {
            reveal_strlit("__decoy_facet");
            assert(views(decoy_facets@) =~= seq![decoy_facet()]);
            assert(views(decoy_facets@).to_set() =~= set![decoy_facet()]) by {
                assert(views(decoy_facets@)[0] == decoy_facet());
            }
        }
        let mut i: u64 = 0;
        while i < 1000
            invariant
                i <= 1000,
                padded.wf(),
                padded.item_map() == padded_items(im, i as nat),
                padded.posting_map() == padded_postings(pm, i as nat),
                views(decoy_facets@).to_set() == set![decoy_facet()],
            decreases 1000 - i,
        {
            let mut name = "__decoy_".to_owned();
            append_decimal(&mut name, i);
            let leaked = leak_string(name);
            assert(leaked@ == decoy_name(i as nat));
            padded.register(leaked, decoy_facets.as_slice());
            i = i + 1;
        }
        let vocab = self.vocabulary();
        let mut k: usize = 0;
        while k < vocab.len()
            invariant
                k <= vocab.len(),
                self.wf(),
                padded.wf(),
                im == self.item_map(),
                pm == self.posting_map(),
                padded.item_map() == padded_items(im, 1000),
                padded.posting_map() == padded_postings(pm, 1000),
                sorted_as(vocab, pm.dom()),
                forall|j: int|
                    0 <= j < k ==> capped(resolution_cost(im, pm, seq![#[trigger] views(vocab@)[j]]))
                        == capped(
                        resolution_cost(
                            padded_items(im, 1000),
                            padded_postings(pm, 1000),
                            seq![views(vocab@)[j]],
                        ),
                    ),
            decreases vocab.len() - k,
        {
            let facet = vocab[k];
            let request: Vec<&'static str> = vec![facet];
            assert(views(request@) =~= seq![facet@]);
            assert(views(vocab@)[k as int] == facet@);
            let here = self.resolve_counting(request.as_slice()).1;
            let there = padded.resolve_counting(request.as_slice()).1;
            if here != there {
                assert(views(vocab@).to_set().contains(facet@));
                return false;
            }
            k = k + 1;
        }
        assert forall|f: Seq<char>| #[trigger] pm.dom().contains(f) implies capped(
            resolution_cost(im, pm, seq![f]),
        ) == capped(
            resolution_cost(padded_items(im, 1000), padded_postings(pm, 1000), seq![f]),
        ) by {
            assert(views(vocab@).to_set().contains(f));
            let j = choose|j: int| 0 <= j < views(vocab@).len() && views(vocab@)[j] == f;
        }
        true
    }
}

/// Two tables with the same keys and lists, row by row.
pub open spec fn same_rows(
    v: Seq<(&'static str, Vec<&'static str>)>,
    w: Seq<(&'static str, Vec<&'static str>)>,
) -> bool {
    v.len() == w.len() && forall|i: int|
        #![trigger v[i]]
        0 <= i < v.len() ==> v[i].0@ == w[i].0@ && views(v[i].1@) == views(w[i].1@)
}

proof fn lemma_table_same(
    v: Seq<(&'static str, Vec<&'static str>)>,
    w: Seq<(&'static str, Vec<&'static str>)>,
)
    requires
        same_rows(v, w),
    ensures
        table_map(v) == table_map(w),
        keys_of(v) == keys_of(w),
        table_wf(v) == table_wf(w),
    decreases v.len(),
{
    assert forall|i: int| 0 <= i < v.len() implies keys_of(v)[i] == keys_of(w)[i] by {
        assert(v[i].0@ == w[i].0@);
    }
    assert(keys_of(v) =~= keys_of(w));
    assert forall|i: int| 0 <= i < v.len() implies #[trigger] views(v[i].1@) == views(w[i].1@) by {
        assert(v[i].0@ == w[i].0@);
    }
    if v.len() > 0 {
        assert(same_rows(v.drop_last(), w.drop_last())) by {
            assert forall|i: int| 0 <= i < v.drop_last().len() implies v.drop_last()[i].0@
                == w.drop_last()[i].0@ && views(#[trigger] v.drop_last()[i].1@) == views(
                w.drop_last()[i].1@,
            ) by {
                assert(v[i] == v.drop_last()[i]);
                assert(views(v[i].1@) == views(w[i].1@));
            }
        }
        lemma_table_same(v.drop_last(), w.drop_last());
        assert(views(v[v.len() - 1].1@) == views(w[w.len() - 1].1@));
        assert(v[v.len() - 1].0@ == w[w.len() - 1].0@);
    }
    if table_wf(v) {
        assert forall|i: int| 0 <= i < w.len() implies (#[trigger] views(w[i].1@)).no_duplicates() by {
            assert(views(v[i].1@) == views(w[i].1@));
        }
    }
    if table_wf(w) {
        assert forall|i: int| 0 <= i < v.len() implies (#[trigger] views(v[i].1@)).no_duplicates() by {
            assert(views(v[i].1@) == views(w[i].1@));
        }
    }
}

/// A copy of a table.
fn copy_table(v: &Vec<(&'static str, Vec<&'static str>)>) -> (c: Vec<(&'static str, Vec<&'static str>)>)
    ensures
        same_rows(v@, c@),
{
    let mut c: Vec<(&'static str, Vec<&'static str>)> = Vec::new();
    let mut i: usize = 0;
    while i < v.len()
        invariant
            i <= v.len(),
            same_rows(v@.subrange(0, i as int), c@),
        decreases v.len() - i,
    {
        let list = copy_names(&v[i].1);
        let ghost before = c@;
        c.push((v[i].0, list));
        assert(same_rows(v@.subrange(0, i + 1), c@)) by {
            assert forall|j: int| 0 <= j < i + 1 implies #[trigger] v@.subrange(0, i + 1)[j].0@
                == c@[j].0@ && views(v@.subrange(0, i + 1)[j].1@) == views(c@[j].1@) by {
                if j < i {
                    assert(v@.subrange(0, i + 1)[j] == v@.subrange(0, i as int)[j]);
                    assert(c@[j] == before[j]);
                }
            }
        }
        i = i + 1;
    }
    assert(v@.subrange(0, v.len() as int) =~= v@);
    c
}

/// A copy of a list of names.
fn copy_names(v: &Vec<&'static str>) -> (c: Vec<&'static str>)
    ensures
        c@ == v@,
{
    let mut c: Vec<&'static str> = Vec::new();
    let mut i: usize = 0;
    while i < v.len()
        invariant
            i <= v.len(),
            c@ == v@.subrange(0, i as int),
        decreases v.len() - i,
    {
        c.push(v[i]);
        assert(c@ =~= v@.subrange(0, i + 1));
        i = i + 1;
    }
    assert(v@.subrange(0, v.len() as int) =~= v@);
    c
}


// ---------- Laws ----------

proof fn lemma_weight_agree(
    m1: Map<Seq<char>, Set<Seq<char>>>,
    m2: Map<Seq<char>, Set<Seq<char>>>,
    s: Set<Seq<char>>,
)
    requires
        s.finite(),
        forall|x: Seq<char>| #[trigger] s.contains(x) ==> m1[x].len() == m2[x].len(),
    ensures
        weight(m1, s) == weight(m2, s),
    decreases s.len(),
{
    if s.len() == 0 {
        s.lemma_len0_is_empty();
        lemma_weight_empty(m1);
        lemma_weight_empty(m2);
    } else {
        let x = s.choose();
        let t = s.remove(x);
        lemma_weight_agree(m1, m2, t);
        lemma_weight_insert(m1, t, x);
        lemma_weight_insert(m2, t, x);
        assert(t.insert(x) =~= s);
    }
}

/// The candidates of a non-empty known request lie in a posting list, so
/// they are finite.
proof fn lemma_candidates_finite(
    postings: Map<Seq<char>, Set<Seq<char>>>,
    r: Seq<Seq<char>>,
)
    requires
        postings_finite(postings),
        all_known(postings, r),
        r.len() > 0,
    ensures
        candidates_of(postings, r.to_set()).finite(),
        candidates_of(postings, r.to_set()).subset_of(postings[r[0]]),
{
    let c = candidates_of(postings, r.to_set());
    assert(r.to_set().contains(r[0]));
    assert(postings.dom().contains(r[0]));
    vstd::set_lib::lemma_set_subset_finite(postings[r[0]], c);
}

/// Flatness: registering an item that is not posted under any requested
/// facet, with facets the request does not name, changes neither the
/// verdict of the request nor the work it does.
pub proof fn lemma_register_elsewhere(
    items: Map<Seq<char>, Set<Seq<char>>>,
    postings: Map<Seq<char>, Set<Seq<char>>>,
    item: Seq<char>,
    facets: Set<Seq<char>>,
    r: Seq<Seq<char>>,
)
    requires
        postings_finite(postings),
        forall|k: int| 0 <= k < r.len() ==> !facets.contains(#[trigger] r[k]),
        forall|k: int|
            0 <= k < r.len() && postings.dom().contains(#[trigger] r[k]) ==> !postings[r[k]].contains(
                item,
            ),
    ensures
        resolution(items.insert(item, facets), posted(postings, item, facets), r) == resolution(
            items,
            postings,
            r,
        ),
        resolution_cost(items.insert(item, facets), posted(postings, item, facets), r)
            == resolution_cost(items, postings, r),
{
    let im2 = items.insert(item, facets);
    let pm2 = posted(postings, item, facets);
    assert forall|k: int| 0 <= k < r.len() implies (pm2.dom().contains(#[trigger] r[k])
        == postings.dom().contains(r[k])) && (postings.dom().contains(r[k]) ==> pm2[r[k]]
        == postings[r[k]]) by {}
    if !all_known(postings, r) {
        assert(!all_known(pm2, r));
        let k = choose|k: int| 0 <= k < r.len() && !postings.dom().contains(r[k]);
        lemma_first_unknown_exists(postings, r, k);
        let j = choose|j: int| is_first_unknown(postings, r, j);
        assert(is_first_unknown(pm2, r, j));
        lemma_first_unknown_unique(postings, r, j);
        lemma_first_unknown_unique(pm2, r, j);
    } else if r.len() > 0 {
        assert(all_known(pm2, r));
        let req = r.to_set();
        assert forall|f: Seq<char>| #[trigger] req.contains(f) implies pm2[f] == postings[f] by {
            let k = choose|k: int| 0 <= k < r.len() && r[k] == f;
        }
        let c = candidates_of(postings, req);
        assert(candidates_of(pm2, req) =~= c);
        lemma_candidates_finite(postings, r);
        assert forall|x: Seq<char>| #[trigger] c.contains(x) implies im2[x] == items[x] by {
            assert(req.contains(r[0]));
            assert(postings[r[0]].contains(x));
        }
        assert(discriminators_of(im2, c, req) =~= discriminators_of(items, c, req)) by {
            assert forall|f: Seq<char>| some_carry(im2, c, f) == some_carry(items, c, f) by {
                if some_carry(im2, c, f) {
                    let x = choose|x: Seq<char>| #[trigger] c.contains(x) && im2[x].contains(f);
                    assert(items[x].contains(f));
                }
                if some_carry(items, c, f) {
                    let x = choose|x: Seq<char>| #[trigger] c.contains(x) && items[x].contains(f);
                    assert(im2[x].contains(f));
                }
            }
            assert forall|f: Seq<char>| all_carry(im2, c, f) == all_carry(items, c, f) by {
                if all_carry(im2, c, f) {
                    assert forall|x: Seq<char>| #[trigger] c.contains(x) implies items[x].contains(
                        f,
                    ) by {
                        assert(im2[x].contains(f));
                    }
                }
                if all_carry(items, c, f) {
                    assert forall|x: Seq<char>| #[trigger] c.contains(x) implies im2[x].contains(
                        f,
                    ) by {
                        assert(items[x].contains(f));
                    }
                }
            }
        }
        vstd::seq_lib::seq_to_set_is_finite(r);
        lemma_weight_agree(pm2, postings, req);
        lemma_weight_agree(im2, items, c);
        assert(resolution(im2, pm2, r) == resolution(items, postings, r));
    } else {
        assert(resolution(im2, pm2, r) == resolution(items, postings, r));
    }
}

/// With `n` decoys registered, every facet but the decoys' own keeps its
/// posting list, and each single-facet request over the original
/// vocabulary keeps its verdict and its work.
proof fn lemma_padded(
    items: Map<Seq<char>, Set<Seq<char>>>,
    postings: Map<Seq<char>, Set<Seq<char>>>,
    n: nat,
)
    requires
        postings_finite(postings),
        !postings.dom().contains(decoy_facet()),
        forall|i: nat, f: Seq<char>|
            i < n && #[trigger] postings.dom().contains(f) ==> !postings[f].contains(
                #[trigger] decoy_name(i),
            ),
    ensures
        postings_finite(padded_postings(postings, n)),
        forall|f: Seq<char>|
            f != decoy_facet() ==> (#[trigger] padded_postings(postings, n).dom().contains(f)
                == postings.dom().contains(f)) && (postings.dom().contains(f) ==> padded_postings(
                postings,
                n,
            )[f] == postings[f]),
        forall|f: Seq<char>|
            #[trigger] postings.dom().contains(f) ==> resolution_cost(
                padded_items(items, n),
                padded_postings(postings, n),
                seq![f],
            ) == resolution_cost(items, postings, seq![f]),
    decreases n,
{
    if n > 0 {
        let m = (n - 1) as nat;
        lemma_padded(items, postings, m);
        let pm = padded_postings(postings, m);
        let im = padded_items(items, m);
        let name = decoy_name(m);
        let fs = set![decoy_facet()];
        assert forall|f: Seq<char>| #[trigger] posted(pm, name, fs).dom().contains(f) implies posted(
            pm,
            name,
            fs,
        )[f].finite() by {
            if f != decoy_facet() {
                assert(pm.dom().contains(f));
            } else if pm.dom().contains(f) {
                assert(pm[f].finite());
            }
        }
        assert forall|f: Seq<char>| #[trigger] postings.dom().contains(f) implies resolution_cost(
            padded_items(items, n),
            padded_postings(postings, n),
            seq![f],
        ) == resolution_cost(items, postings, seq![f]) by {
            assert(f != decoy_facet());
            assert(seq![f][0] == f);
            assert(!postings[f].contains(decoy_name(m)));
            lemma_register_elsewhere(im, pm, name, fs, seq![f]);
        }
    }
}

/// Flatness, checked the way `prove_flat` checks it: a field whose
/// vocabulary lacks the decoys' facet and whose postings name no decoy
/// does the same work on every single-facet request with a thousand decoys
/// registered as without them.
pub proof fn lemma_padding_is_flat(
    items: Map<Seq<char>, Set<Seq<char>>>,
    postings: Map<Seq<char>, Set<Seq<char>>>,
)
    requires
        postings_finite(postings),
        !postings.dom().contains(decoy_facet()),
        forall|i: nat, f: Seq<char>|
            i < 1000 && #[trigger] postings.dom().contains(f) ==> !postings[f].contains(
                #[trigger] decoy_name(i),
            ),
    ensures
        flat(items, postings),
{
    lemma_padded(items, postings, 1000);
}

/// A kind's own facets never address another kind: where every item is
/// posted under its facets, resolving an item's whole facet set either
/// addresses that item or does not address at all.
pub proof fn lemma_own_facets_never_misaddress(
    items: Map<Seq<char>, Set<Seq<char>>>,
    postings: Map<Seq<char>, Set<Seq<char>>>,
    item: Seq<char>,
    r: Seq<Seq<char>>,
)
    requires
        items_are_posted(items, postings),
        postings_finite(postings),
        items.dom().contains(item),
        r.to_set() == items[item],
    ensures
        resolution(items, postings, r) matches Resolution::Address(t, _) ==> t == item,
{
    if all_known(postings, r) && r.len() > 0 {
        let req = r.to_set();
        let c = candidates_of(postings, req);
        lemma_candidates_finite(postings, r);
        assert(c.contains(item)) by {
            assert forall|f: Seq<char>| #[trigger] req.contains(f) implies postings[f].contains(
                item,
            ) by {
                assert(items[item].contains(f));
            }
        }
        if c.len() == 1 {
            assert(c.contains(c.choose()));
            assert(c.remove(item).len() == 0);
            if c.choose() != item {
                assert(c.remove(item).contains(c.choose()));
            }
        }
    }
}

/// The field's two maps agree exactly: each posting list holds just the
/// items that carry its facet, every item is posted under its facets, and
/// the posting lists are finite.
pub open spec fn consistent(
    items: Map<Seq<char>, Set<Seq<char>>>,
    postings: Map<Seq<char>, Set<Seq<char>>>,
) -> bool {
    &&& items_are_posted(items, postings)
    &&& postings_name_items(items, postings)
    &&& postings_finite(postings)
    &&& forall|f: Seq<char>, i: Seq<char>|
        #![trigger postings[f].contains(i)]
        postings.dom().contains(f) && postings[f].contains(i) ==> items[i].contains(f)
}

/// Registering an item that is not yet in the census, with a finite facet
/// set, keeps the two maps in exact agreement.
pub proof fn lemma_register_fresh_consistent(
    items: Map<Seq<char>, Set<Seq<char>>>,
    postings: Map<Seq<char>, Set<Seq<char>>>,
    item: Seq<char>,
    facets: Set<Seq<char>>,
)
    requires
        consistent(items, postings),
        !items.dom().contains(item),
    ensures
        consistent(items.insert(item, facets), posted(postings, item, facets)),
{
    lemma_register_keeps(items, postings, item, facets);
    let im = items.insert(item, facets);
    let pm = posted(postings, item, facets);
    assert forall|f: Seq<char>| #[trigger] pm.dom().contains(f) implies pm[f].finite() by {
        if facets.contains(f) && postings.dom().contains(f) {
            assert(postings[f].finite());
        } else if !facets.contains(f) {
            assert(postings[f].finite());
        }
    }
    assert forall|f: Seq<char>, i: Seq<char>|
        pm.dom().contains(f) && #[trigger] pm[f].contains(i) implies im[i].contains(f) by {
        if i != item {
            assert(postings.dom().contains(f) && postings[f].contains(i));
            assert(items.dom().contains(i));
        }
    }
}

/// Following the verdict's advice narrows the field: in a consistent
/// field, when a request is ambiguous, adding any one of its
/// discriminators leaves some of the candidates, and strictly fewer.
pub proof fn lemma_discriminator_narrows(
    items: Map<Seq<char>, Set<Seq<char>>>,
    postings: Map<Seq<char>, Set<Seq<char>>>,
    r: Seq<Seq<char>>,
    d: Seq<char>,
)
    requires
        consistent(items, postings),
        resolution(items, postings, r) matches Resolution::Ambiguous(_, c, add) && add.contains(d),
    ensures
        ({
            let narrowed = candidates_of(postings, r.push(d).to_set());
            let before = candidates_of(postings, r.to_set());
            &&& all_known(postings, r.push(d))
            &&& r.push(d).len() > 0
            &&& narrowed.finite()
            &&& narrowed.len() > 0
            &&& narrowed.subset_of(before)
            &&& narrowed.len() < before.len()
        }),
        ({
            let before = candidates_of(postings, r.to_set());
            ||| (resolution(items, postings, r.push(d)) matches Resolution::Address(t, _)
                && before.contains(t))
            ||| (resolution(items, postings, r.push(d)) matches Resolution::Ambiguous(_, c2, _)
                && c2.subset_of(before) && c2.len() < before.len())
        }),
{
    let req = r.to_set();
    let c = candidates_of(postings, req);
    let r2 = r.push(d);
    let req2 = r2.to_set();
    r.lemma_push_to_set_commute(d);
    assert(req2 == req.insert(d));
    assert(all_known(postings, r) && r.len() > 0);
    let add = discriminators_of(items, c, req);
    assert(add.contains(d));
    let has = choose|x: Seq<char>| #[trigger] c.contains(x) && items[x].contains(d);
    let lacks = choose|x: Seq<char>| #[trigger] c.contains(x) && !items[x].contains(d);
    assert(c.contains(has) && items[has].contains(d));
    assert(c.contains(lacks) && !items[lacks].contains(d));
    assert(req.contains(r[0]));
    assert(postings[r[0]].contains(has));
    assert(items.dom().contains(has));
    assert(postings.dom().contains(d) && postings[d].contains(has));
    assert forall|k: int| 0 <= k < r2.len() implies postings.dom().contains(#[trigger] r2[k]) by {
        if k < r.len() {
            assert(r2[k] == r[k]);
        }
    }
    let c2 = candidates_of(postings, req2);
    lemma_candidates_finite(postings, r);
    lemma_candidates_finite(postings, r2);
    assert(c2.subset_of(c)) by {
        assert forall|x: Seq<char>| #[trigger] c2.contains(x) implies c.contains(x) by {
            assert forall|f: Seq<char>| #[trigger] req.contains(f) implies postings[f].contains(x) by {
                assert(req2.contains(f));
            }
        }
    }
    assert(c2.contains(has)) by {
        assert forall|f: Seq<char>| #[trigger] req2.contains(f) implies postings[f].contains(has) by {
            if f != d {
                assert(req.contains(f));
            }
        }
    }
    assert(!c2.contains(lacks)) by {
        assert(req2.contains(d));
        if postings[d].contains(lacks) {
            assert(items[lacks].contains(d));
        }
    }
    vstd::set_lib::lemma_len_subset(c2, c.remove(lacks));
    assert(c2.len() > 0) by {
        if c2.len() == 0 {
            c2.lemma_len0_is_empty();
        }
    }
}


impl Default for AddressedField {
    /// An empty field.
    fn default() -> (f: Self)
        ensures
            f.wf(),
            f.item_map() == Map::<Seq<char>, Set<Seq<char>>>::empty(),
            f.posting_map() == Map::<Seq<char>, Set<Seq<char>>>::empty(),
    {
        AddressedField::new()
    }
}

} // verus!
