//! Observational memory: what was seen where, and when.

use vstd::prelude::*;
use crate::kinds::{kind_name, ObjectKindTag};
use crate::text::str_eq;
use crate::time::InGameClock;

verus! {

/// The kinds of object a mind can remember.
#[derive(Debug, Clone, Copy, PartialEq, Eq, Hash, Structural)]
pub enum MindObjectKind {
    Bed,
    Book,
    CoffeeMaker,
    Window,
    Fridge,
    Stove,
    Sink,
    Toilet,
    Shower,
    Bathtub,
    BathSink,
    Lamp,
    Nightstand,
    Dresser,
    Mug,
    Plant,
    Painting,
    Chair,
    Diary,
}

/// The remembered kind of an object kind.
pub open spec fn mind_kind(t: ObjectKindTag) -> MindObjectKind {
    match t {
        ObjectKindTag::Bed => MindObjectKind::Bed,
        ObjectKindTag::Book => MindObjectKind::Book,
        ObjectKindTag::CoffeeMaker => MindObjectKind::CoffeeMaker,
        ObjectKindTag::Window => MindObjectKind::Window,
        ObjectKindTag::Fridge => MindObjectKind::Fridge,
        ObjectKindTag::Stove => MindObjectKind::Stove,
        ObjectKindTag::Sink => MindObjectKind::Sink,
        ObjectKindTag::Toilet => MindObjectKind::Toilet,
        ObjectKindTag::Shower => MindObjectKind::Shower,
        ObjectKindTag::Bathtub => MindObjectKind::Bathtub,
        ObjectKindTag::BathSink => MindObjectKind::BathSink,
        ObjectKindTag::Lamp => MindObjectKind::Lamp,
        ObjectKindTag::Nightstand => MindObjectKind::Nightstand,
        ObjectKindTag::Dresser => MindObjectKind::Dresser,
        ObjectKindTag::Mug => MindObjectKind::Mug,
        ObjectKindTag::Plant => MindObjectKind::Plant,
        ObjectKindTag::Painting => MindObjectKind::Painting,
        ObjectKindTag::Chair => MindObjectKind::Chair,
        ObjectKindTag::Diary => MindObjectKind::Diary,
    }
}

impl MindObjectKind {
    /// The remembered kind of an object kind (see `mind_kind`).
    pub fn from_tag(t: ObjectKindTag) -> (k: Self)
        ensures
            k == mind_kind(t),
    {
        match t {
            ObjectKindTag::Bed => Self::Bed,
            ObjectKindTag::Book => Self::Book,
            ObjectKindTag::CoffeeMaker => Self::CoffeeMaker,
            ObjectKindTag::Window => Self::Window,
            ObjectKindTag::Fridge => Self::Fridge,
            ObjectKindTag::Stove => Self::Stove,
            ObjectKindTag::Sink => Self::Sink,
            ObjectKindTag::Toilet => Self::Toilet,
            ObjectKindTag::Shower => Self::Shower,
            ObjectKindTag::Bathtub => Self::Bathtub,
            ObjectKindTag::BathSink => Self::BathSink,
            ObjectKindTag::Lamp => Self::Lamp,
            ObjectKindTag::Nightstand => Self::Nightstand,
            ObjectKindTag::Dresser => Self::Dresser,
            ObjectKindTag::Mug => Self::Mug,
            ObjectKindTag::Plant => Self::Plant,
            ObjectKindTag::Painting => Self::Painting,
            ObjectKindTag::Chair => Self::Chair,
            ObjectKindTag::Diary => Self::Diary,
        }
    }
}

/// The name a remembered kind goes by: that of its variant.
pub open spec fn mind_kind_name(k: MindObjectKind) -> Seq<char> {
    match k {
        MindObjectKind::Bed => "Bed"@,
        MindObjectKind::Book => "Book"@,
        MindObjectKind::CoffeeMaker => "CoffeeMaker"@,
        MindObjectKind::Window => "Window"@,
        MindObjectKind::Fridge => "Fridge"@,
        MindObjectKind::Stove => "Stove"@,
        MindObjectKind::Sink => "Sink"@,
        MindObjectKind::Toilet => "Toilet"@,
        MindObjectKind::Shower => "Shower"@,
        MindObjectKind::Bathtub => "Bathtub"@,
        MindObjectKind::BathSink => "BathSink"@,
        MindObjectKind::Lamp => "Lamp"@,
        MindObjectKind::Nightstand => "Nightstand"@,
        MindObjectKind::Dresser => "Dresser"@,
        MindObjectKind::Mug => "Mug"@,
        MindObjectKind::Plant => "Plant"@,
        MindObjectKind::Painting => "Painting"@,
        MindObjectKind::Chair => "Chair"@,
        MindObjectKind::Diary => "Diary"@,
    }
}

/// What is remembered of an object names its kind: the remembered kind
/// goes by the object kind's own name, so two different kinds are never
/// remembered as the same, and every remembered kind is that of some
/// object kind.
pub proof fn lemma_remembered_kind_names_the_kind(t: ObjectKindTag, u: ObjectKindTag, k: MindObjectKind)
    ensures
        mind_kind_name(mind_kind(t)) == kind_name(t),
        mind_kind(t) == mind_kind(u) ==> t == u,
        exists|v: ObjectKindTag| mind_kind(v) == k,
{
    assert(mind_kind_name(mind_kind(t)) =~= kind_name(t));
    match k {
        MindObjectKind::Bed => assert(mind_kind(ObjectKindTag::Bed) == k),
        MindObjectKind::Book => assert(mind_kind(ObjectKindTag::Book) == k),
        MindObjectKind::CoffeeMaker => assert(mind_kind(ObjectKindTag::CoffeeMaker) == k),
        MindObjectKind::Window => assert(mind_kind(ObjectKindTag::Window) == k),
        MindObjectKind::Fridge => assert(mind_kind(ObjectKindTag::Fridge) == k),
        MindObjectKind::Stove => assert(mind_kind(ObjectKindTag::Stove) == k),
        MindObjectKind::Sink => assert(mind_kind(ObjectKindTag::Sink) == k),
        MindObjectKind::Toilet => assert(mind_kind(ObjectKindTag::Toilet) == k),
        MindObjectKind::Shower => assert(mind_kind(ObjectKindTag::Shower) == k),
        MindObjectKind::Bathtub => assert(mind_kind(ObjectKindTag::Bathtub) == k),
        MindObjectKind::BathSink => assert(mind_kind(ObjectKindTag::BathSink) == k),
        MindObjectKind::Lamp => assert(mind_kind(ObjectKindTag::Lamp) == k),
        MindObjectKind::Nightstand => assert(mind_kind(ObjectKindTag::Nightstand) == k),
        MindObjectKind::Dresser => assert(mind_kind(ObjectKindTag::Dresser) == k),
        MindObjectKind::Mug => assert(mind_kind(ObjectKindTag::Mug) == k),
        MindObjectKind::Plant => assert(mind_kind(ObjectKindTag::Plant) == k),
        MindObjectKind::Painting => assert(mind_kind(ObjectKindTag::Painting) == k),
        MindObjectKind::Chair => assert(mind_kind(ObjectKindTag::Chair) == k),
        MindObjectKind::Diary => assert(mind_kind(ObjectKindTag::Diary) == k),
    }
}

/// A grid cell, by column and row.
#[derive(Debug, Clone, Copy, PartialEq, Eq, Hash, Structural)]
pub struct TileCoord {
    pub x: i32,
    pub y: i32,
}

/// What a fact is about: an object of some kind seen in some cell, or a
/// person seen, by name.
#[derive(Debug, Clone, Copy, PartialEq, Eq, Hash)]
pub enum FactKey {
    SawObject(MindObjectKind, TileCoord),
    SawPerson(&'static str),
}

/// A fact key with names taken by their characters.
pub enum KeyView {
    SawObject(MindObjectKind, TileCoord),
    SawPerson(Seq<char>),
}

/// A fact key as plain values.
pub open spec fn key_view(k: FactKey) -> KeyView {
    match k {
        FactKey::SawObject(kind, at) => KeyView::SawObject(kind, at),
        FactKey::SawPerson(name) => KeyView::SawPerson(name@),
    }
}

/// When something was observed.
#[derive(Debug, Clone, Copy, PartialEq)]
pub struct Fact {
    pub observed_at: InGameClock,
}

impl Fact {
    /// A fact observed at `clock`.
    pub fn observed_at(clock: InGameClock) -> (f: Self)
        ensures
            f.observed_at == clock,
    {
        Self { observed_at: clock }
    }
}

/// Whether two keys name the same thing.
fn same_key(a: &FactKey, b: &FactKey) -> (r: bool)
    ensures
        r == (key_view(*a) == key_view(*b)),
{
    match (a, b) {
        (FactKey::SawObject(k1, c1), FactKey::SawObject(k2, c2)) => *k1 == *k2 && c1.x == c2.x
            && c1.y == c2.y,
        (FactKey::SawPerson(n1), FactKey::SawPerson(n2)) => str_eq(n1, n2),
        _ => false,
    }
}

/// The keys of a list of facts, as plain values.
pub open spec fn keys_of(v: Seq<(FactKey, Fact)>) -> Seq<KeyView> {
    v.map_values(|e: (FactKey, Fact)| key_view(e.0))
}

/// A list of facts read as a map (a later entry wins).
pub open spec fn facts_map(v: Seq<(FactKey, Fact)>) -> Map<KeyView, Fact>
    decreases v.len(),
{
    if v.len() == 0 {
        Map::empty()
    } else {
        facts_map(v.drop_last()).insert(key_view(v.last().0), v.last().1)
    }
}

proof fn lemma_facts_dom(v: Seq<(FactKey, Fact)>)
    ensures
        facts_map(v).dom() == keys_of(v).to_set(),
    decreases v.len(),
{
    if v.len() > 0 {
        lemma_facts_dom(v.drop_last());
        assert(keys_of(v.drop_last()) =~= keys_of(v).drop_last());
        assert(keys_of(v) =~= keys_of(v.drop_last()).push(key_view(v.last().0)));
        keys_of(v.drop_last()).lemma_push_to_set_commute(key_view(v.last().0));
    } else {
        assert(keys_of(v).to_set() =~= Set::empty());
    }
}

proof fn lemma_facts_at(v: Seq<(FactKey, Fact)>, i: int)
    requires
        keys_of(v).no_duplicates(),
        0 <= i < v.len(),
    ensures
        facts_map(v)[key_view(v[i].0)] == v[i].1,
    decreases v.len(),
{
    if i < v.len() - 1 {
        assert(keys_of(v.drop_last()) =~= keys_of(v).drop_last());
        assert(keys_of(v)[i] != keys_of(v)[v.len() - 1]);
        lemma_facts_at(v.drop_last(), i);
    }
}

/// What an observer remembers: the latest fact for each key.
pub struct Mind {
    facts: Vec<(FactKey, Fact)>,
}

impl Mind {
    /// The remembered facts by key.
    pub closed spec fn view(&self) -> Map<KeyView, Fact> {
        facts_map(self.facts@)
    }

    /// No key is listed twice.
    pub closed spec fn wf(&self) -> bool {
        keys_of(self.facts@).no_duplicates()
    }

    /// A mind with no memories.
    pub fn new() -> (m: Self)
        ensures
            m.wf(),
            m.view() == Map::<KeyView, Fact>::empty(),
    {
        Self { facts: Vec::new() }
    }

    /// Remember `fact` under `key`, replacing what was known under it.
    pub fn know(&mut self, key: FactKey, fact: Fact)
        requires
            old(self).wf(),
        ensures
            final(self).wf(),
            final(self).view() == old(self).view().insert(key_view(key), fact),
    {
        let ghost old_facts = self.facts@;
        let mut i: usize = 0;
        while i < self.facts.len()
            invariant
                i <= self.facts.len(),
                self.facts@ == old_facts,
                old_facts == old(self).facts@,
                keys_of(old_facts).no_duplicates(),
                forall|j: int| 0 <= j < i ==> key_view(self.facts@[j].0) != key_view(key),
            decreases self.facts.len() - i,
        {
            if same_key(&self.facts[i].0, &key) {
                let entry = (key, fact);
                self.facts.set(i, entry);
                proof {
                    let v = self.facts@;
                    assert(v =~= old_facts.update(i as int, entry));
                    assert(keys_of(v) =~= keys_of(old_facts));
                    lemma_facts_dom(v);
                    lemma_facts_dom(old_facts);
                    assert forall|k: KeyView| #[trigger] facts_map(v).dom().contains(k) implies facts_map(
                        v,
                    )[k] == facts_map(old_facts).insert(key_view(key), fact)[k] by {
                        let j = choose|j: int| 0 <= j < keys_of(v).len() && keys_of(v)[j] == k;
                        lemma_facts_at(v, j);
                        if j != i {
                            assert(keys_of(old_facts)[i as int] != keys_of(old_facts)[j]);
                            lemma_facts_at(old_facts, j);
                        }
                    }
                    assert(keys_of(old_facts)[i as int] == key_view(key));
                    assert(facts_map(v) =~= facts_map(old_facts).insert(key_view(key), fact));
                }
                return;
            }
            i = i + 1;
        }
        self.facts.push((key, fact));
        proof {
            let v = self.facts@;
            assert(v.drop_last() =~= old_facts);
            assert(v.last() == (key, fact));
            assert(keys_of(v) =~= keys_of(old_facts).push(key_view(key)));
            assert forall|a: int, b: int| 0 <= a < b < keys_of(v).len() implies keys_of(v)[a]
                != keys_of(v)[b] by {
                if b == old_facts.len() {
                    assert(keys_of(v)[a] == key_view(old_facts[a].0));
                }
            }
        }
    }

    /// What is known under `key`, if anything.
    pub fn recall(&self, key: &FactKey) -> (r: Option<&Fact>)
        requires
            self.wf(),
        ensures
            match r {
                Some(f) => self.view().dom().contains(key_view(*key)) && *f == self.view()[key_view(
                    *key,
                )],
                None => !self.view().dom().contains(key_view(*key)),
            },
    {
        proof {
            lemma_facts_dom(self.facts@);
        }
        let mut i: usize = 0;
        while i < self.facts.len()
            invariant
                i <= self.facts.len(),
                keys_of(self.facts@).no_duplicates(),
                forall|j: int| 0 <= j < i ==> key_view(self.facts@[j].0) != key_view(*key),
            decreases self.facts.len() - i,
        {
            if same_key(&self.facts[i].0, key) {
                proof {
                    lemma_facts_dom(self.facts@);
                    lemma_facts_at(self.facts@, i as int);
                    assert(keys_of(self.facts@)[i as int] == key_view(*key));
                    assert(keys_of(self.facts@).to_set().contains(key_view(*key)));
                }
                return Some(&self.facts[i].1);
            }
            i = i + 1;
        }
        proof {
            assert forall|j: int| 0 <= j < keys_of(self.facts@).len() implies keys_of(
                self.facts@,
            )[j] != key_view(*key) by {
                assert(keys_of(self.facts@)[j] == key_view(self.facts@[j].0));
            }
        }
        None
    }

    /// How many keys are remembered.
    pub fn len(&self) -> (n: usize)
        requires
            self.wf(),
        ensures
            n == self.view().dom().len(),
    {
        proof {
            lemma_facts_dom(self.facts@);
            keys_of(self.facts@).unique_seq_to_set();
        }
        self.facts.len()
    }

    /// Whether nothing is remembered.
    pub fn is_empty(&self) -> (b: bool)
        requires
            self.wf(),
        ensures
            b == (self.view().dom().len() == 0),
    {
        proof {
            lemma_facts_dom(self.facts@);
            keys_of(self.facts@).unique_seq_to_set();
        }
        self.facts.len() == 0
    }
}

impl Default for Mind {
    fn default() -> (m: Self)
        ensures
            m.wf(),
            m.view() == Map::<KeyView, Fact>::empty(),
    {
        Self::new()
    }
}


/// What is remembered after `know(key, fact)`: `fact` under `key`, and
/// every other key exactly as before.
pub proof fn lemma_know_then_recall(
    before: Map<KeyView, Fact>,
    after: Map<KeyView, Fact>,
    key: FactKey,
    fact: Fact,
    other: KeyView,
)
    requires
        after == before.insert(key_view(key), fact),
    ensures
        after.dom().contains(key_view(key)),
        after[key_view(key)] == fact,
        other != key_view(key) ==> (after.dom().contains(other) == before.dom().contains(other)
            && after[other] == before[other]),
{
}

} // verus!
