//! kindgen: generate kind source files from declarative specs.
//!
//! A `KindSpec` is a tiny declarative descriptor; `emit_kind_source`
//! returns a complete Rust module, and `emit_integration_patch` returns
//! the string fragments that wire the kind into Object/ObjectKindTag/Mind
//! and the match statements that dispatch over them.
//!
//! Every kind in the universe — generated or hand-crafted — is listed in
//! `universe_manifest()`, which is bijective with the kind census.

pub mod emit;

use vstd::prelude::*;

use crate::kinds::{kind_name, spec_all_kind_tags, ObjectKindTag};
use crate::text::{char_is_uppercase, push_char, spec_is_uppercase, to_ascii_lower};

verus! {

// ---------- Specs ----------

#[derive(Debug, Clone, Copy, PartialEq, Eq)]
pub enum Archetype {
    /// A vessel that holds up to N ml of water.
    SimpleLiquidContainer { capacity_ml: u32 },
    /// An on/off faucet that produces water at a fixed flow rate.
    SwitchableFaucet { flow_ml_per_sec: u32 },
    /// A world-decorating object with only position state.
    DecorativeItem,
    /// An object with an open/closed toggle via `Openable`.
    SimpleOpenable,
}

#[derive(Debug, Clone, Copy)]
pub struct KindSpec {
    pub name: &'static str,
    pub doc: &'static str,
    pub archetype: Archetype,
}

/// The module source that a spec generates.
pub open spec fn kind_source(name: Seq<char>, doc: Seq<char>, archetype: Archetype) -> Seq<char> {
    match archetype {
        Archetype::SimpleLiquidContainer { capacity_ml } => emit::liquid_container_text(
            name,
            doc,
            capacity_ml as nat,
        ),
        Archetype::SwitchableFaucet { flow_ml_per_sec } => emit::faucet_text(
            name,
            doc,
            flow_ml_per_sec as nat,
        ),
        Archetype::DecorativeItem => emit::decorative_text(name, doc),
        Archetype::SimpleOpenable => emit::openable_text(name, doc),
    }
}

/// The archetype's name, which is also the facet a generated kind carries.
pub open spec fn archetype_name(a: Archetype) -> Seq<char> {
    match a {
        Archetype::SimpleLiquidContainer { .. } => "SimpleLiquidContainer"@,
        Archetype::SwitchableFaucet { .. } => "SwitchableFaucet"@,
        Archetype::DecorativeItem => "DecorativeItem"@,
        Archetype::SimpleOpenable => "SimpleOpenable"@,
    }
}

impl Archetype {
    pub fn name(&self) -> (s: &'static str)
        ensures
            s@ == archetype_name(*self),
    {
        match self {
            Archetype::SimpleLiquidContainer { .. } => "SimpleLiquidContainer",
            Archetype::SwitchableFaucet { .. } => "SwitchableFaucet",
            Archetype::DecorativeItem => "DecorativeItem",
            Archetype::SimpleOpenable => "SimpleOpenable",
        }
    }
}

/// The Mug kind's spec.
pub open spec fn spec_mug() -> KindSpec {
    KindSpec {
        name: "Mug",
        doc: "Mug: a single-chamber ceramic drinking vessel holding up to 250ml.",
        archetype: Archetype::SimpleLiquidContainer { capacity_ml: 250 },
    }
}

pub fn mug_spec() -> (s: KindSpec)
    ensures
        s == spec_mug(),
{
    KindSpec {
        name: "Mug",
        doc: "Mug: a single-chamber ceramic drinking vessel holding up to 250ml.",
        archetype: Archetype::SimpleLiquidContainer { capacity_ml: 250 },
    }
}

/// The Plant kind's spec.
pub open spec fn spec_plant() -> KindSpec {
    KindSpec {
        name: "Plant",
        doc: "Plant: a decorative potted houseplant.",
        archetype: Archetype::DecorativeItem,
    }
}

pub fn plant_spec() -> (s: KindSpec)
    ensures
        s == spec_plant(),
{
    KindSpec {
        name: "Plant",
        doc: "Plant: a decorative potted houseplant.",
        archetype: Archetype::DecorativeItem,
    }
}

/// The Painting kind's spec.
pub open spec fn spec_painting() -> KindSpec {
    KindSpec {
        name: "Painting",
        doc: "Painting: a framed piece of art on the wall.",
        archetype: Archetype::DecorativeItem,
    }
}

pub fn painting_spec() -> (s: KindSpec)
    ensures
        s == spec_painting(),
{
    KindSpec {
        name: "Painting",
        doc: "Painting: a framed piece of art on the wall.",
        archetype: Archetype::DecorativeItem,
    }
}

/// The Chair kind's spec.
pub open spec fn spec_chair() -> KindSpec {
    KindSpec {
        name: "Chair",
        doc: "Chair: a wooden chair (back, seat, four legs).",
        archetype: Archetype::DecorativeItem,
    }
}

pub fn chair_spec() -> (s: KindSpec)
    ensures
        s == spec_chair(),
{
    KindSpec {
        name: "Chair",
        doc: "Chair: a wooden chair (back, seat, four legs).",
        archetype: Archetype::DecorativeItem,
    }
}

/// The Diary kind's spec.
pub open spec fn spec_diary() -> KindSpec {
    KindSpec {
        name: "Diary",
        doc: "Diary: a private journal with a pressed-leather cover.",
        archetype: Archetype::SimpleOpenable,
    }
}

pub fn diary_spec() -> (s: KindSpec)
    ensures
        s == spec_diary(),
{
    KindSpec {
        name: "Diary",
        doc: "Diary: a private journal with a pressed-leather cover.",
        archetype: Archetype::SimpleOpenable,
    }
}

/// The registry of generated specs: Mug, Plant, Painting, Chair, Diary.
pub fn generated_specs() -> (v: Vec<KindSpec>)
    ensures
        v@ == spec_generated_specs(),
{
    let v = vec![mug_spec(), plant_spec(), painting_spec(), chair_spec(), diary_spec()];
    assert(v@ =~= spec_generated_specs());
    v
}

/// The registry of generated specs.
pub open spec fn spec_generated_specs() -> Seq<KindSpec> {
    seq![spec_mug(), spec_plant(), spec_painting(), spec_chair(), spec_diary()]
}

// ---------- Universe manifest ----------

#[derive(Debug, Clone)]
pub enum KindOrigin {
    Generated(KindSpec),
    HandCrafted { archetype_conformance: Vec<&'static str> },
}

#[derive(Debug, Clone)]
pub struct UniverseEntry {
    pub tag_name: &'static str,
    pub origin: KindOrigin,
}

/// The facets a manifest entry carries: a hand-crafted kind's declared
/// conformances, or a generated kind's archetype.
pub open spec fn entry_facets(e: UniverseEntry) -> Seq<Seq<char>> {
    match e.origin {
        KindOrigin::Generated(spec) => seq![archetype_name(spec.archetype)],
        KindOrigin::HandCrafted { archetype_conformance } => archetype_conformance@.map_values(
            |s: &'static str| s@,
        ),
    }
}

impl UniverseEntry {
    /// The entry's facets (see `entry_facets`).
    pub fn facets(&self) -> (v: Vec<&'static str>)
        ensures
            v@.map_values(|s: &'static str| s@) == entry_facets(*self),
    {
        match &self.origin {
            KindOrigin::Generated(spec) => {
                let v = vec![spec.archetype.name()];
                assert(v@.map_values(|s: &'static str| s@) =~= entry_facets(*self));
                v
            },
            KindOrigin::HandCrafted { archetype_conformance } => archetype_conformance.clone(),
        }
    }
}

fn hand_crafted(tag_name: &'static str, facets: Vec<&'static str>) -> (e: UniverseEntry)
    ensures
        e.tag_name == tag_name,
        e.origin == (KindOrigin::HandCrafted { archetype_conformance: facets }),
{
    UniverseEntry { tag_name, origin: KindOrigin::HandCrafted { archetype_conformance: facets } }
}

fn generated(spec: KindSpec) -> (e: UniverseEntry)
    ensures
        e.tag_name == spec.name,
        e.origin == KindOrigin::Generated(spec),
{
    UniverseEntry { tag_name: spec.name, origin: KindOrigin::Generated(spec) }
}

/// An entry as plain values: its tag name, the spec it was generated
/// from (if any), and its facets.
pub open spec fn entry_view(e: UniverseEntry) -> (Seq<char>, Option<KindSpec>, Seq<Seq<char>>) {
    (
        e.tag_name@,
        match e.origin {
            KindOrigin::Generated(spec) => Some(spec),
            KindOrigin::HandCrafted { .. } => None,
        },
        entry_facets(e),
    )
}

pub open spec fn hand(name: &str, facets: Seq<Seq<char>>) -> (Seq<char>, Option<KindSpec>, Seq<Seq<char>>) {
    (name@, None, facets)
}

pub open spec fn gen(spec: KindSpec) -> (Seq<char>, Option<KindSpec>, Seq<Seq<char>>) {
    (spec.name@, Some(spec), seq![archetype_name(spec.archetype)])
}

/// The universe manifest as plain values.
pub open spec fn spec_manifest() -> Seq<(Seq<char>, Option<KindSpec>, Seq<Seq<char>>)> {
    seq![
        hand("Bed", seq!["StatefulToggle"@]),
        hand("Book", seq!["SimpleOpenable"@]),
        hand("CoffeeMaker", seq!["Cyclable"@, "LiquidContainer"@, "Powered"@, "TimeDecaySeconds"@]),
        hand("Window", seq!["Switchable"@, "LightEmitter"@]),
        hand("Fridge", seq!["Openable"@, "Container"@, "Powered"@, "TimeDecayMinutes"@]),
        hand("Stove", seq!["Powered"@, "LightEmitter"@, "TimeDecayMinutes"@]),
        hand("Sink", seq!["SwitchableFaucet"@]),
        hand("Toilet", seq!["Cyclable"@, "LiquidContainer"@, "TimeDecaySeconds"@]),
        hand("Shower", seq!["SwitchableFaucet"@]),
        hand("Bathtub", seq!["Openable"@, "Switchable"@, "LiquidContainer"@, "TimeDecaySeconds"@]),
        hand("BathSink", seq!["SwitchableFaucet"@]),
        hand("Lamp", seq!["Switchable"@, "LightEmitter"@, "Powered"@]),
        hand("Nightstand", seq!["Container"@]),
        hand("Dresser", seq!["Container"@]),
        gen(spec_mug()),
        gen(spec_plant()),
        gen(spec_painting()),
        gen(spec_chair()),
        gen(spec_diary()),
    ]
}

fn hand_entry(tag_name: &'static str, facets: Vec<&'static str>) -> (e: UniverseEntry)
    ensures
        entry_view(e) == hand(tag_name, facets@.map_values(|s: &'static str| s@)),
{
    UniverseEntry { tag_name, origin: KindOrigin::HandCrafted { archetype_conformance: facets } }
}

fn gen_entry(spec: KindSpec) -> (e: UniverseEntry)
    ensures
        entry_view(e) == gen(spec),
{
    UniverseEntry { tag_name: spec.name, origin: KindOrigin::Generated(spec) }
}

fn facets1(a: &'static str) -> (v: Vec<&'static str>)
    ensures
        v@.map_values(|s: &'static str| s@) == seq![a@],
{
    let v = vec![a];
    assert(v@.map_values(|s: &'static str| s@) =~= seq![a@]);
    v
}

fn facets2(a: &'static str, b: &'static str) -> (v: Vec<&'static str>)
    ensures
        v@.map_values(|s: &'static str| s@) == seq![a@, b@],
{
    let v = vec![a, b];
    assert(v@.map_values(|s: &'static str| s@) =~= seq![a@, b@]);
    v
}

fn facets3(a: &'static str, b: &'static str, c: &'static str) -> (v: Vec<&'static str>)
    ensures
        v@.map_values(|s: &'static str| s@) == seq![a@, b@, c@],
{
    let v = vec![a, b, c];
    assert(v@.map_values(|s: &'static str| s@) =~= seq![a@, b@, c@]);
    v
}

fn facets4(a: &'static str, b: &'static str, c: &'static str, d: &'static str) -> (v: Vec<&'static str>)
    ensures
        v@.map_values(|s: &'static str| s@) == seq![a@, b@, c@, d@],
{
    let v = vec![a, b, c, d];
    assert(v@.map_values(|s: &'static str| s@) =~= seq![a@, b@, c@, d@]);
    v
}

/// Every kind of the universe with its origin and facets.
pub fn universe_manifest() -> (m: Vec<UniverseEntry>)
    ensures
        m@.map_values(|e: UniverseEntry| entry_view(e)) == spec_manifest(),
{
    let mut m: Vec<UniverseEntry> = Vec::new();
    m.push(hand_entry("Bed", facets1("StatefulToggle")));
    m.push(hand_entry("Book", facets1("SimpleOpenable")));
    m.push(hand_entry("CoffeeMaker", facets4("Cyclable", "LiquidContainer", "Powered", "TimeDecaySeconds")));
    m.push(hand_entry("Window", facets2("Switchable", "LightEmitter")));
    m.push(hand_entry("Fridge", facets4("Openable", "Container", "Powered", "TimeDecayMinutes")));
    m.push(hand_entry("Stove", facets3("Powered", "LightEmitter", "TimeDecayMinutes")));
    m.push(hand_entry("Sink", facets1("SwitchableFaucet")));
    m.push(hand_entry("Toilet", facets3("Cyclable", "LiquidContainer", "TimeDecaySeconds")));
    m.push(hand_entry("Shower", facets1("SwitchableFaucet")));
    m.push(hand_entry("Bathtub", facets4("Openable", "Switchable", "LiquidContainer", "TimeDecaySeconds")));
    m.push(hand_entry("BathSink", facets1("SwitchableFaucet")));
    m.push(hand_entry("Lamp", facets3("Switchable", "LightEmitter", "Powered")));
    m.push(hand_entry("Nightstand", facets1("Container")));
    m.push(hand_entry("Dresser", facets1("Container")));
    m.push(gen_entry(mug_spec()));
    m.push(gen_entry(plant_spec()));
    m.push(gen_entry(painting_spec()));
    m.push(gen_entry(chair_spec()));
    m.push(gen_entry(diary_spec()));
    proof {
        let mv = m@.map_values(|e: UniverseEntry| entry_view(e));
        assert forall|i: int| 0 <= i < 19 implies mv[i] == spec_manifest()[i] by {
            assert(mv[i] == entry_view(m@[i]));
        }
        assert(mv =~= spec_manifest());
    }
    m
}

/// The manifest entry for a tag name, if the universe has that kind.
pub fn manifest_entry_for(tag_name: &str) -> (r: Option<UniverseEntry>)
    ensures
        r is None <==> (forall|i: int| 0 <= i < spec_manifest().len() ==> spec_manifest()[i].0 != tag_name@),
        r matches Some(e) ==> exists|i: int| 0 <= i < spec_manifest().len() && spec_manifest()[i].0 == tag_name@
            && entry_view(e) == spec_manifest()[i],
{
    let mut m = universe_manifest();
    let ghost model = m@.map_values(|e: UniverseEntry| entry_view(e));
    let n = m.len();
    let mut i: usize = 0;
    while i < n
        invariant
            n == m@.len(),
            model == m@.map_values(|e: UniverseEntry| entry_view(e)),
            model == spec_manifest(),
            i <= n,
            forall|j: int| 0 <= j < i ==> spec_manifest()[j].0 != tag_name@,
        decreases n - i,
    {
        if crate::text::str_eq(m[i].tag_name, tag_name) {
            let e = m.swap_remove(i);
            assert(entry_view(e) == model[i as int]);
            return Some(e);
        }
        i = i + 1;
    }
    None
}

// ---------- Census laws ----------

/// The manifest lists exactly the kind census, in census order: every
/// kind tag has exactly one entry and every entry names a kind tag.
pub proof fn lemma_manifest_is_the_census()
    ensures
        spec_manifest().len() == spec_all_kind_tags().len(),
        forall|i: int|
            0 <= i < spec_manifest().len() ==> #[trigger] spec_manifest()[i].0 == kind_name(
                spec_all_kind_tags()[i],
            ),
        forall|i: int, j: int|
            0 <= i < j < spec_manifest().len() ==> spec_manifest()[i].0 != spec_manifest()[j].0,
{
    reveal_strlit("Bed");
    reveal_strlit("Book");
    reveal_strlit("CoffeeMaker");
    reveal_strlit("Window");
    reveal_strlit("Fridge");
    reveal_strlit("Stove");
    reveal_strlit("Sink");
    reveal_strlit("Toilet");
    reveal_strlit("Shower");
    reveal_strlit("Bathtub");
    reveal_strlit("BathSink");
    reveal_strlit("Lamp");
    reveal_strlit("Nightstand");
    reveal_strlit("Dresser");
    reveal_strlit("Mug");
    reveal_strlit("Plant");
    reveal_strlit("Painting");
    reveal_strlit("Chair");
    reveal_strlit("Diary");
    let m = spec_manifest();
    assert forall|i: int, j: int| 0 <= i < j < m.len() implies m[i].0 != m[j].0 by {
        assert(m[i].0.len() != m[j].0.len() || m[i].0[0] != m[j].0[0] || m[i].0[1] != m[j].0[1]
            || m[i].0[2] != m[j].0[2] || m[i].0[3] != m[j].0[3] || m[i].0[4] != m[j].0[4]);
    }
}

/// Every hand-crafted kind declares at least one archetype conformance.
pub proof fn lemma_hand_crafted_declare_conformance()
    ensures
        forall|i: int|
            0 <= i < spec_manifest().len() && (#[trigger] spec_manifest()[i]).1 is None
                ==> spec_manifest()[i].2.len() > 0,
{
}

/// Every spec of the generator registry has a manifest entry, marked as
/// generated from that very spec.
pub proof fn lemma_generated_specs_are_in_manifest()
    ensures
        forall|k: int|
            0 <= k < spec_generated_specs().len() ==> exists|i: int|
                0 <= i < spec_manifest().len() && spec_manifest()[i].0
                    == (#[trigger] spec_generated_specs()[k]).name@ && spec_manifest()[i].1 == Some(
                    spec_generated_specs()[k],
                ),
{
    assert forall|k: int| 0 <= k < spec_generated_specs().len() implies exists|i: int|
        0 <= i < spec_manifest().len() && spec_manifest()[i].0
            == (#[trigger] spec_generated_specs()[k]).name@ && spec_manifest()[i].1 == Some(
            spec_generated_specs()[k],
        ) by {
        assert(spec_manifest()[14 + k].1 == Some(spec_generated_specs()[k]));
    }
}

// ---------- Code emission ----------

#[derive(Debug, Clone, PartialEq, Eq)]
pub struct IntegrationPatch {
    pub mod_decl: String,
    pub use_decl: String,
    pub tag_variant: String,
    pub obj_variant: String,
    pub pos_arm: String,
    pub kind_tag_arm: String,
    pub use_action_arm: String,
    pub liquid_container_arm: Option<String>,
    pub mind_variant: String,
    pub mind_from_tag_arm: String,
    pub wildcard_kind_tag: String,
}

/// The module source of the kind a spec describes.
pub fn emit_kind_source(spec: &KindSpec) -> (s: String)
    ensures
        s@ == kind_source(spec.name@, spec.doc@, spec.archetype),
{
    match spec.archetype {
        Archetype::SimpleLiquidContainer { capacity_ml } => emit::simple_liquid_container(
            spec.name,
            spec.doc,
            capacity_ml,
        ),
        Archetype::SwitchableFaucet { flow_ml_per_sec } => emit::switchable_faucet(
            spec.name,
            spec.doc,
            flow_ml_per_sec,
        ),
        Archetype::DecorativeItem => emit::decorative_item(spec.name, spec.doc),
        Archetype::SimpleOpenable => emit::simple_openable(spec.name, spec.doc),
    }
}

/// The module name of a kind: an underscore before every uppercase
/// character except the first, and ASCII letters lowercased.
pub open spec fn snake(name: Seq<char>) -> Seq<char>
    decreases name.len(),
{
    if name.len() == 0 {
        Seq::empty()
    } else {
        let c = name.last();
        let sep = if spec_is_uppercase(c) && name.len() > 1 {
            seq!['_']
        } else {
            Seq::empty()
        };
        snake(name.drop_last()) + sep + seq![to_lower_spec(c)]
    }
}

pub open spec fn to_lower_spec(c: char) -> char {
    crate::text::ascii_lower(c)
}

/// The module name for a kind name (see `snake`).
pub fn snake_case(name: &str) -> (out: String)
    ensures
        out@ == snake(name@),
{
    let n = name.unicode_len();
    let mut out = String::new();
    let mut i: usize = 0;
    proof {
        assert(name@.take(0) =~= Seq::<char>::empty());
    }
    while i < n
        invariant
            n == name@.len(),
            i <= n,
            out@ == snake(name@.take(i as int)),
        decreases n - i,
    {
        let c = name.get_char(i);
        if char_is_uppercase(c) && i > 0 {
            push_char(&mut out, '_');
        }
        push_char(&mut out, to_ascii_lower(c));
        proof {
            let t = name@.take(i + 1);
            assert(t.drop_last() =~= name@.take(i as int));
            assert(t.last() == c);
            if spec_is_uppercase(c) && i > 0 {
                assert(out@ =~= snake(name@.take(i as int)) + seq!['_'] + seq![to_lower_spec(c)]);
            } else {
                assert(out@ =~= snake(name@.take(i as int)) + Seq::<char>::empty() + seq![to_lower_spec(c)]);
            }
        }
        i = i + 1;
    }
    assert(name@.take(n as int) =~= name@);
    out
}

/// The use-action match arm of a generated kind.
pub open spec fn use_action_arm_text(name: Seq<char>, a: Archetype) -> Seq<char> {
    match a {
        Archetype::SimpleLiquidContainer { .. } | Archetype::DecorativeItem => "            Object::"@
            + name + "(_) => {}"@,
        Archetype::SwitchableFaucet { .. } => "            Object::"@ + name + "(x) => x.toggle(),"@,
        Archetype::SimpleOpenable => "            Object::"@ + name + "(x) => x.toggle_open(),"@,
    }
}

/// The fragments that wire a generated kind into the rest of the crate.
pub fn emit_integration_patch(spec: &KindSpec) -> (p: IntegrationPatch)
    ensures
        ({
            let name = spec.name@;
            let module = snake(name);
            &&& p.mod_decl@ == "pub mod "@ + module + ";"@
            &&& p.use_decl@ == "pub use "@ + module + "::"@ + name + ";"@
            &&& p.tag_variant@ == "    "@ + name + ","@
            &&& p.obj_variant@ == "    "@ + name + "("@ + name + "),"@
            &&& p.pos_arm@ == "            Object::"@ + name + "(x) => x.pos,"@
            &&& p.kind_tag_arm@ == "            Object::"@ + name + "(_) => ObjectKindTag::"@ + name
                + ","@
            &&& p.use_action_arm@ == use_action_arm_text(name, spec.archetype)
            &&& (spec.archetype is SimpleLiquidContainer) == (p.liquid_container_arm is Some)
            &&& p.liquid_container_arm matches Some(arm) ==> arm@ == "            Object::"@ + name
                + "(x) => Some(x),"@
            &&& p.mind_variant@ == "    "@ + name + ","@
            &&& p.mind_from_tag_arm@ == "            ObjectKindTag::"@ + name + " => Self::"@ + name
                + ","@
            &&& p.wildcard_kind_tag@ == "| ObjectKindTag::"@ + name
        }),
{
    let name = spec.name;
    let module = snake_case(name);
    let liquid_container_arm = match spec.archetype {
        Archetype::SimpleLiquidContainer { .. } => {
            let mut a = String::from_str("            Object::");
            a.append(name);
            a.append("(x) => Some(x),");
            Some(a)
        },
        _ => None,
    };
    let mut use_action_arm = String::from_str("            Object::");
    use_action_arm.append(name);
    match spec.archetype {
        Archetype::SimpleLiquidContainer { .. } | Archetype::DecorativeItem => use_action_arm.append(
            "(_) => {}",
        ),
        Archetype::SwitchableFaucet { .. } => use_action_arm.append("(x) => x.toggle(),"),
        Archetype::SimpleOpenable => use_action_arm.append("(x) => x.toggle_open(),"),
    }
    let mut mod_decl = String::from_str("pub mod ");
    mod_decl.append(module.as_str());
    mod_decl.append(";");
    let mut use_decl = String::from_str("pub use ");
    use_decl.append(module.as_str());
    use_decl.append("::");
    use_decl.append(name);
    use_decl.append(";");
    let mut tag_variant = String::from_str("    ");
    tag_variant.append(name);
    tag_variant.append(",");
    let mut obj_variant = String::from_str("    ");
    obj_variant.append(name);
    obj_variant.append("(");
    obj_variant.append(name);
    obj_variant.append("),");
    let mut pos_arm = String::from_str("            Object::");
    pos_arm.append(name);
    pos_arm.append("(x) => x.pos,");
    let mut kind_tag_arm = String::from_str("            Object::");
    kind_tag_arm.append(name);
    kind_tag_arm.append("(_) => ObjectKindTag::");
    kind_tag_arm.append(name);
    kind_tag_arm.append(",");
    let mut mind_variant = String::from_str("    ");
    mind_variant.append(name);
    mind_variant.append(",");
    let mut mind_from_tag_arm = String::from_str("            ObjectKindTag::");
    mind_from_tag_arm.append(name);
    mind_from_tag_arm.append(" => Self::");
    mind_from_tag_arm.append(name);
    mind_from_tag_arm.append(",");
    let mut wildcard_kind_tag = String::from_str("| ObjectKindTag::");
    wildcard_kind_tag.append(name);
    IntegrationPatch {
        mod_decl,
        use_decl,
        tag_variant,
        obj_variant,
        pos_arm,
        kind_tag_arm,
        use_action_arm,
        liquid_container_arm,
        mind_variant,
        mind_from_tag_arm,
        wildcard_kind_tag,
    }
}

/// Every faucet the factory generates switches on and off: the module
/// emitted for any `SwitchableFaucet` spec carries the `Switchable` impl
/// of that kind whose `toggle` negates the `on` flag.
pub proof fn lemma_generated_faucet_toggles(spec: KindSpec)
    requires
        spec.archetype is SwitchableFaucet,
    ensures
        emit::contains_text(
            kind_source(spec.name@, spec.doc@, spec.archetype),
            "impl Switchable for "@ + spec.name@
                + " {\n    fn is_on(&self) -> bool { self.on }\n    fn toggle(&mut self) { self.on = !self.on; }\n}"@,
        ),
{
    match spec.archetype {
        Archetype::SwitchableFaucet { flow_ml_per_sec } => {
            emit::lemma_faucet_toggle_negates(spec.name@, spec.doc@, flow_ml_per_sec as nat);
        },
        _ => {},
    }
}

} // verus!
