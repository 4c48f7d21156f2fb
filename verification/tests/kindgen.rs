use substrate::kindgen::{
    chair_spec, diary_spec, emit_integration_patch, emit_kind_source, generated_specs,
    manifest_entry_for, mug_spec, painting_spec, plant_spec, universe_manifest, Archetype,
    KindOrigin, KindSpec,
};
use substrate::kinds::all_kind_tags;
use std::collections::HashSet;

/// Module sources the generator must reproduce byte for byte.
const MUG_SOURCE: &str = r##"//! Mug: a single-chamber ceramic drinking vessel holding up to 250ml.

use crate::space::Vec2;
use crate::traits::{Liquid, LiquidContainer};

#[derive(Debug, Clone, Copy)]
pub struct Mug {
    pub pos: Vec2,
    water_ml: u32,
}

impl Mug {
    pub const CAPACITY_ML: u32 = 250;

    pub fn new(pos: Vec2) -> Self {
        Self { pos, water_ml: 0 }
    }

    pub fn water_ml(&self) -> u32 { self.water_ml }

    pub fn fill_fraction(&self) -> f32 {
        (self.water_ml as f32 / Self::CAPACITY_ML as f32).clamp(0.0, 1.0)
    }
}

impl LiquidContainer for Mug {
    fn liquid(&self) -> Option<(Liquid, u32)> {
        if self.water_ml > 0 { Some((Liquid::Water, self.water_ml)) } else { None }
    }
    fn capacity_ml(&self) -> u32 { Self::CAPACITY_ML }
    fn add_liquid(&mut self, kind: Liquid, ml: u32) -> u32 {
        if kind != Liquid::Water { return ml; }
        let room = Self::CAPACITY_ML.saturating_sub(self.water_ml);
        let taken = ml.min(room);
        self.water_ml += taken;
        ml - taken
    }
    fn drain_liquid(&mut self, ml: u32) -> (Liquid, u32) {
        let taken = ml.min(self.water_ml);
        self.water_ml -= taken;
        (Liquid::Water, taken)
    }
}

#[cfg(test)]
mod tests {
    use super::*;

    #[test]
    fn starts_empty() {
        let m = Mug::new(Vec2::new(0.0, 0.0));
        assert_eq!(m.water_ml(), 0);
        assert_eq!(m.fill_fraction(), 0.0);
    }

    #[test]
    fn add_water_bounded_by_capacity() {
        let mut m = Mug::new(Vec2::new(0.0, 0.0));
        let overflow = m.add_liquid(Liquid::Water, Mug::CAPACITY_ML * 2);
        assert_eq!(overflow, Mug::CAPACITY_ML);
        assert_eq!(m.water_ml(), Mug::CAPACITY_ML);
    }

    #[test]
    fn reject_non_water() {
        let mut m = Mug::new(Vec2::new(0.0, 0.0));
        let overflow = m.add_liquid(Liquid::Coffee, 100);
        assert_eq!(overflow, 100);
        assert_eq!(m.water_ml(), 0);
    }

    #[test]
    fn drain_removes_water() {
        let mut m = Mug::new(Vec2::new(0.0, 0.0));
        m.add_liquid(Liquid::Water, 200);
        let (kind, ml) = m.drain_liquid(50);
        assert_eq!(kind, Liquid::Water);
        assert_eq!(ml, 50);
        assert_eq!(m.water_ml(), 150);
    }
}
"##;

const PLANT_SOURCE: &str = r##"//! Plant: a decorative potted houseplant.

use crate::space::Vec2;

#[derive(Debug, Clone, Copy)]
pub struct Plant {
    pub pos: Vec2,
}

impl Plant {
    pub fn new(pos: Vec2) -> Self {
        Self { pos }
    }
}

#[cfg(test)]
mod tests {
    use super::*;

    #[test]
    fn stores_pos() {
        let x = Plant::new(Vec2::new(3.0, 4.0));
        assert_eq!(x.pos, Vec2::new(3.0, 4.0));
    }
}
"##;

const PAINTING_SOURCE: &str = r##"//! Painting: a framed piece of art on the wall.

use crate::space::Vec2;

#[derive(Debug, Clone, Copy)]
pub struct Painting {
    pub pos: Vec2,
}

impl Painting {
    pub fn new(pos: Vec2) -> Self {
        Self { pos }
    }
}

#[cfg(test)]
mod tests {
    use super::*;

    #[test]
    fn stores_pos() {
        let x = Painting::new(Vec2::new(3.0, 4.0));
        assert_eq!(x.pos, Vec2::new(3.0, 4.0));
    }
}
"##;

const CHAIR_SOURCE: &str = r##"//! Chair: a wooden chair (back, seat, four legs).

use crate::space::Vec2;

#[derive(Debug, Clone, Copy)]
pub struct Chair {
    pub pos: Vec2,
}

impl Chair {
    pub fn new(pos: Vec2) -> Self {
        Self { pos }
    }
}

#[cfg(test)]
mod tests {
    use super::*;

    #[test]
    fn stores_pos() {
        let x = Chair::new(Vec2::new(3.0, 4.0));
        assert_eq!(x.pos, Vec2::new(3.0, 4.0));
    }
}
"##;

const DIARY_SOURCE: &str = r##"//! Diary: a private journal with a pressed-leather cover.

use crate::space::Vec2;
use crate::traits::Openable;

#[derive(Debug, Clone, Copy)]
pub struct Diary {
    pub pos: Vec2,
    open: bool,
}

impl Diary {
    pub fn new(pos: Vec2) -> Self {
        Self { pos, open: false }
    }
}

impl Openable for Diary {
    fn is_open(&self) -> bool { self.open }
    fn toggle_open(&mut self) { self.open = !self.open; }
}

#[cfg(test)]
mod tests {
    use super::*;

    #[test]
    fn starts_closed() {
        let x = Diary::new(Vec2::new(0.0, 0.0));
        assert!(!x.is_open());
    }

    #[test]
    fn toggle_opens_and_closes() {
        let mut x = Diary::new(Vec2::new(0.0, 0.0));
        x.toggle_open();
        assert!(x.is_open());
        x.toggle_open();
        assert!(!x.is_open());
    }
}
"##;

/// The game's integration points that the patches must be wired into.
const KINDS_MOD: &str = r##"//! All object kinds + the outer Object enum.
//!
//! Currently generated + integrated: mug, plant, painting, diary.
//!
//! Every variant of `ObjectKindTag` must appear in `ALL_KIND_TAGS`
//! below AND in `kindgen::UNIVERSE_MANIFEST`. The factory
//! owns the census of the universe; no kind exists silently.

pub mod bath_sink;
pub mod bathtub;
pub mod bed;
pub mod book;
pub mod chair;
pub mod coffee_maker;
pub mod diary;
pub mod dresser;
pub mod fridge;
pub mod lamp;
pub mod mug;
pub mod nightstand;
pub mod painting;
pub mod plant;
pub mod shower;
pub mod sink;
pub mod stove;
pub mod toilet;
pub mod window_obj;

pub use bath_sink::BathSink;
pub use bathtub::Bathtub;
pub use bed::Bed;
pub use book::Book;
pub use chair::Chair;
pub use coffee_maker::{BrewState, CoffeeMaker};
pub use diary::Diary;
pub use dresser::Dresser;
pub use fridge::{FoodItem, Fridge, FridgeSlot};
pub use lamp::Lamp;
pub use mug::Mug;
pub use nightstand::Nightstand;
pub use painting::Painting;
pub use plant::Plant;
pub use shower::Shower;
pub use sink::Sink;
pub use stove::{Burner, BurnerLevel, Stove, StoveBurners};
pub use toilet::{Toilet, ToiletState};
pub use window_obj::WindowObj;

use crate::space::Vec2;
use crate::traits::{
    Container, Cyclable, LiquidContainer, LiquidSource, Openable, Powered,
    Switchable, TimeDecayMinutes, TimeDecaySeconds,
};
use crate::time::InGameClock;

#[derive(Debug, Clone, Copy, PartialEq, Eq, Hash)]
pub enum ObjectKindTag {
    Bed,
    Book,
    CoffeeMaker,
    Window,
    Fridge,
    Stove,
    Sink,
    Toilet,
    Shower,
    Bathtub,
    BathSink,
    Lamp,
    Nightstand,
    Dresser,
    Mug,
    Plant,
    Painting,
    Chair,
    Diary,
}

impl ObjectKindTag {
    pub fn name(&self) -> &'static str {
        match self {
            ObjectKindTag::Bed => "Bed",
            ObjectKindTag::Book => "Book",
            ObjectKindTag::CoffeeMaker => "CoffeeMaker",
            ObjectKindTag::Window => "Window",
            ObjectKindTag::Fridge => "Fridge",
            ObjectKindTag::Stove => "Stove",
            ObjectKindTag::Sink => "Sink",
            ObjectKindTag::Toilet => "Toilet",
            ObjectKindTag::Shower => "Shower",
            ObjectKindTag::Bathtub => "Bathtub",
            ObjectKindTag::BathSink => "BathSink",
            ObjectKindTag::Lamp => "Lamp",
            ObjectKindTag::Nightstand => "Nightstand",
            ObjectKindTag::Dresser => "Dresser",
            ObjectKindTag::Mug => "Mug",
            ObjectKindTag::Plant => "Plant",
            ObjectKindTag::Painting => "Painting",
            ObjectKindTag::Chair => "Chair",
            ObjectKindTag::Diary => "Diary",
        }
    }
}

pub const ALL_KIND_TAGS: &[ObjectKindTag] = &[
    ObjectKindTag::Bed,
    ObjectKindTag::Book,
    ObjectKindTag::CoffeeMaker,
    ObjectKindTag::Window,
    ObjectKindTag::Fridge,
    ObjectKindTag::Stove,
    ObjectKindTag::Sink,
    ObjectKindTag::Toilet,
    ObjectKindTag::Shower,
    ObjectKindTag::Bathtub,
    ObjectKindTag::BathSink,
    ObjectKindTag::Lamp,
    ObjectKindTag::Nightstand,
    ObjectKindTag::Dresser,
    ObjectKindTag::Mug,
    ObjectKindTag::Plant,
    ObjectKindTag::Painting,
    ObjectKindTag::Chair,
    ObjectKindTag::Diary,
];

#[derive(Debug, Clone, Copy)]
pub enum Object {
    Bed(Bed),
    Book(Book),
    CoffeeMaker(CoffeeMaker),
    Window(WindowObj),
    Fridge(Fridge),
    Stove(Stove),
    Sink(Sink),
    Toilet(Toilet),
    Shower(Shower),
    Bathtub(Bathtub),
    BathSink(BathSink),
    Lamp(Lamp),
    Nightstand(Nightstand),
    Dresser(Dresser),
    Mug(Mug),
    Plant(Plant),
    Painting(Painting),
    Chair(Chair),
    Diary(Diary),
}

impl Object {
    pub fn pos(&self) -> Vec2 {
        match self {
            Object::Bed(x) => x.pos,
            Object::Book(x) => x.pos,
            Object::CoffeeMaker(x) => x.pos,
            Object::Window(x) => x.pos,
            Object::Fridge(x) => x.pos,
            Object::Stove(x) => x.pos,
            Object::Sink(x) => x.pos,
            Object::Toilet(x) => x.pos,
            Object::Shower(x) => x.pos,
            Object::Bathtub(x) => x.pos,
            Object::BathSink(x) => x.pos,
            Object::Lamp(x) => x.pos,
            Object::Nightstand(x) => x.pos,
            Object::Dresser(x) => x.pos,
            Object::Mug(x) => x.pos,
            Object::Plant(x) => x.pos,
            Object::Painting(x) => x.pos,
            Object::Chair(x) => x.pos,
            Object::Diary(x) => x.pos,
        }
    }

    pub fn kind_tag(&self) -> ObjectKindTag {
        match self {
            Object::Bed(_) => ObjectKindTag::Bed,
            Object::Book(_) => ObjectKindTag::Book,
            Object::CoffeeMaker(_) => ObjectKindTag::CoffeeMaker,
            Object::Window(_) => ObjectKindTag::Window,
            Object::Fridge(_) => ObjectKindTag::Fridge,
            Object::Stove(_) => ObjectKindTag::Stove,
            Object::Sink(_) => ObjectKindTag::Sink,
            Object::Toilet(_) => ObjectKindTag::Toilet,
            Object::Shower(_) => ObjectKindTag::Shower,
            Object::Bathtub(_) => ObjectKindTag::Bathtub,
            Object::BathSink(_) => ObjectKindTag::BathSink,
            Object::Lamp(_) => ObjectKindTag::Lamp,
            Object::Nightstand(_) => ObjectKindTag::Nightstand,
            Object::Dresser(_) => ObjectKindTag::Dresser,
            Object::Mug(_) => ObjectKindTag::Mug,
            Object::Plant(_) => ObjectKindTag::Plant,
            Object::Painting(_) => ObjectKindTag::Painting,
            Object::Chair(_) => ObjectKindTag::Chair,
            Object::Diary(_) => ObjectKindTag::Diary,
        }
    }

    pub fn use_action(&mut self) {
        match self {
            Object::Bed(x) => x.use_action(),
            Object::Book(x) => x.toggle_open(),
            Object::CoffeeMaker(x) => x.cycle(),
            Object::Window(x) => x.toggle(),
            Object::Fridge(x) => x.toggle_open(),
            Object::Stove(x) => x.press(),
            Object::Sink(x) => x.toggle(),
            Object::Toilet(x) => x.cycle(),
            Object::Shower(x) => x.toggle(),
            Object::Bathtub(x) => x.toggle(),
            Object::BathSink(x) => x.toggle(),
            Object::Lamp(x) => x.toggle(),
            Object::Nightstand(_) => {}
            Object::Dresser(_) => {}
            Object::Mug(_) => {}
            Object::Plant(_) => {}
            Object::Painting(_) => {}
            Object::Chair(_) => {}
            Object::Diary(x) => x.toggle_open(),
        }
    }

    pub fn as_openable(&self) -> Option<&dyn Openable> {
        match self {
            Object::Book(x) => Some(x),
            Object::Fridge(x) => Some(x),
            Object::Bathtub(x) => Some(x),
            Object::Diary(x) => Some(x),
            _ => None,
        }
    }

    pub fn as_switchable(&self) -> Option<&dyn Switchable> {
        match self {
            Object::Sink(x) => Some(x),
            Object::Window(x) => Some(x),
            Object::Shower(x) => Some(x),
            Object::Bathtub(x) => Some(x),
            Object::BathSink(x) => Some(x),
            Object::Lamp(x) => Some(x),
            _ => None,
        }
    }

    pub fn as_time_decay_minutes_mut(&mut self) -> Option<&mut dyn TimeDecayMinutes> {
        match self {
            Object::Fridge(x) => Some(x),
            Object::Stove(x) => Some(x),
            _ => None,
        }
    }

    pub fn as_time_decay_seconds_mut(&mut self) -> Option<&mut dyn TimeDecaySeconds> {
        match self {
            Object::CoffeeMaker(x) => Some(x),
            Object::Sink(x) => Some(x),
            Object::Toilet(x) => Some(x),
            Object::Shower(x) => Some(x),
            Object::Bathtub(x) => Some(x),
            Object::BathSink(x) => Some(x),
            _ => None,
        }
    }

    pub fn as_light_emitter(&self, clock: &InGameClock) -> Option<LightContribution> {
        match self {
            Object::Window(x) => Some(x.light_contribution(clock)),
            Object::Stove(x) => x.light_contribution_from_burners(),
            Object::Lamp(x) => x.light_contribution(),
            _ => None,
        }
    }

    pub fn as_powered(&self) -> Option<&dyn Powered> {
        match self {
            Object::CoffeeMaker(x) => Some(x),
            Object::Fridge(x) => Some(x),
            Object::Stove(x) => Some(x),
            Object::Lamp(x) => Some(x),
            _ => None,
        }
    }

    pub fn as_liquid_container(&self) -> Option<&dyn LiquidContainer> {
        match self {
            Object::CoffeeMaker(x) => Some(x),
            Object::Toilet(x) => Some(x),
            Object::Bathtub(x) => Some(x),
            Object::Mug(x) => Some(x),
            _ => None,
        }
    }

    pub fn as_liquid_source(&self) -> Option<&dyn LiquidSource> {
        match self {
            Object::Sink(x) => Some(x),
            Object::Shower(x) => Some(x),
            Object::BathSink(x) => Some(x),
            _ => None,
        }
    }

    pub fn as_container(&self) -> Option<&dyn Container> {
        match self {
            Object::Fridge(x) => Some(x),
            Object::Nightstand(x) => Some(x),
            Object::Dresser(x) => Some(x),
            _ => None,
        }
    }
}

#[derive(Debug, Clone, Copy)]
pub struct LightContribution {
    pub rgb: (u8, u8, u8),
    pub intensity: f32,
}

impl LightContribution {
    pub const ZERO: Self = Self { rgb: (0, 0, 0), intensity: 0.0 };
}

"##;

const MIND: &str = r##"//! Mind primitive.

use std::collections::HashMap;

use crate::kinds::ObjectKindTag;
use crate::space::Vec2;
use crate::time::InGameClock;

#[derive(Debug, Clone, Copy, PartialEq, Eq, Hash)]
pub enum MindObjectKind {
    Bed,
    Book,
    CoffeeMaker,
    Window,
    Fridge,
    Stove,
    Sink,
    Toilet,
    Shower,
    Bathtub,
    BathSink,
    Lamp,
    Nightstand,
    Dresser,
    Mug,
    Plant,
    Painting,
    Chair,
    Diary,
}

impl MindObjectKind {
    pub fn from_tag(t: ObjectKindTag) -> Self {
        match t {
            ObjectKindTag::Bed => Self::Bed,
            ObjectKindTag::Book => Self::Book,
            ObjectKindTag::CoffeeMaker => Self::CoffeeMaker,
            ObjectKindTag::Window => Self::Window,
            ObjectKindTag::Fridge => Self::Fridge,
            ObjectKindTag::Stove => Self::Stove,
            ObjectKindTag::Sink => Self::Sink,
            ObjectKindTag::Toilet => Self::Toilet,
            ObjectKindTag::Shower => Self::Shower,
            ObjectKindTag::Bathtub => Self::Bathtub,
            ObjectKindTag::BathSink => Self::BathSink,
            ObjectKindTag::Lamp => Self::Lamp,
            ObjectKindTag::Nightstand => Self::Nightstand,
            ObjectKindTag::Dresser => Self::Dresser,
            ObjectKindTag::Mug => Self::Mug,
            ObjectKindTag::Plant => Self::Plant,
            ObjectKindTag::Painting => Self::Painting,
            ObjectKindTag::Chair => Self::Chair,
            ObjectKindTag::Diary => Self::Diary,
        }
    }
}

#[derive(Debug, Clone, Copy, PartialEq, Eq, Hash)]
pub enum FactKey {
    SawObject(MindObjectKind, TileCoord),
    SawPerson(&'static str),
}

#[derive(Debug, Clone, Copy, PartialEq, Eq, Hash)]
pub struct TileCoord { pub x: i32, pub y: i32 }

impl TileCoord {
    pub fn from_pos(pos: Vec2) -> Self {
        Self { x: pos.x.floor() as i32, y: pos.y.floor() as i32 }
    }
}

impl From<Vec2> for TileCoord {
    fn from(v: Vec2) -> Self { TileCoord::from_pos(v) }
}

#[derive(Debug, Clone, Copy, PartialEq)]
pub struct Fact {
    pub observed_at: InGameClock,
}

impl Fact {
    pub fn observed_at(clock: InGameClock) -> Self { Self { observed_at: clock } }
}

pub struct Mind {
    facts: HashMap<FactKey, Fact>,
}

impl Mind {
    pub fn new() -> Self { Self { facts: HashMap::new() } }
    pub fn know(&mut self, key: FactKey, fact: Fact) { self.facts.insert(key, fact); }
    pub fn recall(&self, key: &FactKey) -> Option<&Fact> { self.facts.get(key) }
    pub fn len(&self) -> usize { self.facts.len() }
    pub fn is_empty(&self) -> bool { self.facts.is_empty() }
}

impl Default for Mind {
    fn default() -> Self { Self::new() }
}
"##;

const AI: &str = r##"pub fn restore_for_kind(needs: &mut Needs, tag: ObjectKindTag) {
    match tag {
        ObjectKindTag::Fridge => needs.eat(3_000),
        ObjectKindTag::Bed => needs.sleep(60),
        ObjectKindTag::Shower => needs.shower(60),
        ObjectKindTag::Bathtub => {
            needs.shower(120);
            needs.read(1);
        }
        ObjectKindTag::BathSink | ObjectKindTag::Sink => needs.wash_hands(),
        ObjectKindTag::Toilet => {
            needs.use_toilet();
            needs.wash_hands();
        }
        ObjectKindTag::Book => needs.read(30),
        ObjectKindTag::CoffeeMaker => needs.drink_coffee(),
        ObjectKindTag::Stove
        | ObjectKindTag::Window
        | ObjectKindTag::Lamp
        | ObjectKindTag::Nightstand
        | ObjectKindTag::Dresser
        | ObjectKindTag::Mug
        | ObjectKindTag::Plant
        | ObjectKindTag::Painting
        | ObjectKindTag::Chair
        | ObjectKindTag::Diary => {}
    }
}

"##;

const INTERACT: &str = r##"            match kind_tag {
                ObjectKindTag::Bed => body.needs.sleep(60),
                ObjectKindTag::Fridge => body.needs.eat(3_000),
                ObjectKindTag::CoffeeMaker => body.needs.drink_coffee(),
                ObjectKindTag::Shower => body.needs.shower(60),
                ObjectKindTag::Bathtub => {
                    body.needs.shower(120);
                    body.needs.read(1);
                }
                ObjectKindTag::Sink | ObjectKindTag::BathSink => body.needs.wash_hands(),
                ObjectKindTag::Toilet => {
                    body.needs.use_toilet();
                    body.needs.wash_hands();
                }
                ObjectKindTag::Book => body.needs.read(30),
                ObjectKindTag::Stove
                | ObjectKindTag::Window
                | ObjectKindTag::Lamp
                | ObjectKindTag::Nightstand
                | ObjectKindTag::Dresser
                | ObjectKindTag::Mug
                | ObjectKindTag::Plant
                | ObjectKindTag::Painting
                | ObjectKindTag::Chair
                | ObjectKindTag::Diary => {}
            }
"##;

#[test]
fn mug_spec_emits_source_matching_disk() {
    assert_eq!(emit_kind_source(&mug_spec()), MUG_SOURCE);
}

#[test]
fn plant_spec_emits_source_matching_disk() {
    assert_eq!(emit_kind_source(&plant_spec()), PLANT_SOURCE);
}

#[test]
fn painting_spec_emits_source_matching_disk() {
    assert_eq!(emit_kind_source(&painting_spec()), PAINTING_SOURCE);
}

#[test]
fn chair_spec_emits_source_matching_disk() {
    assert_eq!(emit_kind_source(&chair_spec()), CHAIR_SOURCE);
}

#[test]
fn diary_spec_emits_source_matching_disk() {
    assert_eq!(emit_kind_source(&diary_spec()), DIARY_SOURCE);
}

#[test]
fn emits_pub_struct_with_spec_name() {
    assert!(emit_kind_source(&mug_spec()).contains("pub struct Mug "));
}

#[test]
fn emits_capacity_const_from_spec() {
    assert!(emit_kind_source(&mug_spec()).contains("pub const CAPACITY_ML: u32 = 250;"));
}

#[test]
fn emits_liquid_container_impl() {
    let s = emit_kind_source(&mug_spec());
    assert!(s.contains("impl LiquidContainer for Mug"));
    assert!(s.contains("fn add_liquid"));
    assert!(s.contains("fn drain_liquid"));
}

#[test]
fn emits_test_module_with_expected_tests() {
    let s = emit_kind_source(&mug_spec());
    assert!(s.contains("#[cfg(test)]"));
    assert!(s.contains("fn starts_empty"));
    assert!(s.contains("fn add_water_bounded_by_capacity"));
    assert!(s.contains("fn reject_non_water"));
    assert!(s.contains("fn drain_removes_water"));
}

#[test]
fn parameterizes_name_across_all_sites() {
    let spec = KindSpec {
        name: "Teapot",
        doc: "Teapot: 750ml porcelain kettle.",
        archetype: Archetype::SimpleLiquidContainer { capacity_ml: 750 },
    };
    let src = emit_kind_source(&spec);
    assert!(src.contains("pub struct Teapot"));
    assert!(src.contains("impl LiquidContainer for Teapot"));
    assert!(src.contains("let m = Teapot::new"));
    assert!(src.contains("Teapot::CAPACITY_ML"));
    assert!(!src.contains("Mug"));
}

#[test]
fn parameterizes_capacity() {
    let spec = KindSpec {
        name: "Vase",
        doc: "Vase: 1200ml.",
        archetype: Archetype::SimpleLiquidContainer { capacity_ml: 1200 },
    };
    assert!(emit_kind_source(&spec).contains("pub const CAPACITY_ML: u32 = 1200;"));
}

#[test]
fn faucet_archetype_emits_three_trait_impls() {
    let spec = KindSpec {
        name: "UtilityTap", doc: "90 ml/s.",
        archetype: Archetype::SwitchableFaucet { flow_ml_per_sec: 90 },
    };
    let s = emit_kind_source(&spec);
    assert!(s.contains("impl Switchable for UtilityTap"));
    assert!(s.contains("impl LiquidSource for UtilityTap"));
    assert!(s.contains("impl TimeDecaySeconds for UtilityTap"));
    assert!(s.contains("pub const FLOW_ML_PER_SEC: u32 = 90;"));
}

#[test]
fn faucet_archetype_has_on_off_state_fields() {
    let spec = KindSpec {
        name: "GardenHose", doc: "200 ml/s.",
        archetype: Archetype::SwitchableFaucet { flow_ml_per_sec: 200 },
    };
    let s = emit_kind_source(&spec);
    assert!(s.contains("on: bool,"));
    assert!(s.contains("pub seconds_running: f32,"));
}

#[test]
fn decorative_archetype_emits_minimal_shape() {
    let spec = KindSpec {
        name: "Painting", doc: "Framed art.",
        archetype: Archetype::DecorativeItem,
    };
    let s = emit_kind_source(&spec);
    assert!(s.contains("pub struct Painting"));
    assert!(s.contains("pub pos: Vec2,"));
    assert!(s.contains("fn stores_pos()"));
    assert!(!s.contains("impl Switchable"));
    assert!(!s.contains("impl LiquidContainer"));
    assert!(!s.contains("CAPACITY_ML"));
}

#[test]
fn openable_archetype_emits_minimal_shape() {
    let spec = KindSpec {
        name: "JewelryBox", doc: "A small wooden jewelry box.",
        archetype: Archetype::SimpleOpenable,
    };
    let s = emit_kind_source(&spec);
    assert!(s.contains("pub struct JewelryBox"));
    assert!(s.contains("pub pos: Vec2,"));
    assert!(s.contains("open: bool,"));
    assert!(s.contains("impl Openable for JewelryBox"));
    assert!(s.contains("fn is_open(&self) -> bool"));
    assert!(s.contains("fn toggle_open(&mut self)"));
    assert!(s.contains("fn starts_closed()"));
    assert!(s.contains("fn toggle_opens_and_closes()"));
    assert!(!s.contains("impl LiquidContainer"));
    assert!(!s.contains("CAPACITY_ML"));
}

#[test]
fn generator_output_is_deterministic() {
    assert_eq!(emit_kind_source(&mug_spec()), emit_kind_source(&mug_spec()));
    assert_eq!(emit_kind_source(&diary_spec()), emit_kind_source(&diary_spec()));
}

#[test]
fn emission_ends_with_newline() {
    assert!(emit_kind_source(&mug_spec()).ends_with('\n'));
    assert!(emit_kind_source(&diary_spec()).ends_with('\n'));
}

#[test]
fn mug_integration_patch_has_expected_shape() {
    let p = emit_integration_patch(&mug_spec());
    assert_eq!(p.mod_decl, "pub mod mug;");
    assert_eq!(p.use_decl, "pub use mug::Mug;");
    assert_eq!(p.tag_variant, "    Mug,");
    assert_eq!(p.obj_variant, "    Mug(Mug),");
    assert_eq!(p.pos_arm, "            Object::Mug(x) => x.pos,");
    assert_eq!(p.kind_tag_arm, "            Object::Mug(_) => ObjectKindTag::Mug,");
    assert_eq!(p.use_action_arm, "            Object::Mug(_) => {}");
    assert_eq!(p.liquid_container_arm.as_deref(), Some("            Object::Mug(x) => Some(x),"));
    assert_eq!(p.wildcard_kind_tag, "| ObjectKindTag::Mug");
}

#[test]
fn plant_integration_patch_has_expected_shape() {
    let p = emit_integration_patch(&plant_spec());
    assert_eq!(p.mod_decl, "pub mod plant;");
    assert_eq!(p.use_decl, "pub use plant::Plant;");
    assert_eq!(p.obj_variant, "    Plant(Plant),");
    assert!(p.liquid_container_arm.is_none());
    assert_eq!(p.wildcard_kind_tag, "| ObjectKindTag::Plant");
}

#[test]
fn painting_integration_patch_has_expected_shape() {
    let p = emit_integration_patch(&painting_spec());
    assert_eq!(p.mod_decl, "pub mod painting;");
    assert_eq!(p.use_decl, "pub use painting::Painting;");
    assert_eq!(p.obj_variant, "    Painting(Painting),");
    assert!(p.liquid_container_arm.is_none());
    assert_eq!(p.wildcard_kind_tag, "| ObjectKindTag::Painting");
}

#[test]
fn diary_integration_patch_has_expected_shape() {
    let p = emit_integration_patch(&diary_spec());
    assert_eq!(p.mod_decl, "pub mod diary;");
    assert_eq!(p.use_decl, "pub use diary::Diary;");
    assert_eq!(p.obj_variant, "    Diary(Diary),");
    assert_eq!(p.use_action_arm, "            Object::Diary(x) => x.toggle_open(),");
    assert!(p.liquid_container_arm.is_none());
    assert_eq!(p.wildcard_kind_tag, "| ObjectKindTag::Diary");
}

#[test]
fn faucet_archetype_has_no_liquid_container_arm() {
    let spec = KindSpec {
        name: "TestTap", doc: "Test.",
        archetype: Archetype::SwitchableFaucet { flow_ml_per_sec: 50 },
    };
    assert!(emit_integration_patch(&spec).liquid_container_arm.is_none());
}

#[test]
fn decorative_archetype_has_no_liquid_container_arm() {
    assert!(emit_integration_patch(&plant_spec()).liquid_container_arm.is_none());
}

#[test]
fn openable_archetype_has_no_liquid_container_arm() {
    assert!(emit_integration_patch(&diary_spec()).liquid_container_arm.is_none());
}

#[test]
fn faucet_archetype_use_action_arm_toggles() {
    let spec = KindSpec {
        name: "Spigot", doc: "A spigot.",
        archetype: Archetype::SwitchableFaucet { flow_ml_per_sec: 10 },
    };
    assert_eq!(
        emit_integration_patch(&spec).use_action_arm,
        "            Object::Spigot(x) => x.toggle(),"
    );
}

#[test]
fn openable_archetype_use_action_arm_toggles_open() {
    assert_eq!(
        emit_integration_patch(&diary_spec()).use_action_arm,
        "            Object::Diary(x) => x.toggle_open(),"
    );
}

#[test]
fn snake_case_converts_camel_case_module_name() {
    let spec = KindSpec {
        name: "CokeCan", doc: "355ml.",
        archetype: Archetype::SimpleLiquidContainer { capacity_ml: 355 },
    };
    let p = emit_integration_patch(&spec);
    assert_eq!(p.mod_decl, "pub mod coke_can;");
    assert_eq!(p.use_decl, "pub use coke_can::CokeCan;");
}

#[test]
fn single_letter_name_stays_lowercase() {
    let spec = KindSpec {
        name: "X", doc: "X.",
        archetype: Archetype::SimpleLiquidContainer { capacity_ml: 1 },
    };
    assert_eq!(emit_integration_patch(&spec).mod_decl, "pub mod x;");
}

#[test]
fn mug_patch_fragments_appear_in_actual_kinds_mod_rs() {
    let p = emit_integration_patch(&mug_spec());
    let m = KINDS_MOD;
    assert!(m.contains(&p.mod_decl));
    assert!(m.contains(&p.use_decl));
    assert!(m.contains(&p.tag_variant));
    assert!(m.contains(&p.obj_variant));
    assert!(m.contains(&p.pos_arm));
    assert!(m.contains(&p.kind_tag_arm));
    assert!(m.contains(&p.use_action_arm));
    assert!(m.contains(p.liquid_container_arm.as_deref().unwrap()));
}

#[test]
fn mug_patch_fragments_appear_in_actual_mind_rs() {
    let p = emit_integration_patch(&mug_spec());
    let m = MIND;
    assert!(m.contains(&p.mind_variant));
    assert!(m.contains(&p.mind_from_tag_arm));
}

#[test]
fn mug_wildcard_fragment_appears_in_ai_and_interact() {
    let p = emit_integration_patch(&mug_spec());
    assert!(AI.contains(&p.wildcard_kind_tag));
    assert!(INTERACT.contains(&p.wildcard_kind_tag));
}

#[test]
fn all_registered_specs_have_integrated_fragments() {
    let mod_rs = KINDS_MOD;
    let mind_rs = MIND;
    let ai_rs = AI;
    let interact_rs = INTERACT;
    for spec in generated_specs().iter() {
        let p = emit_integration_patch(spec);
        let n = spec.name;
        assert!(mod_rs.contains(&p.mod_decl),       "{n}: missing mod_decl");
        assert!(mod_rs.contains(&p.use_decl),       "{n}: missing use_decl");
        assert!(mod_rs.contains(&p.tag_variant),    "{n}: missing tag_variant");
        assert!(mod_rs.contains(&p.obj_variant),    "{n}: missing obj_variant");
        assert!(mod_rs.contains(&p.pos_arm),        "{n}: missing pos_arm");
        assert!(mod_rs.contains(&p.kind_tag_arm),   "{n}: missing kind_tag_arm");
        assert!(mod_rs.contains(&p.use_action_arm), "{n}: missing use_action_arm");
        if let Some(lc) = &p.liquid_container_arm {
            assert!(mod_rs.contains(lc), "{n}: missing liquid_container_arm");
        }
        assert!(mind_rs.contains(&p.mind_variant),       "{n}: missing mind_variant");
        assert!(mind_rs.contains(&p.mind_from_tag_arm),  "{n}: missing mind_from_tag_arm");
        assert!(ai_rs.contains(&p.wildcard_kind_tag),    "{n}: missing from ai.rs");
        assert!(interact_rs.contains(&p.wildcard_kind_tag), "{n}: missing from interact.rs");
    }
}

#[test]
fn registry_contains_all_current_specs() {
    let names: Vec<&str> = generated_specs().iter().map(|s| s.name).collect();
    assert!(names.contains(&"Mug"));
    assert!(names.contains(&"Plant"));
    assert!(names.contains(&"Painting"));
    assert!(names.contains(&"Chair"));
    assert!(names.contains(&"Diary"));
}

#[test]
fn universe_manifest_covers_every_kind_tag() {
    for tag in all_kind_tags() {
        let tn = tag.name();
        assert!(
            manifest_entry_for(tn).is_some(),
            "No manifest entry for kind {tn}"
        );
    }
}

#[test]
fn universe_manifest_size_matches_all_kind_tags() {
    assert_eq!(universe_manifest().len(), all_kind_tags().len());
}

#[test]
fn no_duplicate_tag_names_in_manifest() {
    let manifest = universe_manifest();
    let names: HashSet<&str> = manifest.iter().map(|e| e.tag_name).collect();
    assert_eq!(names.len(), manifest.len());
}

#[test]
fn every_manifest_tag_name_matches_a_kind_tag() {
    let valid: HashSet<&str> =
        all_kind_tags().iter().map(|t| t.name()).collect();
    for e in universe_manifest() {
        assert!(
            valid.contains(e.tag_name),
            "manifest has '{}' but no such ObjectKindTag",
            e.tag_name
        );
    }
}

#[test]
fn every_generated_spec_has_manifest_entry_as_generated() {
    for spec in generated_specs().iter() {
        let entry = manifest_entry_for(spec.name)
            .unwrap_or_else(|| panic!("spec {} missing from manifest", spec.name));
        match &entry.origin {
            KindOrigin::Generated(s) => assert!(
                s.name == spec.name && s.doc == spec.doc && s.archetype == spec.archetype,
                "manifest entry for {} points at a different spec", spec.name
            ),
            KindOrigin::HandCrafted { .. } => panic!(
                "{} is in GENERATED_SPECS but manifest'd as HandCrafted", spec.name
            ),
        }
    }
}

#[test]
fn hand_crafted_kinds_declare_at_least_one_archetype() {
    for entry in universe_manifest() {
        if let KindOrigin::HandCrafted { archetype_conformance } = &entry.origin {
            assert!(
                !archetype_conformance.is_empty(),
                "{} is HandCrafted but declares no archetype conformance",
                entry.tag_name
            );
        }
    }
}

#[test]
fn universe_has_exactly_nineteen_kinds() {
    assert_eq!(universe_manifest().len(), 19);
}

#[test]
fn sink_bathsink_shower_all_declare_faucet_conformance() {
    for name in ["Sink", "BathSink", "Shower"] {
        let entry = manifest_entry_for(name).unwrap();
        match &entry.origin {
            KindOrigin::HandCrafted { archetype_conformance } => {
                assert!(archetype_conformance.contains(&"SwitchableFaucet"),
                    "{name} should declare SwitchableFaucet conformance");
            }
            _ => panic!("{name} unexpectedly Generated"),
        }
    }
}
