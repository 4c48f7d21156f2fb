//! All object kinds and the outer `Object` enum.
//!
//! Every variant of `ObjectKindTag` appears in `all_kind_tags()` and in
//! the factory's universe manifest: no kind exists silently. Objects here
//! carry their simulation state only; where an object stands in the world
//! is kept by the world's geometry alongside it.

pub mod bath_sink;
pub mod bathtub;
pub mod bed;
pub mod book;
pub mod chair;
pub mod coffee_maker;
pub mod diary;
pub mod dresser;
pub mod fridge;
pub mod lamp;
pub mod mug;
pub mod nightstand;
pub mod painting;
pub mod plant;
pub mod shower;
pub mod sink;
pub mod stove;
pub mod toilet;
pub mod window_obj;

pub use bath_sink::BathSink;
pub use bathtub::Bathtub;
pub use bed::{Bed, BedState};
pub use book::Book;
pub use chair::Chair;
pub use coffee_maker::{BrewState, CoffeeMaker};
pub use diary::Diary;
pub use dresser::Dresser;
pub use fridge::{FoodItem, Fridge, FridgeSlot};
pub use lamp::Lamp;
pub use mug::Mug;
pub use nightstand::Nightstand;
pub use painting::Painting;
pub use plant::Plant;
pub use shower::Shower;
pub use sink::Sink;
pub use stove::{Burner, BurnerLevel, Stove, StoveBurners};
pub use toilet::{Toilet, ToiletState};
pub use window_obj::WindowObj;

use vstd::prelude::*;

use crate::traits::{Container, Cyclable, LiquidContainer, Openable, Powered, Switchable, TimeDecayMinutes};

verus! {

#[derive(Debug, Clone, Copy, PartialEq, Eq, Hash, Structural)]
pub enum ObjectKindTag {
    Bed,
    Book,
    CoffeeMaker,
    Window,
    Fridge,
    Stove,
    Sink,
    Toilet,
    Shower,
    Bathtub,
    BathSink,
    Lamp,
    Nightstand,
    Dresser,
    Mug,
    Plant,
    Painting,
    Chair,
    Diary,
}

/// The name of each kind, as the factory and the addressing field know it.
pub open spec fn kind_name(t: ObjectKindTag) -> Seq<char> {
    match t {
        ObjectKindTag::Bed => "Bed"@,
        ObjectKindTag::Book => "Book"@,
        ObjectKindTag::CoffeeMaker => "CoffeeMaker"@,
        ObjectKindTag::Window => "Window"@,
        ObjectKindTag::Fridge => "Fridge"@,
        ObjectKindTag::Stove => "Stove"@,
        ObjectKindTag::Sink => "Sink"@,
        ObjectKindTag::Toilet => "Toilet"@,
        ObjectKindTag::Shower => "Shower"@,
        ObjectKindTag::Bathtub => "Bathtub"@,
        ObjectKindTag::BathSink => "BathSink"@,
        ObjectKindTag::Lamp => "Lamp"@,
        ObjectKindTag::Nightstand => "Nightstand"@,
        ObjectKindTag::Dresser => "Dresser"@,
        ObjectKindTag::Mug => "Mug"@,
        ObjectKindTag::Plant => "Plant"@,
        ObjectKindTag::Painting => "Painting"@,
        ObjectKindTag::Chair => "Chair"@,
        ObjectKindTag::Diary => "Diary"@,
    }
}

/// Every kind of the universe, in declaration order.
pub open spec fn spec_all_kind_tags() -> Seq<ObjectKindTag> {
    seq![
        ObjectKindTag::Bed,
        ObjectKindTag::Book,
        ObjectKindTag::CoffeeMaker,
        ObjectKindTag::Window,
        ObjectKindTag::Fridge,
        ObjectKindTag::Stove,
        ObjectKindTag::Sink,
        ObjectKindTag::Toilet,
        ObjectKindTag::Shower,
        ObjectKindTag::Bathtub,
        ObjectKindTag::BathSink,
        ObjectKindTag::Lamp,
        ObjectKindTag::Nightstand,
        ObjectKindTag::Dresser,
        ObjectKindTag::Mug,
        ObjectKindTag::Plant,
        ObjectKindTag::Painting,
        ObjectKindTag::Chair,
        ObjectKindTag::Diary,
    ]
}

impl ObjectKindTag {
    pub fn name(&self) -> (s: &'static str)
        ensures
            s@ == kind_name(*self),
    {
        match self {
            ObjectKindTag::Bed => "Bed",
            ObjectKindTag::Book => "Book",
            ObjectKindTag::CoffeeMaker => "CoffeeMaker",
            ObjectKindTag::Window => "Window",
            ObjectKindTag::Fridge => "Fridge",
            ObjectKindTag::Stove => "Stove",
            ObjectKindTag::Sink => "Sink",
            ObjectKindTag::Toilet => "Toilet",
            ObjectKindTag::Shower => "Shower",
            ObjectKindTag::Bathtub => "Bathtub",
            ObjectKindTag::BathSink => "BathSink",
            ObjectKindTag::Lamp => "Lamp",
            ObjectKindTag::Nightstand => "Nightstand",
            ObjectKindTag::Dresser => "Dresser",
            ObjectKindTag::Mug => "Mug",
            ObjectKindTag::Plant => "Plant",
            ObjectKindTag::Painting => "Painting",
            ObjectKindTag::Chair => "Chair",
            ObjectKindTag::Diary => "Diary",
        }
    }
}

/// The census of kinds: every tag exactly once, in declaration order.
pub fn all_kind_tags() -> (v: Vec<ObjectKindTag>)
    ensures
        v@ == spec_all_kind_tags(),
        forall|t: ObjectKindTag| v@.contains(t),
        forall|i: int, j: int| 0 <= i < j < v@.len() ==> v@[i] != v@[j],
{
    let v = vec![
        ObjectKindTag::Bed,
        ObjectKindTag::Book,
        ObjectKindTag::CoffeeMaker,
        ObjectKindTag::Window,
        ObjectKindTag::Fridge,
        ObjectKindTag::Stove,
        ObjectKindTag::Sink,
        ObjectKindTag::Toilet,
        ObjectKindTag::Shower,
        ObjectKindTag::Bathtub,
        ObjectKindTag::BathSink,
        ObjectKindTag::Lamp,
        ObjectKindTag::Nightstand,
        ObjectKindTag::Dresser,
        ObjectKindTag::Mug,
        ObjectKindTag::Plant,
        ObjectKindTag::Painting,
        ObjectKindTag::Chair,
        ObjectKindTag::Diary,
    ];
    proof {
        assert(v@ =~= spec_all_kind_tags());
        assert forall|t: ObjectKindTag| v@.contains(t) by {
            let i: int = match t {
                ObjectKindTag::Bed => 0,
                ObjectKindTag::Book => 1,
                ObjectKindTag::CoffeeMaker => 2,
                ObjectKindTag::Window => 3,
                ObjectKindTag::Fridge => 4,
                ObjectKindTag::Stove => 5,
                ObjectKindTag::Sink => 6,
                ObjectKindTag::Toilet => 7,
                ObjectKindTag::Shower => 8,
                ObjectKindTag::Bathtub => 9,
                ObjectKindTag::BathSink => 10,
                ObjectKindTag::Lamp => 11,
                ObjectKindTag::Nightstand => 12,
                ObjectKindTag::Dresser => 13,
                ObjectKindTag::Mug => 14,
                ObjectKindTag::Plant => 15,
                ObjectKindTag::Painting => 16,
                ObjectKindTag::Chair => 17,
                ObjectKindTag::Diary => 18,
            };
            assert(v@[i] == t);
        }
    }
    v
}

#[derive(Debug, Clone, Copy)]
pub enum Object {
    Bed(Bed),
    Book(Book),
    CoffeeMaker(CoffeeMaker),
    Window(WindowObj),
    Fridge(Fridge),
    Stove(Stove),
    Sink(Sink),
    Toilet(Toilet),
    Shower(Shower),
    Bathtub(Bathtub),
    BathSink(BathSink),
    Lamp(Lamp),
    Nightstand(Nightstand),
    Dresser(Dresser),
    Mug(Mug),
    Plant(Plant),
    Painting(Painting),
    Chair(Chair),
    Diary(Diary),
}

/// The kind of an object.
pub open spec fn tag_of(o: Object) -> ObjectKindTag {
    match o {
        Object::Bed(_) => ObjectKindTag::Bed,
        Object::Book(_) => ObjectKindTag::Book,
        Object::CoffeeMaker(_) => ObjectKindTag::CoffeeMaker,
        Object::Window(_) => ObjectKindTag::Window,
        Object::Fridge(_) => ObjectKindTag::Fridge,
        Object::Stove(_) => ObjectKindTag::Stove,
        Object::Sink(_) => ObjectKindTag::Sink,
        Object::Toilet(_) => ObjectKindTag::Toilet,
        Object::Shower(_) => ObjectKindTag::Shower,
        Object::Bathtub(_) => ObjectKindTag::Bathtub,
        Object::BathSink(_) => ObjectKindTag::BathSink,
        Object::Lamp(_) => ObjectKindTag::Lamp,
        Object::Nightstand(_) => ObjectKindTag::Nightstand,
        Object::Dresser(_) => ObjectKindTag::Dresser,
        Object::Mug(_) => ObjectKindTag::Mug,
        Object::Plant(_) => ObjectKindTag::Plant,
        Object::Painting(_) => ObjectKindTag::Painting,
        Object::Chair(_) => ObjectKindTag::Chair,
        Object::Diary(_) => ObjectKindTag::Diary,
    }
}

/// What using an object does to it: beds are made/unmade, books, the
/// fridge and the diary open/close, switches flip, the coffee maker and
/// the toilet cycle, the stove presses its cursor burner; furniture,
/// the mug and decorations stay as they are.
pub open spec fn used(a: Object, b: Object) -> bool {
    match (a, b) {
        (Object::Bed(x), Object::Bed(y)) => y.state == (if x.state == BedState::Made {
            BedState::Unmade
        } else {
            BedState::Made
        }),
        (Object::Book(x), Object::Book(y)) => y.open_state() == !x.open_state(),
        (Object::CoffeeMaker(x), Object::CoffeeMaker(y)) => coffee_maker::cycled(x, y),
        (Object::Window(x), Object::Window(y)) => y.on_state() == !x.on_state(),
        (Object::Fridge(x), Object::Fridge(y)) => y.open_state() == !x.open_state()
            && y.contents() == x.contents(),
        (Object::Stove(x), Object::Stove(y)) => stove::pressed(x, y),
        (Object::Sink(x), Object::Sink(y)) => y.on_state() == !x.on_state(),
        (Object::Toilet(x), Object::Toilet(y)) => toilet::cycled(x, y),
        (Object::Shower(x), Object::Shower(y)) => y.on_state() == !x.on_state(),
        (Object::Bathtub(x), Object::Bathtub(y)) => y.on_state() == !x.on_state() && y.water()
            == x.water() && y.drain() == x.drain(),
        (Object::BathSink(x), Object::BathSink(y)) => y.on_state() == !x.on_state(),
        (Object::Lamp(x), Object::Lamp(y)) => y.on_state() == !x.on_state(),
        (Object::Nightstand(x), Object::Nightstand(y)) => y == x,
        (Object::Dresser(x), Object::Dresser(y)) => y == x,
        (Object::Mug(x), Object::Mug(y)) => y == x,
        (Object::Plant(x), Object::Plant(y)) => y == x,
        (Object::Painting(x), Object::Painting(y)) => y == x,
        (Object::Chair(x), Object::Chair(y)) => y == x,
        (Object::Diary(x), Object::Diary(y)) => y.open_state() == !x.open_state(),
        _ => false,
    }
}

/// What `dm` in-game minutes do to an object: the fridge's food ages (the
/// door stays as it is), the stove's burners heat or cool (the cursor
/// stays); every other kind is unaffected.
pub open spec fn minute_ticked(a: Object, b: Object, dm: int) -> bool {
    match (a, b) {
        (Object::Fridge(x), Object::Fridge(y)) => y.open_state() == x.open_state()
            && y.contents().len() == 3 && forall|i: int|
            0 <= i < 3 ==> y.contents()[i] == #[trigger] x.contents()[i].ticked(dm),
        (Object::Stove(x), Object::Stove(y)) => y.cursor_at() == x.cursor_at()
            && y.burner_seq().len() == 4 && forall|i: int|
            0 <= i < 4 ==> y.burner_seq()[i] == #[trigger] stove::burner_ticked(
                x.burner_seq()[i],
                dm,
            ),
        (Object::Fridge(_), _) => false,
        (Object::Stove(_), _) => false,
        (x, y) => y == x,
    }
}

/// The power an object draws: the powered kinds' draw, nothing for others.
pub open spec fn draw_of(o: Object) -> int {
    match o {
        Object::CoffeeMaker(x) => x.draw_watts() as u32 as int,
        Object::Fridge(x) => x.draw_watts() as u32 as int,
        Object::Stove(x) => x.draw_watts() as u32 as int,
        Object::Lamp(x) => x.draw_watts() as u32 as int,
        _ => 0,
    }
}

impl Object {
    pub fn kind_tag(&self) -> (t: ObjectKindTag)
        ensures
            t == tag_of(*self),
    {
        match self {
            Object::Bed(_) => ObjectKindTag::Bed,
            Object::Book(_) => ObjectKindTag::Book,
            Object::CoffeeMaker(_) => ObjectKindTag::CoffeeMaker,
            Object::Window(_) => ObjectKindTag::Window,
            Object::Fridge(_) => ObjectKindTag::Fridge,
            Object::Stove(_) => ObjectKindTag::Stove,
            Object::Sink(_) => ObjectKindTag::Sink,
            Object::Toilet(_) => ObjectKindTag::Toilet,
            Object::Shower(_) => ObjectKindTag::Shower,
            Object::Bathtub(_) => ObjectKindTag::Bathtub,
            Object::BathSink(_) => ObjectKindTag::BathSink,
            Object::Lamp(_) => ObjectKindTag::Lamp,
            Object::Nightstand(_) => ObjectKindTag::Nightstand,
            Object::Dresser(_) => ObjectKindTag::Dresser,
            Object::Mug(_) => ObjectKindTag::Mug,
            Object::Plant(_) => ObjectKindTag::Plant,
            Object::Painting(_) => ObjectKindTag::Painting,
            Object::Chair(_) => ObjectKindTag::Chair,
            Object::Diary(_) => ObjectKindTag::Diary,
        }
    }

    /// Use the object (the E key): each kind reacts in its own way.
    pub fn use_action(&mut self)
        ensures
            used(*old(self), *final(self)),
            tag_of(*final(self)) == tag_of(*old(self)),
    {
        match self {
            Object::Bed(x) => x.use_action(),
            Object::Book(x) => x.toggle_open(),
            Object::CoffeeMaker(x) => x.cycle(),
            Object::Window(x) => x.toggle(),
            Object::Fridge(x) => x.toggle_open(),
            Object::Stove(x) => x.press(),
            Object::Sink(x) => x.toggle(),
            Object::Toilet(x) => x.cycle(),
            Object::Shower(x) => x.toggle(),
            Object::Bathtub(x) => x.toggle(),
            Object::BathSink(x) => x.toggle(),
            Object::Lamp(x) => x.toggle(),
            Object::Nightstand(_) => {},
            Object::Dresser(_) => {},
            Object::Mug(_) => {},
            Object::Plant(_) => {},
            Object::Painting(_) => {},
            Object::Chair(_) => {},
            Object::Diary(x) => x.toggle_open(),
        }
    }

    /// Advance in-game time by `dm` minutes: food spoils, burners heat or
    /// cool; every other kind is unaffected.
    pub fn tick_minutes(&mut self, dm: u32)
        ensures
            tag_of(*final(self)) == tag_of(*old(self)),
            minute_ticked(*old(self), *final(self), dm as int),
    {
        match self {
            Object::Fridge(x) => x.tick_minutes(dm),
            Object::Stove(x) => x.tick_minutes(dm),
            _ => {},
        }
    }

    /// The object as an `Openable`, for the kinds that open and close.
    pub fn as_openable(&self) -> (r: Option<&dyn Openable>)
        ensures
            match *self {
                Object::Book(x) => r matches Some(o) && o.open_state() == x.open_state(),
                Object::Fridge(x) => r matches Some(o) && o.open_state() == x.open_state(),
                Object::Bathtub(x) => r matches Some(o) && o.open_state() == x.open_state(),
                Object::Diary(x) => r matches Some(o) && o.open_state() == x.open_state(),
                _ => r is None,
            },
    {
        match self {
            Object::Book(x) => Some(x),
            Object::Fridge(x) => Some(x),
            Object::Bathtub(x) => Some(x),
            Object::Diary(x) => Some(x),
            _ => None,
        }
    }

    /// The object as a `Switchable`, for the kinds that switch on and off.
    pub fn as_switchable(&self) -> (r: Option<&dyn Switchable>)
        ensures
            match *self {
                Object::Sink(x) => r matches Some(o) && o.on_state() == x.on_state(),
                Object::Window(x) => r matches Some(o) && o.on_state() == x.on_state(),
                Object::Shower(x) => r matches Some(o) && o.on_state() == x.on_state(),
                Object::Bathtub(x) => r matches Some(o) && o.on_state() == x.on_state(),
                Object::BathSink(x) => r matches Some(o) && o.on_state() == x.on_state(),
                Object::Lamp(x) => r matches Some(o) && o.on_state() == x.on_state(),
                _ => r is None,
            },
    {
        match self {
            Object::Sink(x) => Some(x),
            Object::Window(x) => Some(x),
            Object::Shower(x) => Some(x),
            Object::Bathtub(x) => Some(x),
            Object::BathSink(x) => Some(x),
            Object::Lamp(x) => Some(x),
            _ => None,
        }
    }

    /// The object as a `Powered` appliance, for the kinds that draw power.
    pub fn as_powered(&self) -> (r: Option<&dyn Powered>)
        ensures
            match *self {
                Object::CoffeeMaker(x) => r matches Some(o) && o.draw_watts() == x.draw_watts()
                    && o.powered_on() == x.powered_on(),
                Object::Fridge(x) => r matches Some(o) && o.draw_watts() == x.draw_watts()
                    && o.powered_on() == x.powered_on(),
                Object::Stove(x) => r matches Some(o) && o.draw_watts() == x.draw_watts()
                    && o.powered_on() == x.powered_on(),
                Object::Lamp(x) => r matches Some(o) && o.draw_watts() == x.draw_watts()
                    && o.powered_on() == x.powered_on(),
                _ => r is None,
            },
    {
        match self {
            Object::CoffeeMaker(x) => Some(x),
            Object::Fridge(x) => Some(x),
            Object::Stove(x) => Some(x),
            Object::Lamp(x) => Some(x),
            _ => None,
        }
    }

    /// The object as a `LiquidContainer`, for the kinds that hold a liquid.
    pub fn as_liquid_container(&self) -> (r: Option<&dyn LiquidContainer>)
        ensures
            match *self {
                Object::CoffeeMaker(x) => r matches Some(o) && o.intake_ml() == x.intake_ml()
                    && o.outlet_ml() == x.outlet_ml(),
                Object::Toilet(x) => r matches Some(o) && o.intake_ml() == x.intake_ml()
                    && o.outlet_ml() == x.outlet_ml(),
                Object::Bathtub(x) => r matches Some(o) && o.intake_ml() == x.intake_ml()
                    && o.outlet_ml() == x.outlet_ml(),
                Object::Mug(x) => r matches Some(o) && o.intake_ml() == x.intake_ml()
                    && o.outlet_ml() == x.outlet_ml(),
                _ => r is None,
            },
    {
        match self {
            Object::CoffeeMaker(x) => Some(x),
            Object::Toilet(x) => Some(x),
            Object::Bathtub(x) => Some(x),
            Object::Mug(x) => Some(x),
            _ => None,
        }
    }

    /// The object as a `Container` of items, for the kinds with slots.
    pub fn as_container(&self) -> (r: Option<&dyn Container>)
        ensures
            match *self {
                Object::Fridge(x) => r matches Some(o) && o.slots() == x.slots(),
                Object::Nightstand(x) => r matches Some(o) && o.slots() == x.slots(),
                Object::Dresser(x) => r matches Some(o) && o.slots() == x.slots(),
                _ => r is None,
            },
    {
        match self {
            Object::Fridge(x) => Some(x),
            Object::Nightstand(x) => Some(x),
            Object::Dresser(x) => Some(x),
            _ => None,
        }
    }
}

} // verus!
