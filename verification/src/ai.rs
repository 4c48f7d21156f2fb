//! Needs-driven AI for NPCs: which objects satisfy which need, what
//! using an object restores, and which intent an NPC forms.
//!
//! Distances between positions are measured by the world's geometry;
//! the decisions here take the nearest matching object per need as an
//! argument.

use vstd::prelude::*;

use crate::kinds::{tag_of, used, Object, ObjectKindTag};
use crate::needs::{need_value, restored, lowered, NeedTag, Needs, NEED_MAX};
use crate::routine::Activity;

verus! {

#[derive(Debug, Clone, Copy, PartialEq, Eq)]
pub enum Intent {
    Satisfy { need: NeedTag, obj_idx: usize },
    FollowSchedule,
    Idle,
}

/// The kinds that satisfy a need, in order of preference.
pub open spec fn spec_kinds_for_need(need: NeedTag) -> Seq<ObjectKindTag> {
    match need {
        NeedTag::Hunger => seq![ObjectKindTag::Fridge],
        NeedTag::Tiredness => seq![ObjectKindTag::Bed],
        NeedTag::Hygiene => seq![
            ObjectKindTag::Shower,
            ObjectKindTag::Bathtub,
            ObjectKindTag::BathSink,
            ObjectKindTag::Sink,
        ],
        NeedTag::Mood => seq![ObjectKindTag::Book],
    }
}

pub fn kinds_for_need(need: NeedTag) -> (v: Vec<ObjectKindTag>)
    ensures
        v@ == spec_kinds_for_need(need),
{
    let v = match need {
        NeedTag::Hunger => vec![ObjectKindTag::Fridge],
        NeedTag::Tiredness => vec![ObjectKindTag::Bed],
        NeedTag::Hygiene => vec![
            ObjectKindTag::Shower,
            ObjectKindTag::Bathtub,
            ObjectKindTag::BathSink,
            ObjectKindTag::Sink,
        ],
        NeedTag::Mood => vec![ObjectKindTag::Book],
    };
    assert(v@ =~= spec_kinds_for_need(need));
    v
}

/// The needs after using an object of kind `tag`: the fridge feeds
/// (3000, plus a fifth as mood), the bed gives an hour of sleep, the
/// shower a minute of washing, the bathtub two minutes plus a minute of
/// calm, sinks wash hands, the toilet is used and then hands washed,
/// books give half an hour of reading, coffee perks up; everything else
/// leaves the needs as they are.
pub open spec fn needs_after_use(n: Needs, tag: ObjectKindTag) -> Needs {
    match tag {
        ObjectKindTag::Fridge => Needs {
            hunger: restored(n.hunger as int, 3_000) as u32,
            mood: restored(n.mood as int, 600) as u32,
            ..n
        },
        ObjectKindTag::Bed => Needs {
            tiredness: restored(n.tiredness as int, 1_260) as u32,
            mood: restored(n.mood as int, 120) as u32,
            ..n
        },
        ObjectKindTag::Shower => Needs { hygiene: restored(n.hygiene as int, 6_000) as u32, ..n },
        ObjectKindTag::Bathtub => Needs {
            hygiene: restored(n.hygiene as int, 12_000) as u32,
            mood: restored(n.mood as int, 30) as u32,
            ..n
        },
        ObjectKindTag::BathSink | ObjectKindTag::Sink => Needs {
            hygiene: restored(n.hygiene as int, 500) as u32,
            ..n
        },
        ObjectKindTag::Toilet => Needs {
            hygiene: restored(lowered(n.hygiene as int, 200), 500) as u32,
            ..n
        },
        ObjectKindTag::Book => Needs { mood: restored(n.mood as int, 900) as u32, ..n },
        ObjectKindTag::CoffeeMaker => Needs {
            tiredness: restored(n.tiredness as int, 1_500) as u32,
            mood: restored(n.mood as int, 500) as u32,
            ..n
        },
        _ => n,
    }
}

/// Apply what using an object of kind `tag` restores.
pub fn restore_for_kind(needs: &mut Needs, tag: ObjectKindTag)
    ensures
        *final(needs) == needs_after_use(*old(needs), tag),
{
    match tag {
        ObjectKindTag::Fridge => needs.eat(3_000),
        ObjectKindTag::Bed => needs.sleep(60),
        ObjectKindTag::Shower => needs.shower(60),
        ObjectKindTag::Bathtub => {
            needs.shower(120);
            needs.read(1);
        },
        ObjectKindTag::BathSink | ObjectKindTag::Sink => needs.wash_hands(),
        ObjectKindTag::Toilet => {
            needs.use_toilet();
            needs.wash_hands();
        },
        ObjectKindTag::Book => needs.read(30),
        ObjectKindTag::CoffeeMaker => needs.drink_coffee(),
        ObjectKindTag::Stove
        | ObjectKindTag::Window
        | ObjectKindTag::Lamp
        | ObjectKindTag::Nightstand
        | ObjectKindTag::Dresser
        | ObjectKindTag::Mug
        | ObjectKindTag::Plant
        | ObjectKindTag::Painting
        | ObjectKindTag::Chair
        | ObjectKindTag::Diary => {},
    }
}

/// Whether a need is below its threshold.
pub open spec fn is_urgent(n: Needs, tag: NeedTag) -> bool {
    match tag {
        NeedTag::Hunger => n.hunger < crate::needs::HUNGRY_THRESHOLD,
        NeedTag::Tiredness => n.tiredness < crate::needs::EXHAUSTED_THRESHOLD,
        NeedTag::Hygiene => n.hygiene < crate::needs::DIRTY_THRESHOLD,
        NeedTag::Mood => n.mood < crate::needs::SAD_THRESHOLD,
    }
}

/// The needs in the order the AI checks them.
pub open spec fn check_order() -> Seq<NeedTag> {
    seq![NeedTag::Hunger, NeedTag::Tiredness, NeedTag::Hygiene, NeedTag::Mood]
}

/// The urgent need the AI acts on: the first need, in check order, that
/// is urgent and has a matching object (`nearest[i]` is the nearest
/// object for the i-th need in check order, if any).
pub open spec fn spec_pick_urgent(n: Needs, nearest: Seq<Option<usize>>) -> Option<(NeedTag, usize)>
    decreases 4int,
{
    pick_from(n, nearest, 0)
}

pub open spec fn pick_from(n: Needs, nearest: Seq<Option<usize>>, i: int) -> Option<(NeedTag, usize)>
    decreases 4 - i,
{
    if i >= 4 || i < 0 {
        None
    } else if is_urgent(n, check_order()[i]) && nearest[i] is Some {
        Some((check_order()[i], nearest[i]->0))
    } else {
        pick_from(n, nearest, i + 1)
    }
}

/// Pick the urgent need to act on, given the nearest matching object for
/// each need (hunger, tiredness, hygiene, mood).
pub fn pick_urgent_target(needs: &Needs, nearest: &[Option<usize>; 4]) -> (r: Option<(NeedTag, usize)>)
    ensures
        r == spec_pick_urgent(*needs, nearest@),
{
    let mut i: usize = 0;
    while i < 4
        invariant
            i <= 4,
            pick_from(*needs, nearest@, 0) == pick_from(*needs, nearest@, i as int),
        decreases 4 - i,
    {
        let tag = match i {
            0 => NeedTag::Hunger,
            1 => NeedTag::Tiredness,
            2 => NeedTag::Hygiene,
            _ => NeedTag::Mood,
        };
        assert(tag == check_order()[i as int]);
        let urgent = match tag {
            NeedTag::Hunger => needs.is_hungry(),
            NeedTag::Tiredness => needs.is_exhausted(),
            NeedTag::Hygiene => needs.needs_shower(),
            NeedTag::Mood => needs.is_sad(),
        };
        if urgent {
            if let Some(idx) = nearest[i] {
                return Some((tag, idx));
            }
        }
        i = i + 1;
    }
    None
}

/// The intent of an NPC: satisfy the first urgent need that has a
/// matching object; otherwise follow the schedule when the current
/// activity has a place in the apartment; otherwise idle.
pub fn decide_intent(needs: &Needs, nearest: &[Option<usize>; 4], activity: Activity) -> (i: Intent)
    ensures
        i == (match spec_pick_urgent(*needs, nearest@) {
            Some((need, obj_idx)) => Intent::Satisfy { need, obj_idx },
            None => if activity == Activity::Out {
                Intent::Idle
            } else {
                Intent::FollowSchedule
            },
        }),
{
    match pick_urgent_target(needs, nearest) {
        Some((need, obj_idx)) => Intent::Satisfy { need, obj_idx },
        None => match activity {
            Activity::Out => Intent::Idle,
            _ => Intent::FollowSchedule,
        },
    }
}

/// Arriving at an object: use it, then take what it restores.
pub fn use_and_restore(obj: &mut Object, needs: &mut Needs)
    ensures
        used(*old(obj), *final(obj)),
        *final(needs) == needs_after_use(*old(needs), tag_of(*old(obj))),
{
    obj.use_action();
    let tag = obj.kind_tag();
    restore_for_kind(needs, tag);
}

/// Every need has somewhere to go, and every kind listed for a need
/// actually restores it: using it raises that need whenever it is not
/// already full.
pub proof fn lemma_listed_kinds_restore_their_need(n: Needs, need: NeedTag)
    ensures
        spec_kinds_for_need(need).len() >= 1,
        need_value(n, need) < NEED_MAX ==> forall|k: int|
            0 <= k < spec_kinds_for_need(need).len() ==> need_value(
                #[trigger] needs_after_use(n, spec_kinds_for_need(need)[k]),
                need,
            ) > need_value(n, need),
{
}

} // verus!
