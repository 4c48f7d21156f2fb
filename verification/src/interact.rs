//! What the player's verbs do: using an object works it, feeds back into
//! the player's needs and posture, and is remembered; approaching a person
//! is remembered and lifts the mood.

use vstd::prelude::*;
use crate::ai::{needs_after_use, restore_for_kind};
use crate::body::Posture;
use crate::kinds::bed::BedState;
use crate::kinds::{tag_of, used, Object, ObjectKindTag};
use crate::mind::{mind_kind, Fact, FactKey, KeyView, Mind, MindObjectKind, TileCoord};
use crate::needs::{Needs, NEED_MAX};
use crate::objects::Objects;
use crate::time::InGameClock;

verus! {

/// What a verb is aimed at: an object or a person, by index.
#[derive(Debug, Clone, Copy, PartialEq, Eq, Structural)]
pub enum Target {
    Object(usize),
    Npc(usize),
}

/// The player's verbs.
#[derive(Debug, Clone, Copy, PartialEq, Eq, Structural)]
pub enum Verb {
    LookAt,
    UseObject,
    ApproachNpc,
}

/// The posture after using an object: getting into an unmade bed means
/// lying down, making it means standing up; other objects leave the
/// posture alone.
pub open spec fn posture_after_use(p: Posture, after: Object) -> Posture {
    match after {
        Object::Bed(b) => if b.state == BedState::Unmade {
            Posture::Lying
        } else {
            Posture::Standing
        },
        _ => p,
    }
}

/// The needs after meeting someone: mood up by 500, at most `NEED_MAX`.
pub open spec fn greeted(n: Needs) -> Needs {
    Needs {
        mood: if n.mood + 500 <= NEED_MAX {
            (n.mood + 500) as u32
        } else {
            NEED_MAX
        },
        ..n
    }
}

/// Carry out `verb` on `target`. Using object `i` works it, changes the
/// posture if it is the bed, restores what that kind restores, and
/// remembers seeing that kind in cell `tile` (where the object stands) at
/// the clock's time. Approaching person `i` (named `npcs[i]`) remembers
/// seeing them and lifts the mood. Any other pairing does nothing.
pub fn apply(
    verb: Verb,
    target: Target,
    objects: &mut Objects,
    npcs: &[&'static str],
    posture: &mut Posture,
    needs: &mut Needs,
    mind: &mut Mind,
    clock: &InGameClock,
    tile: TileCoord,
)
    requires
        old(mind).wf(),
        match (verb, target) {
            (Verb::UseObject, Target::Object(i)) => i < old(objects).items().len(),
            (Verb::ApproachNpc, Target::Npc(i)) => i < npcs@.len(),
            _ => true,
        },
    ensures
        final(mind).wf(),
        match (verb, target) {
            (Verb::UseObject, Target::Object(i)) => {
                let before = old(objects).items()[i as int];
                let after = final(objects).items()[i as int];
                &&& used(before, after)
                &&& final(objects).items() == old(objects).items().update(i as int, after)
                &&& final(objects).last_minutes() == old(objects).last_minutes()
                &&& *final(posture) == posture_after_use(*old(posture), after)
                &&& *final(needs) == needs_after_use(*old(needs), tag_of(before))
                &&& final(mind).view() == old(mind).view().insert(
                    KeyView::SawObject(mind_kind(tag_of(before)), tile),
                    Fact { observed_at: *clock },
                )
            },
            (Verb::ApproachNpc, Target::Npc(i)) => {
                &&& final(objects).items() == old(objects).items()
                &&& final(objects).last_minutes() == old(objects).last_minutes()
                &&& *final(posture) == *old(posture)
                &&& *final(needs) == greeted(*old(needs))
                &&& final(mind).view() == old(mind).view().insert(
                    KeyView::SawPerson(npcs@[i as int]@),
                    Fact { observed_at: *clock },
                )
            },
            _ => {
                &&& final(objects).items() == old(objects).items()
                &&& final(objects).last_minutes() == old(objects).last_minutes()
                &&& *final(posture) == *old(posture)
                &&& *final(needs) == *old(needs)
                &&& final(mind).view() == old(mind).view()
            },
        },
{
    match (verb, target) {
        (Verb::UseObject, Target::Object(idx)) => {
            let obj = objects.get_mut(idx);
            obj.use_action();
            let kind_tag = obj.kind_tag();
            let lying = match obj {
                Object::Bed(b) => Some(b.is_unmade()),
                _ => None,
            };
            match lying {
                Some(true) => {
                    *posture = Posture::Lying;
                },
                Some(false) => {
                    *posture = Posture::Standing;
                },
                None => {},
            }
            restore_for_kind(needs, kind_tag);
            mind.know(
                FactKey::SawObject(MindObjectKind::from_tag(kind_tag), tile),
                Fact::observed_at(*clock),
            );
        },
        (Verb::ApproachNpc, Target::Npc(idx)) => {
            let name = npcs[idx];
            mind.know(FactKey::SawPerson(name), Fact::observed_at(*clock));
            let lifted = needs.mood.saturating_add(500);
            needs.mood = if lifted < NEED_MAX {
                lifted
            } else {
                NEED_MAX
            };
        },
        _ => {},
    }
}

} // verus!
