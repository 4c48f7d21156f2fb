//! Toilet: Cyclable (Idle/Flushing/Refilling) + LiquidContainer (tank).
//!
//! Press Use to flush when the tank holds a flush's worth. The flush
//! timer and the refill rate run in real (floating-point) seconds outside
//! this module, which reports their effect through `finish_flush` and
//! `refill`. Pressing during Flushing/Refilling is a no-op.

use vstd::prelude::*;

use crate::arith::{sat_mul, spec_sat_mul};
use crate::traits::{Cyclable, Liquid, LiquidContainer};

verus! {

#[derive(Debug, Clone, Copy, PartialEq, Eq, Structural)]
pub enum ToiletState {
    Idle,
    Flushing,
    Refilling,
}

pub const TANK_CAPACITY_ML: u32 = 6000;
pub const FLUSH_VOLUME_ML: u32 = 5000;

#[derive(Debug, Clone, Copy)]
pub struct Toilet {
    state: ToiletState,
    tank_ml: u32,
}

impl Toilet {
    pub const TANK_CAPACITY_ML: u32 = TANK_CAPACITY_ML;
    pub const FLUSH_VOLUME_ML: u32 = FLUSH_VOLUME_ML;

    #[verifier::type_invariant]
    spec fn tank_within_capacity(self) -> bool {
        self.tank_ml <= TANK_CAPACITY_ML
    }

    pub closed spec fn phase(self) -> ToiletState {
        self.state
    }

    pub closed spec fn tank(self) -> nat {
        self.tank_ml as nat
    }

    /// Idle with a full tank.
    pub fn new() -> (t: Self)
        ensures
            t.phase() == ToiletState::Idle,
            t.tank() == TANK_CAPACITY_ML,
    {
        Self { state: ToiletState::Idle, tank_ml: TANK_CAPACITY_ML }
    }

    pub fn state(&self) -> (s: ToiletState)
        ensures
            s == self.phase(),
    {
        self.state
    }

    pub fn tank_ml(&self) -> (t: u32)
        ensures
            t == self.tank(),
            t <= TANK_CAPACITY_ML,
    {
        proof {
            use_type_invariant(self);
        }
        self.tank_ml
    }

    /// Total water (ml) consumed by N flushes. Saturates on overflow.
    pub fn total_flush_water_ml(flushes: u32) -> (r: u32)
        ensures
            r == spec_sat_mul(FLUSH_VOLUME_ML as int, flushes as int),
    {
        sat_mul(FLUSH_VOLUME_ML, flushes)
    }

    /// The flush timer elapsed: a flushing toilet empties a flush's worth
    /// from the tank and starts refilling. In any other state nothing
    /// happens.
    pub fn finish_flush(&mut self)
        ensures
            old(self).phase() == ToiletState::Flushing ==> final(self).phase()
                == ToiletState::Refilling && final(self).tank() == (if old(self).tank()
                > FLUSH_VOLUME_ML {
                old(self).tank() - FLUSH_VOLUME_ML
            } else {
                0
            }),
            old(self).phase() != ToiletState::Flushing ==> *final(self) == *old(self),
    {
        proof {
            use_type_invariant(&*self);
        }
        if self.state == ToiletState::Flushing {
            let t = self.tank_ml.saturating_sub(FLUSH_VOLUME_ML);
            *self = Toilet { state: ToiletState::Refilling, tank_ml: t };
        }
    }

    /// While refilling, `add_ml` flows into the tank (clamped at its
    /// capacity); a full tank returns to Idle. In any other state nothing
    /// happens.
    pub fn refill(&mut self, add_ml: u32)
        requires
            old(self).tank() + add_ml <= u32::MAX,
        ensures
            old(self).phase() == ToiletState::Refilling ==> {
                let t = if old(self).tank() + add_ml < TANK_CAPACITY_ML {
                    old(self).tank() + add_ml
                } else {
                    TANK_CAPACITY_ML as int
                };
                &&& final(self).tank() == t
                &&& final(self).phase() == (if t >= TANK_CAPACITY_ML {
                    ToiletState::Idle
                } else {
                    ToiletState::Refilling
                })
            },
            old(self).phase() != ToiletState::Refilling ==> *final(self) == *old(self),
    {
        proof {
            use_type_invariant(&*self);
        }
        if self.state == ToiletState::Refilling {
            let sum = self.tank_ml + add_ml;
            let t = if sum < TANK_CAPACITY_ML {
                sum
            } else {
                TANK_CAPACITY_ML
            };
            let st = if t >= TANK_CAPACITY_ML {
                ToiletState::Idle
            } else {
                ToiletState::Refilling
            };
            *self = Toilet { state: st, tank_ml: t };
        }
    }
}

/// What one press does: an Idle toilet with a flush's worth of water
/// starts flushing; otherwise nothing changes.
pub open spec fn cycled(a: Toilet, b: Toilet) -> bool {
    &&& a.phase() == ToiletState::Idle && a.tank() >= FLUSH_VOLUME_ML ==> b.phase()
        == ToiletState::Flushing && b.tank() == a.tank()
    &&& !(a.phase() == ToiletState::Idle && a.tank() >= FLUSH_VOLUME_ML) ==> b == a
}

impl Cyclable for Toilet {
    closed spec fn index_state(&self) -> nat {
        match self.state {
            ToiletState::Idle => 0,
            ToiletState::Flushing => 1,
            ToiletState::Refilling => 2,
        }
    }

    closed spec fn count_state(&self) -> nat {
        3
    }

    fn state_index(&self) -> (i: usize) {
        match self.state {
            ToiletState::Idle => 0,
            ToiletState::Flushing => 1,
            ToiletState::Refilling => 2,
        }
    }

    fn state_count(&self) -> (n: usize) {
        3
    }

    /// Only Idle -> Flushing is user-triggered, and only with a flush's
    /// worth of water in the tank.
    fn cycle(&mut self)
        ensures
            cycled(*old(self), *final(self)),
    {
        proof {
            use_type_invariant(&*self);
        }
        if self.state == ToiletState::Idle && self.tank_ml >= FLUSH_VOLUME_ML {
            self.state = ToiletState::Flushing;
        }
    }
}

impl LiquidContainer for Toilet {
    closed spec fn intake_ml(&self) -> nat {
        self.tank_ml as nat
    }

    closed spec fn outlet_ml(&self) -> nat {
        self.tank_ml as nat
    }

    fn liquid(&self) -> (l: Option<(Liquid, u32)>)
        ensures
            self.tank() > 0 ==> l == Some((Liquid::Water, self.tank() as u32)),
            self.tank() == 0 ==> l is None,
    {
        if self.tank_ml > 0 {
            Some((Liquid::Water, self.tank_ml))
        } else {
            None
        }
    }

    fn capacity_ml(&self) -> (c: u32)
        ensures
            c == TANK_CAPACITY_ML,
    {
        TANK_CAPACITY_ML
    }

    /// Only water is accepted, up to the tank's capacity.
    fn add_liquid(&mut self, kind: Liquid, ml: u32) -> (overflow: u32)
        ensures
            kind != Liquid::Water ==> overflow == ml && *final(self) == *old(self),
            kind == Liquid::Water ==> {
                let taken = if ml < TANK_CAPACITY_ML - old(self).tank() {
                    ml as int
                } else {
                    TANK_CAPACITY_ML - old(self).tank()
                };
                &&& overflow == ml - taken
                &&& final(self).tank() == old(self).tank() + taken
                &&& final(self).phase() == old(self).phase()
            },
    {
        proof {
            use_type_invariant(&*self);
        }
        if kind != Liquid::Water {
            return ml;
        }
        let room = TANK_CAPACITY_ML - self.tank_ml;
        let taken = if ml < room {
            ml
        } else {
            room
        };
        self.tank_ml = self.tank_ml + taken;
        ml - taken
    }

    fn drain_liquid(&mut self, ml: u32) -> (r: (Liquid, u32))
        ensures
            r.0 == Liquid::Water,
            r.1 == (if ml < old(self).tank() { ml as nat } else { old(self).tank() }),
            final(self).phase() == old(self).phase(),
    {
        proof {
            use_type_invariant(&*self);
        }
        let taken = if ml < self.tank_ml {
            ml
        } else {
            self.tank_ml
        };
        self.tank_ml = self.tank_ml - taken;
        (Liquid::Water, taken)
    }
}

/// Whole seconds to refill `empty_ml`; zero at a zero rate.
pub fn seconds_to_refill(empty_ml: u32, refill_rate_ml_per_sec: u32) -> (r: u32)
    ensures
        r == (if refill_rate_ml_per_sec == 0 { 0 } else { empty_ml / refill_rate_ml_per_sec }),
{
    if refill_rate_ml_per_sec == 0 {
        return 0;
    }
    empty_ml / refill_rate_ml_per_sec
}

} // verus!
