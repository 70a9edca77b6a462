//! Small bookkeeping value types for the application built around the
//! engine: entity identifiers, a counter that issues them, hit points and a
//! simple enemy flag. They carry no physics; they are here so the state the
//! application keeps next to its bodies is verified too.

use vstd::prelude::*;

verus! {

/// Identifier of a rigid body on the application side.
#[derive(Debug, Clone, Copy, Hash, PartialEq, Eq, Structural)]
pub struct RigidBodyID(u32);

impl View for RigidBodyID {
    type V = int;

    closed spec fn view(&self) -> int {
        self.0 as int
    }
}

impl RigidBodyID {
    /// An identifier from its raw number.
    pub fn new(x: u32) -> (r: RigidBodyID)
        ensures
            r@ == x as int,
    {
        RigidBodyID(x)
    }
}

/// Identifier of a sensor region.
#[derive(Debug, Clone, Copy, Hash, PartialEq, Eq, Structural)]
pub struct SensorID(u32);

impl View for SensorID {
    type V = int;

    closed spec fn view(&self) -> int {
        self.0 as int
    }
}

impl SensorID {
    /// An identifier from its raw number.
    pub fn new(x: u32) -> (r: SensorID)
        ensures
            r@ == x as int,
    {
        SensorID(x)
    }
}

/// Issues identifier numbers, starting at one and never repeating.
pub struct Counter {
    next: u32,
}

impl View for Counter {
    type V = int;

    closed spec fn view(&self) -> int {
        self.next as int
    }
}

impl Counter {
    /// A counter whose first issued number is one.
    pub fn new() -> (r: Counter)
        ensures
            r@ == 1,
    {
        Counter { next: 1 }
    }

    /// The next number: returns the current one and advances.
    pub fn next(&mut self) -> (r: u32)
        requires
            old(self)@ < u32::MAX,
        ensures
            r as int == old(self)@,
            final(self)@ == old(self)@ + 1,
    {
        let x = self.next;
        self.next = self.next + 1;
        x
    }
}

/// Mathematical model of a hit-point pool.
pub ghost struct HitpointsModel {
    pub current: int,
    pub max: int,
}

/// A bounded pool of hit points: `current` never exceeds `max`, damage
/// saturates at zero and healing at `max`.
#[derive(Debug, Clone)]
pub struct Hitpoints {
    current: u16,
    max: u16,
}

impl View for Hitpoints {
    type V = HitpointsModel;

    closed spec fn view(&self) -> HitpointsModel {
        HitpointsModel { current: self.current as int, max: self.max as int }
    }
}

impl Hitpoints {
    /// A full pool of the given size.
    pub fn new(max: u16) -> (r: Hitpoints)
        ensures
            r@.current == max as int,
            r@.max == max as int,
    {
        Hitpoints { max, current: max }
    }

    /// Set the current hit points, capped at the maximum.
    pub fn set_current(&mut self, x: u16)
        ensures
            final(self)@.max == old(self)@.max,
            final(self)@.current == if x as int <= old(self)@.max {
                x as int
            } else {
                old(self)@.max
            },
    {
        self.current = if x <= self.max {
            x
        } else {
            self.max
        };
    }

    /// Subtract damage, saturating at zero.
    pub fn damage(&mut self, damage: u16)
        ensures
            final(self)@.max == old(self)@.max,
            final(self)@.current == if damage as int > old(self)@.current {
                0
            } else if old(self)@.current - damage as int <= old(self)@.max {
                old(self)@.current - damage as int
            } else {
                old(self)@.max
            },
    {
        if damage > self.current {
            self.set_current(0);
        } else {
            let new = self.current - damage;
            self.set_current(new);
        }
    }

    /// Add healing, saturating at the maximum.
    pub fn heal(&mut self, heal: u16)
        ensures
            final(self)@.max == old(self)@.max,
            final(self)@.current == if old(self)@.current + heal as int <= old(self)@.max {
                old(self)@.current + heal as int
            } else {
                old(self)@.max
            },
    {
        let sum: u32 = self.current as u32 + heal as u32;
        self.current = if sum <= self.max as u32 {
            sum as u16
        } else {
            self.max
        };
    }

    /// The current hit points.
    pub fn current(&self) -> (r: u16)
        ensures
            r as int == self@.current,
    {
        self.current
    }

    /// The size of the pool.
    pub fn max(&self) -> (r: u16)
        ensures
            r as int == self@.max,
    {
        self.max
    }
}

/// A basic enemy's state flag.
#[derive(Debug, Clone)]
pub struct BasicEnemy {
    /// Whether the enemy has been defeated.
    pub is_dead: bool,
}

impl BasicEnemy {
    /// A live enemy.
    pub fn new() -> (r: BasicEnemy)
        ensures
            !r.is_dead,
    {
        BasicEnemy { is_dead: false }
    }
}

} // verus!
