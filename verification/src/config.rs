//! Tunable simulation parameters, each clamped to an explicit range.

use vstd::prelude::*;

verus! {

/// One tunable parameter: a value that is kept within `[min, max]`
/// on every mutation.
#[derive(Debug, Clone, Copy)]
pub struct ConfigVar {
    name: &'static str,
    val: i32,
    min: i32,
    max: i32,
}

impl ConfigVar {
    /// The parameter is well formed when its value sits inside its range.
    pub closed spec fn wf(self) -> bool {
        self.min <= self.val <= self.max
    }

    pub closed spec fn spec_val(self) -> i32 {
        self.val
    }

    pub closed spec fn spec_min(self) -> i32 {
        self.min
    }

    pub closed spec fn spec_max(self) -> i32 {
        self.max
    }

    pub closed spec fn spec_name(self) -> &'static str {
        self.name
    }

    /// The range bound stated by `wf`, exported so that callers can use it
    /// without seeing the fields.
    pub broadcast proof fn lemma_wf_range(self)
        requires
            #[trigger] self.wf(),
        ensures
            self.spec_min() <= self.spec_val() <= self.spec_max(),
    {
    }

    pub fn new(name: &'static str, val: i32, min: i32, max: i32) -> (r: ConfigVar)
        requires
            min <= val <= max,
        ensures
            r.wf(),
            r.spec_name() == name,
            r.spec_val() == val,
            r.spec_min() == min,
            r.spec_max() == max,
    {
        Self { name, val, min, max }
    }

    /// Sets the value, silently clamping it into `[min, max]`.
    pub fn set(&mut self, val: i32)
        requires
            old(self).wf(),
        ensures
            final(self).wf(),
            final(self).spec_min() == old(self).spec_min(),
            final(self).spec_max() == old(self).spec_max(),
            final(self).spec_name() == old(self).spec_name(),
            final(self).spec_val() == clamped(
                val as int,
                old(self).spec_min() as int,
                old(self).spec_max() as int,
            ),
    {
        if val <= self.max && val >= self.min {
            self.val = val;
        } else if val <= self.min {
            self.val = self.min;
        } else {
            self.val = self.max;
        }
    }

    /// Moves the value one step up, saturating at `max`.
    pub fn incr(&mut self)
        requires
            old(self).wf(),
        ensures
            final(self).wf(),
            final(self).spec_min() == old(self).spec_min(),
            final(self).spec_max() == old(self).spec_max(),
            final(self).spec_name() == old(self).spec_name(),
            final(self).spec_val() == clamped(
                old(self).spec_val() + 1,
                old(self).spec_min() as int,
                old(self).spec_max() as int,
            ),
    {
        let v = if self.val < self.max {
            self.val + 1
        } else {
            self.max
        };
        self.set(v);
    }

    /// Moves the value one step down, saturating at `min`.
    pub fn decr(&mut self)
        requires
            old(self).wf(),
        ensures
            final(self).wf(),
            final(self).spec_min() == old(self).spec_min(),
            final(self).spec_max() == old(self).spec_max(),
            final(self).spec_name() == old(self).spec_name(),
            final(self).spec_val() == clamped(
                old(self).spec_val() - 1,
                old(self).spec_min() as int,
                old(self).spec_max() as int,
            ),
    {
        let v = if self.val > self.min {
            self.val - 1
        } else {
            self.min
        };
        self.set(v);
    }

    pub fn val(&self) -> (r: i32)
        ensures
            r == self.spec_val(),
    {
        self.val
    }

    pub fn min(&self) -> (r: i32)
        ensures
            r == self.spec_min(),
    {
        self.min
    }

    pub fn max(&self) -> (r: i32)
        ensures
            r == self.spec_max(),
    {
        self.max
    }

    pub fn name(&self) -> (r: &'static str)
        ensures
            r == self.spec_name(),
    {
        self.name
    }
}

/// What a value becomes when clamped into `[min, max]` (with `min` winning
/// when the range is empty, as the setter does).
pub open spec fn clamped(val: int, min: int, max: int) -> int {
    if min <= val <= max {
        val
    } else if val <= min {
        min
    } else {
        max
    }
}

/// The full set of tunable parameters, passed into the simulation as an
/// immutable snapshot per tick.
#[derive(Debug, Clone, Copy)]
pub struct Config {
    pub anthill_height: ConfigVar,
    pub anthill_width: ConfigVar,
    pub max_steps: ConfigVar,
    pub min_ph_c: ConfigVar,
    pub map_width: ConfigVar,
    pub map_height: ConfigVar,
    pub evaporation_rate: ConfigVar,
    pub ph_drop: ConfigVar,
}

impl Config {
    /// Every parameter sits inside its range, and the ranges themselves are
    /// the fixed ones the simulation was designed around.
    pub open spec fn wf(self) -> bool {
        &&& self.anthill_height.wf()
        &&& self.anthill_width.wf()
        &&& self.max_steps.wf()
        &&& self.min_ph_c.wf()
        &&& self.map_width.wf()
        &&& self.map_height.wf()
        &&& self.evaporation_rate.wf()
        &&& self.ph_drop.wf()
        &&& self.anthill_height.spec_min() == 1 && self.anthill_height.spec_max() == 7
        &&& self.anthill_width.spec_min() == 3 && self.anthill_width.spec_max() == 15
        &&& self.max_steps.spec_min() == 0 && self.max_steps.spec_max() == 1000
        &&& self.min_ph_c.spec_min() == 0 && self.min_ph_c.spec_max() == 90
        &&& self.map_width.spec_min() == 50 && self.map_width.spec_max() == 350
        &&& self.map_height.spec_min() == 25 && self.map_height.spec_max() == 200
        &&& self.evaporation_rate.spec_min() == 0 && self.evaporation_rate.spec_max() == 25
        &&& self.ph_drop.spec_min() == 0 && self.ph_drop.spec_max() == 100
    }

    /// The parameter defaults: all eight values the simulation starts from.
    pub open spec fn is_default(self) -> bool {
        &&& self.wf()
        &&& self.anthill_height.spec_val() == 3
        &&& self.anthill_width.spec_val() == 5
        &&& self.max_steps.spec_val() == 100
        &&& self.min_ph_c.spec_val() == 10
        &&& self.map_width.spec_val() == 115
        &&& self.map_height.spec_val() == 46
        &&& self.evaporation_rate.spec_val() == 2
        &&& self.ph_drop.spec_val() == 79
    }

    pub fn init() -> (r: Config)
        ensures
            r.wf(),
            r.is_default(),
            r.max_steps.spec_val() == 100,
            r.min_ph_c.spec_val() == 10,
            r.map_width.spec_val() == 115,
            r.map_height.spec_val() == 46,
            r.evaporation_rate.spec_val() == 2,
            r.ph_drop.spec_val() == 79,
    {
        Config {
            anthill_height: ConfigVar::new("Anthill height", 3, 1, 7),
            anthill_width: ConfigVar::new("Anthill width", 5, 3, 15),
            max_steps: ConfigVar::new("Max steps", 100, 0, 1000),
            min_ph_c: ConfigVar::new("Min Ph C", 10, 0, 90),
            map_width: ConfigVar::new("Map width", 115, 50, 350),
            map_height: ConfigVar::new("Map height", 46, 25, 200),
            evaporation_rate: ConfigVar::new("Evaporation rate (in %)", 2, 0, 25),
            ph_drop: ConfigVar::new("Ph drop", 79, 0, 100),
        }
    }

    /// All parameters, in their fixed display order.
    pub open spec fn spec_vars(self) -> Seq<ConfigVar> {
        seq![
            self.anthill_height,
            self.anthill_width,
            self.max_steps,
            self.min_ph_c,
            self.map_width,
            self.map_height,
            self.evaporation_rate,
            self.ph_drop,
        ]
    }

    /// A snapshot of all parameters, in their fixed display order.
    pub fn vars(&self) -> (r: Vec<ConfigVar>)
        ensures
            r@ == self.spec_vars(),
    {
        let mut v: Vec<ConfigVar> = Vec::new();
        v.push(self.anthill_height);
        v.push(self.anthill_width);
        v.push(self.max_steps);
        v.push(self.min_ph_c);
        v.push(self.map_width);
        v.push(self.map_height);
        v.push(self.evaporation_rate);
        v.push(self.ph_drop);
        proof {
            assert(v@ =~= self.spec_vars());
        }
        v
    }

    /// Steps the parameter at `index` (in the order of `vars`) one up.
    pub fn incr_var(&mut self, index: usize)
        requires
            old(self).wf(),
            index < 8,
        ensures
            final(self).wf(),
            forall|j: int|
                0 <= j < 8 && j != index ==> final(self).spec_vars()[j] == old(
                    self,
                ).spec_vars()[j],
            stepped_by(old(self).spec_vars()[index as int], final(self).spec_vars()[index as int], 1),
    {
        match index {
            0 => self.anthill_height.incr(),
            1 => self.anthill_width.incr(),
            2 => self.max_steps.incr(),
            3 => self.min_ph_c.incr(),
            4 => self.map_width.incr(),
            5 => self.map_height.incr(),
            6 => self.evaporation_rate.incr(),
            _ => self.ph_drop.incr(),
        }
    }

    /// Steps the parameter at `index` (in the order of `vars`) one down.
    pub fn decr_var(&mut self, index: usize)
        requires
            old(self).wf(),
            index < 8,
        ensures
            final(self).wf(),
            forall|j: int|
                0 <= j < 8 && j != index ==> final(self).spec_vars()[j] == old(
                    self,
                ).spec_vars()[j],
            stepped_by(
                old(self).spec_vars()[index as int],
                final(self).spec_vars()[index as int],
                -1,
            ),
    {
        match index {
            0 => self.anthill_height.decr(),
            1 => self.anthill_width.decr(),
            2 => self.max_steps.decr(),
            3 => self.min_ph_c.decr(),
            4 => self.map_width.decr(),
            5 => self.map_height.decr(),
            6 => self.evaporation_rate.decr(),
            _ => self.ph_drop.decr(),
        }
    }
}

/// `after` is `before` moved by `delta` and clamped into `before`'s range,
/// with the range and name untouched.
pub open spec fn stepped_by(before: ConfigVar, after: ConfigVar, delta: int) -> bool {
    &&& after.spec_min() == before.spec_min()
    &&& after.spec_max() == before.spec_max()
    &&& after.spec_name() == before.spec_name()
    &&& after.spec_val() == clamped(
        before.spec_val() + delta,
        before.spec_min() as int,
        before.spec_max() as int,
    )
}

} // verus!
