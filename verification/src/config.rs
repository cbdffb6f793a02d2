//! Tunable parameters of the force model.
//!
//! The simulation has no physical units, so the strengths of the three
//! forces are free coefficients chosen by the caller rather than physical
//! constants.

use vstd::prelude::*;

verus! {

/// Upper bound on each force coefficient: `16.0` in fixed point, which
/// covers the whole range the simulation is tuned over.
pub const COEFF_MAX: i128 = 16_000_000;

/// Largest accepted time step: `1000.0` time units in fixed point. A frame
/// of the interactive simulation is a small fraction of one unit.
pub const DT_MAX: i128 = 1_000_000_000;

/// The force coefficients of one simulation: electrostatic strength,
/// gravitational strength, and drag strength, all fixed-point and
/// non-negative.
#[derive(Clone, Copy, Debug, PartialEq, Eq, Structural)]
pub struct SimConfig {
    pub k_e: i128,
    pub k_g: i128,
    pub k_d: i128,
}

/// The mathematical value of a [`SimConfig`].
pub struct ConfigModel {
    pub k_e: int,
    pub k_g: int,
    pub k_d: int,
}

impl View for SimConfig {
    type V = ConfigModel;

    open spec fn view(&self) -> ConfigModel {
        ConfigModel { k_e: self.k_e as int, k_g: self.k_g as int, k_d: self.k_d as int }
    }
}

impl ConfigModel {
    /// Every coefficient lies in `[0, COEFF_MAX]`.
    pub open spec fn wf(self) -> bool {
        &&& 0 <= self.k_e <= COEFF_MAX
        &&& 0 <= self.k_g <= COEFF_MAX
        &&& 0 <= self.k_d <= COEFF_MAX
    }
}

impl SimConfig {
    /// Shorthand for well-formedness of the model of this configuration.
    pub open spec fn wf(self) -> bool {
        self@.wf()
    }

    /// Build a configuration, accepting exactly the coefficients in
    /// `[0, COEFF_MAX]`.
    pub fn new(k_e: i128, k_g: i128, k_d: i128) -> (r: Option<SimConfig>)
        ensures
            r is Some <==> (0 <= k_e <= COEFF_MAX && 0 <= k_g <= COEFF_MAX && 0 <= k_d
                <= COEFF_MAX),
            r is Some ==> r->Some_0@ == (ConfigModel {
                k_e: k_e as int,
                k_g: k_g as int,
                k_d: k_d as int,
            }) && r->Some_0.wf(),
    {
        if 0 <= k_e && k_e <= COEFF_MAX && 0 <= k_g && k_g <= COEFF_MAX && 0 <= k_d && k_d
            <= COEFF_MAX {
            Some(SimConfig { k_e, k_g, k_d })
        } else {
            None
        }
    }
}

impl Default for SimConfig {
    /// The coefficients the interactive simulation ships with:
    /// electrostatic strength `1.5`, gravity `8.0`, drag `0.1`.
    fn default() -> (c: SimConfig)
        ensures
            c@ == (ConfigModel { k_e: 1_500_000, k_g: 8_000_000, k_d: 100_000 }),
            c.wf(),
    {
        SimConfig { k_e: 1_500_000, k_g: 8_000_000, k_d: 100_000 }
    }
}

} // verus!
