//! Tolerances and limits that steer the placement engine.

use vstd::prelude::*;
use crate::fixed::{MAX_LENGTH, SCALE};

verus! {

/// Configuration of the placement engine. Lengths are fixed-point numbers; ratios are
/// fixed-point fractions, so `1_000_000` stands for the ratio one.
#[derive(Clone, Copy, Debug)]
pub struct PackingConfig {
    /// Step of the position grid along x and y.
    pub grid_step: i64,
    /// Least fraction of the base area that must rest on other boxes.
    pub support_ratio: i64,
    /// Tolerance for comparisons of heights.
    pub height_epsilon: i64,
    /// General tolerance for comparisons.
    pub general_epsilon: i64,
    /// Largest allowed offset of the centre of mass, as a fraction of the half diagonal
    /// of the footprint.
    pub balance_limit_ratio: i64,
    /// Relative tolerance with which footprints count as similar.
    pub footprint_cluster_tolerance: i64,
    /// Whether items may be rotated.
    pub allow_item_rotation: bool,
}

impl PackingConfig {
    pub const DEFAULT_GRID_STEP: i64 = 5_000_000;

    pub const DEFAULT_SUPPORT_RATIO: i64 = 600_000;

    pub const DEFAULT_HEIGHT_EPSILON: i64 = 1_000;

    pub const DEFAULT_GENERAL_EPSILON: i64 = 1;

    pub const DEFAULT_BALANCE_LIMIT_RATIO: i64 = 450_000;

    pub const DEFAULT_FOOTPRINT_CLUSTER_TOLERANCE: i64 = 150_000;

    pub const DEFAULT_ALLOW_ITEM_ROTATION: bool = false;

    /// Every option lies in its recognised range: the grid step and both tolerances are
    /// strictly positive and at most the largest length, the support and balance ratios
    /// lie between zero and one, and the cluster tolerance between zero and one half.
    pub open spec fn valid(&self) -> bool {
        &&& 1 <= self.grid_step <= MAX_LENGTH
        &&& 0 <= self.support_ratio <= SCALE
        &&& 1 <= self.height_epsilon <= MAX_LENGTH
        &&& 1 <= self.general_epsilon <= MAX_LENGTH
        &&& 0 <= self.balance_limit_ratio <= SCALE
        &&& 0 <= self.footprint_cluster_tolerance <= SCALE / 2
    }

    /// The default configuration.
    pub open spec fn spec_default() -> Self {
        PackingConfig {
            grid_step: PackingConfig::DEFAULT_GRID_STEP,
            support_ratio: PackingConfig::DEFAULT_SUPPORT_RATIO,
            height_epsilon: PackingConfig::DEFAULT_HEIGHT_EPSILON,
            general_epsilon: PackingConfig::DEFAULT_GENERAL_EPSILON,
            balance_limit_ratio: PackingConfig::DEFAULT_BALANCE_LIMIT_RATIO,
            footprint_cluster_tolerance: PackingConfig::DEFAULT_FOOTPRINT_CLUSTER_TOLERANCE,
            allow_item_rotation: PackingConfig::DEFAULT_ALLOW_ITEM_ROTATION,
        }
    }

    /// A builder that starts from the default configuration.
    pub fn builder() -> (b: PackingConfigBuilder)
        ensures
            b.config == Self::spec_default(),
    {
        PackingConfigBuilder { config: PackingConfig::default() }
    }

    /// Whether every option lies in its recognised range.
    pub fn is_valid(&self) -> (r: bool)
        ensures
            r == self.valid(),
    {
        1 <= self.grid_step && self.grid_step <= MAX_LENGTH && 0 <= self.support_ratio
            && self.support_ratio <= SCALE && 1 <= self.height_epsilon && self.height_epsilon
            <= MAX_LENGTH && 1 <= self.general_epsilon && self.general_epsilon <= MAX_LENGTH && 0
            <= self.balance_limit_ratio && self.balance_limit_ratio <= SCALE && 0
            <= self.footprint_cluster_tolerance && self.footprint_cluster_tolerance <= SCALE / 2
    }
}

impl Default for PackingConfig {
    fn default() -> (c: Self)
        ensures
            c == PackingConfig::spec_default(),
            c.valid(),
    {
        Self {
            grid_step: PackingConfig::DEFAULT_GRID_STEP,
            support_ratio: PackingConfig::DEFAULT_SUPPORT_RATIO,
            height_epsilon: PackingConfig::DEFAULT_HEIGHT_EPSILON,
            general_epsilon: PackingConfig::DEFAULT_GENERAL_EPSILON,
            balance_limit_ratio: PackingConfig::DEFAULT_BALANCE_LIMIT_RATIO,
            footprint_cluster_tolerance: PackingConfig::DEFAULT_FOOTPRINT_CLUSTER_TOLERANCE,
            allow_item_rotation: PackingConfig::DEFAULT_ALLOW_ITEM_ROTATION,
        }
    }
}

/// Builds a configuration option by option, starting from the defaults.
#[derive(Clone, Copy, Debug)]
pub struct PackingConfigBuilder {
    pub config: PackingConfig,
}

impl Default for PackingConfigBuilder {
    fn default() -> (b: Self)
        ensures
            b.config == PackingConfig::spec_default(),
    {
        Self { config: PackingConfig::default() }
    }
}

impl PackingConfigBuilder {
    /// Sets the step of the position grid.
    pub fn grid_step(self, step: i64) -> (b: Self)
        ensures
            b.config == (PackingConfig { grid_step: step, ..self.config }),
    {
        let mut b = self;
        b.config.grid_step = step;
        b
    }

    /// Sets the least supported fraction of the base area.
    pub fn support_ratio(self, ratio: i64) -> (b: Self)
        ensures
            b.config == (PackingConfig { support_ratio: ratio, ..self.config }),
    {
        let mut b = self;
        b.config.support_ratio = ratio;
        b
    }

    /// Sets the tolerance for heights.
    pub fn height_epsilon(self, epsilon: i64) -> (b: Self)
        ensures
            b.config == (PackingConfig { height_epsilon: epsilon, ..self.config }),
    {
        let mut b = self;
        b.config.height_epsilon = epsilon;
        b
    }

    /// Sets the general tolerance.
    pub fn general_epsilon(self, epsilon: i64) -> (b: Self)
        ensures
            b.config == (PackingConfig { general_epsilon: epsilon, ..self.config }),
    {
        let mut b = self;
        b.config.general_epsilon = epsilon;
        b
    }

    /// Sets the balance limit as a fraction of the half diagonal.
    pub fn balance_limit_ratio(self, ratio: i64) -> (b: Self)
        ensures
            b.config == (PackingConfig { balance_limit_ratio: ratio, ..self.config }),
    {
        let mut b = self;
        b.config.balance_limit_ratio = ratio;
        b
    }

    /// Sets the relative tolerance for grouping footprints.
    pub fn footprint_cluster_tolerance(self, tolerance: i64) -> (b: Self)
        ensures
            b.config == (PackingConfig { footprint_cluster_tolerance: tolerance, ..self.config }),
    {
        let mut b = self;
        b.config.footprint_cluster_tolerance = tolerance;
        b
    }

    /// Allows or forbids the rotation of items.
    pub fn allow_item_rotation(self, allow: bool) -> (b: Self)
        ensures
            b.config == (PackingConfig { allow_item_rotation: allow, ..self.config }),
    {
        let mut b = self;
        b.config.allow_item_rotation = allow;
        b
    }

    /// The configuration as built.
    pub fn build(self) -> (c: PackingConfig)
        ensures
            c == self.config,
    {
        self.config
    }
}

} // verus!
