//! Diagnostics: balance and support metrics of one container, and their summary over
//! all containers of a run.

use vstd::prelude::*;
use crate::fixed::{max, min, MAX_EXTENT, MAX_ITEMS, SCALE};
use crate::model::{Container, ContainerModel};
use crate::optimizer::balance::{
    balance_limit, balance_offset, calculate_balance_limit, calculate_current_balance_offset,
};
use crate::optimizer::config::PackingConfig;
use crate::optimizer::stability::{on_floor, support_ratio, support_ratio_of};

verus! {

/// One hundred percent as a fixed-point percentage.
pub const FULL_PERCENT: i64 = 100_000_000;

/// Support metrics of one placed box.
#[derive(Clone, Copy, Debug)]
pub struct SupportDiagnostics {
    pub object_id: usize,
    /// Supported share of the base area, in percent.
    pub support_percent: i64,
    pub rests_on_floor: bool,
}

/// Balance and support metrics of one container.
#[derive(Debug)]
pub struct ContainerDiagnostics {
    /// Distance of the centre of mass from the centre of the footprint.
    pub center_of_mass_offset: i64,
    /// Largest offset that the configuration allows.
    pub balance_limit: i64,
    /// Offset over limit, as a fixed-point ratio; zero when the limit is within the
    /// general tolerance of zero.
    pub imbalance_ratio: i64,
    pub average_support_percent: i64,
    pub minimum_support_percent: i64,
    /// One sample per placed box, in the order of placement.
    pub support_samples: Vec<SupportDiagnostics>,
}

/// The mathematical content of a container's diagnostics.
pub struct DiagnosticsModel {
    pub center_of_mass_offset: i64,
    pub balance_limit: i64,
    pub imbalance_ratio: i64,
    pub average_support_percent: i64,
    pub minimum_support_percent: i64,
    pub support_samples: Seq<SupportDiagnostics>,
}

impl View for ContainerDiagnostics {
    type V = DiagnosticsModel;

    open spec fn view(&self) -> DiagnosticsModel {
        DiagnosticsModel {
            center_of_mass_offset: self.center_of_mass_offset,
            balance_limit: self.balance_limit,
            imbalance_ratio: self.imbalance_ratio,
            average_support_percent: self.average_support_percent,
            minimum_support_percent: self.minimum_support_percent,
            support_samples: self.support_samples@,
        }
    }
}

impl Clone for ContainerDiagnostics {
    fn clone(&self) -> (d: Self)
        ensures
            d@ == self@,
    {
        let mut samples: Vec<SupportDiagnostics> = Vec::new();
        let mut i: usize = 0;
        while i < self.support_samples.len()
            invariant
                i <= self.support_samples@.len(),
                samples@ == self.support_samples@.take(i as int),
            decreases self.support_samples@.len() - i,
        {
            samples.push(self.support_samples[i]);
            assert(samples@ =~= self.support_samples@.take(i as int + 1));
            i = i + 1;
        }
        assert(self.support_samples@.take(i as int) =~= self.support_samples@);
        Self {
            center_of_mass_offset: self.center_of_mass_offset,
            balance_limit: self.balance_limit,
            imbalance_ratio: self.imbalance_ratio,
            average_support_percent: self.average_support_percent,
            minimum_support_percent: self.minimum_support_percent,
            support_samples: samples,
        }
    }
}

/// Worst case and average over all containers of a run.
#[derive(Clone, Copy, Debug)]
pub struct PackingDiagnosticsSummary {
    pub max_imbalance_ratio: i64,
    pub worst_support_percent: i64,
    pub average_support_percent: i64,
}

impl PackingDiagnosticsSummary {
    /// The summary of a run without containers: no imbalance and full support.
    pub open spec fn spec_default() -> Self {
        PackingDiagnosticsSummary {
            max_imbalance_ratio: 0,
            worst_support_percent: FULL_PERCENT,
            average_support_percent: FULL_PERCENT,
        }
    }
}

impl Default for PackingDiagnosticsSummary {
    fn default() -> (s: Self)
        ensures
            s == PackingDiagnosticsSummary::spec_default(),
    {
        Self {
            max_imbalance_ratio: 0,
            worst_support_percent: FULL_PERCENT,
            average_support_percent: FULL_PERCENT,
        }
    }
}

/// The support sample of the `i`-th box of a container.
pub open spec fn support_sample(cont: ContainerModel, config: PackingConfig, i: int) -> SupportDiagnostics {
    SupportDiagnostics {
        object_id: cont.placed[i].object.id,
        support_percent: (support_ratio(cont.placed[i], cont.placed, config) * 100) as i64,
        rests_on_floor: on_floor(cont.placed[i], config),
    }
}

/// The support samples of a container, one per box.
pub open spec fn support_samples(cont: ContainerModel, config: PackingConfig) -> Seq<
    SupportDiagnostics,
> {
    Seq::new(cont.placed.len(), |i: int| support_sample(cont, config, i))
}

/// Sum of the support ratios of the first `n` boxes of a container.
pub open spec fn support_ratio_sum(cont: ContainerModel, config: PackingConfig, n: int) -> int
    decreases n,
{
    if n <= 0 {
        0
    } else {
        support_ratio_sum(cont, config, n - 1) + support_ratio(
            cont.placed[n - 1],
            cont.placed,
            config,
        )
    }
}

/// Least support ratio among the first `n` boxes of a container; one for none.
pub open spec fn support_ratio_min(cont: ContainerModel, config: PackingConfig, n: int) -> int
    decreases n,
{
    if n <= 0 {
        SCALE as int
    } else {
        min(
            support_ratio_min(cont, config, n - 1),
            support_ratio(cont.placed[n - 1], cont.placed, config),
        )
    }
}

/// Offset over limit as a fixed-point ratio, rounded down; zero when the limit is not
/// above the general tolerance.
pub open spec fn imbalance(offset: int, limit: int, config: PackingConfig) -> int {
    if limit > config.general_epsilon {
        offset * SCALE / limit
    } else {
        0
    }
}

/// The diagnostics of a container: the balance offset and its limit, their ratio, the
/// average and the least supported share in percent (one hundred for an empty
/// container), and one support sample per box.
pub open spec fn container_diagnostics(cont: ContainerModel, config: PackingConfig) -> DiagnosticsModel {
    let n = cont.placed.len() as int;
    let limit = balance_limit(cont.dims, config);
    let offset = balance_offset(cont.dims, cont.placed);
    DiagnosticsModel {
        center_of_mass_offset: offset as i64,
        balance_limit: limit as i64,
        imbalance_ratio: imbalance(offset, limit, config) as i64,
        average_support_percent: if n > 0 {
            (support_ratio_sum(cont, config, n) / n * 100) as i64
        } else {
            FULL_PERCENT
        },
        minimum_support_percent: if n > 0 {
            (support_ratio_min(cont, config, n) * 100) as i64
        } else {
            FULL_PERCENT
        },
        support_samples: support_samples(cont, config),
    }
}

/// Diagnostics as they come out of a container within the supported range: at most
/// the largest number of samples, each between zero and one hundred percent.
pub open spec fn plausible(d: DiagnosticsModel) -> bool {
    &&& d.support_samples.len() <= MAX_ITEMS
    &&& forall|i: int|
        0 <= i < d.support_samples.len() ==> 0 <= (#[trigger] d.support_samples[i]).support_percent
            <= FULL_PERCENT
}

/// Computes the diagnostics of a container.
pub fn compute_container_diagnostics(cont: &Container, config: &PackingConfig) -> (d:
    ContainerDiagnostics)
    requires
        cont.valid(),
        config.valid(),
    ensures
        d@ == container_diagnostics(cont@, *config),
        plausible(d@),
{
    let limit: i64 = calculate_balance_limit(cont, config);
    let offset: i64 = calculate_current_balance_offset(cont);
    let imbalance_ratio: i64 = if limit > config.general_epsilon {
        assert(0 <= offset * SCALE <= 4 * MAX_EXTENT * SCALE) by (nonlinear_arith)
            requires
                0 <= offset <= 4 * MAX_EXTENT,
        ;
        assert(0 <= (offset * SCALE) / (limit as int) <= offset * SCALE) by (nonlinear_arith)
            requires
                0 <= offset * SCALE,
                limit >= 1,
        ;
        ((offset as i128 * SCALE as i128) / limit as i128) as i64
    } else {
        0
    };
    let n: usize = cont.placed.len();
    let mut samples: Vec<SupportDiagnostics> = Vec::with_capacity(n);
    let mut total: i64 = 0;
    let mut least: i64 = SCALE;
    let mut i: usize = 0;
    while i < n
        invariant
            i <= n,
            n == cont.placed@.len(),
            n <= MAX_ITEMS,
            cont.valid(),
            config.valid(),
            samples@ == support_samples(cont@, *config).take(i as int),
            total == support_ratio_sum(cont@, *config, i as int),
            least == support_ratio_min(cont@, *config, i as int),
            0 <= total <= i * SCALE,
            0 <= least <= SCALE,
            forall|k: int|
                0 <= k < i ==> 0 <= (#[trigger] samples@[k]).support_percent <= FULL_PERCENT,
        decreases n - i,
    {
        let placed = &cont.placed[i];
        assert(placed.valid());
        let ratio: i64 = support_ratio_of(placed, cont, config);
        proof {
            assert((i + 1) * SCALE == i * SCALE + SCALE) by (nonlinear_arith);
            assert(i * SCALE <= MAX_ITEMS * SCALE) by (nonlinear_arith)
                requires
                    i <= MAX_ITEMS,
            ;
        }
        total = total + ratio;
        if ratio < least {
            least = ratio;
        }
        samples.push(
            SupportDiagnostics {
                object_id: placed.object.id,
                support_percent: ratio * 100,
                rests_on_floor: placed.position.2 <= config.height_epsilon,
            },
        );
        assert(samples@ =~= support_samples(cont@, *config).take(i as int + 1));
        i = i + 1;
    }
    assert(support_samples(cont@, *config).take(i as int) =~= support_samples(cont@, *config));
    let average_support_percent: i64 = if n > 0 {
        assert(0 <= (total as int) / (n as int) <= SCALE) by (nonlinear_arith)
            requires
                0 <= total <= n * SCALE,
                n > 0,
        ;
        (total / n as i64) * 100
    } else {
        FULL_PERCENT
    };
    let minimum_support_percent: i64 = if n == 0 { FULL_PERCENT } else { least * 100 };
    ContainerDiagnostics {
        center_of_mass_offset: offset,
        balance_limit: limit,
        imbalance_ratio,
        average_support_percent,
        minimum_support_percent,
        support_samples: samples,
    }
}

/// Sum of the support percentages of a sequence of samples.
pub open spec fn percent_sum(samples: Seq<SupportDiagnostics>) -> int
    decreases samples.len(),
{
    if samples.len() == 0 {
        0
    } else {
        percent_sum(samples.drop_last()) + samples.last().support_percent
    }
}

/// Running totals of a summary: the largest imbalance ratio, the least minimum
/// support, the sum of all support percentages and the number of samples.
pub struct SummaryTotals {
    pub max_imbalance_ratio: int,
    pub worst_support_percent: int,
    pub support_percent_sum: int,
    pub support_sample_count: int,
}

/// The totals over a sequence of diagnostics, starting from no imbalance and full
/// support.
pub open spec fn summary_totals(diagnostics: Seq<DiagnosticsModel>) -> SummaryTotals
    decreases diagnostics.len(),
{
    if diagnostics.len() == 0 {
        SummaryTotals {
            max_imbalance_ratio: 0,
            worst_support_percent: FULL_PERCENT as int,
            support_percent_sum: 0,
            support_sample_count: 0,
        }
    } else {
        let before = summary_totals(diagnostics.drop_last());
        let d = diagnostics.last();
        SummaryTotals {
            max_imbalance_ratio: max(before.max_imbalance_ratio, d.imbalance_ratio as int),
            worst_support_percent: min(
                before.worst_support_percent,
                d.minimum_support_percent as int,
            ),
            support_percent_sum: before.support_percent_sum + percent_sum(d.support_samples),
            support_sample_count: before.support_sample_count + d.support_samples.len(),
        }
    }
}

/// The summary of a sequence of diagnostics: the largest imbalance ratio, the least
/// minimum support, and the average support over all samples of all containers (one
/// hundred percent when there is no sample).
pub open spec fn summary_of(diagnostics: Seq<DiagnosticsModel>) -> PackingDiagnosticsSummary {
    let totals = summary_totals(diagnostics);
    PackingDiagnosticsSummary {
        max_imbalance_ratio: totals.max_imbalance_ratio as i64,
        worst_support_percent: totals.worst_support_percent as i64,
        average_support_percent: if totals.support_sample_count > 0 {
            (totals.support_percent_sum / totals.support_sample_count) as i64
        } else {
            FULL_PERCENT
        },
    }
}

/// The models of a sequence of diagnostics.
pub open spec fn diagnostics_models(diagnostics: Seq<ContainerDiagnostics>) -> Seq<DiagnosticsModel> {
    Seq::new(diagnostics.len(), |i: int| diagnostics[i]@)
}

/// Every diagnostics record of the sequence is plausible.
pub open spec fn all_plausible(diagnostics: Seq<ContainerDiagnostics>) -> bool {
    forall|i: int| 0 <= i < diagnostics.len() ==> plausible((#[trigger] diagnostics[i])@)
}

/// The sum of plausible percentages is bounded by their number.
pub proof fn lemma_percent_sum(samples: Seq<SupportDiagnostics>)
    requires
        forall|i: int| 0 <= i < samples.len() ==> 0 <= (#[trigger] samples[i]).support_percent
            <= FULL_PERCENT,
    ensures
        0 <= percent_sum(samples) <= samples.len() * FULL_PERCENT,
    decreases samples.len(),
{
    if samples.len() > 0 {
        let rest = samples.drop_last();
        assert forall|i: int| 0 <= i < rest.len() implies 0 <= (#[trigger] rest[i]).support_percent
            <= FULL_PERCENT by {
            assert(rest[i] == samples[i]);
        }
        lemma_percent_sum(rest);
        let n = rest.len() as int;
        assert((n + 1) * FULL_PERCENT == n * FULL_PERCENT + FULL_PERCENT) by (nonlinear_arith);
    }
}

/// Aggregates the diagnostics of all containers of a run.
pub fn summarize_diagnostics(diagnostics: &Vec<ContainerDiagnostics>) -> (s:
    PackingDiagnosticsSummary)
    requires
        diagnostics@.len() <= MAX_ITEMS,
        all_plausible(diagnostics@),
    ensures
        s == summary_of(diagnostics_models(diagnostics@)),
{
    let mut max_imbalance: i64 = 0;
    let mut worst: i64 = FULL_PERCENT;
    let mut sum: i128 = 0;
    let mut count: i128 = 0;
    let ghost models = diagnostics_models(diagnostics@);
    let mut i: usize = 0;
    while i < diagnostics.len()
        invariant
            i <= diagnostics@.len() <= MAX_ITEMS,
            all_plausible(diagnostics@),
            models == diagnostics_models(diagnostics@),
            max_imbalance == summary_totals(models.take(i as int)).max_imbalance_ratio,
            worst == summary_totals(models.take(i as int)).worst_support_percent,
            sum == summary_totals(models.take(i as int)).support_percent_sum,
            count == summary_totals(models.take(i as int)).support_sample_count,
            0 <= count <= i * MAX_ITEMS,
            0 <= sum <= count * FULL_PERCENT,
        decreases diagnostics@.len() - i,
    {
        let d = &diagnostics[i];
        proof {
            assert(models.take(i as int + 1).drop_last() =~= models.take(i as int));
            assert(models.take(i as int + 1).last() == d@);
            assert(plausible(diagnostics@[i as int]@));
        }
        if d.imbalance_ratio > max_imbalance {
            max_imbalance = d.imbalance_ratio;
        }
        if d.minimum_support_percent < worst {
            worst = d.minimum_support_percent;
        }
        let samples = &d.support_samples;
        let mut local: i128 = 0;
        let mut k: usize = 0;
        while k < samples.len()
            invariant
                k <= samples@.len() <= MAX_ITEMS,
                forall|m: int|
                    0 <= m < samples@.len() ==> 0 <= (#[trigger] samples@[m]).support_percent
                        <= FULL_PERCENT,
                local == percent_sum(samples@.take(k as int)),
                0 <= local <= k * FULL_PERCENT,
            decreases samples@.len() - k,
        {
            proof {
                assert(samples@.take(k as int + 1).drop_last() =~= samples@.take(k as int));
                assert((k + 1) * FULL_PERCENT == k * FULL_PERCENT + FULL_PERCENT)
                    by (nonlinear_arith);
                assert(k * FULL_PERCENT <= MAX_ITEMS * FULL_PERCENT) by (nonlinear_arith)
                    requires
                        k <= MAX_ITEMS,
                ;
            }
            local = local + samples[k].support_percent as i128;
            k = k + 1;
        }
        proof {
            assert(samples@.take(k as int) =~= samples@);
            let c = count as int;
            let n = samples@.len() as int;
            assert((c + n) * FULL_PERCENT == c * FULL_PERCENT + n * FULL_PERCENT)
                by (nonlinear_arith);
            assert((i + 1) * MAX_ITEMS == i * MAX_ITEMS + MAX_ITEMS) by (nonlinear_arith);
            assert((i + 1) * MAX_ITEMS <= MAX_ITEMS * MAX_ITEMS) by (nonlinear_arith)
                requires
                    i + 1 <= MAX_ITEMS,
            ;
            assert((c + n) * FULL_PERCENT <= MAX_ITEMS * MAX_ITEMS * FULL_PERCENT)
                by (nonlinear_arith)
                requires
                    0 <= c + n <= MAX_ITEMS * MAX_ITEMS,
            ;
        }
        sum = sum + local;
        count = count + samples.len() as i128;
        i = i + 1;
    }
    assert(models.take(i as int) =~= models);
    let average: i64 = if count > 0 {
        assert(0 <= (sum as int) / (count as int) <= FULL_PERCENT) by (nonlinear_arith)
            requires
                0 <= sum <= count * FULL_PERCENT,
                count > 0,
        ;
        (sum / count) as i64
    } else {
        FULL_PERCENT
    };
    PackingDiagnosticsSummary {
        max_imbalance_ratio: max_imbalance,
        worst_support_percent: worst,
        average_support_percent: average,
    }
}

} // verus!
