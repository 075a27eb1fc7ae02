//! The order in which an invocation visits the benchmark matrix.
//!
//! For each tier, largest first: shrink the cluster to it; then for each
//! driver: set the driver up, run one batch per dataset and repetition (a
//! batch runs every algorithm in one unit of work), draw that driver's runs at
//! this tier, and remove the driver. When every tier is done, draw the runs of
//! each dataset.
use vstd::prelude::*;
use crate::tiers::non_increasing;

verus! {

/// One step of an invocation. Drivers and datasets are given by their index
/// in the configuration.
#[derive(Clone, Copy, Debug, PartialEq, Eq, Structural)]
pub enum Step {
    /// Shrink the cluster to this many worker nodes.
    ScaleCluster(usize),
    /// Scale and install the driver for the tier, and wait until it is ready.
    SetUpDriver { driver: usize, nodes: usize },
    /// Allocate run-ids for every algorithm, launch one unit of work on the
    /// dataset and follow its runs.
    RunBatch { driver: usize, dataset: usize, nodes: usize },
    /// Draw the runs that this (tier, driver) pair added.
    VisualizeTier { driver: usize, nodes: usize },
    /// Remove the driver from the cluster.
    RemoveDriver { driver: usize, nodes: usize },
    /// Draw the runs of each dataset across every tier and driver.
    VisualizeDatasets,
}

/// The batches of driver `d` at tier `n` on the first `datasets` datasets.
pub open spec fn batches(d: usize, n: usize, datasets: nat, repeat: nat) -> Seq<Step>
    decreases datasets,
{
    if datasets == 0 {
        Seq::empty()
    } else {
        batches(d, n, (datasets - 1) as nat, repeat) + Seq::new(
            repeat,
            |k: int| Step::RunBatch { driver: d, dataset: (datasets - 1) as usize, nodes: n },
        )
    }
}

/// The steps of driver `d` at tier `n`.
pub open spec fn driver_steps(d: usize, n: usize, datasets: nat, repeat: nat) -> Seq<Step> {
    seq![Step::SetUpDriver { driver: d, nodes: n }] + batches(d, n, datasets, repeat) + seq![
        Step::VisualizeTier { driver: d, nodes: n },
        Step::RemoveDriver { driver: d, nodes: n },
    ]
}

/// The steps of the first `drivers` drivers at tier `n`.
pub open spec fn drivers_steps(n: usize, drivers: nat, datasets: nat, repeat: nat) -> Seq<Step>
    decreases drivers,
{
    if drivers == 0 {
        Seq::empty()
    } else {
        drivers_steps(n, (drivers - 1) as nat, datasets, repeat) + driver_steps(
            (drivers - 1) as usize,
            n,
            datasets,
            repeat,
        )
    }
}

/// The steps of the tiers `tiers`, in order.
pub open spec fn tiers_steps(tiers: Seq<usize>, drivers: nat, datasets: nat, repeat: nat) -> Seq<Step>
    decreases tiers.len(),
{
    if tiers.len() == 0 {
        Seq::empty()
    } else {
        tiers_steps(tiers.drop_last(), drivers, datasets, repeat) + seq![Step::ScaleCluster(tiers.last())]
            + drivers_steps(tiers.last(), drivers, datasets, repeat)
    }
}

/// The whole invocation.
pub open spec fn plan_of(tiers: Seq<usize>, drivers: nat, datasets: nat, repeat: nat) -> Seq<Step> {
    tiers_steps(tiers, drivers, datasets, repeat) + seq![Step::VisualizeDatasets]
}

/// The sizes the cluster is shrunk to, in order, along `steps`.
pub open spec fn scale_targets(steps: Seq<Step>) -> Seq<usize>
    decreases steps.len(),
{
    if steps.len() == 0 {
        Seq::empty()
    } else {
        match steps.last() {
            Step::ScaleCluster(n) => scale_targets(steps.drop_last()).push(n),
            _ => scale_targets(steps.drop_last()),
        }
    }
}

proof fn lemma_scale_targets_concat(a: Seq<Step>, b: Seq<Step>)
    ensures
        scale_targets(a + b) == scale_targets(a) + scale_targets(b),
    decreases b.len(),
{
    if b.len() == 0 {
        assert(a + b =~= a);
        assert(scale_targets(a) + scale_targets(b) =~= scale_targets(a));
    } else {
        lemma_scale_targets_concat(a, b.drop_last());
        assert((a + b).drop_last() =~= a + b.drop_last());
        match b.last() {
            Step::ScaleCluster(n) => {
                assert(scale_targets(a) + scale_targets(b) =~= (scale_targets(a) + scale_targets(
                    b.drop_last(),
                )).push(n));
            },
            _ => {},
        }
    }
}

proof fn lemma_no_scaling_in_batches(d: usize, n: usize, datasets: nat, repeat: nat)
    ensures
        scale_targets(batches(d, n, datasets, repeat)) == Seq::<usize>::empty(),
    decreases datasets,
{
    if datasets > 0 {
        lemma_no_scaling_in_batches(d, n, (datasets - 1) as nat, repeat);
        let s = Seq::new(repeat, |k: int| Step::RunBatch { driver: d, dataset: (datasets - 1) as usize, nodes: n });
        lemma_no_scaling_in_run(s);
        lemma_scale_targets_concat(batches(d, n, (datasets - 1) as nat, repeat), s);
        assert(Seq::<usize>::empty() + Seq::<usize>::empty() =~= Seq::<usize>::empty());
    }
}

proof fn lemma_no_scaling_in_run(s: Seq<Step>)
    requires
        forall|i: int| 0 <= i < s.len() ==> !(#[trigger] s[i] is ScaleCluster),
    ensures
        scale_targets(s) == Seq::<usize>::empty(),
    decreases s.len(),
{
    if s.len() > 0 {
        lemma_no_scaling_in_run(s.drop_last());
        assert(!(s[s.len() - 1] is ScaleCluster));
    }
}

proof fn lemma_no_scaling_in_drivers(n: usize, drivers: nat, datasets: nat, repeat: nat)
    ensures
        scale_targets(drivers_steps(n, drivers, datasets, repeat)) == Seq::<usize>::empty(),
    decreases drivers,
{
    if drivers > 0 {
        let d = (drivers - 1) as usize;
        lemma_no_scaling_in_drivers(n, (drivers - 1) as nat, datasets, repeat);
        let head = seq![Step::SetUpDriver { driver: d, nodes: n }];
        let tail = seq![Step::VisualizeTier { driver: d, nodes: n }, Step::RemoveDriver { driver: d, nodes: n }];
        let mid = batches(d, n, datasets, repeat);
        lemma_no_scaling_in_batches(d, n, datasets, repeat);
        lemma_no_scaling_in_run(head);
        lemma_no_scaling_in_run(tail);
        lemma_scale_targets_concat(head, mid);
        lemma_scale_targets_concat(head + mid, tail);
        lemma_scale_targets_concat(drivers_steps(n, (drivers - 1) as nat, datasets, repeat), driver_steps(d, n, datasets, repeat));
        assert(Seq::<usize>::empty() + Seq::<usize>::empty() =~= Seq::<usize>::empty());
    }
}

/// Along an invocation the cluster is shrunk to the tiers, one after the
/// other in the order given; so, the tiers being sorted from the largest
/// down, the sizes asked of the scaler never grow.
pub proof fn lemma_scale_targets_are_tiers(tiers: Seq<usize>, drivers: nat, datasets: nat, repeat: nat)
    ensures
        scale_targets(plan_of(tiers, drivers, datasets, repeat)) == tiers,
        non_increasing(tiers) ==> non_increasing(scale_targets(plan_of(tiers, drivers, datasets, repeat))),
    decreases tiers.len(),
{
    lemma_tiers_targets(tiers, drivers, datasets, repeat);
    lemma_scale_targets_concat(tiers_steps(tiers, drivers, datasets, repeat), seq![Step::VisualizeDatasets]);
    lemma_no_scaling_in_run(seq![Step::VisualizeDatasets]);
    assert(tiers + Seq::<usize>::empty() =~= tiers);
}

proof fn lemma_tiers_targets(tiers: Seq<usize>, drivers: nat, datasets: nat, repeat: nat)
    ensures
        scale_targets(tiers_steps(tiers, drivers, datasets, repeat)) == tiers,
    decreases tiers.len(),
{
    if tiers.len() == 0 {
        assert(scale_targets(Seq::<Step>::empty()) == Seq::<usize>::empty());
        assert(tiers =~= Seq::<usize>::empty());
    } else {
        let prev = tiers_steps(tiers.drop_last(), drivers, datasets, repeat);
        let scale = seq![Step::ScaleCluster(tiers.last())];
        let rest = drivers_steps(tiers.last(), drivers, datasets, repeat);
        lemma_tiers_targets(tiers.drop_last(), drivers, datasets, repeat);
        lemma_no_scaling_in_drivers(tiers.last(), drivers, datasets, repeat);
        lemma_scale_targets_concat(prev, scale);
        lemma_scale_targets_concat(prev + scale, rest);
        assert(scale.drop_last() =~= Seq::<Step>::empty());
        assert(scale_targets(Seq::<Step>::empty()) =~= Seq::<usize>::empty());
        assert(scale.last() == Step::ScaleCluster(tiers.last()));
        assert(scale_targets(scale) =~= seq![tiers.last()]);
        assert(tiers.drop_last() + seq![tiers.last()] + Seq::<usize>::empty() =~= tiers);
    }
}

/// How many batches, per-tier visualizations and per-dataset visualizations
/// `steps` hold.
pub open spec fn step_counts(steps: Seq<Step>) -> (nat, nat, nat)
    decreases steps.len(),
{
    if steps.len() == 0 {
        (0, 0, 0)
    } else {
        let (b, t, d) = step_counts(steps.drop_last());
        match steps.last() {
            Step::RunBatch { .. } => (b + 1, t, d),
            Step::VisualizeTier { .. } => (b, t + 1, d),
            Step::VisualizeDatasets => (b, t, d + 1),
            _ => (b, t, d),
        }
    }
}

pub open spec fn add_counts(x: (nat, nat, nat), y: (nat, nat, nat)) -> (nat, nat, nat) {
    (x.0 + y.0, x.1 + y.1, x.2 + y.2)
}

proof fn lemma_counts_concat(a: Seq<Step>, b: Seq<Step>)
    ensures
        step_counts(a + b) == add_counts(step_counts(a), step_counts(b)),
    decreases b.len(),
{
    if b.len() == 0 {
        assert(a + b =~= a);
    } else {
        lemma_counts_concat(a, b.drop_last());
        assert((a + b).drop_last() =~= a + b.drop_last());
    }
}

proof fn lemma_counts_repeat(d: usize, s: usize, n: usize, r: nat)
    ensures
        step_counts(Seq::new(r, |k: int| Step::RunBatch { driver: d, dataset: s, nodes: n })) == (r, 0nat, 0nat),
    decreases r,
{
    if r > 0 {
        lemma_counts_repeat(d, s, n, (r - 1) as nat);
        assert(Seq::new(r, |k: int| Step::RunBatch { driver: d, dataset: s, nodes: n }).drop_last() =~= Seq::new(
            (r - 1) as nat,
            |k: int| Step::RunBatch { driver: d, dataset: s, nodes: n },
        ));
    }
}

proof fn lemma_counts_batches(d: usize, n: usize, datasets: nat, repeat: nat)
    ensures
        step_counts(batches(d, n, datasets, repeat)) == (datasets * repeat, 0nat, 0nat),
    decreases datasets,
{
    if datasets > 0 {
        lemma_counts_batches(d, n, (datasets - 1) as nat, repeat);
        lemma_counts_repeat(d, (datasets - 1) as usize, n, repeat);
        lemma_counts_concat(
            batches(d, n, (datasets - 1) as nat, repeat),
            Seq::new(repeat, |k: int| Step::RunBatch { driver: d, dataset: (datasets - 1) as usize, nodes: n }),
        );
        assert((datasets - 1) * repeat + repeat == datasets * repeat) by (nonlinear_arith);
    } else {
        assert(datasets * repeat == 0) by (nonlinear_arith)
            requires
                datasets == 0,
        ;
    }
}

proof fn lemma_counts_drivers(n: usize, drivers: nat, datasets: nat, repeat: nat)
    ensures
        step_counts(drivers_steps(n, drivers, datasets, repeat)) == (drivers * (datasets * repeat), drivers, 0nat),
    decreases drivers,
{
    if drivers > 0 {
        let d = (drivers - 1) as usize;
        lemma_counts_drivers(n, (drivers - 1) as nat, datasets, repeat);
        let head = seq![Step::SetUpDriver { driver: d, nodes: n }];
        let mid = batches(d, n, datasets, repeat);
        let tail = seq![Step::VisualizeTier { driver: d, nodes: n }, Step::RemoveDriver { driver: d, nodes: n }];
        lemma_counts_batches(d, n, datasets, repeat);
        assert(head.drop_last() =~= Seq::<Step>::empty());
        assert(tail.drop_last() =~= seq![Step::VisualizeTier { driver: d, nodes: n }]);
        assert(tail.drop_last().drop_last() =~= Seq::<Step>::empty());
        assert(step_counts(Seq::<Step>::empty()) == (0nat, 0nat, 0nat));
        assert(step_counts(head) == (0nat, 0nat, 0nat));
        assert(step_counts(tail.drop_last()) == (0nat, 1nat, 0nat));
        assert(step_counts(tail) == (0nat, 1nat, 0nat));
        lemma_counts_concat(head, mid);
        lemma_counts_concat(head + mid, tail);
        lemma_counts_concat(drivers_steps(n, (drivers - 1) as nat, datasets, repeat), driver_steps(d, n, datasets, repeat));
        let k = datasets * repeat;
        assert((drivers - 1) * k + k == drivers * k) by (nonlinear_arith);
    } else {
        assert(drivers * (datasets * repeat) == 0) by (nonlinear_arith)
            requires
                drivers == 0,
        ;
    }
}

proof fn lemma_counts_tiers(tiers: Seq<usize>, drivers: nat, datasets: nat, repeat: nat)
    ensures
        step_counts(tiers_steps(tiers, drivers, datasets, repeat)) == (
            tiers.len() * (drivers * (datasets * repeat)),
            tiers.len() * drivers,
            0nat,
        ),
    decreases tiers.len(),
{
    if tiers.len() > 0 {
        let prev = tiers_steps(tiers.drop_last(), drivers, datasets, repeat);
        let scale = seq![Step::ScaleCluster(tiers.last())];
        let rest = drivers_steps(tiers.last(), drivers, datasets, repeat);
        lemma_counts_tiers(tiers.drop_last(), drivers, datasets, repeat);
        lemma_counts_drivers(tiers.last(), drivers, datasets, repeat);
        assert(scale.drop_last() =~= Seq::<Step>::empty());
        assert(step_counts(Seq::<Step>::empty()) == (0nat, 0nat, 0nat));
        assert(step_counts(scale) == (0nat, 0nat, 0nat));
        lemma_counts_concat(prev, scale);
        lemma_counts_concat(prev + scale, rest);
        let t = tiers.len() as int;
        let k = drivers * (datasets * repeat);
        assert((t - 1) * k + k == t * k) by (nonlinear_arith);
        assert((t - 1) * drivers + drivers == t * drivers) by (nonlinear_arith);
    } else {
        let t = tiers.len() as int;
        assert(t * (drivers * (datasets * repeat)) == 0 && t * drivers == 0) by (nonlinear_arith)
            requires
                t == 0,
        ;
    }
}

/// An invocation over `tiers` with `drivers` drivers, `datasets` datasets and
/// `repeat` repetitions runs one batch per tier, driver, dataset and
/// repetition, draws one per-tier visualization per tier and driver, and
/// ends with the one per-dataset visualization step.
pub proof fn lemma_plan_counts(tiers: Seq<usize>, drivers: nat, datasets: nat, repeat: nat)
    ensures
        step_counts(plan_of(tiers, drivers, datasets, repeat)) == (
            tiers.len() * (drivers * (datasets * repeat)),
            tiers.len() * drivers,
            1nat,
        ),
        plan_of(tiers, drivers, datasets, repeat).last() == Step::VisualizeDatasets,
{
    let last = seq![Step::VisualizeDatasets];
    lemma_counts_tiers(tiers, drivers, datasets, repeat);
    assert(last.drop_last() =~= Seq::<Step>::empty());
    assert(step_counts(Seq::<Step>::empty()) == (0nat, 0nat, 0nat));
    assert(step_counts(last) == (0nat, 0nat, 1nat));
    lemma_counts_concat(tiers_steps(tiers, drivers, datasets, repeat), last);
}

fn push_batches(steps: &mut Vec<Step>, d: usize, n: usize, datasets: usize, repeat: usize)
    ensures
        final(steps)@ == old(steps)@ + batches(d, n, datasets as nat, repeat as nat),
{
    let ghost start = steps@;
    let mut s: usize = 0;
    while s < datasets
        invariant
            s <= datasets,
            steps@ == start + batches(d, n, s as nat, repeat as nat),
        decreases datasets - s,
    {
        let ghost before = steps@;
        let mut r: usize = 0;
        while r < repeat
            invariant
                r <= repeat,
                steps@ == before + Seq::new(r as nat, |k: int| Step::RunBatch { driver: d, dataset: s, nodes: n }),
            decreases repeat - r,
        {
            steps.push(Step::RunBatch { driver: d, dataset: s, nodes: n });
            r = r + 1;
            assert(steps@ =~= before + Seq::new(r as nat, |k: int| Step::RunBatch { driver: d, dataset: s, nodes: n }));
        }
        assert(steps@ =~= start + batches(d, n, (s + 1) as nat, repeat as nat));
        s = s + 1;
    }
}

/// The steps of an invocation over the tiers `tiers`, in the order given,
/// with `drivers` drivers, `datasets` datasets and `repeat` repetitions.
pub fn benchmark_plan(tiers: &Vec<usize>, drivers: usize, datasets: usize, repeat: usize) -> (steps: Vec<Step>)
    ensures
        steps@ == plan_of(tiers@, drivers as nat, datasets as nat, repeat as nat),
{
    let mut steps: Vec<Step> = Vec::new();
    let mut t: usize = 0;
    while t < tiers.len()
        invariant
            t <= tiers@.len(),
            steps@ == tiers_steps(tiers@.take(t as int), drivers as nat, datasets as nat, repeat as nat),
        decreases tiers@.len() - t,
    {
        let n = tiers[t];
        let ghost before = steps@;
        steps.push(Step::ScaleCluster(n));
        let mut d: usize = 0;
        while d < drivers
            invariant
                d <= drivers,
                steps@ == before + seq![Step::ScaleCluster(n)] + drivers_steps(n, d as nat, datasets as nat, repeat as nat),
            decreases drivers - d,
        {
            let ghost mid = steps@;
            steps.push(Step::SetUpDriver { driver: d, nodes: n });
            push_batches(&mut steps, d, n, datasets, repeat);
            steps.push(Step::VisualizeTier { driver: d, nodes: n });
            steps.push(Step::RemoveDriver { driver: d, nodes: n });
            assert(steps@ =~= mid + driver_steps(d, n, datasets as nat, repeat as nat));
            assert(steps@ =~= before + seq![Step::ScaleCluster(n)] + drivers_steps(n, (d + 1) as nat, datasets as nat, repeat as nat));
            d = d + 1;
        }
        assert(tiers@.take(t + 1).drop_last() =~= tiers@.take(t as int));
        assert(steps@ =~= tiers_steps(tiers@.take(t + 1), drivers as nat, datasets as nat, repeat as nat));
        t = t + 1;
    }
    assert(tiers@.take(tiers@.len() as int) =~= tiers@);
    steps.push(Step::VisualizeDatasets);
    steps
}

} // verus!
