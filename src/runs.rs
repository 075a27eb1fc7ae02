//! Run records and the visualizations built from them.
//!
//! Every allocated run-id becomes a [`Run`] appended to one list for the whole
//! invocation. After each (tier, driver) pair the runs it added are drawn as
//! bars; at the end, the runs of each dataset across all tiers and drivers are
//! drawn as lines.
use vstd::prelude::*;
use crate::text::{decimal, push_char, push_decimal, push_signed, push_str, signed_decimal};

verus! {

/// One run: a dataset, an algorithm, a tier size and the run-id allocated
/// for it.
pub struct Run {
    pub dataset: String,
    pub algorithm: String,
    pub nodes: usize,
    pub run_id: i32,
}

pub struct RunView {
    pub dataset: Seq<char>,
    pub algorithm: Seq<char>,
    pub nodes: nat,
    pub run_id: i32,
}

impl View for Run {
    type V = RunView;

    open spec fn view(&self) -> RunView {
        RunView {
            dataset: self.dataset@,
            algorithm: self.algorithm@,
            nodes: self.nodes as nat,
            run_id: self.run_id,
        }
    }
}

/// The kind of chart a visualization draws.
#[derive(Clone, Copy, Debug, PartialEq, Eq, Structural)]
pub enum GraphType {
    /// One bar per algorithm: the runs of one (tier, driver) pair.
    Bars,
    /// One line per algorithm across tiers: the runs of one dataset.
    Lines,
}

impl GraphType {
    pub open spec fn spec_name(self) -> Seq<char> {
        match self {
            GraphType::Bars => seq!['b', 'a', 'r', 's'],
            GraphType::Lines => seq!['l', 'i', 'n', 'e', 's'],
        }
    }

    /// The name the visualization job expects.
    pub fn name(&self) -> (s: String)
        ensures
            s@ == self.spec_name(),
    {
        let mut s = String::new();
        match self {
            GraphType::Bars => {
                push_char(&mut s, 'b');
                push_char(&mut s, 'a');
                push_char(&mut s, 'r');
                push_char(&mut s, 's');
            },
            GraphType::Lines => {
                push_char(&mut s, 'l');
                push_char(&mut s, 'i');
                push_char(&mut s, 'n');
                push_char(&mut s, 'e');
                push_char(&mut s, 's');
            },
        }
        assert(s@ =~= self.spec_name());
        s
    }
}

/// A visualization job to submit: its name, the run-ids it draws and the
/// chart.
pub struct Visualization {
    pub job_name: String,
    pub run_ids: Vec<i32>,
    pub graph_type: GraphType,
}

/// The run-ids of `runs`, in order.
pub open spec fn ids_of(runs: Seq<RunView>) -> Seq<i32> {
    runs.map_values(|r: RunView| r.run_id)
}

/// The run-ids of the runs of `runs` on dataset `dataset`, in order.
pub open spec fn ids_for_dataset(runs: Seq<RunView>, dataset: Seq<char>) -> Seq<i32>
    decreases runs.len(),
{
    if runs.len() == 0 {
        Seq::empty()
    } else {
        let rest = ids_for_dataset(runs.drop_last(), dataset);
        if runs.last().dataset == dataset {
            rest.push(runs.last().run_id)
        } else {
            rest
        }
    }
}

pub open spec fn views(runs: Seq<Run>) -> Seq<RunView> {
    runs.map_values(|r: Run| r@)
}

/// The records of a batch: one for each pair of a run-id and an algorithm,
/// taken in step, all on `dataset` at tier size `nodes`.
pub open spec fn batch_records(run_ids: Seq<i32>, dataset: Seq<char>, algos: Seq<Seq<char>>, nodes: nat) -> Seq<RunView> {
    Seq::new(
        if run_ids.len() < algos.len() { run_ids.len() } else { algos.len() },
        |i: int| RunView { dataset, algorithm: algos[i], nodes, run_id: run_ids[i] },
    )
}

/// Appends to `runs` one record for each pair of a run-id and an algorithm,
/// taken in step, all on `dataset` at tier size `nodes`.
pub fn record_runs(runs: &mut Vec<Run>, run_ids: &Vec<i32>, dataset: &String, algos: &Vec<String>, nodes: usize)
    ensures
        views(final(runs)@) == views(old(runs)@) + batch_records(
            run_ids@,
            dataset@,
            algos@.map_values(|a: String| a@),
            nodes as nat,
        ),
{
    let ghost start = views(runs@);
    let ghost added = batch_records(run_ids@, dataset@, algos@.map_values(|a: String| a@), nodes as nat);
    let count = if run_ids.len() < algos.len() { run_ids.len() } else { algos.len() };
    let mut i: usize = 0;
    while i < count
        invariant
            count == added.len(),
            added == batch_records(run_ids@, dataset@, algos@.map_values(|a: String| a@), nodes as nat),
            i <= count,
            views(runs@) == start + added.take(i as int),
        decreases count - i,
    {
        let r = Run {
            dataset: dataset.clone(),
            algorithm: algos[i].clone(),
            nodes,
            run_id: run_ids[i],
        };
        let ghost before = runs@;
        runs.push(r);
        proof {
            assert(views(runs@) =~= views(before).push(added[i as int]));
            assert(added.take(i + 1) =~= added.take(i as int).push(added[i as int]));
        }
        i = i + 1;
    }
    assert(added.take(count as int) =~= added);
}

/// The run-ids of the runs from index `start` on: the runs one (tier,
/// driver) pair added.
pub fn run_ids_from(runs: &Vec<Run>, start: usize) -> (ids: Vec<i32>)
    requires
        start <= runs@.len(),
    ensures
        ids@ == ids_of(views(runs@).skip(start as int)),
{
    let mut ids: Vec<i32> = Vec::new();
    let mut i: usize = start;
    while i < runs.len()
        invariant
            start <= i <= runs@.len(),
            ids@ == ids_of(views(runs@).subrange(start as int, i as int)),
        decreases runs@.len() - i,
    {
        ids.push(runs[i].run_id);
        proof {
            assert(ids_of(views(runs@).subrange(start as int, i + 1)) =~= ids_of(
                views(runs@).subrange(start as int, i as int),
            ).push(runs@[i as int].run_id));
        }
        i = i + 1;
    }
    assert(views(runs@).subrange(start as int, runs@.len() as int) =~= views(runs@).skip(start as int));
    ids
}

/// The run-ids of the runs on dataset `dataset`, in order.
pub fn run_ids_for_dataset(runs: &Vec<Run>, dataset: &String) -> (ids: Vec<i32>)
    ensures
        ids@ == ids_for_dataset(views(runs@), dataset@),
{
    let mut ids: Vec<i32> = Vec::new();
    let mut i: usize = 0;
    while i < runs.len()
        invariant
            i <= runs@.len(),
            ids@ == ids_for_dataset(views(runs@).take(i as int), dataset@),
        decreases runs@.len() - i,
    {
        assert(views(runs@).take(i + 1).drop_last() =~= views(runs@).take(i as int));
        if runs[i].dataset == *dataset {
            ids.push(runs[i].run_id);
        }
        i = i + 1;
    }
    assert(views(runs@).take(runs@.len() as int) =~= views(runs@));
    ids
}

/// A run-id is selected for dataset `dataset` exactly when one of the runs
/// on that dataset has it.
pub proof fn lemma_dataset_selection(runs: Seq<RunView>, dataset: Seq<char>, id: i32)
    ensures
        ids_for_dataset(runs, dataset).contains(id) <==> exists|i: int|
            0 <= i < runs.len() && (#[trigger] runs[i]).dataset == dataset && runs[i].run_id == id,
    decreases runs.len(),
{
    if runs.len() > 0 {
        let prev = runs.drop_last();
        lemma_dataset_selection(prev, dataset, id);
        let rest = ids_for_dataset(prev, dataset);
        if exists|i: int| 0 <= i < runs.len() && (#[trigger] runs[i]).dataset == dataset && runs[i].run_id == id {
            let i = choose|i: int| 0 <= i < runs.len() && (#[trigger] runs[i]).dataset == dataset && runs[i].run_id == id;
            if i < runs.len() - 1 {
                assert(prev[i] == runs[i]);
                let k = choose|k: int| 0 <= k < rest.len() && rest[k] == id;
                if runs.last().dataset == dataset {
                    assert(rest.push(runs.last().run_id)[k] == id);
                }
            } else {
                assert(rest.push(runs.last().run_id)[rest.len() as int] == id);
            }
        }
        if ids_for_dataset(runs, dataset).contains(id) {
            let all = ids_for_dataset(runs, dataset);
            let k = choose|k: int| 0 <= k < all.len() && all[k] == id;
            if runs.last().dataset == dataset && k == rest.len() {
                assert(runs[runs.len() - 1].run_id == id);
            } else {
                assert(rest[k] == id);
                let i = choose|i: int| 0 <= i < prev.len() && (#[trigger] prev[i]).dataset == dataset && prev[i].run_id == id;
                assert(runs[i] == prev[i]);
            }
        }
    }
}

/// The text of a list of run-ids: their decimal writings, separated by commas.
pub open spec fn ids_text(ids: Seq<i32>) -> Seq<char>
    decreases ids.len(),
{
    if ids.len() == 0 {
        Seq::empty()
    } else if ids.len() == 1 {
        signed_decimal(ids[0] as int)
    } else {
        ids_text(ids.drop_last()) + seq![','] + signed_decimal(ids.last() as int)
    }
}

/// The text of a list of names, separated by commas.
pub open spec fn names_text(names: Seq<Seq<char>>) -> Seq<char>
    decreases names.len(),
{
    if names.len() == 0 {
        Seq::empty()
    } else if names.len() == 1 {
        names[0]
    } else {
        names_text(names.drop_last()) + seq![','] + names.last()
    }
}

/// The run-ids `ids` written out, separated by commas, as a run configuration
/// lists them.
pub fn join_ids(ids: &Vec<i32>) -> (s: String)
    ensures
        s@ == ids_text(ids@),
{
    let mut s = String::new();
    let mut i: usize = 0;
    while i < ids.len()
        invariant
            i <= ids@.len(),
            s@ == ids_text(ids@.take(i as int)),
        decreases ids@.len() - i,
    {
        assert(ids@.take(i + 1).drop_last() =~= ids@.take(i as int));
        if i > 0 {
            push_char(&mut s, ',');
        }
        push_signed(&mut s, ids[i]);
        proof {
            if i == 0 {
                assert(s@ =~= ids_text(ids@.take(1)));
            } else {
                assert(s@ =~= ids_text(ids@.take(i + 1)));
            }
        }
        i = i + 1;
    }
    assert(ids@.take(ids@.len() as int) =~= ids@);
    s
}

/// The names `names` separated by commas, as a run configuration lists its
/// algorithms.
pub fn join_names(names: &Vec<String>) -> (s: String)
    ensures
        s@ == names_text(names@.map_values(|n: String| n@)),
{
    let ghost all = names@.map_values(|n: String| n@);
    let mut s = String::new();
    let mut i: usize = 0;
    while i < names.len()
        invariant
            all == names@.map_values(|n: String| n@),
            i <= names@.len(),
            s@ == names_text(all.take(i as int)),
        decreases names@.len() - i,
    {
        assert(all.take(i + 1).drop_last() =~= all.take(i as int));
        if i > 0 {
            push_char(&mut s, ',');
        }
        push_str(&mut s, names[i].as_str());
        proof {
            if i == 0 {
                assert(s@ =~= names_text(all.take(1)));
            } else {
                assert(s@ =~= names_text(all.take(i + 1)));
            }
        }
        i = i + 1;
    }
    assert(all.take(names@.len() as int) =~= all);
    s
}

/// The name of the visualization of a (tier, driver) pair: the driver's name,
/// a dash and the tier size.
pub open spec fn tier_job_name(driver: Seq<char>, nodes: nat) -> Seq<char> {
    driver + seq!['-'] + decimal(nodes)
}

/// The visualization of the runs that the (tier, driver) pair added, from
/// index `start` on: bars, named after the driver and the tier size.
pub fn tier_visualization(runs: &Vec<Run>, start: usize, driver: &str, nodes: usize) -> (v: Visualization)
    requires
        start <= runs@.len(),
    ensures
        v.job_name@ == tier_job_name(driver@, nodes as nat),
        v.run_ids@ == ids_of(views(runs@).skip(start as int)),
        v.graph_type == GraphType::Bars,
{
    let mut job_name = String::new();
    push_str(&mut job_name, driver);
    push_char(&mut job_name, '-');
    push_decimal(&mut job_name, nodes as u64);
    Visualization { job_name, run_ids: run_ids_from(runs, start), graph_type: GraphType::Bars }
}

/// A character that a job name may hold: a lower-case ASCII letter, a digit or
/// a dash.
pub open spec fn job_name_char(c: char) -> bool {
    ('a' <= c && c <= 'z') || ('0' <= c && c <= '9') || c == '-'
}

/// `s` without its first character that a job name may not hold, if it has
/// one.
pub open spec fn drop_first_bad_char(s: Seq<char>) -> Seq<char>
    decreases s.len(),
{
    if s.len() == 0 {
        s
    } else if !job_name_char(s[0]) {
        s.drop_first()
    } else {
        seq![s[0]] + drop_first_bad_char(s.drop_first())
    }
}

/// Relies on `regex::Regex::new` compiling `pattern`, a valid character
/// class far below the size limit, which it fails only for an invalid or
/// over-size pattern; and on `Regex::replace` replacing the leftmost match,
/// and only that one, by the empty string.
#[verifier::external_body]
fn replace_first_match(pattern: &str, s: &str) -> (r: Option<String>)
    requires
        pattern@ == seq!['[', '^', 'a', '-', 'z', '0', '-', '9', '-', ']'],
    ensures
        r is Some,
        r matches Some(t) ==> t@ == drop_first_bad_char(s@),
{
    regex::Regex::new(pattern).ok().map(|re| re.replace(s, "").into_owned())
}

/// The name of the visualization job of dataset `dataset`: the dataset's name
/// without its first character that a job name may not hold.
pub fn dataset_job_name(dataset: &str) -> (r: String)
    ensures
        r@ == drop_first_bad_char(dataset@),
{
    let pattern = "[^a-z0-9-]";
    proof {
        reveal_strlit("[^a-z0-9-]");
    }
    assert(pattern@ =~= seq!['[', '^', 'a', '-', 'z', '0', '-', '9', '-', ']']);
    match replace_first_match(pattern, dataset) {
        Some(t) => t,
        None => String::new(),
    }
}

/// One visualization per dataset, in the order of `datasets`: lines, over the
/// runs on that dataset across every tier and driver.
pub fn dataset_visualizations(runs: &Vec<Run>, datasets: &Vec<String>) -> (vs: Vec<Visualization>)
    ensures
        vs@.len() == datasets@.len(),
        forall|i: int|
            0 <= i < vs@.len() ==> {
                &&& (#[trigger] vs@[i]).job_name@ == drop_first_bad_char(datasets@[i]@)
                &&& vs@[i].run_ids@ == ids_for_dataset(views(runs@), datasets@[i]@)
                &&& vs@[i].graph_type == GraphType::Lines
            },
{
    let mut vs: Vec<Visualization> = Vec::new();
    let mut i: usize = 0;
    while i < datasets.len()
        invariant
            i <= datasets@.len(),
            vs@.len() == i,
            forall|k: int|
                0 <= k < i ==> {
                    &&& (#[trigger] vs@[k]).job_name@ == drop_first_bad_char(datasets@[k]@)
                    &&& vs@[k].run_ids@ == ids_for_dataset(views(runs@), datasets@[k]@)
                    &&& vs@[k].graph_type == GraphType::Lines
                },
        decreases datasets@.len() - i,
    {
        let job_name = dataset_job_name(datasets[i].as_str());
        let run_ids = run_ids_for_dataset(runs, &datasets[i]);
        vs.push(Visualization { job_name, run_ids, graph_type: GraphType::Lines });
        i = i + 1;
    }
    vs
}

} // verus!
