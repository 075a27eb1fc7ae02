//! How a driver's settings documents change for a tier.
//!
//! Scaling a driver sets values at dotted paths of its settings document: the
//! tier's size, the resources that the configured options name, and, for
//! Neo4j, the shared-storage server. The edits depend on their inputs alone,
//! and applying them twice leaves the document as applying them once does,
//! so rescaling to the same tier changes nothing more.
use vstd::prelude::*;
use crate::drivers::{Driver, Neo4j};
use crate::text::{decimal, push_decimal, push_str};

verus! {

/// The value an edit sets.
pub enum EditValue {
    /// The value of the configured option of this name.
    FromOption(String),
    /// A count.
    Count(usize),
    /// A text.
    Text(String),
}

pub enum EditView {
    FromOption(Seq<char>),
    Count(nat),
    Text(Seq<char>),
}

impl View for EditValue {
    type V = EditView;

    open spec fn view(&self) -> EditView {
        match self {
            EditValue::FromOption(k) => EditView::FromOption(k@),
            EditValue::Count(n) => EditView::Count(*n as nat),
            EditValue::Text(t) => EditView::Text(t@),
        }
    }
}

/// Set the value at the dotted path `path`.
pub struct Edit {
    pub path: String,
    pub value: EditValue,
}

pub open spec fn edit_views(edits: Seq<Edit>) -> Seq<(Seq<char>, EditView)> {
    edits.map_values(|e: Edit| (e.path@, e.value@))
}

pub open spec fn keys_of(keys: Seq<String>) -> Seq<Seq<char>> {
    keys.map_values(|k: String| k@)
}

/// The edit setting `path` to option `key`, when that option is configured.
pub open spec fn option_edit(keys: Seq<Seq<char>>, key: Seq<char>, path: Seq<char>) -> Seq<(Seq<char>, EditView)> {
    if keys.contains(key) {
        seq![(path, EditView::FromOption(key))]
    } else {
        Seq::empty()
    }
}

/// GraphScope: the number of workers, then cpu and memory, where configured,
/// as both request and limit of both engines.
pub open spec fn graphscope_edits(nodes: nat, keys: Seq<Seq<char>>) -> Seq<(Seq<char>, EditView)> {
    seq![("engines.num_workers"@, EditView::Count(nodes))]
        + option_edit(keys, "cpu"@, "engines.gae.resources.requests.cpu"@)
        + option_edit(keys, "cpu"@, "engines.gae.resources.limits.cpu"@)
        + option_edit(keys, "cpu"@, "engines.gie.resources.requests.cpu"@)
        + option_edit(keys, "cpu"@, "engines.gie.resources.limits.cpu"@)
        + option_edit(keys, "memory"@, "engines.gae.resources.requests.memory"@)
        + option_edit(keys, "memory"@, "engines.gae.resources.limits.memory"@)
        + option_edit(keys, "memory"@, "engines.gie.resources.requests.memory"@)
        + option_edit(keys, "memory"@, "engines.gie.resources.limits.memory"@)
}

/// Neo4j: cpu, memory and storage where configured, the shared-storage
/// server of the import volume, and the cluster size, which is the number of
/// instances.
pub open spec fn neo4j_edits(nodes: nat, keys: Seq<Seq<char>>, nfs_ip: Seq<char>) -> Seq<(Seq<char>, EditView)> {
    option_edit(keys, "cpu"@, "neo4j.resources.cpu"@)
        + option_edit(keys, "memory"@, "neo4j.resources.memory"@)
        + option_edit(keys, "storage"@, "volumes.data.dynamic.requests.storage"@)
        + seq![
            ("volumes.import.volumeClaimTemplate.nfs.server"@, EditView::Text(nfs_ip)),
            ("neo4j.minimumClusterSize"@, EditView::Count(Neo4j::spec_instances(nodes))),
        ]
}

pub open spec fn spec_settings_edits(driver: Driver, nodes: nat, keys: Seq<Seq<char>>, nfs_ip: Seq<char>) -> Seq<(Seq<char>, EditView)> {
    match driver {
        Driver::Graphscope => graphscope_edits(nodes, keys),
        Driver::Neo4j => neo4j_edits(nodes, keys, nfs_ip),
    }
}

fn text_of(t: &str) -> (s: String)
    ensures
        s@ == t@,
{
    let mut s = String::new();
    push_str(&mut s, t);
    assert(s@ =~= t@);
    s
}

/// `key` is one of `keys`.
pub fn has_key(keys: &Vec<String>, key: &str) -> (r: bool)
    ensures
        r == keys_of(keys@).contains(key@),
{
    let k = text_of(key);
    let mut i: usize = 0;
    while i < keys.len()
        invariant
            i <= keys@.len(),
            k@ == key@,
            forall|j: int| 0 <= j < i ==> keys@[j]@ != key@,
        decreases keys@.len() - i,
    {
        if keys[i] == k {
            assert(keys_of(keys@)[i as int] == key@);
            return true;
        }
        i = i + 1;
    }
    assert forall|j: int| 0 <= j < keys_of(keys@).len() implies keys_of(keys@)[j] != key@ by {
        assert(keys_of(keys@)[j] == keys@[j]@);
    }
    false
}

fn push_option_edit(edits: &mut Vec<Edit>, keys: &Vec<String>, key: &str, path: &str)
    ensures
        edit_views(final(edits)@) == edit_views(old(edits)@) + option_edit(keys_of(keys@), key@, path@),
{
    let ghost before = edits@;
    if has_key(keys, key) {
        edits.push(Edit { path: text_of(path), value: EditValue::FromOption(text_of(key)) });
        assert(edit_views(edits@) =~= edit_views(before) + option_edit(keys_of(keys@), key@, path@));
    } else {
        assert(edit_views(edits@) =~= edit_views(before) + option_edit(keys_of(keys@), key@, path@));
    }
}

/// The edits of `driver`'s settings for a tier of `nodes` nodes, where the
/// options `option_keys` are configured and the shared storage is served at
/// `nfs_ip`.
pub fn settings_edits(driver: Driver, nodes: usize, option_keys: &Vec<String>, nfs_ip: &str) -> (e: Vec<Edit>)
    ensures
        edit_views(e@) == spec_settings_edits(driver, nodes as nat, keys_of(option_keys@), nfs_ip@),
{
    let ghost keys = keys_of(option_keys@);
    let mut e: Vec<Edit> = Vec::new();
    match driver {
        Driver::Graphscope => {
            e.push(Edit { path: text_of("engines.num_workers"), value: EditValue::Count(nodes) });
            assert(edit_views(e@) =~= seq![("engines.num_workers"@, EditView::Count(nodes as nat))]);
            push_option_edit(&mut e, option_keys, "cpu", "engines.gae.resources.requests.cpu");
            push_option_edit(&mut e, option_keys, "cpu", "engines.gae.resources.limits.cpu");
            push_option_edit(&mut e, option_keys, "cpu", "engines.gie.resources.requests.cpu");
            push_option_edit(&mut e, option_keys, "cpu", "engines.gie.resources.limits.cpu");
            push_option_edit(&mut e, option_keys, "memory", "engines.gae.resources.requests.memory");
            push_option_edit(&mut e, option_keys, "memory", "engines.gae.resources.limits.memory");
            push_option_edit(&mut e, option_keys, "memory", "engines.gie.resources.requests.memory");
            push_option_edit(&mut e, option_keys, "memory", "engines.gie.resources.limits.memory");
        },
        Driver::Neo4j => {
            assert(edit_views(e@) =~= Seq::<(Seq<char>, EditView)>::empty());
            push_option_edit(&mut e, option_keys, "cpu", "neo4j.resources.cpu");
            push_option_edit(&mut e, option_keys, "memory", "neo4j.resources.memory");
            push_option_edit(&mut e, option_keys, "storage", "volumes.data.dynamic.requests.storage");
            let ghost before = e@;
            e.push(Edit { path: text_of("volumes.import.volumeClaimTemplate.nfs.server"), value: EditValue::Text(text_of(nfs_ip)) });
            e.push(Edit { path: text_of("neo4j.minimumClusterSize"), value: EditValue::Count(Neo4j::instances(nodes)) });
            assert(edit_views(e@) =~= edit_views(before) + seq![
                ("volumes.import.volumeClaimTemplate.nfs.server"@, EditView::Text(nfs_ip@)),
                ("neo4j.minimumClusterSize"@, EditView::Count(Neo4j::spec_instances(nodes as nat))),
            ]);
        },
    }
    assert(edit_views(e@) =~= spec_settings_edits(driver, nodes as nat, keys, nfs_ip@));
    e
}

/// The edits of Neo4j's import volume: its shared-storage server.
pub fn import_volume_edits(nfs_ip: &str) -> (e: Vec<Edit>)
    ensures
        edit_views(e@) == seq![("spec.nfs.server"@, EditView::Text(nfs_ip@))],
{
    let mut e: Vec<Edit> = Vec::new();
    e.push(Edit { path: text_of("spec.nfs.server"), value: EditValue::Text(text_of(nfs_ip)) });
    assert(edit_views(e@) =~= seq![("spec.nfs.server"@, EditView::Text(nfs_ip@))]);
    e
}

/// One settings file of a Neo4j instance: its name under the driver's
/// directory, and the dotted path of an entry left out of it, if any.
pub struct ValuesFile {
    pub name: String,
    pub without: Option<String>,
}

pub open spec fn values_file_name(i: nat) -> Seq<char> {
    "tmp/values-"@ + decimal(i) + ".yaml"@
}

/// The settings files of the Neo4j instances at a tier of `nodes` nodes: one
/// per instance, numbered from 1; the first keeps the import volume, the
/// others leave out `volumes.import`.
pub fn neo4j_values_files(nodes: usize) -> (files: Vec<ValuesFile>)
    ensures
        files@.len() == Neo4j::spec_instances(nodes as nat),
        forall|i: int|
            0 <= i < files@.len() ==> {
                &&& (#[trigger] files@[i]).name@ == values_file_name((i + 1) as nat)
                &&& (i == 0 ==> files@[i].without is None)
                &&& (i > 0 ==> (files@[i].without matches Some(p) && p@ == "volumes.import"@))
            },
{
    let n = Neo4j::instances(nodes);
    let mut files: Vec<ValuesFile> = Vec::new();
    let mut i: usize = 0;
    while i < n
        invariant
            n == Neo4j::spec_instances(nodes as nat),
            i <= n,
            files@.len() == i,
            forall|k: int|
                0 <= k < i ==> {
                    &&& (#[trigger] files@[k]).name@ == values_file_name((k + 1) as nat)
                    &&& (k == 0 ==> files@[k].without is None)
                    &&& (k > 0 ==> (files@[k].without matches Some(p) && p@ == "volumes.import"@))
                },
        decreases n - i,
    {
        let mut name = text_of("tmp/values-");
        push_decimal(&mut name, (i + 1) as u64);
        push_str(&mut name, ".yaml");
        assert(name@ =~= values_file_name((i + 1) as nat));
        let without = if i == 0 { None } else { Some(text_of("volumes.import")) };
        files.push(ValuesFile { name, without });
        i = i + 1;
    }
    files
}

/// What scaling a driver to a tier does to its settings: the edits applied to
/// its `values.yaml`, the files the edited document is written to (each
/// leaving out the entry `without`, if any), and the extra parameters of the
/// driver's set-up.
pub struct ScalePlan {
    pub edits: Vec<Edit>,
    pub targets: Vec<ValuesFile>,
    pub extra_vars: Vec<String>,
}

/// `s` with every occurrence of `from`, taken from the left without overlap,
/// replaced by `to`.
pub open spec fn replaced(s: Seq<char>, from: Seq<char>, to: Seq<char>) -> Seq<char>
    decreases s.len(),
{
    if from.len() == 0 || s.len() < from.len() {
        s
    } else if s.take(from.len() as int) == from {
        to + replaced(s.skip(from.len() as int), from, to)
    } else {
        seq![s[0]] + replaced(s.drop_first(), from, to)
    }
}

/// Relies on std's `str::replace`: every match of `from`, found from the left
/// without overlap, replaced by `to`.
#[verifier::external_body]
fn replace_all(s: &str, from: &str, to: &str) -> (r: String)
    requires
        from@.len() > 0,
    ensures
        r@ == replaced(s@, from@, to@),
{
    s.replace(from, to)
}

/// A settings text with the licence flag quoted, so that it is read as the
/// text `yes` and not as a boolean.
pub fn quote_licence(text: &str) -> (r: String)
    ensures
        r@ == replaced(text@, "acceptLicenseAgreement: yes"@, "acceptLicenseAgreement: 'yes'"@),
{
    let from = "acceptLicenseAgreement: yes";
    proof {
        reveal_strlit("acceptLicenseAgreement: yes");
    }
    replace_all(text, from, "acceptLicenseAgreement: 'yes'")
}

/// A document as the values at its dotted paths, after the edits `edits` set
/// theirs in order.
pub open spec fn apply_edits<V>(doc: Map<Seq<char>, V>, edits: Seq<(Seq<char>, V)>) -> Map<Seq<char>, V>
    decreases edits.len(),
{
    if edits.len() == 0 {
        doc
    } else {
        apply_edits(doc, edits.drop_last()).insert(edits.last().0, edits.last().1)
    }
}

proof fn lemma_apply_is_union<V>(doc: Map<Seq<char>, V>, edits: Seq<(Seq<char>, V)>)
    ensures
        apply_edits(doc, edits) == doc.union_prefer_right(apply_edits(Map::empty(), edits)),
    decreases edits.len(),
{
    if edits.len() == 0 {
        assert(doc.union_prefer_right(Map::empty()) =~= doc);
    } else {
        lemma_apply_is_union(doc, edits.drop_last());
        let a = apply_edits(Map::<Seq<char>, V>::empty(), edits.drop_last());
        assert(doc.union_prefer_right(a).insert(edits.last().0, edits.last().1) =~= doc.union_prefer_right(
            a.insert(edits.last().0, edits.last().1),
        ));
    }
}

/// Applying the same edits a second time changes nothing more.
pub proof fn lemma_edits_idempotent<V>(doc: Map<Seq<char>, V>, edits: Seq<(Seq<char>, V)>)
    ensures
        apply_edits(apply_edits(doc, edits), edits) == apply_edits(doc, edits),
{
    let a = apply_edits(Map::<Seq<char>, V>::empty(), edits);
    lemma_apply_is_union(doc, edits);
    lemma_apply_is_union(apply_edits(doc, edits), edits);
    assert(doc.union_prefer_right(a).union_prefer_right(a) =~= doc.union_prefer_right(a));
}

/// Rescaling a driver twice to the same tier, with the same options and
/// storage server, leaves its settings as rescaling once does.
pub proof fn lemma_rescaling_idempotent(
    driver: Driver,
    nodes: nat,
    keys: Seq<Seq<char>>,
    nfs_ip: Seq<char>,
    doc: Map<Seq<char>, EditView>,
)
    ensures
        ({
            let e = spec_settings_edits(driver, nodes, keys, nfs_ip);
            apply_edits(apply_edits(doc, e), e) == apply_edits(doc, e)
        }),
{
    lemma_edits_idempotent(doc, spec_settings_edits(driver, nodes, keys, nfs_ip));
}

} // verus!
