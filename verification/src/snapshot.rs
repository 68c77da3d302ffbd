use crate::graph::{edge_views, graph_edges};
use crate::json::{dec_of, edge_jsons, join_comma, metrics_jsons};
use crate::metrics::{metrics_of, MetricsView, NoteMetrics};
use crate::note::{NoteMemoryOnly, NoteView};
use crate::paths::strip_root;
use crate::vault::{dup_count, names_of};
use vstd::prelude::*;
use vstd::string::StringExecFns;

verus! {

/// The metrics-annotated link graph: one node per note in model order, and
/// the directed link edges as node-index pairs.
pub struct MetricsGraph {
    pub nodes: Vec<NoteMetrics>,
    pub edges: Vec<(usize, usize)>,
}

/// The snapshot of one invocation: every note's metrics in model order,
/// the annotated graph, and the duplicate-name count.
pub struct Metrics {
    pub note_info: Vec<NoteMetrics>,
    pub digraph: MetricsGraph,
    pub count_duplicated_notes_by_name: usize,
}

/// The metrics of the model's notes, in order.
pub open spec fn metrics_seq(vault: Seq<NoteView>, root: Seq<char>) -> Seq<MetricsView> {
    vault.map_values(|v: NoteView| metrics_of(v, root))
}

/// What a well-assembled snapshot holds of its model: the per-note metrics
/// in model order, the same records at the graph's nodes, the link edges,
/// and the duplicate count.
pub open spec fn snapshot_matches(m: Metrics, vault: Seq<NoteView>, root: Seq<char>) -> bool {
    &&& m.note_info.deep_view() == metrics_seq(vault, root)
    &&& m.digraph.nodes.deep_view() == metrics_seq(vault, root)
    &&& edge_views(m.digraph.edges@) == graph_edges(vault, root)
    &&& m.count_duplicated_notes_by_name as nat == dup_count(names_of(vault))
}

/// Each metrics record stands at its note's position and carries that
/// note's id: the flat list and the model align one to one.
pub proof fn lemma_note_info_matches_model(vault: Seq<NoteView>, root: Seq<char>)
    ensures
        metrics_seq(vault, root).len() == vault.len(),
        forall|i: int|
            0 <= i < vault.len() ==> #[trigger] metrics_seq(vault, root)[i].id == vault[i].id,
{
}

/// Assembles the snapshot: the metrics of every note, the annotated graph,
/// and the duplicate count, all against one vault root.
pub fn assemble(model: &Vec<NoteMemoryOnly>, root: &str) -> (m: Metrics)
    requires
        forall|i: int|
            0 <= i < model.deep_view().len() ==> strip_root(
                #[trigger] model.deep_view()[i].path,
                root@,
            ) is Some,
    ensures
        snapshot_matches(m, model.deep_view(), root@),
{
    let ghost vault = model.deep_view();
    let mut note_info: Vec<NoteMetrics> = Vec::new();
    let mut nodes: Vec<NoteMetrics> = Vec::new();
    let len = model.len();
    let mut i: usize = 0;
    while i < len
        invariant
            vault == model.deep_view(),
            len == model@.len(),
            i <= len,
            note_info@.len() == i,
            nodes@.len() == i,
            forall|q: int|
                0 <= q < vault.len() ==> strip_root(#[trigger] vault[q].path, root@) is Some,
            forall|j: int|
                0 <= j < i ==> #[trigger] note_info@[j]@ == metrics_of(vault[j], root@),
            forall|j: int| 0 <= j < i ==> #[trigger] nodes@[j]@ == metrics_of(vault[j], root@),
        decreases len - i,
    {
        proof {
            assert(vault[i as int] == model@[i as int]@);
        }
        let a = NoteMetrics::new(&model[i], root);
        let b = NoteMetrics::new(&model[i], root);
        note_info.push(a);
        nodes.push(b);
        i += 1;
    }
    let edges = crate::graph::build_edges(model, root);
    let names = crate::vault::model_names(model);
    let dups = crate::vault::count_duplicated_notes_by_name(&names);
    proof {
        assert forall|j: int|
            0 <= j < note_info.deep_view().len() implies note_info.deep_view()[j] == metrics_seq(
            vault,
            root@,
        )[j] by {
            assert(note_info.deep_view()[j] == note_info@[j]@);
        }
        assert(note_info.deep_view() =~= metrics_seq(vault, root@));
        assert forall|j: int|
            0 <= j < nodes.deep_view().len() implies nodes.deep_view()[j] == metrics_seq(
            vault,
            root@,
        )[j] by {
            assert(nodes.deep_view()[j] == nodes@[j]@);
        }
        assert(nodes.deep_view() =~= metrics_seq(vault, root@));
    }
    Metrics { note_info, digraph: MetricsGraph { nodes, edges }, count_duplicated_notes_by_name: dups }
}

/// The document text of a snapshot: its three fields in order, the graph
/// as its node list and its edge list.
pub open spec fn json_of_snapshot(
    info: Seq<MetricsView>,
    nodes: Seq<MetricsView>,
    edges: Seq<(int, int)>,
    dups: nat,
) -> Seq<char> {
    "{\"note_info\":["@ + join_comma(metrics_jsons(info)) + "],\"digraph\":{\"nodes\":["@
        + join_comma(metrics_jsons(nodes)) + "],\"edges\":["@ + join_comma(edge_jsons(edges))
        + "]},\"count_duplicated_notes_by_name\":"@ + dec_of(dups) + "}"@
}

/// Renders the snapshot. Rendering is total: every snapshot has exactly one
/// document text, so no failure path reaches the caller.
pub fn render(m: &Metrics) -> (out: String)
    ensures
        out@ == json_of_snapshot(
            m.note_info.deep_view(),
            m.digraph.nodes.deep_view(),
            edge_views(m.digraph.edges@),
            m.count_duplicated_notes_by_name as nat,
        ),
{
    let mut out = String::new();
    out.append("{\"note_info\":[");
    crate::json::push_metrics_array(&mut out, &m.note_info);
    out.append("],\"digraph\":{\"nodes\":[");
    crate::json::push_metrics_array(&mut out, &m.digraph.nodes);
    out.append("],\"edges\":[");
    crate::json::push_edge_array(&mut out, &m.digraph.edges);
    out.append("]},\"count_duplicated_notes_by_name\":");
    crate::json::push_dec(&mut out, m.count_duplicated_notes_by_name);
    out.append("}");
    proof {
        assert(out@ =~= json_of_snapshot(
            m.note_info.deep_view(),
            m.digraph.nodes.deep_view(),
            edge_views(m.digraph.edges@),
            m.count_duplicated_notes_by_name as nat,
        ));
    }
    out
}

} // verus!
