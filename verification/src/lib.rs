pub mod graph;
pub mod json;
pub mod laws;
pub mod metrics;
pub mod note;
pub mod paths;
pub mod props;
pub mod snapshot;
pub mod text;
pub mod vault;

use crate::graph::graph_edges;
use crate::paths::strip_root;
use crate::snapshot::{assemble, json_of_snapshot, metrics_seq, render};
use crate::vault::{build_vault, dup_count, names_of, vault_of, NoteInfo, NoteInfoView};
use vstd::prelude::*;

verus! {

/// Whether `p` is the path of one of the inputs.
pub open spec fn is_input_path(inputs: Seq<NoteInfoView>, p: Seq<char>) -> bool {
    exists|j: int| 0 <= j < inputs.len() && inputs[j].path == p
}

/// Every note the model keeps took its path from one of the inputs.
proof fn lemma_vault_paths(inputs: Seq<NoteInfoView>, start: nat)
    ensures
        forall|i: int|
            0 <= i < vault_of(inputs, start).len() ==> is_input_path(
                inputs,
                #[trigger] vault_of(inputs, start)[i].path,
            ),
    decreases inputs.len(),
{
    if inputs.len() > 0 {
        lemma_vault_paths(inputs.drop_first(), start + 1);
        let rest = vault_of(inputs.drop_first(), start + 1);
        let v = vault_of(inputs, start);
        assert forall|i: int| 0 <= i < v.len() implies is_input_path(inputs, v[i].path) by {
            match crate::note::note_of(inputs[0].full_text, inputs[0].path, start) {
                Ok(n) => {
                    if i == 0 {
                        assert(v[0] == n);
                        assert(inputs[0].path == v[0].path);
                    } else {
                        assert(v[i] == rest[i - 1]);
                        assert(is_input_path(inputs.drop_first(), rest[i - 1].path));
                        let j0 = choose|j: int|
                            0 <= j < inputs.drop_first().len() && inputs.drop_first()[j].path
                                == rest[i - 1].path;
                        assert(inputs[j0 + 1].path == v[i].path);
                    }
                },
                Err(_) => {
                    assert(v[i] == rest[i]);
                    assert(is_input_path(inputs.drop_first(), rest[i].path));
                    let j0 = choose|j: int|
                        0 <= j < inputs.drop_first().len() && inputs.drop_first()[j].path == rest[
                            i
                        ].path;
                    assert(inputs[j0 + 1].path == v[i].path);
                },
            }
        }
    }
}

/// The pipeline's whole output as a function of its input: the snapshot of
/// the model built from the inputs, rendered. One text per input, so equal
/// inputs always render to equal texts.
pub open spec fn pipeline_json(inputs: Seq<NoteInfoView>, root: Seq<char>) -> Seq<char> {
    let vault = vault_of(inputs, 0);
    json_of_snapshot(
        metrics_seq(vault, root),
        metrics_seq(vault, root),
        graph_edges(vault, root),
        dup_count(names_of(vault)),
    )
}

/// Runs the whole pipeline: builds the model from the raw notes, derives
/// the metrics, the link graph and the duplicate count against the vault
/// root, and renders the snapshot. The caller guarantees every supplied
/// path lies under the root.
pub fn get_json_metrics(notes: Vec<NoteInfo>, path_to_vault: String) -> (r: String)
    requires
        forall|i: int|
            0 <= i < notes@.len() ==> strip_root(
                (#[trigger] notes@[i])@.path,
                path_to_vault@,
            ) is Some,
    ensures
        r@ == pipeline_json(notes.deep_view(), path_to_vault@),
{
    let ghost inputs = notes.deep_view();
    proof {
        assert forall|j: int| 0 <= j < inputs.len() implies strip_root(
            #[trigger] inputs[j].path,
            path_to_vault@,
        ) is Some by {
            assert(inputs[j] == notes@[j]@);
        }
    }
    let model = build_vault(notes);
    proof {
        lemma_vault_paths(inputs, 0);
        assert forall|i: int| 0 <= i < model.deep_view().len() implies strip_root(
            #[trigger] model.deep_view()[i].path,
            path_to_vault@,
        ) is Some by {
            let j0 = choose|j: int|
                0 <= j < inputs.len() && inputs[j].path == model.deep_view()[i].path;
        }
    }
    let m = assemble(&model, path_to_vault.as_str());
    render(&m)
}

/// Invoking the pipeline twice on identical input yields identical output
/// text: the output is a function of the raw notes and the root alone.
pub proof fn lemma_pipeline_idempotent(
    inputs: Seq<NoteInfoView>,
    root: Seq<char>,
    first: Seq<char>,
    second: Seq<char>,
)
    requires
        first == pipeline_json(inputs, root),
        second == pipeline_json(inputs, root),
    ensures
        first == second,
{
}

} // verus!
