use crate::metrics::metrics_of;
use crate::note::{note_of, NoteView};
use crate::props::lemma_shape_under_empty;
use crate::text::{lemma_todo_marks_le, todo_marks};
use crate::vault::{vault_of, NoteInfoView};
use vstd::prelude::*;

verus! {

/// A note without front matter counts no fields and no aliases, and its
/// `todos` reflects only the `#todo` markers of its body.
pub proof fn lemma_no_front_matter_metrics(v: NoteView, root: Seq<char>)
    requires
        v.properties is None,
        v.content.len() <= usize::MAX,
    ensures
        metrics_of(v, root).count_yaml_field == 0,
        metrics_of(v, root).aliases == 0,
        metrics_of(v, root).todos == todo_marks(v.content),
{
    lemma_shape_under_empty("aliases"@);
    lemma_shape_under_empty("tags"@);
    lemma_todo_marks_le(v.content);
}

/// Over inputs that all parse, the model keeps every note: one entry per
/// input, in order, under its position's id.
proof fn lemma_vault_all_ok(inputs: Seq<NoteInfoView>, start: nat)
    requires
        forall|j: int|
            0 <= j < inputs.len() ==> note_of(
                (#[trigger] inputs[j]).full_text,
                inputs[j].path,
                (start + j) as nat,
            ) is Ok,
    ensures
        vault_of(inputs, start).len() == inputs.len(),
        forall|j: int|
            0 <= j < inputs.len() ==> #[trigger] vault_of(inputs, start)[j] == note_of(
                inputs[j].full_text,
                inputs[j].path,
                (start + j) as nat,
            )->Ok_0,
    decreases inputs.len(),
{
    if inputs.len() > 0 {
        assert forall|j: int| 0 <= j < inputs.drop_first().len() implies note_of(
            (#[trigger] inputs.drop_first()[j]).full_text,
            inputs.drop_first()[j].path,
            (start + 1 + j) as nat,
        ) is Ok by {
            assert(inputs.drop_first()[j] == inputs[j + 1]);
        }
        lemma_vault_all_ok(inputs.drop_first(), start + 1);
        let rest = vault_of(inputs.drop_first(), start + 1);
        let v = vault_of(inputs, start);
        assert(v == seq![note_of(inputs[0].full_text, inputs[0].path, start)->Ok_0] + rest);
        assert forall|j: int| 0 <= j < inputs.len() implies #[trigger] vault_of(inputs, start)[j]
            == note_of(inputs[j].full_text, inputs[j].path, (start + j) as nat)->Ok_0 by {
            if j > 0 {
                assert(v[j] == rest[j - 1]);
                assert(inputs.drop_first()[j - 1] == inputs[j]);
            }
        }
    }
}

/// The model of a batch is the models of its two halves, one after the
/// other, ids running on.
proof fn lemma_vault_split(inputs: Seq<NoteInfoView>, start: nat, m: int)
    requires
        0 <= m <= inputs.len(),
    ensures
        vault_of(inputs, start) == vault_of(inputs.take(m), start) + vault_of(
            inputs.skip(m),
            (start + m) as nat,
        ),
    decreases m,
{
    if m == 0 {
        assert(inputs.take(0) =~= Seq::<NoteInfoView>::empty());
        assert(inputs.skip(0) =~= inputs);
        assert(vault_of(inputs.take(0), start) + vault_of(inputs, start) =~= vault_of(
            inputs,
            start,
        ));
    } else {
        lemma_vault_split(inputs.drop_first(), start + 1, m - 1);
        assert(inputs.take(m).drop_first() =~= inputs.drop_first().take(m - 1));
        assert(inputs.skip(m) =~= inputs.drop_first().skip(m - 1));
        assert(inputs.take(m)[0] == inputs[0]);
        let head = note_of(inputs[0].full_text, inputs[0].path, start);
        let a = vault_of(inputs.drop_first().take(m - 1), start + 1);
        let b = vault_of(inputs.drop_first().skip(m - 1), (start + m) as nat);
        assert(vault_of(inputs.drop_first(), start + 1) == a + b);
        match head {
            Ok(n) => {
                assert(vault_of(inputs, start) =~= (seq![n] + a) + b);
                assert(vault_of(inputs.take(m), start) =~= seq![n] + a);
            },
            Err(_) => {
                assert(vault_of(inputs, start) =~= a + b);
                assert(vault_of(inputs.take(m), start) =~= a);
            },
        }
    }
}

/// One malformed note among otherwise valid ones costs the model exactly
/// that note: the batch of N leaves N - 1 entries, and every other note's
/// record, and so its metrics, is what it would have been anyway.
pub proof fn lemma_one_bad_note_filtered(inputs: Seq<NoteInfoView>, k: int)
    requires
        0 <= k < inputs.len(),
        note_of(inputs[k].full_text, inputs[k].path, k as nat) is Err,
        forall|j: int|
            0 <= j < inputs.len() && j != k ==> note_of(
                (#[trigger] inputs[j]).full_text,
                inputs[j].path,
                j as nat,
            ) is Ok,
    ensures
        vault_of(inputs, 0).len() == inputs.len() - 1,
        forall|j: int|
            0 <= j < k ==> #[trigger] vault_of(inputs, 0)[j] == note_of(
                inputs[j].full_text,
                inputs[j].path,
                j as nat,
            )->Ok_0,
        forall|j: int|
            k < j < inputs.len() ==> #[trigger] vault_of(inputs, 0)[j - 1] == note_of(
                inputs[j].full_text,
                inputs[j].path,
                j as nat,
            )->Ok_0,
{
    let pre = inputs.take(k);
    let post = inputs.skip(k + 1);
    lemma_vault_split(inputs, 0, k);
    lemma_vault_split(inputs.skip(k), k as nat, 1);
    assert(inputs.skip(k).take(1) =~= seq![inputs[k]]);
    assert(inputs.skip(k).skip(1) =~= post);
    assert forall|j: int| 0 <= j < pre.len() implies note_of(
        (#[trigger] pre[j]).full_text,
        pre[j].path,
        j as nat,
    ) is Ok by {
        assert(pre[j] == inputs[j]);
    }
    lemma_vault_all_ok(pre, 0);
    assert forall|j: int| 0 <= j < post.len() implies note_of(
        (#[trigger] post[j]).full_text,
        post[j].path,
        (k + 1 + j) as nat,
    ) is Ok by {
        assert(post[j] == inputs[k + 1 + j]);
    }
    lemma_vault_all_ok(post, (k + 1) as nat);
    let bad = vault_of(seq![inputs[k]], k as nat);
    assert(seq![inputs[k]].drop_first() =~= Seq::<NoteInfoView>::empty());
    assert(bad =~= Seq::<NoteView>::empty());
    assert(vault_of(inputs.skip(k), k as nat) =~= vault_of(post, (k + 1) as nat));
    assert(vault_of(inputs, 0) =~= vault_of(pre, 0) + vault_of(post, (k + 1) as nat));
    assert forall|j: int| 0 <= j < k implies #[trigger] vault_of(inputs, 0)[j] == note_of(
        inputs[j].full_text,
        inputs[j].path,
        j as nat,
    )->Ok_0 by {
        assert(vault_of(inputs, 0)[j] == vault_of(pre, 0)[j]);
        assert(pre[j] == inputs[j]);
    }
    assert forall|j: int| k < j < inputs.len() implies #[trigger] vault_of(inputs, 0)[j - 1]
        == note_of(inputs[j].full_text, inputs[j].path, j as nat)->Ok_0 by {
        assert(vault_of(inputs, 0)[j - 1] == vault_of(post, (k + 1) as nat)[j - 1 - k]);
        assert(post[j - 1 - k] == inputs[j]);
    }
}

} // verus!
