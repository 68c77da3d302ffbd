use crate::note::{note_of, NoteMemoryOnly, NoteView};
use crate::paths::note_name_of;
use vstd::prelude::*;

verus! {

/// One raw input to the pipeline: a note's full text and its path.
pub struct NoteInfo {
    pub full_text: String,
    pub path: String,
}

/// The mathematical image of one input: its text and its path.
pub struct NoteInfoView {
    pub full_text: Seq<char>,
    pub path: Seq<char>,
}

impl View for NoteInfo {
    type V = NoteInfoView;

    open spec fn view(&self) -> NoteInfoView {
        NoteInfoView { full_text: self.full_text@, path: self.path@ }
    }
}

impl DeepView for NoteInfo {
    type V = NoteInfoView;

    open spec fn deep_view(&self) -> NoteInfoView {
        self.view()
    }
}

impl NoteInfo {
    /// Pairs a note's raw text with its path.
    pub fn new(full_text: String, path: String) -> (r: NoteInfo)
        ensures
            r@.full_text == full_text@,
            r@.path == path@,
    {
        NoteInfo { full_text, path }
    }
}

/// The vault model built from the inputs starting at id `start`: one note
/// per input that parses, in input order, each bearing the id of its
/// position; inputs that fail to parse are dropped, their ids consumed.
pub open spec fn vault_of(inputs: Seq<NoteInfoView>, start: nat) -> Seq<NoteView>
    decreases inputs.len(),
{
    if inputs.len() == 0 {
        Seq::empty()
    } else {
        let rest = vault_of(inputs.drop_first(), start + 1);
        match note_of(inputs[0].full_text, inputs[0].path, start) {
            Ok(n) => seq![n] + rest,
            Err(_) => rest,
        }
    }
}

/// Builds the vault model: parses every input in order, assigns ids by
/// position before filtering, and drops the inputs that fail.
pub fn build_vault(inputs: Vec<NoteInfo>) -> (model: Vec<NoteMemoryOnly>)
    ensures
        model.deep_view() == vault_of(inputs.deep_view(), 0),
{
    let ghost all = inputs.deep_view();
    let mut model: Vec<NoteMemoryOnly> = Vec::new();
    let mut inputs = inputs;
    let mut id: usize = 0;
    let n = inputs.len();
    proof {
        assert(all.skip(0) =~= all);
        assert(model.deep_view() + vault_of(all.skip(0), 0) =~= vault_of(all, 0));
    }
    while id < n
        invariant
            n == inputs@.len(),
            id <= n,
            inputs.deep_view() == all,
            vault_of(all, 0) == model.deep_view() + vault_of(all.skip(id as int), id as nat),
        decreases n - id,
    {
        let text = inputs[id].full_text.clone();
        let path = inputs[id].path.clone();
        let ghost before = model.deep_view();
        proof {
            assert(all.skip(id as int)[0] == all[id as int]);
            assert(all.skip(id as int).drop_first() =~= all.skip(id + 1));
        }
        match NoteMemoryOnly::from_string(text, path, id) {
            Ok(note) => {
                model.push(note);
                proof {
                    assert(model.deep_view() =~= before + seq![note.deep_view()]);
                    assert(model.deep_view() + vault_of(all.skip(id + 1), (id + 1) as nat)
                        =~= before + vault_of(all.skip(id as int), id as nat));
                }
            },
            Err(_) => {},
        }
        id += 1;
    }
    proof {
        assert(all.skip(n as int) =~= Seq::<NoteInfoView>::empty());
        assert(model.deep_view() + vault_of(all.skip(n as int), n as nat) =~= model.deep_view());
    }
    model
}

/// The display names of the model's notes, in order.
pub open spec fn names_of(vault: Seq<NoteView>) -> Seq<Seq<char>> {
    vault.map_values(|v: NoteView| note_name_of(v.path))
}

/// Whether position `i` opens a duplicated group: the first bearer of a
/// name that some later position bears again.
pub open spec fn opens_dup_group(names: Seq<Seq<char>>, i: int) -> bool {
    &&& 0 <= i < names.len()
    &&& forall|j: int| 0 <= j < i ==> names[j] != names[i]
    &&& exists|j: int| i < j < names.len() && names[j] == names[i]
}

/// How many of the first `k` positions open a duplicated group.
pub open spec fn dup_count_upto(names: Seq<Seq<char>>, k: int) -> nat
    decreases k,
{
    if k <= 0 {
        0
    } else {
        dup_count_upto(names, k - 1) + (if opens_dup_group(names, k - 1) {
            1nat
        } else {
            0nat
        })
    }
}

/// The number of display names borne by two or more notes.
pub open spec fn dup_count(names: Seq<Seq<char>>) -> nat {
    dup_count_upto(names, names.len() as int)
}

/// Counts the display names shared by two or more notes: exact, case
/// sensitive string equality, insensitive to order.
pub fn count_duplicated_notes_by_name(names: &Vec<String>) -> (n: usize)
    ensures
        n == dup_count(names.deep_view()),
{
    let ghost ns = names.deep_view();
    let len = names.len();
    let mut n: usize = 0;
    let mut i: usize = 0;
    while i < len
        invariant
            len == names@.len(),
            ns == names.deep_view(),
            i <= len,
            n <= i,
            n == dup_count_upto(ns, i as int),
        decreases len - i,
    {
        let mut fresh = true;
        let mut j: usize = 0;
        while j < i
            invariant
                len == names@.len(),
                ns == names.deep_view(),
                i < len,
                j <= i,
                fresh <==> (forall|q: int| 0 <= q < j ==> ns[q] != ns[i as int]),
            decreases i - j,
        {
            proof {
                assert(ns[j as int] == names@[j as int]@);
                assert(ns[i as int] == names@[i as int]@);
            }
            if names[j].eq(&names[i]) {
                fresh = false;
            }
            j += 1;
        }
        let mut again = false;
        let mut k: usize = i + 1;
        while k < len
            invariant
                len == names@.len(),
                ns == names.deep_view(),
                i < len,
                i < k <= len,
                again <==> (exists|q: int| i < q < k && ns[q] == ns[i as int]),
            decreases len - k,
        {
            proof {
                assert(ns[k as int] == names@[k as int]@);
                assert(ns[i as int] == names@[i as int]@);
            }
            if names[k].eq(&names[i]) {
                again = true;
            }
            k += 1;
        }
        if fresh && again {
            n += 1;
            proof {
                assert(opens_dup_group(ns, i as int));
            }
        } else {
            proof {
                assert(!opens_dup_group(ns, i as int));
            }
        }
        i += 1;
    }
    n
}

/// The display names of the model's notes, computed in order.
pub fn model_names(model: &Vec<NoteMemoryOnly>) -> (names: Vec<String>)
    ensures
        names.deep_view() == names_of(model.deep_view()),
        names@.len() == model@.len(),
{
    let mut names: Vec<String> = Vec::new();
    let len = model.len();
    let mut i: usize = 0;
    while i < len
        invariant
            len == model@.len(),
            i <= len,
            names@.len() == i,
            forall|j: int| 0 <= j < i ==> names@[j]@ == note_name_of(#[trigger] model@[j]@.path),
        decreases len - i,
    {
        let name = crate::paths::note_name(model[i].path().as_str());
        names.push(name);
        i += 1;
    }
    proof {
        assert forall|j: int|
            0 <= j < names.deep_view().len() implies names.deep_view()[j] == names_of(
            model.deep_view(),
        )[j] by {
            assert(names.deep_view()[j] == names@[j]@);
            assert(names_of(model.deep_view())[j] == note_name_of(model@[j]@.path));
        }
        assert(names.deep_view() =~= names_of(model.deep_view()));
    }
    names
}

} // verus!
