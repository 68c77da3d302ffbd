use crate::note::{NoteMemoryOnly, NoteView};
use crate::paths::{note_name_of, seg_count, strip_root};
use crate::props::seq_len_under;
use crate::text::{sat_add_spec, todo_marks, word_count};
use vstd::prelude::*;
use vstd::string::StrSliceExecFns;

verus! {

/// The flat numeric features of one note.
pub struct NoteMetrics {
    /// The note's id, carried through from its record.
    pub id: usize,
    /// Words in the body, split on white-space runs.
    pub count_word_in_content: usize,
    /// Characters in the body.
    pub count_symbols_in_content: usize,
    /// Top-level front-matter fields.
    pub count_yaml_field: usize,
    /// Words in the display name.
    pub count_word_in_note_name: usize,
    /// Characters in the display name.
    pub count_symbols_in_note_name: usize,
    /// Segments of the path relative to the vault root.
    pub path_depth: usize,
    /// Characters of the path relative to the vault root.
    pub path_len: usize,
    /// Entries of the `aliases` front-matter sequence.
    pub aliases: usize,
    /// `#todo` markers in the body plus entries of the `tags` front-matter
    /// sequence.
    pub todos: usize,
}

/// The mathematical image of one metrics record.
pub struct MetricsView {
    pub id: nat,
    pub count_word_in_content: nat,
    pub count_symbols_in_content: nat,
    pub count_yaml_field: nat,
    pub count_word_in_note_name: nat,
    pub count_symbols_in_note_name: nat,
    pub path_depth: nat,
    pub path_len: nat,
    pub aliases: nat,
    pub todos: nat,
}

impl View for NoteMetrics {
    type V = MetricsView;

    open spec fn view(&self) -> MetricsView {
        MetricsView {
            id: self.id as nat,
            count_word_in_content: self.count_word_in_content as nat,
            count_symbols_in_content: self.count_symbols_in_content as nat,
            count_yaml_field: self.count_yaml_field as nat,
            count_word_in_note_name: self.count_word_in_note_name as nat,
            count_symbols_in_note_name: self.count_symbols_in_note_name as nat,
            path_depth: self.path_depth as nat,
            path_len: self.path_len as nat,
            aliases: self.aliases as nat,
            todos: self.todos as nat,
        }
    }
}

impl DeepView for NoteMetrics {
    type V = MetricsView;

    open spec fn deep_view(&self) -> MetricsView {
        self.view()
    }
}

/// The front-matter fields of a note, an empty mapping when it has none.
pub open spec fn props_or_empty(n: NoteView) -> Seq<(Seq<char>, crate::props::PropShape)> {
    match n.properties {
        Some(fields) => fields,
        None => Seq::empty(),
    }
}

/// The metrics of one note against a vault root: every count is total,
/// and absent optional structure counts 0, never an error.
pub open spec fn metrics_of(n: NoteView, root: Seq<char>) -> MetricsView {
    let name = note_name_of(n.path);
    let rel = strip_root(n.path, root)->Some_0;
    let props = props_or_empty(n);
    MetricsView {
        id: n.id,
        count_word_in_content: word_count(n.content),
        count_symbols_in_content: n.content.len(),
        count_yaml_field: props.len(),
        count_word_in_note_name: word_count(name),
        count_symbols_in_note_name: name.len(),
        path_depth: seg_count(rel),
        path_len: rel.len(),
        aliases: seq_len_under(props, "aliases"@),
        todos: sat_add_spec(todo_marks(n.content), seq_len_under(props, "tags"@)),
    }
}

impl NoteMetrics {
    /// Derives the metrics of `note` relative to the vault root. The caller
    /// guarantees root-relativity: a path outside the root is a contract
    /// violation, not a recoverable state.
    pub fn new(note: &NoteMemoryOnly, path_to_vault: &str) -> (m: NoteMetrics)
        requires
            strip_root(note@.path, path_to_vault@) is Some,
        ensures
            m@ == metrics_of(note@, path_to_vault@),
    {
        let content = note.content();
        let name = crate::paths::note_name(note.path().as_str());
        let rel = match crate::paths::strip_root_path(note.path().as_str(), path_to_vault) {
            Some(r) => r,
            None => {
                proof {
                    assert(false);
                }
                String::new()
            },
        };
        let (count_yaml_field, aliases, tags_len) = match note.properties() {
            Some(props) => (
                props.field_count(),
                props.sequence_len(&String::from_str("aliases")),
                props.sequence_len(&String::from_str("tags")),
            ),
            None => {
                proof {
                    crate::props::lemma_shape_under_empty("aliases"@);
                    crate::props::lemma_shape_under_empty("tags"@);
                }
                (0usize, 0usize, 0usize)
            },
        };
        let todos_content = crate::text::count_todo_marks(content.as_str());
        NoteMetrics {
            id: note.id(),
            count_word_in_content: crate::text::count_words(content.as_str()),
            count_symbols_in_content: content.as_str().unicode_len(),
            count_yaml_field,
            count_word_in_note_name: crate::text::count_words(name.as_str()),
            count_symbols_in_note_name: name.as_str().unicode_len(),
            path_depth: crate::paths::count_segments(rel.as_str()),
            path_len: rel.as_str().unicode_len(),
            aliases,
            todos: crate::text::sat_add(todos_content, tags_len),
        }
    }
}

} // verus!
