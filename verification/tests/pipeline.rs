use vault_metrics::get_json_metrics;
use vault_metrics::metrics::NoteMetrics;
use vault_metrics::note::{Error, NoteMemoryOnly};
use vault_metrics::snapshot::assemble;
use vault_metrics::vault::{build_vault, count_duplicated_notes_by_name, model_names, NoteInfo};

fn note(text: &str, path: &str) -> NoteInfo {
    NoteInfo::new(String::from(text), String::from(path))
}

fn strings(items: &[&str]) -> Vec<String> {
    items.iter().map(|s| String::from(*s)).collect()
}

#[test]
fn word_and_symbol_counts() {
    let n = NoteMemoryOnly::from_string(
        String::from("hello   world"),
        String::from("/vault/n.md"),
        0,
    )
    .unwrap();
    let m = NoteMetrics::new(&n, "/vault");
    assert_eq!(m.count_word_in_content, 2);
    assert_eq!(m.count_symbols_in_content, 13);
}

#[test]
fn path_metrics_relative_to_root() {
    let n = NoteMemoryOnly::from_string(String::from("body"), String::from("/vault/sub/note.md"), 0)
        .unwrap();
    let m = NoteMetrics::new(&n, "/vault");
    assert_eq!(m.path_depth, 2);
    assert_eq!(m.path_len, "sub/note.md".len());
    assert_eq!(m.count_word_in_note_name, 1);
    assert_eq!(m.count_symbols_in_note_name, 4);
}

#[test]
fn no_front_matter_counts_zero() {
    let n = NoteMemoryOnly::from_string(
        String::from("plain text #todo here"),
        String::from("/v/a.md"),
        0,
    )
    .unwrap();
    let m = NoteMetrics::new(&n, "/v");
    assert_eq!(m.count_yaml_field, 0);
    assert_eq!(m.aliases, 0);
    assert_eq!(m.todos, 1);
}

#[test]
fn front_matter_fields_are_counted() {
    let raw = "---\ntopic: physics\ncreated: today\n---\nbody text";
    let n = NoteMemoryOnly::from_string(String::from(raw), String::from("/v/a.md"), 3).unwrap();
    assert_eq!(n.id(), 3);
    assert_eq!(n.content().as_str(), "body text");
    let m = NoteMetrics::new(&n, "/v");
    assert_eq!(m.id, 3);
    assert_eq!(m.count_yaml_field, 2);
    assert_eq!(m.count_word_in_content, 2);
}

#[test]
fn aliases_sequence_length() {
    let raw = "---\naliases:\n- first\n- second\n---\nbody";
    let n = NoteMemoryOnly::from_string(String::from(raw), String::from("/v/a.md"), 0).unwrap();
    let m = NoteMetrics::new(&n, "/v");
    assert_eq!(m.aliases, 2);
}

#[test]
fn aliases_non_sequence_counts_zero() {
    let raw = "---\naliases: lone\n---\nbody";
    let n = NoteMemoryOnly::from_string(String::from(raw), String::from("/v/a.md"), 0).unwrap();
    let m = NoteMetrics::new(&n, "/v");
    assert_eq!(m.aliases, 0);
}

#[test]
fn todos_count_markers_and_all_tag_entries() {
    // The tag-side count follows the reference rule: every entry of the
    // `tags` sequence counts, whatever it holds.
    let raw = "---\ntags:\n- todo\n---\nx #todo y #todo";
    let n = NoteMemoryOnly::from_string(String::from(raw), String::from("/v/a.md"), 0).unwrap();
    let m = NoteMetrics::new(&n, "/v");
    assert_eq!(m.todos, 3);
}

#[test]
fn todos_tag_entries_count_even_when_not_todo() {
    let raw = "---\ntags:\n- alpha\n- beta\n---\nno markers";
    let n = NoteMemoryOnly::from_string(String::from(raw), String::from("/v/a.md"), 0).unwrap();
    let m = NoteMetrics::new(&n, "/v");
    assert_eq!(m.todos, 2);
}

#[test]
fn malformed_front_matter_is_invalid_format() {
    let raw = "---\nkey: value\nnever closed";
    let r = NoteMemoryOnly::from_string(String::from(raw), String::from("/v/a.md"), 0);
    assert!(matches!(r, Err(Error::InvalidFormat)));
}

#[test]
fn undecodable_front_matter_is_yaml_error() {
    let raw = "---\n[unclosed\n---\nbody";
    let r = NoteMemoryOnly::from_string(String::from(raw), String::from("/v/a.md"), 0);
    assert!(matches!(r, Err(Error::Yaml)));
}

#[test]
fn non_mapping_front_matter_is_yaml_error() {
    let raw = "---\n- just\n- a\n- list\n---\nbody";
    let r = NoteMemoryOnly::from_string(String::from(raw), String::from("/v/a.md"), 0);
    assert!(matches!(r, Err(Error::Yaml)));
}

#[test]
fn one_bad_note_leaves_the_rest() {
    let inputs = vec![
        note("first", "/v/a.md"),
        note("---\nbroken", "/v/b.md"),
        note("third", "/v/c.md"),
    ];
    let model = build_vault(inputs);
    assert_eq!(model.len(), 2);
    assert_eq!(model[0].id(), 0);
    assert_eq!(model[1].id(), 2);
    assert_eq!(model[0].content().as_str(), "first");
    assert_eq!(model[1].content().as_str(), "third");
}

#[test]
fn duplicate_names_one_group() {
    let names = strings(&["A", "A", "B"]);
    assert_eq!(count_duplicated_notes_by_name(&names), 1);
}

#[test]
fn duplicate_names_none() {
    let names = strings(&["A", "B", "C"]);
    assert_eq!(count_duplicated_notes_by_name(&names), 0);
}

#[test]
fn duplicate_names_triple_is_one_group() {
    let names = strings(&["A", "A", "A", "B"]);
    assert_eq!(count_duplicated_notes_by_name(&names), 1);
}

#[test]
fn duplicate_names_from_model_paths() {
    let inputs = vec![
        note("x", "/v/a/Note.md"),
        note("y", "/v/b/Note.md"),
        note("z", "/v/Other.md"),
    ];
    let model = build_vault(inputs);
    let names = model_names(&model);
    assert_eq!(names[0].as_str(), "Note");
    assert_eq!(names[1].as_str(), "Note");
    assert_eq!(names[2].as_str(), "Other");
    assert_eq!(count_duplicated_notes_by_name(&names), 1);
}

#[test]
fn note_info_aligns_with_model() {
    let inputs = vec![
        note("one", "/v/a.md"),
        note("---\nbad", "/v/b.md"),
        note("three", "/v/c.md"),
    ];
    let model = build_vault(inputs);
    let snap = assemble(&model, "/v");
    assert_eq!(snap.note_info.len(), model.len());
    for (i, m) in snap.note_info.iter().enumerate() {
        assert_eq!(m.id, model[i].id());
    }
}

#[test]
fn graph_links_by_name_and_by_path() {
    let inputs = vec![
        note("[[b]] and [[sub/c]]", "/v/a.md"),
        note("no links", "/v/b.md"),
        note("[[a]]", "/v/sub/c.md"),
    ];
    let model = build_vault(inputs);
    let snap = assemble(&model, "/v");
    assert_eq!(snap.digraph.nodes.len(), 3);
    assert_eq!(snap.digraph.edges, vec![(0, 1), (0, 2), (2, 0)]);
}

#[test]
fn graph_unresolved_links_make_no_edges() {
    let inputs = vec![note("[[nowhere]]", "/v/a.md"), note("plain", "/v/b.md")];
    let model = build_vault(inputs);
    let snap = assemble(&model, "/v");
    assert_eq!(snap.digraph.edges.len(), 0);
}

#[test]
fn rendered_document_single_note() {
    let inputs = vec![note("hi", "/v/a.md")];
    let out = get_json_metrics(inputs, String::from("/v"));
    let record = "{\"id\":0,\"count_word_in_content\":1,\"count_symbols_in_content\":2,\
                  \"count_yaml_field\":0,\"count_word_in_note_name\":1,\
                  \"count_symbols_in_note_name\":1,\"path_depth\":1,\"path_len\":4,\
                  \"aliases\":0,\"todos\":0}";
    let expected = format!(
        "{{\"note_info\":[{record}],\"digraph\":{{\"nodes\":[{record}],\"edges\":[]}},\"count_duplicated_notes_by_name\":0}}"
    );
    assert_eq!(out, expected);
}

#[test]
fn rendered_document_edges_and_duplicates() {
    let inputs = vec![note("[[b]]", "/v/b/one.md"), note("x", "/v/b.md")];
    let out = get_json_metrics(inputs, String::from("/v"));
    assert!(out.contains("\"edges\":[[0,1]]"));
    assert!(out.contains("\"count_duplicated_notes_by_name\":0"));
}

#[test]
fn pipeline_twice_is_byte_identical() {
    let make = || {
        vec![
            note("---\ntags:\n- todo\n---\nbody #todo", "/v/sub/a.md"),
            note("[[a]] [[a]]", "/v/b.md"),
            note("plain", "/v/b 2.md"),
        ]
    };
    let first = get_json_metrics(make(), String::from("/v"));
    let second = get_json_metrics(make(), String::from("/v"));
    assert_eq!(first, second);
}

#[test]
fn empty_batch_renders_empty_model() {
    let out = get_json_metrics(Vec::new(), String::from("/v"));
    assert_eq!(
        out,
        "{\"note_info\":[],\"digraph\":{\"nodes\":[],\"edges\":[]},\"count_duplicated_notes_by_name\":0}"
    );
}

#[test]
fn root_with_trailing_separator() {
    let n = NoteMemoryOnly::from_string(String::from("w"), String::from("/vault/n.md"), 0)
        .unwrap();
    let m = NoteMetrics::new(&n, "/vault/");
    assert_eq!(m.path_depth, 1);
    assert_eq!(m.path_len, "n.md".len());
}

#[test]
fn properties_getter_reflects_presence() {
    let with = NoteMemoryOnly::from_string(
        String::from("---\nk: v\n---\nbody"),
        String::from("/v/a.md"),
        0,
    )
    .unwrap();
    assert!(with.properties().is_some());
    let without =
        NoteMemoryOnly::from_string(String::from("body"), String::from("/v/a.md"), 0).unwrap();
    assert!(without.properties().is_none());
    assert_eq!(without.path().as_str(), "/v/a.md");
}
