use crate::props::{PropShape, PropValue, Properties};
use vstd::prelude::*;

verus! {

/// Why one note fell out of the model. Each failure is local to its note:
/// the batch goes on without it.
#[derive(Clone, Copy, PartialEq, Eq, Structural, Debug)]
pub enum Error {
    /// A front-matter opening delimiter without its closing one.
    InvalidFormat,
    /// Front matter whose structured text did not decode.
    Yaml,
}

/// What the front-matter split makes of a raw text: `Err` for a malformed
/// block, `Ok(None)` for a note without one, and otherwise the body and the
/// raw front-matter text.
pub uninterp spec fn fm_split_of(s: Seq<char>) -> Result<Option<(Seq<char>, Seq<char>)>, ()>;

/// What the structured decode makes of raw front-matter text: the top-level
/// fields in document order with their shapes, or `Err` for text that is not
/// a mapping with unique string keys.
pub uninterp spec fn yaml_props_of(s: Seq<char>) -> Result<Seq<(Seq<char>, PropShape)>, ()>;

/// serde_yml::Value, carried opaquely between the decode call and the
/// shape conversion.
#[verifier::external_type_specification]
#[verifier::external_body]
pub struct ExYamlValue(serde_yml::Value);

/// Relies on serde_yml::Value's variants: maps each onto the library's
/// front-matter shapes, keeping sequence entries and nothing deeper.
#[verifier::external_body]
fn shape_of_yaml(v: serde_yml::Value) -> PropValue {
    match v {
        serde_yml::Value::Null => PropValue::Null,
        serde_yml::Value::Sequence(items) => PropValue::Sequence(
            items.into_iter().map(shape_of_yaml).collect(),
        ),
        serde_yml::Value::Mapping(_) => PropValue::Mapping,
        _ => PropValue::Scalar,
    }
}

/// Relies on obsidian_parser::note::parser::parse_note: splits a raw note
/// into front-matter text and body. The outcome depends on the text alone
/// and is named `fm_split_of`.
#[verifier::external_body]
fn split_front_matter(raw: &str) -> (r: Result<Option<(String, String)>, ()>)
    ensures
        r is Ok <==> fm_split_of(raw@) is Ok,
        (r matches Ok(None)) <==> (fm_split_of(raw@) matches Ok(None)),
        r matches Ok(Some(p)) ==> fm_split_of(raw@) matches Ok(Some(q)) && p.0@ == q.0 && p.1@
            == q.1,
{
    match obsidian_parser::note::parser::parse_note(raw) {
        Ok(obsidian_parser::note::parser::ResultParse::WithProperties { content, properties }) => {
            Ok(Some((content.to_string(), properties.to_string())))
        },
        Ok(obsidian_parser::note::parser::ResultParse::WithoutProperties) => Ok(None),
        Err(_) => Err(()),
    }
}

/// Relies on serde_yml::from_str for serde_yml::Mapping: decodes YAML text
/// into a mapping in document order, refusing duplicate keys. The outcome
/// depends on the text alone and is named `yaml_props_of`.
#[verifier::external_body]
fn decode_properties(raw: &str) -> (r: Result<Properties, ()>)
    ensures
        r is Ok <==> yaml_props_of(raw@) is Ok,
        r matches Ok(p) ==> yaml_props_of(raw@) matches Ok(q) && p@ == q,
{
    match serde_yml::from_str::<serde_yml::Mapping>(raw) {
        Ok(mapping) => mapping.into_iter().map(
            |kv: (serde_yml::Value, serde_yml::Value)|
                match kv.0.as_str() {
                    Some(key) => Ok((key.to_string(), shape_of_yaml(kv.1))),
                    None => Err(()),
                },
        ).collect::<Result<Vec<(String, PropValue)>, ()>>().map(|fields| Properties { fields }),
        Err(_) => Err(()),
    }
}

/// One parsed note, held in memory: its body, its decoded front matter when
/// it has one, its identifying path, and its id in the input batch.
pub struct NoteMemoryOnly {
    id: usize,
    content: String,
    properties: Option<Properties>,
    path: String,
}

/// The mathematical image of one note.
pub struct NoteView {
    pub id: nat,
    pub content: Seq<char>,
    pub properties: Option<Seq<(Seq<char>, PropShape)>>,
    pub path: Seq<char>,
}

impl View for NoteMemoryOnly {
    type V = NoteView;

    closed spec fn view(&self) -> NoteView {
        NoteView {
            id: self.id as nat,
            content: self.content@,
            properties: match self.properties {
                Some(p) => Some(p@),
                None => None,
            },
            path: self.path@,
        }
    }
}

impl DeepView for NoteMemoryOnly {
    type V = NoteView;

    open spec fn deep_view(&self) -> NoteView {
        self.view()
    }
}

/// What constructing a note from raw text yields: the body is the whole text
/// when no front-matter block opens it, and otherwise the split body with
/// the decoded fields; a malformed block or undecodable front matter fails
/// that one note.
pub open spec fn note_of(raw: Seq<char>, path: Seq<char>, id: nat) -> Result<NoteView, Error> {
    match fm_split_of(raw) {
        Err(_) => Err(Error::InvalidFormat),
        Ok(None) => Ok(NoteView { id, content: raw, properties: None, path }),
        Ok(Some(cp)) => match yaml_props_of(cp.1) {
            Err(_) => Err(Error::Yaml),
            Ok(fields) => Ok(NoteView { id, content: cp.0, properties: Some(fields), path }),
        },
    }
}

/// The note result seen through its view.
pub open spec fn note_result_view(r: Result<NoteMemoryOnly, Error>) -> Result<NoteView, Error> {
    match r {
        Ok(n) => Ok(n@),
        Err(e) => Err(e),
    }
}

impl NoteMemoryOnly {
    /// Builds the note with the given id from raw text and its path.
    pub fn from_string(raw_text: String, path: String, id: usize) -> (r: Result<Self, Error>)
        ensures
            note_result_view(r) == note_of(raw_text@, path@, id as nat),
    {
        match split_front_matter(raw_text.as_str()) {
            Err(_) => Err(Error::InvalidFormat),
            Ok(None) => Ok(NoteMemoryOnly { id, content: raw_text, properties: None, path }),
            Ok(Some(cp)) => match decode_properties(cp.1.as_str()) {
                Err(_) => Err(Error::Yaml),
                Ok(props) => Ok(
                    NoteMemoryOnly { id, content: cp.0, properties: Some(props), path },
                ),
            },
        }
    }

    /// The note's id in its batch.
    pub fn id(&self) -> (r: usize)
        ensures
            r as nat == self@.id,
    {
        self.id
    }

    /// The note's body.
    pub fn content(&self) -> (r: &String)
        ensures
            r@ == self@.content,
    {
        &self.content
    }

    /// The note's decoded front matter, absent when the note had none.
    pub fn properties(&self) -> (r: &Option<Properties>)
        ensures
            match r {
                Some(p) => self@.properties == Some(p@),
                None => self@.properties is None,
            },
    {
        &self.properties
    }

    /// The note's identifying path.
    pub fn path(&self) -> (r: &String)
        ensures
            r@ == self@.path,
    {
        &self.path
    }
}

} // verus!
