use vstd::prelude::*;

verus! {

/// One decoded front-matter value.
///
/// The metrics read only the shape of a value and, for sequences, how many
/// entries it has; scalars and nested mappings therefore carry no payload.
pub enum PropValue {
    Null,
    Scalar,
    Sequence(Vec<PropValue>),
    Mapping,
}

/// The shape of a `PropValue`: what the counting functions see of it.
pub enum PropShape {
    Null,
    Scalar,
    Sequence(nat),
    Mapping,
}

impl View for PropValue {
    type V = PropShape;

    open spec fn view(&self) -> PropShape {
        match self {
            PropValue::Null => PropShape::Null,
            PropValue::Scalar => PropShape::Scalar,
            PropValue::Sequence(items) => PropShape::Sequence(items@.len()),
            PropValue::Mapping => PropShape::Mapping,
        }
    }
}

/// The decoded front matter of one note: its top-level fields in document
/// order, keys unique.
pub struct Properties {
    pub fields: Vec<(String, PropValue)>,
}

impl View for Properties {
    type V = Seq<(Seq<char>, PropShape)>;

    open spec fn view(&self) -> Seq<(Seq<char>, PropShape)> {
        self.fields@.map_values(|kv: (String, PropValue)| (kv.0@, kv.1@))
    }
}

/// The shape under `key`, at the first field bearing it.
pub open spec fn shape_under(props: Seq<(Seq<char>, PropShape)>, key: Seq<char>) -> Option<
    PropShape,
>
    decreases props.len(),
{
    if props.len() == 0 {
        None
    } else if props[0].0 == key {
        Some(props[0].1)
    } else {
        shape_under(props.drop_first(), key)
    }
}

/// The entry count of the sequence under `key`: 0 when the key is absent or
/// its value is not a sequence.
pub open spec fn seq_len_under(props: Seq<(Seq<char>, PropShape)>, key: Seq<char>) -> nat {
    match shape_under(props, key) {
        Some(PropShape::Sequence(n)) => n,
        _ => 0,
    }
}

/// An empty mapping stores no sequence under any key.
pub proof fn lemma_shape_under_empty(key: Seq<char>)
    ensures
        seq_len_under(Seq::empty(), key) == 0,
{
}

proof fn lemma_shape_under_at(props: Seq<(Seq<char>, PropShape)>, key: Seq<char>, i: int)
    requires
        0 <= i < props.len(),
        forall|j: int| 0 <= j < i ==> props[j].0 != key,
        props[i].0 == key,
    ensures
        shape_under(props, key) == Some(props[i].1),
    decreases i,
{
    if i > 0 {
        lemma_shape_under_at(props.drop_first(), key, i - 1);
    }
}

proof fn lemma_shape_under_none(props: Seq<(Seq<char>, PropShape)>, key: Seq<char>)
    requires
        forall|j: int| 0 <= j < props.len() ==> props[j].0 != key,
    ensures
        shape_under(props, key) is None,
    decreases props.len(),
{
    if props.len() > 0 {
        lemma_shape_under_none(props.drop_first(), key);
    }
}

impl Properties {
    /// How many top-level fields the front matter has.
    pub fn field_count(&self) -> (n: usize)
        ensures
            n == self@.len(),
    {
        self.fields.len()
    }

    /// The entry count of the sequence stored under `key`; 0 on any shape
    /// mismatch or absence, never an error.
    pub fn sequence_len(&self, key: &String) -> (n: usize)
        ensures
            n == seq_len_under(self@, key@),
    {
        let mut i: usize = 0;
        while i < self.fields.len()
            invariant
                i <= self.fields@.len(),
                self@.len() == self.fields@.len(),
                forall|j: int| 0 <= j < i ==> #[trigger] self@[j].0 != key@,
            decreases self.fields@.len() - i,
        {
            if self.fields[i].0.eq(key) {
                proof {
                    assert(self@[i as int] == (self.fields@[i as int].0@, self.fields@[i as int].1@));
                    lemma_shape_under_at(self@, key@, i as int);
                }
                match &self.fields[i].1 {
                    PropValue::Sequence(items) => {
                        return items.len();
                    },
                    _ => {
                        return 0;
                    },
                }
            }
            i += 1;
        }
        proof {
            lemma_shape_under_none(self@, key@);
        }
        0
    }
}

} // verus!
