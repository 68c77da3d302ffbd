use crate::metrics::{MetricsView, NoteMetrics};
use vstd::prelude::*;
use vstd::string::StringExecFns;

verus! {

/// The character of one decimal digit.
pub open spec fn digit_seq(d: nat) -> Seq<char> {
    if d == 0 {
        "0"@
    } else if d == 1 {
        "1"@
    } else if d == 2 {
        "2"@
    } else if d == 3 {
        "3"@
    } else if d == 4 {
        "4"@
    } else if d == 5 {
        "5"@
    } else if d == 6 {
        "6"@
    } else if d == 7 {
        "7"@
    } else if d == 8 {
        "8"@
    } else {
        "9"@
    }
}

/// The decimal rendering of `n`, most significant digit first, no sign and
/// no leading zero.
pub open spec fn dec_of(n: nat) -> Seq<char>
    decreases n,
{
    if n < 10 {
        digit_seq(n)
    } else {
        dec_of(n / 10) + digit_seq(n % 10)
    }
}

fn digit_str(d: usize) -> (r: &'static str)
    requires
        d < 10,
    ensures
        r@ == digit_seq(d as nat),
{
    if d == 0 {
        "0"
    } else if d == 1 {
        "1"
    } else if d == 2 {
        "2"
    } else if d == 3 {
        "3"
    } else if d == 4 {
        "4"
    } else if d == 5 {
        "5"
    } else if d == 6 {
        "6"
    } else if d == 7 {
        "7"
    } else if d == 8 {
        "8"
    } else {
        "9"
    }
}

/// Appends the decimal rendering of `n`.
pub fn push_dec(out: &mut String, n: usize)
    ensures
        final(out)@ == old(out)@ + dec_of(n as nat),
    decreases n,
{
    if n < 10 {
        out.append(digit_str(n));
    } else {
        push_dec(out, n / 10);
        out.append(digit_str(n % 10));
        proof {
            assert(out@ =~= old(out)@ + dec_of(n as nat));
        }
    }
}

/// The parts joined with commas between them.
pub open spec fn join_comma(parts: Seq<Seq<char>>) -> Seq<char>
    decreases parts.len(),
{
    if parts.len() == 0 {
        Seq::empty()
    } else if parts.len() == 1 {
        parts[0]
    } else {
        join_comma(parts.drop_last()) + ","@ + parts.last()
    }
}

/// The document text of one metrics record: an object with its ten counts,
/// in declaration order.
pub open spec fn json_of_metrics(m: MetricsView) -> Seq<char> {
    "{\"id\":"@ + dec_of(m.id) + ",\"count_word_in_content\":"@ + dec_of(m.count_word_in_content)
        + ",\"count_symbols_in_content\":"@ + dec_of(m.count_symbols_in_content)
        + ",\"count_yaml_field\":"@ + dec_of(m.count_yaml_field)
        + ",\"count_word_in_note_name\":"@ + dec_of(m.count_word_in_note_name)
        + ",\"count_symbols_in_note_name\":"@ + dec_of(m.count_symbols_in_note_name)
        + ",\"path_depth\":"@ + dec_of(m.path_depth) + ",\"path_len\":"@ + dec_of(m.path_len)
        + ",\"aliases\":"@ + dec_of(m.aliases) + ",\"todos\":"@ + dec_of(m.todos) + "}"@
}

/// The document texts of the records, in order.
pub open spec fn metrics_jsons(ms: Seq<MetricsView>) -> Seq<Seq<char>> {
    ms.map_values(|m: MetricsView| json_of_metrics(m))
}

/// The document text of one edge: a two-element array of node indices.
pub open spec fn json_of_edge(e: (int, int)) -> Seq<char> {
    "["@ + dec_of(e.0 as nat) + ","@ + dec_of(e.1 as nat) + "]"@
}

/// The document texts of the edges, in order.
pub open spec fn edge_jsons(es: Seq<(int, int)>) -> Seq<Seq<char>> {
    es.map_values(|e: (int, int)| json_of_edge(e))
}

/// Appends the document text of one metrics record.
#[verifier::rlimit(100)]
pub fn push_metrics(out: &mut String, m: &NoteMetrics)
    ensures
        final(out)@ == old(out)@ + json_of_metrics(m@),
{
    out.append("{\"id\":");
    push_dec(out, m.id);
    out.append(",\"count_word_in_content\":");
    push_dec(out, m.count_word_in_content);
    out.append(",\"count_symbols_in_content\":");
    push_dec(out, m.count_symbols_in_content);
    out.append(",\"count_yaml_field\":");
    push_dec(out, m.count_yaml_field);
    out.append(",\"count_word_in_note_name\":");
    push_dec(out, m.count_word_in_note_name);
    out.append(",\"count_symbols_in_note_name\":");
    push_dec(out, m.count_symbols_in_note_name);
    out.append(",\"path_depth\":");
    push_dec(out, m.path_depth);
    out.append(",\"path_len\":");
    push_dec(out, m.path_len);
    out.append(",\"aliases\":");
    push_dec(out, m.aliases);
    out.append(",\"todos\":");
    push_dec(out, m.todos);
    out.append("}");
    proof {
        assert(out@ =~= old(out)@ + json_of_metrics(m@));
    }
}

/// Appends the document text of one edge.
pub fn push_edge(out: &mut String, e: (usize, usize))
    ensures
        final(out)@ == old(out)@ + json_of_edge((e.0 as int, e.1 as int)),
{
    out.append("[");
    push_dec(out, e.0);
    out.append(",");
    push_dec(out, e.1);
    out.append("]");
    proof {
        assert(out@ =~= old(out)@ + json_of_edge((e.0 as int, e.1 as int)));
    }
}

/// Appends the records as a comma-joined array body.
pub fn push_metrics_array(out: &mut String, items: &Vec<NoteMetrics>)
    ensures
        final(out)@ == old(out)@ + join_comma(metrics_jsons(items.deep_view())),
{
    let ghost parts = metrics_jsons(items.deep_view());
    let len = items.len();
    let mut i: usize = 0;
    proof {
        assert(parts.len() == len);
        assert(parts.take(0) =~= Seq::<Seq<char>>::empty());
        assert(out@ =~= old(out)@ + join_comma(parts.take(0)));
    }
    while i < len
        invariant
            parts == metrics_jsons(items.deep_view()),
            parts.len() == len,
            len == items@.len(),
            i <= len,
            out@ == old(out)@ + join_comma(parts.take(i as int)),
        decreases len - i,
    {
        if i > 0 {
            out.append(",");
        }
        push_metrics(out, &items[i]);
        proof {
            assert(items.deep_view()[i as int] == items@[i as int]@);
            assert(parts[i as int] == json_of_metrics(items@[i as int]@));
            assert(parts.take(i + 1).drop_last() =~= parts.take(i as int));
            assert(parts.take(i + 1).last() == parts[i as int]);
            assert(out@ =~= old(out)@ + join_comma(parts.take(i + 1)));
        }
        i += 1;
    }
    proof {
        assert(parts.take(len as int) =~= parts);
    }
}

/// Appends the edges as a comma-joined array body.
pub fn push_edge_array(out: &mut String, edges: &Vec<(usize, usize)>)
    ensures
        final(out)@ == old(out)@ + join_comma(edge_jsons(crate::graph::edge_views(edges@))),
{
    let ghost parts = edge_jsons(crate::graph::edge_views(edges@));
    let len = edges.len();
    let mut i: usize = 0;
    proof {
        assert(parts.len() == len);
        assert(parts.take(0) =~= Seq::<Seq<char>>::empty());
        assert(out@ =~= old(out)@ + join_comma(parts.take(0)));
    }
    while i < len
        invariant
            parts == edge_jsons(crate::graph::edge_views(edges@)),
            parts.len() == len,
            len == edges@.len(),
            i <= len,
            out@ == old(out)@ + join_comma(parts.take(i as int)),
        decreases len - i,
    {
        if i > 0 {
            out.append(",");
        }
        let e = edges[i];
        push_edge(out, e);
        proof {
            assert(crate::graph::edge_views(edges@)[i as int] == (
                edges@[i as int].0 as int,
                edges@[i as int].1 as int,
            ));
            assert(parts[i as int] == json_of_edge(
                (edges@[i as int].0 as int, edges@[i as int].1 as int),
            ));
            assert(parts.take(i + 1).drop_last() =~= parts.take(i as int));
            assert(parts.take(i + 1).last() == parts[i as int]);
            assert(out@ =~= old(out)@ + join_comma(parts.take(i + 1)));
        }
        i += 1;
    }
    proof {
        assert(parts.take(len as int) =~= parts);
    }
}

} // verus!
