use crate::note::{NoteMemoryOnly, NoteView};
use crate::paths::{drop_ext_of, strip_root};
use crate::vault::names_of;
use vstd::prelude::*;

verus! {

/// The note names targeted by the wiki-style links in a text, in order of
/// occurrence: a property of the text alone.
pub uninterp spec fn links_of(s: Seq<char>) -> Seq<Seq<char>>;

/// Relies on obsidian_parser::note::parser::parse_links: the link targets
/// found in a text, each shorn of heading, block and alias parts. The
/// outcome depends on the text alone and is named `links_of`.
#[verifier::external_body]
fn extract_links(content: &str) -> (r: Vec<String>)
    ensures
        r.deep_view() == links_of(content@),
{
    obsidian_parser::note::parser::parse_links(content).map(|s: &str| s.to_string()).collect()
}

/// The key a note contributes to the link index: its root-relative path
/// with the extension dropped.
pub open spec fn full_key_of(v: NoteView, root: Seq<char>) -> Seq<char> {
    drop_ext_of(strip_root(v.path, root)->Some_0)
}

/// All the notes' index keys, in model order.
pub open spec fn full_keys(vault: Seq<NoteView>, root: Seq<char>) -> Seq<Seq<char>> {
    vault.map_values(|v: NoteView| full_key_of(v, root))
}

/// The last position bearing `key`: later notes shadow earlier ones in the
/// full-path index.
pub open spec fn find_last(keys: Seq<Seq<char>>, key: Seq<char>) -> Option<int>
    decreases keys.len(),
{
    if keys.len() == 0 {
        None
    } else if keys[keys.len() - 1] == key {
        Some(keys.len() - 1)
    } else {
        find_last(keys.drop_last(), key)
    }
}

/// The first position bearing `key`: the first note to claim a short name
/// keeps it.
pub open spec fn find_first(keys: Seq<Seq<char>>, key: Seq<char>) -> Option<int>
    decreases keys.len(),
{
    if keys.len() == 0 {
        None
    } else if keys[0] == key {
        Some(0)
    } else {
        match find_first(keys.drop_first(), key) {
            Some(i) => Some(i + 1),
            None => None,
        }
    }
}

/// Whether a link names a path rather than a bare note name.
pub open spec fn has_slash(s: Seq<char>) -> bool {
    exists|i: int| 0 <= i < s.len() && s[i] == '/'
}

/// Where a link points: path-shaped links resolve through the full-path
/// index, last note winning; bare names through the short index, first
/// note winning. `None` for a link into the void.
pub open spec fn resolve_link(
    fulls: Seq<Seq<char>>,
    names: Seq<Seq<char>>,
    link: Seq<char>,
) -> Option<int> {
    if has_slash(link) {
        find_last(fulls, link)
    } else {
        find_first(names, link)
    }
}

/// The edges one note contributes: one per resolvable link, from the
/// note's own node, in link order.
pub open spec fn edges_for_note(
    fulls: Seq<Seq<char>>,
    names: Seq<Seq<char>>,
    links: Seq<Seq<char>>,
    src: int,
) -> Seq<(int, int)>
    decreases links.len(),
{
    if links.len() == 0 {
        Seq::empty()
    } else {
        let rest = edges_for_note(fulls, names, links.drop_first(), src);
        match resolve_link(fulls, names, links[0]) {
            Some(dst) => seq![(src, dst)] + rest,
            None => rest,
        }
    }
}

/// The edges of note `i`: sourced at the node its full key resolves to,
/// one per resolvable link of its body.
pub open spec fn edges_src(vault: Seq<NoteView>, root: Seq<char>, i: int) -> Seq<(int, int)> {
    let fulls = full_keys(vault, root);
    match find_last(fulls, fulls[i]) {
        Some(src) => edges_for_note(fulls, names_of(vault), links_of(vault[i].content), src),
        None => Seq::empty(),
    }
}

/// The edges contributed by the first `k` notes, in note order.
pub open spec fn graph_edges_upto(vault: Seq<NoteView>, root: Seq<char>, k: int) -> Seq<
    (int, int),
>
    decreases k,
{
    if k <= 0 {
        Seq::empty()
    } else {
        graph_edges_upto(vault, root, k - 1) + edges_src(vault, root, k - 1)
    }
}

/// Every directed link edge of the model: note order, then link order.
pub open spec fn graph_edges(vault: Seq<NoteView>, root: Seq<char>) -> Seq<(int, int)> {
    graph_edges_upto(vault, root, vault.len() as int)
}

/// The edge list seen as mathematical pairs.
pub open spec fn edge_views(edges: Seq<(usize, usize)>) -> Seq<(int, int)> {
    edges.map_values(|e: (usize, usize)| (e.0 as int, e.1 as int))
}

/// Scans for a separator.
fn has_slash_str(s: &str) -> (r: bool)
    ensures
        r == has_slash(s@),
{
    let len = s.unicode_len();
    let mut i: usize = 0;
    while i < len
        invariant
            len == s@.len(),
            i <= len,
            forall|j: int| 0 <= j < i ==> s@[j] != '/',
        decreases len - i,
    {
        if s.get_char(i) == '/' {
            return true;
        }
        i += 1;
    }
    false
}

/// The last position in `keys` holding `key`.
fn find_last_str(keys: &Vec<String>, key: &String) -> (r: Option<usize>)
    ensures
        match r {
            Some(i) => i < keys@.len() && find_last(keys.deep_view(), key@) == Some(i as int),
            None => find_last(keys.deep_view(), key@) is None,
        },
{
    let ghost ks = keys.deep_view();
    let mut i: usize = keys.len();
    proof {
        assert(ks.take(keys@.len() as int) =~= ks);
    }
    while i > 0
        invariant
            ks == keys.deep_view(),
            ks.len() == keys@.len(),
            i <= keys@.len(),
            find_last(ks, key@) == find_last(ks.take(i as int), key@),
        decreases i,
    {
        proof {
            assert(ks[i - 1] == keys@[i - 1]@);
            assert(ks.take(i as int)[i - 1] == ks[i - 1]);
            assert(ks.take(i as int).drop_last() =~= ks.take(i - 1));
        }
        if keys[i - 1].eq(key) {
            return Some(i - 1);
        }
        i -= 1;
    }
    proof {
        assert(ks.take(0) =~= Seq::<Seq<char>>::empty());
    }
    None
}

/// The first position in `keys` holding `key`.
fn find_first_str(keys: &Vec<String>, key: &String) -> (r: Option<usize>)
    ensures
        match r {
            Some(i) => i < keys@.len() && find_first(keys.deep_view(), key@) == Some(i as int),
            None => find_first(keys.deep_view(), key@) is None,
        },
{
    let ghost ks = keys.deep_view();
    let len = keys.len();
    let mut i: usize = 0;
    while i < len
        invariant
            ks == keys.deep_view(),
            ks.len() == len,
            len == keys@.len(),
            i <= len,
            forall|j: int| 0 <= j < i ==> ks[j] != key@,
        decreases len - i,
    {
        proof {
            assert(ks[i as int] == keys@[i as int]@);
        }
        if keys[i].eq(key) {
            proof {
                lemma_find_first_at(ks, key@, i as int);
            }
            return Some(i);
        }
        i += 1;
    }
    proof {
        lemma_find_first_none(ks, key@);
    }
    None
}

proof fn lemma_find_first_at(keys: Seq<Seq<char>>, key: Seq<char>, i: int)
    requires
        0 <= i < keys.len(),
        forall|j: int| 0 <= j < i ==> keys[j] != key,
        keys[i] == key,
    ensures
        find_first(keys, key) == Some(i),
    decreases i,
{
    if i > 0 {
        lemma_find_first_at(keys.drop_first(), key, i - 1);
    }
}

proof fn lemma_find_first_none(keys: Seq<Seq<char>>, key: Seq<char>)
    requires
        forall|j: int| 0 <= j < keys.len() ==> keys[j] != key,
    ensures
        find_first(keys, key) is None,
    decreases keys.len(),
{
    if keys.len() > 0 {
        lemma_find_first_none(keys.drop_first(), key);
    }
}

/// Computes every note's index key, in model order.
fn build_full_keys(model: &Vec<NoteMemoryOnly>, root: &str) -> (fulls: Vec<String>)
    requires
        forall|i: int|
            0 <= i < model.deep_view().len() ==> strip_root(
                #[trigger] model.deep_view()[i].path,
                root@,
            ) is Some,
    ensures
        fulls.deep_view() == full_keys(model.deep_view(), root@),
        fulls@.len() == model@.len(),
{
    let mut fulls: Vec<String> = Vec::new();
    let len = model.len();
    let mut i: usize = 0;
    while i < len
        invariant
            len == model@.len(),
            i <= len,
            fulls@.len() == i,
            forall|q: int|
                0 <= q < model.deep_view().len() ==> strip_root(
                    #[trigger] model.deep_view()[q].path,
                    root@,
                ) is Some,
            forall|j: int| 0 <= j < i ==> fulls@[j]@ == full_key_of(#[trigger] model@[j]@, root@),
        decreases len - i,
    {
        proof {
            assert(model.deep_view()[i as int] == model@[i as int]@);
        }
        let rel = match crate::paths::strip_root_path(model[i].path().as_str(), root) {
            Some(r) => r,
            None => {
                proof {
                    assert(false);
                }
                String::new()
            },
        };
        let key = crate::paths::drop_extension(rel.as_str());
        fulls.push(key);
        i += 1;
    }
    proof {
        assert forall|j: int|
            0 <= j < fulls.deep_view().len() implies fulls.deep_view()[j] == full_keys(
            model.deep_view(),
            root@,
        )[j] by {
            assert(fulls.deep_view()[j] == fulls@[j]@);
            assert(full_keys(model.deep_view(), root@)[j] == full_key_of(model@[j]@, root@));
        }
        assert(fulls.deep_view() =~= full_keys(model.deep_view(), root@));
    }
    fulls
}

/// Builds the directed link edges of the model: for each note in order,
/// one edge per link of its body that resolves, sourced at the node its
/// own full key resolves to.
pub fn build_edges(model: &Vec<NoteMemoryOnly>, root: &str) -> (edges: Vec<(usize, usize)>)
    requires
        forall|i: int|
            0 <= i < model.deep_view().len() ==> strip_root(
                #[trigger] model.deep_view()[i].path,
                root@,
            ) is Some,
    ensures
        edge_views(edges@) == graph_edges(model.deep_view(), root@),
{
    let ghost vault = model.deep_view();
    let fulls = build_full_keys(model, root);
    let names = crate::vault::model_names(model);
    let mut edges: Vec<(usize, usize)> = Vec::new();
    let len = model.len();
    let mut i: usize = 0;
    proof {
        assert(edge_views(edges@) =~= graph_edges_upto(vault, root@, 0));
    }
    while i < len
        invariant
            vault == model.deep_view(),
            len == model@.len(),
            vault.len() == len,
            i <= len,
            fulls.deep_view() == full_keys(vault, root@),
            fulls@.len() == len,
            names.deep_view() == names_of(vault),
            edge_views(edges@) == graph_edges_upto(vault, root@, i as int),
        decreases len - i,
    {
        let ghost fks = full_keys(vault, root@);
        let src_opt = find_last_str(&fulls, &fulls[i]);
        proof {
            assert(fulls.deep_view()[i as int] == fulls@[i as int]@);
        }
        match src_opt {
            Some(src) => {
                let links = extract_links(model[i].content().as_str());
                proof {
                    assert(model.deep_view()[i as int] == model@[i as int]@);
                }
                let ghost lks = links_of(vault[i as int].content);
                let nlinks = links.len();
                let mut j: usize = 0;
                let ghost pre = edge_views(edges@);
                proof {
                    assert(lks.skip(0) =~= lks);
                    assert(pre + edges_for_note(fks, names_of(vault), lks.skip(0), src as int)
                        =~= pre + edges_for_note(fks, names_of(vault), lks, src as int));
                }
                while j < nlinks
                    invariant
                        vault == model.deep_view(),
                        fulls.deep_view() == full_keys(vault, root@),
                        fulls@.len() == len,
                        names.deep_view() == names_of(vault),
                        fks == full_keys(vault, root@),
                        links.deep_view() == lks,
                        nlinks == links@.len(),
                        j <= nlinks,
                        src < len,
                        len == vault.len(),
                        pre + edges_for_note(fks, names_of(vault), lks, src as int) == edge_views(
                            edges@,
                        ) + edges_for_note(fks, names_of(vault), lks.skip(j as int), src as int),
                    decreases nlinks - j,
                {
                    proof {
                        assert(links.deep_view()[j as int] == links@[j as int]@);
                        assert(lks.skip(j as int)[0] == lks[j as int]);
                        assert(lks.skip(j as int).drop_first() =~= lks.skip(j + 1));
                    }
                    let link = &links[j];
                    let dst_opt = if has_slash_str(link.as_str()) {
                        find_last_str(&fulls, link)
                    } else {
                        find_first_str(&names, link)
                    };
                    proof {
                        assert(names.deep_view().len() == vault.len());
                    }
                    let ghost before = edge_views(edges@);
                    match dst_opt {
                        Some(dst) => {
                            edges.push((src, dst));
                            proof {
                                assert(resolve_link(fks, names_of(vault), lks[j as int])
                                    == Some(dst as int));
                                assert(edge_views(edges@) =~= before + seq![
                                    (src as int, dst as int),
                                ]);
                                assert(edge_views(edges@) + edges_for_note(
                                    fks,
                                    names_of(vault),
                                    lks.skip(j + 1),
                                    src as int,
                                ) =~= before + edges_for_note(
                                    fks,
                                    names_of(vault),
                                    lks.skip(j as int),
                                    src as int,
                                ));
                            }
                        },
                        None => {
                            proof {
                                assert(resolve_link(fks, names_of(vault), lks[j as int]) is None);
                            }
                        },
                    }
                    j += 1;
                }
                proof {
                    assert(lks.skip(nlinks as int) =~= Seq::<Seq<char>>::empty());
                    assert(edge_views(edges@) =~= pre + edges_src(vault, root@, i as int));
                }
            },
            None => {
                proof {
                    assert(edges_src(vault, root@, i as int) =~= Seq::<(int, int)>::empty());
                }
            },
        }
        i += 1;
    }
    edges
}

} // verus!
