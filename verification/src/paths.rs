use vstd::prelude::*;
use vstd::string::StrSliceExecFns;
use vstd::string::StringExecFns;

verus! {

/// The index of the last occurrence of `c` in `s`.
pub open spec fn rfind(s: Seq<char>, c: char) -> Option<int>
    decreases s.len(),
{
    if s.len() == 0 {
        None
    } else if s[s.len() - 1] == c {
        Some(s.len() - 1)
    } else {
        rfind(s.take(s.len() - 1), c)
    }
}

/// The part of a path after its last separator: the whole path when it has
/// none.
pub open spec fn file_name_of(path: Seq<char>) -> Seq<char> {
    match rfind(path, '/') {
        Some(k) => path.skip(k + 1),
        None => path,
    }
}

/// A file name shorn of its extension: what follows the last dot is dropped,
/// unless that dot opens the name.
pub open spec fn stem_of(name: Seq<char>) -> Seq<char> {
    match rfind(name, '.') {
        Some(k) => if k > 0 {
            name.take(k)
        } else {
            name
        },
        None => name,
    }
}

/// A note's display name: the stem of the last path component.
pub open spec fn note_name_of(path: Seq<char>) -> Seq<char> {
    stem_of(file_name_of(path))
}

/// `s` without its leading separators.
pub open spec fn drop_leading_seps(s: Seq<char>) -> Seq<char>
    decreases s.len(),
{
    if s.len() > 0 && s[0] == '/' {
        drop_leading_seps(s.drop_first())
    } else {
        s
    }
}

/// The path relative to `root`: what follows the root prefix, shorn of the
/// separators that joined them. `None` when `path` does not lie under `root`.
pub open spec fn strip_root(path: Seq<char>, root: Seq<char>) -> Option<Seq<char>> {
    if path.len() >= root.len() && path.take(root.len() as int) == root && (root.len() == 0
        || path.len() == root.len() || path[root.len() as int] == '/' || root[root.len() - 1]
        == '/') {
        Some(drop_leading_seps(path.skip(root.len() as int)))
    } else {
        None
    }
}

/// The number of path segments: maximal runs of non-separator characters.
pub open spec fn seg_count_from(s: Seq<char>, prev_sep: bool) -> nat
    decreases s.len(),
{
    if s.len() == 0 {
        0
    } else {
        (if prev_sep && s[0] != '/' {
            1nat
        } else {
            0nat
        }) + seg_count_from(s.drop_first(), s[0] == '/')
    }
}

/// The depth of a relative path: how many segments it has.
pub open spec fn seg_count(s: Seq<char>) -> nat {
    seg_count_from(s, true)
}

/// A relative path with the extension of its final component removed.
pub open spec fn drop_ext_of(rel: Seq<char>) -> Seq<char> {
    match rfind(rel, '/') {
        Some(k) => rel.take(k + 1) + stem_of(rel.skip(k + 1)),
        None => stem_of(rel),
    }
}

/// The last position holding `c`, scanned from the end.
pub fn rfind_char(s: &str, c: char) -> (r: Option<usize>)
    ensures
        match r {
            Some(k) => k < s@.len() && rfind(s@, c) == Some(k as int),
            None => rfind(s@, c) is None,
        },
{
    let len = s.unicode_len();
    let mut i: usize = len;
    proof {
        assert(s@.take(len as int) =~= s@);
    }
    while i > 0
        invariant
            len == s@.len(),
            i <= len,
            rfind(s@, c) == rfind(s@.take(i as int), c),
        decreases i,
    {
        if s.get_char(i - 1) == c {
            proof {
                assert(s@.take(i as int)[i - 1] == s@[i - 1]);
            }
            return Some(i - 1);
        }
        proof {
            assert(s@.take(i as int).take(i - 1) =~= s@.take(i - 1));
            assert(s@.take(i as int)[i - 1] == s@[i - 1]);
        }
        i -= 1;
    }
    proof {
        assert(s@.take(0) =~= Seq::<char>::empty());
    }
    None
}

/// The stem of a file name: `name` without its extension.
pub fn stem_str(name: &str) -> (r: String)
    ensures
        r@ == stem_of(name@),
{
    match rfind_char(name, '.') {
        Some(k) => {
            if k > 0 {
                let head = name.substring_char(0, k);
                proof {
                    assert(head@ =~= name@.take(k as int));
                }
                String::from_str(head)
            } else {
                String::from_str(name)
            }
        },
        None => String::from_str(name),
    }
}

/// The display name of the note at `path`.
pub fn note_name(path: &str) -> (r: String)
    ensures
        r@ == note_name_of(path@),
{
    let len = path.unicode_len();
    match rfind_char(path, '/') {
        Some(k) => {
            let tail = path.substring_char(k + 1, len);
            proof {
                assert(tail@ =~= path@.skip(k + 1));
            }
            stem_str(tail)
        },
        None => stem_str(path),
    }
}

/// The path relative to the vault root, or `None` when `path` does not lie
/// under `root`.
pub fn strip_root_path(path: &str, root: &str) -> (r: Option<String>)
    ensures
        match r {
            Some(s) => strip_root(path@, root@) == Some(s@),
            None => strip_root(path@, root@) is None,
        },
{
    let plen = path.unicode_len();
    let rlen = root.unicode_len();
    if plen < rlen {
        return None;
    }
    let mut i: usize = 0;
    while i < rlen
        invariant
            plen == path@.len(),
            rlen == root@.len(),
            rlen <= plen,
            i <= rlen,
            forall|j: int| 0 <= j < i ==> path@[j] == root@[j],
        decreases rlen - i,
    {
        if path.get_char(i) != root.get_char(i) {
            proof {
                assert(path@.take(rlen as int)[i as int] == path@[i as int]);
            }
            return None;
        }
        i += 1;
    }
    proof {
        assert(path@.take(rlen as int) =~= root@);
    }
    let joined = rlen == 0 || plen == rlen || path.get_char(rlen) == '/' || root.get_char(rlen - 1)
        == '/';
    if !joined {
        return None;
    }
    let mut k: usize = rlen;
    proof {
        assert(path@.skip(rlen as int).skip(0) =~= path@.skip(rlen as int));
    }
    while k < plen && path.get_char(k) == '/'
        invariant
            plen == path@.len(),
            rlen <= k <= plen,
            drop_leading_seps(path@.skip(rlen as int)) == drop_leading_seps(
                path@.skip(k as int),
            ),
        decreases plen - k,
    {
        proof {
            assert(path@.skip(k as int)[0] == path@[k as int]);
            assert(path@.skip(k as int).drop_first() =~= path@.skip(k + 1));
        }
        k += 1;
    }
    proof {
        if k < plen {
            assert(path@.skip(k as int)[0] == path@[k as int]);
        }
        assert(drop_leading_seps(path@.skip(k as int)) == path@.skip(k as int));
    }
    let rest = path.substring_char(k, plen);
    Some(String::from_str(rest))
}

/// Path segments of `s`: runs split on the separator, empties collapsed.
pub fn count_segments(s: &str) -> (n: usize)
    ensures
        n == seg_count(s@),
{
    let len = s.unicode_len();
    let mut i: usize = 0;
    let mut prev_sep = true;
    let mut n: usize = 0;
    proof {
        assert(s@.skip(0) =~= s@);
    }
    while i < len
        invariant
            len == s@.len(),
            i <= len,
            n <= i,
            seg_count(s@) == n + seg_count_from(s@.skip(i as int), prev_sep),
        decreases len - i,
    {
        let c = s.get_char(i);
        let sep = c == '/';
        proof {
            assert(s@.skip(i as int).drop_first() =~= s@.skip(i + 1));
            assert(s@.skip(i as int)[0] == s@[i as int]);
        }
        if prev_sep && !sep {
            n += 1;
        }
        prev_sep = sep;
        i += 1;
    }
    n
}

/// `rel` with the final component's extension dropped, for keying the link
/// graph.
pub fn drop_extension(rel: &str) -> (r: String)
    ensures
        r@ == drop_ext_of(rel@),
{
    let len = rel.unicode_len();
    match rfind_char(rel, '/') {
        Some(k) => {
            let head = rel.substring_char(0, k + 1);
            let tail = rel.substring_char(k + 1, len);
            proof {
                assert(head@ =~= rel@.take(k + 1));
                assert(tail@ =~= rel@.skip(k + 1));
            }
            let stem = stem_str(tail);
            let mut out = String::from_str(head);
            out.append(stem.as_str());
            out
        },
        None => stem_str(rel),
    }
}

} // verus!
