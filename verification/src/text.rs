use vstd::prelude::*;
use vstd::string::StrSliceExecFns;

verus! {

/// Whether a character is Unicode white space, as `char::is_whitespace`
/// decides it: a property of the character alone.
pub uninterp spec fn is_space(c: char) -> bool;

/// Relies on char::is_whitespace of std: the result depends on the
/// character alone and is named `is_space`.
pub assume_specification[ char::is_whitespace ](c: char) -> (r: bool)
    ensures
        r == is_space(c),
;

/// The number of words in `s` counted from a position where the previous
/// character was white space iff `prev_space`: a word begins at each
/// non-space character that follows a space or the start.
pub open spec fn word_count_from(s: Seq<char>, prev_space: bool) -> nat
    decreases s.len(),
{
    if s.len() == 0 {
        0
    } else {
        (if prev_space && !is_space(s[0]) {
            1nat
        } else {
            0nat
        }) + word_count_from(s.drop_first(), is_space(s[0]))
    }
}

/// The number of maximal runs of non-space characters in `s`.
pub open spec fn word_count(s: Seq<char>) -> nat {
    word_count_from(s, true)
}

/// Words in `s`, split on runs of white space: leading, trailing and
/// repeated white space yields no empty word.
pub fn count_words(s: &str) -> (n: usize)
    ensures
        n == word_count(s@),
{
    let len = s.unicode_len();
    let mut i: usize = 0;
    let mut prev_space = true;
    let mut n: usize = 0;
    proof {
        assert(s@.skip(0) =~= s@);
    }
    while i < len
        invariant
            len == s@.len(),
            i <= len,
            n <= i,
            word_count(s@) == n + word_count_from(s@.skip(i as int), prev_space),
        decreases len - i,
    {
        let c = s.get_char(i);
        let sp = c.is_whitespace();
        proof {
            assert(s@.skip(i as int).drop_first() =~= s@.skip(i + 1));
            assert(s@.skip(i as int)[0] == s@[i as int]);
        }
        if prev_space && !sp {
            n += 1;
        }
        prev_space = sp;
        i += 1;
    }
    n
}

/// Whether the marker `#todo` stands at the start of `s`.
pub open spec fn todo_at_start(s: Seq<char>) -> bool {
    s.len() >= 5 && s[0] == '#' && s[1] == 't' && s[2] == 'o' && s[3] == 'd' && s[4] == 'o'
}

/// The number of occurrences of the marker `#todo` in `s`, counted left to
/// right without overlap.
pub open spec fn todo_marks(s: Seq<char>) -> nat
    decreases s.len(),
{
    if s.len() < 5 {
        0
    } else if todo_at_start(s) {
        1 + todo_marks(s.skip(5))
    } else {
        todo_marks(s.drop_first())
    }
}

/// An occurrence consumes five characters, so there are at most `len / 5`.
pub proof fn lemma_todo_marks_le(s: Seq<char>)
    ensures
        5 * todo_marks(s) <= s.len(),
    decreases s.len(),
{
    if s.len() >= 5 {
        if todo_at_start(s) {
            lemma_todo_marks_le(s.skip(5));
        } else {
            lemma_todo_marks_le(s.drop_first());
        }
    }
}

/// Occurrences of `#todo` in `s`, non-overlapping, left to right.
pub fn count_todo_marks(s: &str) -> (n: usize)
    ensures
        n == todo_marks(s@),
{
    let len = s.unicode_len();
    let mut i: usize = 0;
    let mut n: usize = 0;
    proof {
        assert(s@.skip(0) =~= s@);
    }
    while i < len
        invariant
            len == s@.len(),
            i <= len,
            5 * n <= i,
            todo_marks(s@) == n + todo_marks(s@.skip(i as int)),
        decreases len - i,
    {
        let room = len - i > 4;
        proof {
            if room {
                assert(s@.skip(i as int)[0] == s@[i as int]);
                assert(s@.skip(i as int)[1] == s@[i + 1]);
                assert(s@.skip(i as int)[2] == s@[i + 2]);
                assert(s@.skip(i as int)[3] == s@[i + 3]);
                assert(s@.skip(i as int)[4] == s@[i + 4]);
            }
        }
        let here = room && s.get_char(i) == '#' && s.get_char(i + 1) == 't' && s.get_char(i + 2)
            == 'o' && s.get_char(i + 3) == 'd' && s.get_char(i + 4) == 'o';
        if here {
            proof {
                assert(todo_at_start(s@.skip(i as int)));
                assert(s@.skip(i as int).skip(5) =~= s@.skip(i + 5));
            }
            n += 1;
            i += 5;
        } else {
            proof {
                assert(!todo_at_start(s@.skip(i as int)));
                assert(s@.skip(i as int).drop_first() =~= s@.skip(i + 1));
            }
            i += 1;
        }
    }
    n
}

/// The sum of two counts, held at `usize::MAX` where it would not fit.
pub open spec fn sat_add_spec(a: nat, b: nat) -> nat {
    if a + b > usize::MAX {
        usize::MAX as nat
    } else {
        a + b
    }
}

/// Adds two counts, saturating at `usize::MAX`.
pub fn sat_add(a: usize, b: usize) -> (r: usize)
    ensures
        r == sat_add_spec(a as nat, b as nat),
{
    if a <= usize::MAX - b {
        a + b
    } else {
        usize::MAX
    }
}

} // verus!
