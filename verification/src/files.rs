use vstd::prelude::*;
use crate::text::{chars_eq, chars_of, string_from_chars, sub_chars};

verus! {

// ---------------------------------------------------------------------
// File names.
// ---------------------------------------------------------------------

/// Index of the last `c` in `s`.
pub open spec fn last_index_of(s: Seq<char>, c: char) -> Option<int>
    decreases s.len(),
{
    if s.len() == 0 {
        None
    } else if s.last() == c {
        Some(s.len() - 1)
    } else {
        last_index_of(s.drop_last(), c)
    }
}

pub proof fn lemma_last_index_of(s: Seq<char>, c: char)
    ensures
        last_index_of(s, c) matches Some(i) ==> 0 <= i < s.len() && s[i] == c && forall|j: int|
            i < j < s.len() ==> s[j] != c,
        last_index_of(s, c) is None ==> forall|j: int| 0 <= j < s.len() ==> s[j] != c,
    decreases s.len(),
{
    if s.len() > 0 && s.last() != c {
        lemma_last_index_of(s.drop_last(), c);
        if last_index_of(s, c) is None {
            assert forall|j: int| 0 <= j < s.len() implies s[j] != c by {
                if j < s.len() - 1 {
                    assert(s[j] == s.drop_last()[j]);
                }
            }
        } else {
            let i = last_index_of(s, c)->0;
            assert forall|j: int| i < j < s.len() implies s[j] != c by {
                if j < s.len() - 1 {
                    assert(s[j] == s.drop_last()[j]);
                }
            }
        }
    }
}

/// The last `c` of `s` is at `k` when `s[k]` is `c` and none follows.
pub proof fn lemma_last_index_of_at(s: Seq<char>, c: char, k: int)
    requires
        0 <= k < s.len(),
        s[k] == c,
        forall|j: int| k < j < s.len() ==> s[j] != c,
    ensures
        last_index_of(s, c) == Some(k),
    decreases s.len(),
{
    if k < s.len() - 1 {
        let t = s.drop_last();
        assert forall|j: int| k < j < t.len() implies t[j] != c by {
            assert(t[j] == s[j]);
        }
        lemma_last_index_of_at(t, c, k);
    }
}

/// The stem of a file name, as `Path::file_stem` gives it: the name before
/// its last `.`, or the whole name when it has no `.` other than a leading
/// one. `..` names no file, so `Path::file_stem` gives no stem for it; here
/// it stands for itself.
pub open spec fn file_stem(f: Seq<char>) -> Seq<char> {
    if f == seq!['.', '.'] {
        f
    } else {
        match last_index_of(f, '.') {
            None => f,
            Some(i) => if i == 0 {
                f
            } else {
                f.take(i)
            },
        }
    }
}

/// `Path::extension` of a file name: what follows its last `.`, unless
/// that `.` is the first character (or the name is `..`).
pub open spec fn file_extension(f: Seq<char>) -> Option<Seq<char>> {
    if f == seq!['.', '.'] {
        None
    } else {
        match last_index_of(f, '.') {
            None => None,
            Some(i) => if i == 0 {
                None
            } else {
                Some(f.skip(i + 1))
            },
        }
    }
}

fn last_index(v: &Vec<char>, c: char) -> (r: Option<usize>)
    ensures
        match r {
            Some(i) => last_index_of(v@, c) == Some(i as int),
            None => last_index_of(v@, c) is None,
        },
{
    let mut k = v.len();
    assert(v@.take(k as int) =~= v@);
    while k > 0
        invariant
            k <= v@.len(),
            last_index_of(v@, c) == last_index_of(v@.take(k as int), c),
        decreases k,
    {
        let ghost t = v@.take(k as int);
        if v[k - 1] == c {
            assert(t.last() == v@[k - 1]);
            return Some(k - 1);
        }
        assert(t.drop_last() =~= v@.take(k - 1));
        k = k - 1;
    }
    None
}

/// The stem and extension of a file name (`Path::file_stem` and
/// `Path::extension`; for `..`, see `file_stem`).
pub fn split_file_name(name: &Vec<char>) -> (r: (Vec<char>, Option<Vec<char>>))
    ensures
        r.0@ == file_stem(name@),
        match r.1 {
            Some(e) => file_extension(name@) == Some(e@),
            None => file_extension(name@) is None,
        },
{
    assert(name@.take(name@.len() as int) =~= name@);
    let n = name.len();
    if chars_eq(name, &['.', '.']) {
        return (sub_chars(name, 0, n), None);
    }
    proof {
        lemma_last_index_of(name@, '.');
    }
    match last_index(name, '.') {
        None => (sub_chars(name, 0, n), None),
        Some(i) => {
            if i == 0 {
                (sub_chars(name, 0, n), None)
            } else {
                let stem = sub_chars(name, 0, i);
                let ext = sub_chars(name, i + 1, n);
                assert(stem@ =~= name@.take(i as int));
                assert(ext@ =~= name@.skip(i + 1));
                (stem, Some(ext))
            }
        },
    }
}

/// The map a directory entry holds: the stem of a `*.mpht` file.
pub open spec fn map_name_of_entry(f: Seq<char>) -> Option<Seq<char>> {
    if file_extension(f) == Some(seq!['m', 'p', 'h', 't']) {
        Some(file_stem(f))
    } else {
        None
    }
}

/// Map names found among directory entries, in entry order.
pub open spec fn map_names_in(entries: Seq<Seq<char>>) -> Seq<Seq<char>>
    decreases entries.len(),
{
    if entries.len() == 0 {
        Seq::empty()
    } else {
        let rest = map_names_in(entries.drop_last());
        match map_name_of_entry(entries.last()) {
            Some(n) => rest.push(n),
            None => rest,
        }
    }
}

/// The map name a directory entry stands for, if it is a `.mpht` file.
pub fn map_name_of_file(file_name: &str) -> (r: Option<String>)
    ensures
        match r {
            Some(s) => map_name_of_entry(file_name@) == Some(s@),
            None => map_name_of_entry(file_name@) is None,
        },
{
    let chars = chars_of(file_name);
    let (stem, ext) = split_file_name(&chars);
    match ext {
        Some(e) => {
            if chars_eq(&e, &['m', 'p', 'h', 't']) {
                Some(string_from_chars(&stem))
            } else {
                None
            }
        },
        None => None,
    }
}

/// The text after the last `/` of a path (all of it when it has none).
pub open spec fn last_segment(path: Seq<char>) -> Seq<char> {
    match last_index_of(path, '/') {
        None => path,
        Some(i) => path.skip(i + 1),
    }
}

/// The stem of the last segment of a `/`-separated path: what
/// `Path::file_stem` gives for a path that ends in a file name.
pub fn path_file_stem(path: &str) -> (r: String)
    ensures
        r@ == file_stem(last_segment(path@)),
{
    let chars = chars_of(path);
    let n = chars.len();
    let segment = match last_index(&chars, '/') {
        None => sub_chars(&chars, 0, n),
        Some(i) => {
            proof {
                lemma_last_index_of(chars@, '/');
            }
            sub_chars(&chars, i + 1, n)
        },
    };
    assert(segment@ =~= last_segment(path@));
    let (stem, _ext) = split_file_name(&segment);
    string_from_chars(&stem)
}

} // verus!
