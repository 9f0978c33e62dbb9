use vstd::prelude::*;
use vstd::relations::sorted_by;

verus! {

/// `String::push`: appends one character.
#[verifier::external_body]
fn push_char(s: &mut String, c: char)
    ensures
        final(s)@ == old(s)@.push(c),
{
    s.push(c);
}

/// The characters of `s`, in order.
pub fn chars_of(s: &str) -> (v: Vec<char>)
    ensures
        v@ == s@,
{
    let mut v: Vec<char> = Vec::new();
    for c in it: s.chars()
        invariant
            v@ == it.seq().take(it.index()),
    {
        v.push(c);
    }
    proof {
        broadcast use vstd::string::group_string_axioms;
    }
    assert(v@ =~= s@);
    v
}


/// The string made of the characters of `v`, in order.
pub fn string_from_chars(v: &Vec<char>) -> (s: String)
    ensures
        s@ == v@,
{
    let mut s = String::new();
    let n = v.len();
    let mut i: usize = 0;
    while i < n
        invariant
            n == v@.len(),
            i <= n,
            s@ == v@.take(i as int),
        decreases n - i,
    {
        push_char(&mut s, v[i]);
        i = i + 1;
        assert(s@ =~= v@.take(i as int));
    }
    assert(v@.take(n as int) =~= v@);
    s
}

/// Unicode `White_Space`, which is what `char::is_whitespace` tests.
pub open spec fn is_ws(c: char) -> bool {
    let u = c as u32;
    (0x9 <= u && u <= 0xD) || u == 0x20 || u == 0x85 || u == 0xA0 || u == 0x1680 || (0x2000 <= u
        && u <= 0x200A) || u == 0x2028 || u == 0x2029 || u == 0x202F || u == 0x205F || u == 0x3000
}

/// Whether `c` is whitespace (Unicode `White_Space`).
pub fn is_whitespace(c: char) -> (b: bool)
    ensures
        b == is_ws(c),
{
    let u = c as u32;
    (0x9 <= u && u <= 0xD) || u == 0x20 || u == 0x85 || u == 0xA0 || u == 0x1680 || (0x2000 <= u
        && u <= 0x200A) || u == 0x2028 || u == 0x2029 || u == 0x202F || u == 0x205F || u == 0x3000
}

/// Number of whitespace characters `s` starts with.
pub open spec fn leading_ws(s: Seq<char>) -> nat
    decreases s.len(),
{
    if s.len() > 0 && is_ws(s[0]) {
        1 + leading_ws(s.drop_first())
    } else {
        0
    }
}

/// Number of whitespace characters `s` ends with.
pub open spec fn trailing_ws(s: Seq<char>) -> nat
    decreases s.len(),
{
    if s.len() > 0 && is_ws(s.last()) {
        1 + trailing_ws(s.drop_last())
    } else {
        0
    }
}

/// `str::trim_start`.
pub open spec fn trim_start(s: Seq<char>) -> Seq<char> {
    s.skip(leading_ws(s) as int)
}

/// `str::trim`.
pub open spec fn trim(s: Seq<char>) -> Seq<char> {
    let t = trim_start(s);
    t.take(t.len() - trailing_ws(t))
}

/// Number of non-whitespace characters `s` starts with.
pub open spec fn word_len(s: Seq<char>) -> nat
    decreases s.len(),
{
    if s.len() > 0 && !is_ws(s[0]) {
        1 + word_len(s.drop_first())
    } else {
        0
    }
}

/// `str::split_whitespace`: the maximal runs of non-whitespace
/// characters, in order.
pub open spec fn words(s: Seq<char>) -> Seq<Seq<char>>
    decreases s.len(),
{
    let t = trim_start(s);
    if t.len() == 0 {
        Seq::empty()
    } else {
        let k = word_len(t);
        proof {
            lemma_leading_ws(s);
            assert(t[0] == s[leading_ws(s) as int]);
            lemma_word_len(t);
        }
        seq![t.take(k as int)] + words(t.skip(k as int))
    }
}

pub proof fn lemma_leading_ws(s: Seq<char>)
    ensures
        leading_ws(s) <= s.len(),
        forall|j: int| 0 <= j < leading_ws(s) ==> is_ws(#[trigger] s[j]),
        leading_ws(s) < s.len() ==> !is_ws(s[leading_ws(s) as int]),
    decreases s.len(),
{
    if s.len() > 0 && is_ws(s[0]) {
        lemma_leading_ws(s.drop_first());
        assert forall|j: int| 0 <= j < leading_ws(s) implies is_ws(#[trigger] s[j]) by {
            if j > 0 {
                assert(s[j] == s.drop_first()[j - 1]);
            }
        }
    }
}

pub proof fn lemma_trailing_ws(s: Seq<char>)
    ensures
        trailing_ws(s) <= s.len(),
        forall|j: int| s.len() - trailing_ws(s) <= j < s.len() ==> is_ws(#[trigger] s[j]),
        trailing_ws(s) < s.len() ==> !is_ws(s[s.len() - trailing_ws(s) - 1]),
    decreases s.len(),
{
    if s.len() > 0 && is_ws(s.last()) {
        lemma_trailing_ws(s.drop_last());
        assert forall|j: int| s.len() - trailing_ws(s) <= j < s.len() implies is_ws(#[trigger] s[j]) by {
            if j < s.len() - 1 {
                assert(s[j] == s.drop_last()[j]);
            }
        }
    }
}

pub proof fn lemma_word_len(s: Seq<char>)
    ensures
        word_len(s) <= s.len(),
        forall|j: int| 0 <= j < word_len(s) ==> !is_ws(#[trigger] s[j]),
        word_len(s) < s.len() ==> is_ws(s[word_len(s) as int]),
    decreases s.len(),
{
    if s.len() > 0 && !is_ws(s[0]) {
        lemma_word_len(s.drop_first());
        assert forall|j: int| 0 <= j < word_len(s) implies !is_ws(#[trigger] s[j]) by {
            if j > 0 {
                assert(s[j] == s.drop_first()[j - 1]);
            }
        }
    }
}

/// `leading_ws` of a suffix that starts inside a whitespace run.
proof fn lemma_leading_ws_skip(s: Seq<char>, i: int)
    requires
        0 <= i <= leading_ws(s),
    ensures
        leading_ws(s.skip(i)) == leading_ws(s) - i,
    decreases i,
{
    lemma_leading_ws(s);
    if i > 0 {
        lemma_leading_ws_skip(s, i - 1);
        let t = s.skip(i - 1);
        assert(t[0] == s[i - 1]);
        assert(t.len() > 0 && is_ws(t[0]));
        assert(t.drop_first() =~= s.skip(i));
        assert(leading_ws(t) == 1 + leading_ws(t.drop_first()));
    } else {
        assert(s.skip(0) =~= s);
    }
}

/// `word_len` of a suffix that starts inside a word.
proof fn lemma_word_len_skip(s: Seq<char>, i: int)
    requires
        0 <= i <= word_len(s),
    ensures
        word_len(s.skip(i)) == word_len(s) - i,
    decreases i,
{
    lemma_word_len(s);
    if i > 0 {
        lemma_word_len_skip(s, i - 1);
        let t = s.skip(i - 1);
        assert(t[0] == s[i - 1]);
        assert(t.len() > 0 && !is_ws(t[0]));
        assert(t.drop_first() =~= s.skip(i));
        assert(word_len(t) == 1 + word_len(t.drop_first()));
    } else {
        assert(s.skip(0) =~= s);
    }
}

/// Index of the first non-whitespace character of `v` at or after `from`
/// (or `v.len()`).
fn skip_ws(v: &Vec<char>, from: usize) -> (k: usize)
    requires
        from <= v@.len(),
    ensures
        from <= k <= v@.len(),
        k - from == leading_ws(v@.skip(from as int)),
{
    let n = v.len();
    let mut k = from;
    proof {
        lemma_leading_ws(v@.skip(from as int));
    }
    while k < n && is_whitespace(v[k])
        invariant
            n == v@.len(),
            from <= k <= n,
            k - from <= leading_ws(v@.skip(from as int)),
            forall|j: int| from <= j < k ==> is_ws(#[trigger] v@[j]),
        decreases n - k,
    {
        proof {
            let t = v@.skip(from as int);
            lemma_leading_ws(t);
            if k - from == leading_ws(t) {
                assert(t[k - from] == v@[k as int]);
            }
        }
        k = k + 1;
    }
    proof {
        let t = v@.skip(from as int);
        lemma_leading_ws(t);
        if k - from < leading_ws(t) {
            assert(t[k - from] == v@[k as int]);
            assert(k < n);
        }
    }
    k
}

/// Index of the first whitespace character of `v` at or after `from`
/// (or `v.len()`).
fn skip_word(v: &Vec<char>, from: usize) -> (k: usize)
    requires
        from <= v@.len(),
    ensures
        from <= k <= v@.len(),
        k - from == word_len(v@.skip(from as int)),
{
    let n = v.len();
    let mut k = from;
    proof {
        lemma_word_len(v@.skip(from as int));
    }
    while k < n && !is_whitespace(v[k])
        invariant
            n == v@.len(),
            from <= k <= n,
            k - from <= word_len(v@.skip(from as int)),
            forall|j: int| from <= j < k ==> !is_ws(#[trigger] v@[j]),
        decreases n - k,
    {
        proof {
            let t = v@.skip(from as int);
            lemma_word_len(t);
            if k - from == word_len(t) {
                assert(t[k - from] == v@[k as int]);
            }
        }
        k = k + 1;
    }
    proof {
        let t = v@.skip(from as int);
        lemma_word_len(t);
        if k - from < word_len(t) {
            assert(t[k - from] == v@[k as int]);
            assert(k < n);
        }
    }
    k
}


/// The characters `v[from..to]`.
pub fn sub_chars(v: &Vec<char>, from: usize, to: usize) -> (r: Vec<char>)
    requires
        from <= to <= v@.len(),
    ensures
        r@ == v@.subrange(from as int, to as int),
{
    let mut r: Vec<char> = Vec::new();
    let mut i = from;
    while i < to
        invariant
            from <= i <= to,
            to <= v@.len(),
            r@ == v@.subrange(from as int, i as int),
        decreases to - i,
    {
        r.push(v[i]);
        i = i + 1;
        assert(r@ =~= v@.subrange(from as int, i as int));
    }
    r
}

pub open spec fn views(ws: Seq<Vec<char>>) -> Seq<Seq<char>> {
    ws.map_values(|w: Vec<char>| w@)
}

/// `split_whitespace`: the words of `v`, in order.
pub fn split_words(v: &Vec<char>) -> (r: Vec<Vec<char>>)
    ensures
        views(r@) == words(v@),
{
    let n = v.len();
    let mut r: Vec<Vec<char>> = Vec::new();
    let mut pos: usize = 0;
    assert(v@.skip(0) =~= v@);
    loop
        invariant
            n == v@.len(),
            pos <= n,
            views(r@) + words(v@.skip(pos as int)) == words(v@),
        decreases n - pos,
    {
        let k = skip_ws(v, pos);
        let ghost rest = v@.skip(pos as int);
        proof {
            assert(rest.skip(leading_ws(rest) as int) =~= v@.skip(k as int));
        }
        if k == n {
            assert(views(r@) =~= views(r@) + words(rest));
            return r;
        }
        let e = skip_word(v, k);
        proof {
            let t = v@.skip(k as int);
            lemma_word_len(t);
            lemma_leading_ws(rest);
            assert(t[0] == v@[k as int]);
            assert(t.take(word_len(t) as int) =~= v@.subrange(k as int, e as int));
            assert(t.skip(word_len(t) as int) =~= v@.skip(e as int));
            assert(words(rest) == seq![v@.subrange(k as int, e as int)] + words(v@.skip(e as int)));
        }
        let w = sub_chars(v, k, e);
        let ghost before = r@;
        r.push(w);
        pos = e;
        proof {
            assert(views(r@) =~= views(before) + seq![v@.subrange(k as int, e as int)]);
            assert(views(r@) + words(v@.skip(pos as int)) =~= views(before) + (seq![
                v@.subrange(k as int, e as int),
            ] + words(v@.skip(pos as int))));
        }
    }
}

/// Number of whitespace characters at the end of `v[..to]`.
fn trailing_ws_len(v: &Vec<char>, to: usize) -> (c: usize)
    requires
        to <= v@.len(),
    ensures
        c == trailing_ws(v@.take(to as int)),
        c <= to,
{
    let ghost t = v@.take(to as int);
    proof {
        lemma_trailing_ws(t);
    }
    let mut k = to;
    while k > 0 && is_whitespace(v[k - 1])
        invariant
            k <= to <= v@.len(),
            t == v@.take(to as int),
            to - k <= trailing_ws(t),
            trailing_ws(t) <= t.len(),
            forall|j: int| t.len() - trailing_ws(t) <= j < t.len() ==> is_ws(#[trigger] t[j]),
            trailing_ws(t) < t.len() ==> !is_ws(t[t.len() - trailing_ws(t) - 1]),
        decreases k,
    {
        proof {
            if to - k == trailing_ws(t) {
                assert(t[k - 1] == v@[k - 1]);
            }
        }
        k = k - 1;
    }
    proof {
        if to - k < trailing_ws(t) {
            assert(t[k - 1] == v@[k - 1]);
            assert(is_ws(t[k - 1]));
        }
    }
    to - k
}

/// `str::trim`: `v` without leading and trailing whitespace.
pub fn trim_chars(v: &Vec<char>) -> (r: Vec<char>)
    ensures
        r@ == trim(v@),
{
    let n = v.len();
    let k = skip_ws(v, 0);
    assert(v@.skip(0) =~= v@);
    let t = sub_chars(v, k, n);
    let c = trailing_ws_len(&t, n - k);
    assert(t@.take((n - k) as int) =~= t@);
    assert(t@ =~= trim_start(v@));
    sub_chars(&t, 0, n - k - c)
}

/// `str::trim_start`: `v` without leading whitespace.
pub fn trim_start_chars(v: &Vec<char>) -> (r: Vec<char>)
    ensures
        r@ == trim_start(v@),
{
    let n = v.len();
    let k = skip_ws(v, 0);
    assert(v@.skip(0) =~= v@);
    let r = sub_chars(v, k, n);
    assert(r@ =~= trim_start(v@));
    r
}

/// Whether `v` equals the characters of `lit`.
pub fn chars_eq(v: &Vec<char>, lit: &[char]) -> (b: bool)
    ensures
        b == (v@ == lit@),
{
    if v.len() != lit.len() {
        return false;
    }
    let n = v.len();
    let mut i: usize = 0;
    while i < n
        invariant
            n == v@.len(),
            n == lit@.len(),
            i <= n,
            forall|j: int| 0 <= j < i ==> v@[j] == lit@[j],
        decreases n - i,
    {
        if v[i] != lit[i] {
            return false;
        }
        i = i + 1;
    }
    assert(v@ =~= lit@);
    true
}


/// `n` occurs in `h` at index `i`.
pub open spec fn matches_at(h: Seq<char>, n: Seq<char>, i: int) -> bool {
    0 <= i && i + n.len() <= h.len() && h.subrange(i, i + n.len()) == n
}

/// First index at or after `i` where `n` occurs in `h`.
pub open spec fn find_from(h: Seq<char>, n: Seq<char>, i: int) -> Option<int>
    decreases h.len() + 1 - i,
{
    if i < 0 || i + n.len() > h.len() {
        None
    } else if matches_at(h, n, i) {
        Some(i)
    } else {
        find_from(h, n, i + 1)
    }
}

/// What `find_from` gives: the first match at or after `i`, if any.
pub proof fn lemma_find_from(h: Seq<char>, n: Seq<char>, i: int)
    requires
        0 <= i,
    ensures
        find_from(h, n, i) matches Some(j) ==> i <= j && matches_at(h, n, j) && j + n.len()
            <= h.len(),
        find_from(h, n, i) is None ==> forall|j: int| i <= j ==> !matches_at(h, n, j),
    decreases h.len() + 1 - i,
{
    if !(i + n.len() > h.len()) && !matches_at(h, n, i) {
        lemma_find_from(h, n, i + 1);
        if find_from(h, n, i) is None {
            assert forall|j: int| i <= j implies !matches_at(h, n, j) by {
                if j == i {
                } else {
                    assert(i + 1 <= j);
                }
            }
        }
    }
}

/// There is no match between `i` and the match `find_from` gives.
pub proof fn lemma_find_from_first(h: Seq<char>, n: Seq<char>, i: int, k: int)
    requires
        0 <= i <= k,
        find_from(h, n, i) matches Some(j) && k < j,
    ensures
        !matches_at(h, n, k),
    decreases k - i,
{
    if i < k {
        lemma_find_from_first(h, n, i + 1, k);
    }
}

/// `find_from` gives the first match at or after `i`.
pub proof fn lemma_find_from_at(h: Seq<char>, n: Seq<char>, i: int, m: int)
    requires
        0 <= i <= m,
        matches_at(h, n, m),
        forall|k: int| i <= k < m ==> !matches_at(h, n, k),
    ensures
        find_from(h, n, i) == Some(m),
    decreases m - i,
{
    if i < m {
        lemma_find_from_at(h, n, i + 1, m);
    }
}

/// With no match at or after `i`, `find_from` gives none.
pub proof fn lemma_find_from_none(h: Seq<char>, n: Seq<char>, i: int)
    requires
        0 <= i,
        forall|k: int| i <= k ==> !matches_at(h, n, k),
    ensures
        find_from(h, n, i) is None,
    decreases h.len() + 1 - i,
{
    if i + n.len() <= h.len() {
        lemma_find_from_none(h, n, i + 1);
    }
}

/// `str::find`: the first index where `n` occurs in `h`.
pub open spec fn find(h: Seq<char>, n: Seq<char>) -> Option<int> {
    find_from(h, n, 0)
}

/// `str::contains`.
pub open spec fn contains(h: Seq<char>, n: Seq<char>) -> bool {
    find(h, n) is Some
}

/// `str::starts_with`.
pub open spec fn starts_with(h: Seq<char>, n: Seq<char>) -> bool {
    matches_at(h, n, 0)
}

/// Whether `n` occurs in `h` at index `i`.
pub fn matches_at_exec(h: &Vec<char>, n: &[char], i: usize) -> (b: bool)
    ensures
        b == matches_at(h@, n@, i as int),
{
    let hl = h.len();
    let nl = n.len();
    if i > hl || nl > hl - i {
        return false;
    }
    let mut j: usize = 0;
    while j < nl
        invariant
            hl == h@.len(),
            nl == n@.len(),
            i + nl <= hl,
            j <= nl,
            forall|k: int| 0 <= k < j ==> h@[i + k] == n@[k],
        decreases nl - j,
    {
        if h[i + j] != n[j] {
            assert(h@.subrange(i as int, i + nl)[j as int] == h@[i + j]);
            return false;
        }
        j = j + 1;
    }
    assert(h@.subrange(i as int, i + nl) =~= n@);
    true
}

/// `str::find` over characters.
pub fn find_chars(h: &Vec<char>, n: &[char]) -> (r: Option<usize>)
    ensures
        match r {
            Some(i) => find(h@, n@) == Some(i as int),
            None => find(h@, n@) is None,
        },
{
    let hl = h.len();
    let mut i: usize = 0;
    while i <= hl
        invariant
            hl == h@.len(),
            find(h@, n@) == find_from(h@, n@, i as int),
        decreases hl + 1 - i,
    {
        if matches_at_exec(h, n, i) {
            return Some(i);
        }
        if i == hl {
            assert(find_from(h@, n@, hl + 1) is None);
            return None;
        }
        i = i + 1;
    }
    None
}


// ---------------------------------------------------------------------
// Ordering of strings.
// ---------------------------------------------------------------------

/// Lexicographic order by code point: `a` sorts no later than `b`. This
/// is the order of `str` comparison (UTF-8 bytes compare in code-point
/// order).
pub open spec fn lex_le(a: Seq<char>, b: Seq<char>) -> bool
    decreases a.len(),
{
    if a.len() == 0 {
        true
    } else if b.len() == 0 {
        false
    } else if a[0] < b[0] {
        true
    } else if a[0] > b[0] {
        false
    } else {
        lex_le(a.drop_first(), b.drop_first())
    }
}

pub open spec fn lex_order() -> spec_fn(Seq<char>, Seq<char>) -> bool {
    |a: Seq<char>, b: Seq<char>| lex_le(a, b)
}

proof fn lemma_lex_le_reflexive(a: Seq<char>)
    ensures
        lex_le(a, a),
    decreases a.len(),
{
    if a.len() > 0 {
        lemma_lex_le_reflexive(a.drop_first());
    }
}

proof fn lemma_lex_le_total(a: Seq<char>, b: Seq<char>)
    ensures
        lex_le(a, b) || lex_le(b, a),
    decreases a.len(),
{
    if a.len() > 0 && b.len() > 0 {
        lemma_lex_le_total(a.drop_first(), b.drop_first());
    }
}

proof fn lemma_lex_le_antisymmetric(a: Seq<char>, b: Seq<char>)
    requires
        lex_le(a, b),
        lex_le(b, a),
    ensures
        a == b,
    decreases a.len(),
{
    if a.len() > 0 && b.len() > 0 {
        lemma_lex_le_antisymmetric(a.drop_first(), b.drop_first());
        assert(a[0] == b[0]);
        assert(a =~= seq![a[0]] + a.drop_first());
        assert(b =~= seq![b[0]] + b.drop_first());
    } else {
        assert(a =~= b);
    }
}

proof fn lemma_lex_le_transitive(a: Seq<char>, b: Seq<char>, c: Seq<char>)
    requires
        lex_le(a, b),
        lex_le(b, c),
    ensures
        lex_le(a, c),
    decreases a.len(),
{
    if a.len() > 0 && b.len() > 0 && c.len() > 0 {
        if a[0] == b[0] && b[0] == c[0] {
            lemma_lex_le_transitive(a.drop_first(), b.drop_first(), c.drop_first());
        }
    }
}

/// Code-point lexicographic order is a total order.
pub proof fn lemma_lex_order_total()
    ensures
        vstd::relations::total_ordering(lex_order()),
{
    assert forall|a: Seq<char>| #[trigger] lex_order()(a, a) by {
        lemma_lex_le_reflexive(a);
    }
    assert forall|a: Seq<char>, b: Seq<char>|
        #[trigger] lex_order()(a, b) && #[trigger] lex_order()(b, a) implies a == b by {
        lemma_lex_le_antisymmetric(a, b);
    }
    assert forall|a: Seq<char>, b: Seq<char>, c: Seq<char>|
        #[trigger] lex_order()(a, b) && #[trigger] lex_order()(b, c) implies lex_order()(a, c) by {
        lemma_lex_le_transitive(a, b, c);
    }
    assert forall|a: Seq<char>, b: Seq<char>|
        #[trigger] lex_order()(a, b) || #[trigger] lex_order()(b, a) by {
        lemma_lex_le_total(a, b);
    }
}

/// Whether `a` sorts no later than `b` (code-point order).
pub fn chars_le(a: &Vec<char>, b: &Vec<char>) -> (r: bool)
    ensures
        r == lex_le(a@, b@),
{
    let an = a.len();
    let bn = b.len();
    let mut i: usize = 0;
    assert(a@.skip(0) =~= a@);
    assert(b@.skip(0) =~= b@);
    loop
        invariant
            an == a@.len(),
            bn == b@.len(),
            i <= an,
            i <= bn,
            lex_le(a@, b@) == lex_le(a@.skip(i as int), b@.skip(i as int)),
        decreases an - i,
    {
        let ghost x = a@.skip(i as int);
        let ghost y = b@.skip(i as int);
        if i == an {
            return true;
        }
        if i == bn {
            return false;
        }
        assert(x[0] == a@[i as int] && y[0] == b@[i as int]);
        let ca = a[i];
        let cb = b[i];
        if ca < cb {
            return true;
        }
        if ca > cb {
            return false;
        }
        assert(x.drop_first() =~= a@.skip(i + 1));
        assert(y.drop_first() =~= b@.skip(i + 1));
        i = i + 1;
    }
}


pub open spec fn string_views(v: Seq<String>) -> Seq<Seq<char>> {
    v.map_values(|s: String| s@)
}

/// `Vec<String>::sort`: the strings in code-point lexicographic order.
pub fn sort_strings(v: &Vec<String>) -> (r: Vec<String>)
    ensures
        string_views(r@) == string_views(v@).sort_by(lex_order()),
{
    broadcast use vstd::seq_lib::group_to_multiset_ensures;
    broadcast use vstd::seq_lib::to_multiset_insert;
    broadcast use vstd::seq_lib::to_multiset_build;

    proof {
        lemma_lex_order_total();
    }
    let n = v.len();
    let mut out: Vec<String> = Vec::new();
    let mut keys: Vec<Vec<char>> = Vec::new();
    let mut i: usize = 0;
    assert(string_views(v@).take(0) =~= Seq::<Seq<char>>::empty());
    assert(string_views(out@) =~= Seq::<Seq<char>>::empty());
    while i < n
        invariant
            n == v@.len(),
            i <= n,
            keys@.len() == out@.len(),
            forall|k: int| 0 <= k < keys@.len() ==> #[trigger] keys@[k]@ == out@[k]@,
            vstd::relations::total_ordering(lex_order()),
            sorted_by(string_views(out@), lex_order()),
            string_views(out@).to_multiset() == string_views(v@).take(i as int).to_multiset(),
        decreases n - i,
    {
        let key = chars_of(v[i].as_str());
        let m = keys.len();
        let mut p: usize = 0;
        while p < m && chars_le(&keys[p], &key)
            invariant
                m == keys@.len(),
                p <= m,
                forall|q: int| 0 <= q < p ==> lex_le(#[trigger] keys@[q]@, key@),
            decreases m - p,
        {
            p = p + 1;
        }
        let ghost old_view = string_views(out@);
        proof {
            assert forall|q: int| 0 <= q < p implies lex_le(#[trigger] old_view[q], key@) by {
                assert(keys@[q]@ == out@[q]@);
            }
            if p < m {
                assert(!lex_le(keys@[p as int]@, key@));
                assert(keys@[p as int]@ == old_view[p as int]);
                assert(lex_order()(key@, old_view[p as int]) || lex_order()(old_view[p as int], key@));
            }
        }
        let s = v[i].clone();
        keys.insert(p, key);
        out.insert(p, s);
        proof {
            let nv = string_views(out@);
            assert(nv =~= old_view.insert(p as int, v@[i as int]@));
            assert forall|a: int, b: int| 0 <= a < b < nv.len() implies #[trigger] lex_order()(
                nv[a],
                nv[b],
            ) by {
                let x = v@[i as int]@;
                if b < p {
                } else if b == p {
                    assert(nv[a] == old_view[a]);
                } else if a < p {
                    assert(nv[a] == old_view[a]);
                    assert(nv[b] == old_view[b - 1]);
                } else if a == p {
                    assert(nv[b] == old_view[b - 1]);
                    if b - 1 > p {
                        assert(lex_order()(old_view[p as int], old_view[b - 1]));
                    }
                } else {
                    assert(nv[a] == old_view[a - 1]);
                    assert(nv[b] == old_view[b - 1]);
                }
            }
            assert forall|k: int| 0 <= k < keys@.len() implies #[trigger] keys@[k]@ == out@[k]@ by {
                if k < p {
                } else if k == p {
                } else {
                }
            }
            assert(string_views(v@).take(i + 1) =~= string_views(v@).take(i as int).push(
                v@[i as int]@,
            ));
            vstd::seq_lib::to_multiset_insert(old_view, p as int, v@[i as int]@);
            vstd::seq_lib::to_multiset_build(string_views(v@).take(i as int), v@[i as int]@);
        }
        i = i + 1;
    }
    proof {
        assert(string_views(v@).take(n as int) =~= string_views(v@));
        string_views(v@).lemma_sort_by_ensures(lex_order());
        vstd::seq_lib::lemma_sorted_unique(
            string_views(out@),
            string_views(v@).sort_by(lex_order()),
            lex_order(),
        );
    }
    out
}

} // verus!
