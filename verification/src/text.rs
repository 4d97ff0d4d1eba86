//! Character-level text utilities with specifications over `Seq<char>`.

use vstd::prelude::*;

verus! {

/// Appends one character to a `String` (`String::push`).
///
/// Trusted: the new text is the old one with `c` at its end, as the
/// documentation of `String::push` states.
#[verifier::external_body]
pub(crate) fn push_char(s: &mut String, c: char)
    ensures
        final(s)@ == old(s)@.push(c),
{
    s.push(c);
}

/// The characters of `s`, in order.
pub fn chars_of(s: &str) -> (v: Vec<char>)
    ensures
        v@ == s@,
{
    let mut v: Vec<char> = Vec::new();
    for c in it: s.chars()
        invariant
            v@ == it.seq().take(it.index() as int),
            it.seq() == s@,
    {
        v.push(c);
    }
    v
}

/// A `String` holding exactly the characters of `v`.
pub fn string_of(v: &[char]) -> (s: String)
    ensures
        s@ == v@,
{
    let mut s = String::new();
    let mut i: usize = 0;
    while i < v.len()
        invariant
            i <= v.len(),
            s@ == v@.take(i as int),
        decreases v.len() - i,
    {
        push_char(&mut s, v[i]);
        assert(v@.take(i as int).push(v@[i as int]) =~= v@.take(i + 1));
        i += 1;
    }
    assert(v@.take(v.len() as int) =~= v@);
    s
}

} // verus!

verus! {

/// ASCII case folding on code points: `A`..`Z` map to `a`..`z`, every other
/// character keeps its code.
pub open spec fn fold(c: char) -> u32 {
    let x = c as u32;
    if 65 <= x <= 90 {
        (x + 32) as u32
    } else {
        x
    }
}

/// `a` and `b` are equal ignoring ASCII case.
pub open spec fn eq_ci(a: Seq<char>, b: Seq<char>) -> bool {
    &&& a.len() == b.len()
    &&& forall|i: int| 0 <= i < a.len() ==> #[trigger] fold(a[i]) == fold(b[i])
}

/// `s` begins with `p`.
pub open spec fn starts_with(s: Seq<char>, p: Seq<char>) -> bool {
    p.len() <= s.len() && s.take(p.len() as int) == p
}

/// `s` ends with `p`.
pub open spec fn ends_with(s: Seq<char>, p: Seq<char>) -> bool {
    p.len() <= s.len() && s.skip(s.len() - p.len()) == p
}

/// `p` occurs in `s` starting at index `i`.
pub open spec fn match_at(s: Seq<char>, p: Seq<char>, i: int) -> bool {
    0 <= i && i + p.len() <= s.len() && s.subrange(i, i + p.len()) == p
}

/// The first index at or after `i` where `p` occurs in `s`.
pub open spec fn find_from(s: Seq<char>, p: Seq<char>, i: int) -> Option<int>
    decreases s.len() + 1 - i,
{
    if i < 0 || i + p.len() > s.len() {
        None
    } else if s.subrange(i, i + p.len()) == p {
        Some(i)
    } else {
        find_from(s, p, i + 1)
    }
}

/// The first index where `p` occurs in `s`.
pub open spec fn find(s: Seq<char>, p: Seq<char>) -> Option<int> {
    find_from(s, p, 0)
}

/// `p` occurs somewhere in `s`.
pub open spec fn contains(s: Seq<char>, p: Seq<char>) -> bool {
    find(s, p) is Some
}

/// `find_from` returns a match, and no earlier match exists at or after `i`.
pub proof fn lemma_find_from(s: Seq<char>, p: Seq<char>, i: int)
    requires
        0 <= i,
    ensures
        find_from(s, p, i) matches Some(k) ==> i <= k && match_at(s, p, k) && forall|j: int|
            i <= j < k ==> !match_at(s, p, j),
        find_from(s, p, i) is None ==> forall|j: int| i <= j ==> !match_at(s, p, j),
    decreases s.len() + 1 - i,
{
    if i + p.len() > s.len() {
    } else if s.subrange(i, i + p.len()) == p {
    } else {
        lemma_find_from(s, p, i + 1);
    }
}

/// Exec: does `p` occur in `s` at `i`?
pub fn match_at_exec(s: &[char], p: &[char], i: usize) -> (r: bool)
    ensures
        r == match_at(s@, p@, i as int),
{
    if i > s.len() || p.len() > s.len() - i {
        return false;
    }
    let mut k: usize = 0;
    while k < p.len()
        invariant
            i + p.len() <= s.len(),
            k <= p.len(),
            forall|j: int| 0 <= j < k ==> s@[i + j] == p@[j],
        decreases p.len() - k,
    {
        if s[i + k] != p[k] {
            assert(s@.subrange(i as int, i + p.len())[k as int] != p@[k as int]);
            return false;
        }
        k += 1;
    }
    assert(s@.subrange(i as int, i + p.len()) =~= p@);
    true
}

/// Exec: the first index where `p` occurs in `s`.
pub fn find_exec(s: &[char], p: &[char]) -> (r: Option<usize>)
    ensures
        r matches Some(k) ==> find(s@, p@) == Some(k as int),
        r is None ==> find(s@, p@) is None,
{
    let mut i: usize = 0;
    while i < s.len()
        invariant
            i <= s.len(),
            find(s@, p@) == find_from(s@, p@, i as int),
        decreases s.len() - i,
    {
        if p.len() > s.len() - i {
            return None;
        }
        if match_at_exec(s, p, i) {
            return Some(i);
        }
        i += 1;
    }
    if p.len() == 0 {
        assert(s@.subrange(i as int, i as int) =~= p@);
        return Some(i);
    }
    None
}

/// Exec: does `p` occur in `s`?
pub fn contains_exec(s: &[char], p: &[char]) -> (r: bool)
    ensures
        r == contains(s@, p@),
{
    find_exec(s, p).is_some()
}

/// Exec: does `s` start with `p`?
pub fn starts_with_exec(s: &[char], p: &[char]) -> (r: bool)
    ensures
        r == starts_with(s@, p@),
{
    let r = match_at_exec(s, p, 0);
    proof {
        if p@.len() <= s@.len() {
            assert(s@.subrange(0, p@.len() as int) =~= s@.take(p@.len() as int));
        }
    }
    r
}

/// Exec: does `s` end with `p`?
pub fn ends_with_exec(s: &[char], p: &[char]) -> (r: bool)
    ensures
        r == ends_with(s@, p@),
{
    if p.len() > s.len() {
        return false;
    }
    let r = match_at_exec(s, p, s.len() - p.len());
    assert(s@.subrange(s@.len() - p@.len(), s@.len() as int) =~= s@.skip(s@.len() - p@.len()));
    r
}

/// Exec: are `a` and `b` equal ignoring ASCII case?
pub fn eq_ci_exec(a: &[char], b: &[char]) -> (r: bool)
    ensures
        r == eq_ci(a@, b@),
{
    if a.len() != b.len() {
        return false;
    }
    let mut k: usize = 0;
    while k < a.len()
        invariant
            a.len() == b.len(),
            k <= a.len(),
            forall|j: int| 0 <= j < k ==> #[trigger] fold(a@[j]) == fold(b@[j]),
        decreases a.len() - k,
    {
        if fold_exec(a[k]) != fold_exec(b[k]) {
            return false;
        }
        k += 1;
    }
    true
}

/// Exec: `fold`.
pub fn fold_exec(c: char) -> (r: u32)
    ensures
        r == fold(c),
{
    let x = c as u32;
    if 65 <= x && x <= 90 {
        x + 32
    } else {
        x
    }
}

} // verus!

verus! {

/// Unicode `White_Space` (what `char::is_whitespace` tests).
pub open spec fn is_ws(c: char) -> bool {
    let x = c as u32;
    ||| 9 <= x <= 13
    ||| x == 32
    ||| x == 0x85
    ||| x == 0xA0
    ||| x == 0x1680
    ||| 0x2000 <= x <= 0x200A
    ||| x == 0x2028
    ||| x == 0x2029
    ||| x == 0x202F
    ||| x == 0x205F
    ||| x == 0x3000
}

/// Exec: `is_ws`.
pub fn is_ws_exec(c: char) -> (r: bool)
    ensures
        r == is_ws(c),
{
    let x = c as u32;
    (9 <= x && x <= 13) || x == 32 || x == 0x85 || x == 0xA0 || x == 0x1680 || (0x2000 <= x
        && x <= 0x200A) || x == 0x2028 || x == 0x2029 || x == 0x202F || x == 0x205F || x
        == 0x3000
}

/// `s` with every trailing `c` removed.
pub open spec fn trim_end_char(s: Seq<char>, c: char) -> Seq<char>
    decreases s.len(),
{
    if s.len() > 0 && s.last() == c {
        trim_end_char(s.drop_last(), c)
    } else {
        s
    }
}

/// `s` with every leading `c` removed.
pub open spec fn trim_start_char(s: Seq<char>, c: char) -> Seq<char>
    decreases s.len(),
{
    if s.len() > 0 && s[0] == c {
        trim_start_char(s.drop_first(), c)
    } else {
        s
    }
}

/// `s` with trailing whitespace removed.
pub open spec fn trim_end_ws(s: Seq<char>) -> Seq<char>
    decreases s.len(),
{
    if s.len() > 0 && is_ws(s.last()) {
        trim_end_ws(s.drop_last())
    } else {
        s
    }
}

/// `s` with leading whitespace removed.
pub open spec fn trim_start_ws(s: Seq<char>) -> Seq<char>
    decreases s.len(),
{
    if s.len() > 0 && is_ws(s[0]) {
        trim_start_ws(s.drop_first())
    } else {
        s
    }
}

/// `s` with whitespace removed at both ends (`str::trim`).
pub open spec fn trim(s: Seq<char>) -> Seq<char> {
    trim_end_ws(trim_start_ws(s))
}

/// `s` with every `from` replaced by `to`.
pub open spec fn replace_char(s: Seq<char>, from: char, to: char) -> Seq<char> {
    Seq::new(s.len(), |i: int| if s[i] == from { to } else { s[i] })
}

/// A copy of `s[a..b]`.
pub fn slice_vec(s: &[char], a: usize, b: usize) -> (r: Vec<char>)
    requires
        a <= b <= s.len(),
    ensures
        r@ == s@.subrange(a as int, b as int),
{
    let mut r: Vec<char> = Vec::new();
    let mut i = a;
    while i < b
        invariant
            a <= i <= b <= s.len(),
            r@ == s@.subrange(a as int, i as int),
        decreases b - i,
    {
        r.push(s[i]);
        assert(s@.subrange(a as int, i as int).push(s@[i as int]) =~= s@.subrange(
            a as int,
            i + 1,
        ));
        i += 1;
    }
    r
}

/// `a` followed by `b`.
pub fn concat(a: &[char], b: &[char]) -> (r: Vec<char>)
    ensures
        r@ == a@ + b@,
{
    let mut r = slice_vec(a, 0, a.len());
    let mut i: usize = 0;
    while i < b.len()
        invariant
            i <= b.len(),
            r@ == a@ + b@.take(i as int),
        decreases b.len() - i,
    {
        r.push(b[i]);
        assert(a@ + b@.take(i as int).push(b@[i as int]) =~= a@ + b@.take(i + 1));
        i += 1;
    }
    assert(a@.subrange(0, a@.len() as int) =~= a@);
    assert(b@.take(b@.len() as int) =~= b@);
    r
}

/// Unfolds `trim_end_char` over a prefix that ends in `c`.
proof fn lemma_trim_end_char_step(s: Seq<char>, c: char, j: int)
    requires
        0 < j <= s.len(),
        s[j - 1] == c,
    ensures
        trim_end_char(s.take(j), c) == trim_end_char(s.take(j - 1), c),
{
    assert(s.take(j).drop_last() =~= s.take(j - 1));
}

/// Exec: `trim_end_char`.
pub fn trim_end_char_exec(s: &[char], c: char) -> (r: Vec<char>)
    ensures
        r@ == trim_end_char(s@, c),
{
    let mut j = s.len();
    assert(s@.take(j as int) =~= s@);
    while j > 0 && s[j - 1] == c
        invariant
            j <= s.len(),
            trim_end_char(s@, c) == trim_end_char(s@.take(j as int), c),
        decreases j,
    {
        proof {
            lemma_trim_end_char_step(s@, c, j as int);
        }
        j -= 1;
    }
    let r = slice_vec(s, 0, j);
    assert(r@ =~= s@.take(j as int));
    r
}

/// Unfolds `trim_start_char` over a suffix that starts with `c`.
proof fn lemma_trim_start_char_step(s: Seq<char>, c: char, i: int)
    requires
        0 <= i < s.len(),
        s[i] == c,
    ensures
        trim_start_char(s.skip(i), c) == trim_start_char(s.skip(i + 1), c),
{
    assert(s.skip(i).drop_first() =~= s.skip(i + 1));
}

/// Exec: `trim_start_char`.
pub fn trim_start_char_exec(s: &[char], c: char) -> (r: Vec<char>)
    ensures
        r@ == trim_start_char(s@, c),
{
    let mut i: usize = 0;
    assert(s@.skip(0) =~= s@);
    while i < s.len() && s[i] == c
        invariant
            i <= s.len(),
            trim_start_char(s@, c) == trim_start_char(s@.skip(i as int), c),
        decreases s.len() - i,
    {
        proof {
            lemma_trim_start_char_step(s@, c, i as int);
        }
        i += 1;
    }
    let r = slice_vec(s, i, s.len());
    assert(r@ =~= s@.skip(i as int));
    r
}

/// Exec: `trim_end_ws`.
pub fn trim_end_ws_exec(s: &[char]) -> (r: Vec<char>)
    ensures
        r@ == trim_end_ws(s@),
{
    let mut j = s.len();
    assert(s@.take(j as int) =~= s@);
    while j > 0 && is_ws_exec(s[j - 1])
        invariant
            j <= s.len(),
            trim_end_ws(s@) == trim_end_ws(s@.take(j as int)),
        decreases j,
    {
        assert(s@.take(j as int).drop_last() =~= s@.take(j - 1));
        j -= 1;
    }
    let r = slice_vec(s, 0, j);
    assert(r@ =~= s@.take(j as int));
    r
}

/// Exec: `trim_start_ws`.
pub fn trim_start_ws_exec(s: &[char]) -> (r: Vec<char>)
    ensures
        r@ == trim_start_ws(s@),
{
    let mut i: usize = 0;
    assert(s@.skip(0) =~= s@);
    while i < s.len() && is_ws_exec(s[i])
        invariant
            i <= s.len(),
            trim_start_ws(s@) == trim_start_ws(s@.skip(i as int)),
        decreases s.len() - i,
    {
        assert(s@.skip(i as int).drop_first() =~= s@.skip(i + 1));
        i += 1;
    }
    let r = slice_vec(s, i, s.len());
    assert(r@ =~= s@.skip(i as int));
    r
}

/// Exec: `trim`.
pub fn trim_exec(s: &[char]) -> (r: Vec<char>)
    ensures
        r@ == trim(s@),
{
    let a = trim_start_ws_exec(s);
    trim_end_ws_exec(&a)
}

/// Exec: `replace_char`.
pub fn replace_char_exec(s: &[char], from: char, to: char) -> (r: Vec<char>)
    ensures
        r@ == replace_char(s@, from, to),
{
    let mut r: Vec<char> = Vec::new();
    let mut i: usize = 0;
    while i < s.len()
        invariant
            i <= s.len(),
            r@ =~= replace_char(s@, from, to).take(i as int),
        decreases s.len() - i,
    {
        if s[i] == from {
            r.push(to);
        } else {
            r.push(s[i]);
        }
        i += 1;
    }
    r
}

} // verus!

verus! {

/// `s` is a nonempty string once surrounding whitespace is trimmed.
pub open spec fn is_blank(s: Seq<char>) -> bool {
    trim(s).len() == 0
}

/// Exec: is `s` blank?
pub fn is_blank_exec(s: &str) -> (r: bool)
    ensures
        r == is_blank(s@),
{
    let v = chars_of(s);
    let t = trim_exec(&v);
    t.len() == 0
}

/// Exec: is `s` blank (on characters)?
pub fn is_blank_chars(s: &[char]) -> (r: bool)
    ensures
        r == is_blank(s@),
{
    let t = trim_exec(s);
    t.len() == 0
}

/// The index of the first `c` in `s`.
pub open spec fn index_of(s: Seq<char>, c: char) -> Option<int> {
    find(s, seq![c])
}

/// Exec: `index_of`, with the facts it implies.
pub fn index_of_exec(s: &[char], c: char) -> (r: Option<usize>)
    ensures
        r matches Some(k) ==> index_of(s@, c) == Some(k as int) && k < s@.len() && s@[k as int]
            == c && forall|j: int| 0 <= j < k ==> s@[j] != c,
        r is None ==> index_of(s@, c) is None && forall|j: int| 0 <= j < s@.len() ==> s@[j] != c,
{
    let mut i: usize = 0;
    while i < s.len()
        invariant
            i <= s.len(),
            forall|j: int| 0 <= j < i ==> s@[j] != c,
        decreases s.len() - i,
    {
        if s[i] == c {
            proof {
                lemma_single_find(s@, c, i as int);
            }
            return Some(i);
        }
        i += 1;
    }
    proof {
        lemma_single_find(s@, c, s@.len() as int);
    }
    None
}

/// `find` for a one-character pattern is the first index holding that character.
proof fn lemma_single_find(s: Seq<char>, c: char, k: int)
    requires
        0 <= k <= s.len(),
        forall|j: int| 0 <= j < k ==> s[j] != c,
        k < s.len() ==> s[k] == c,
    ensures
        k < s.len() ==> find(s, seq![c]) == Some(k),
        k == s.len() ==> find(s, seq![c]) is None,
{
    lemma_find_from(s, seq![c], 0);
    let p = seq![c];
    if k < s.len() {
        assert(s.subrange(k, k + 1) =~= p);
        if find(s, p) != Some(k) {
            match find(s, p) {
                Some(m) => {
                    assert(match_at(s, p, m));
                    assert(s.subrange(m, m + 1)[0] == c);
                    if m < k {
                        assert(s[m] == c);
                    }
                },
                None => {
                    assert(match_at(s, p, k));
                },
            }
        }
    } else {
        match find(s, p) {
            Some(m) => {
                assert(s.subrange(m, m + 1)[0] == c);
                assert(s[m] == c);
            },
            None => {},
        }
    }
}

} // verus!

verus! {

/// `s` split at every `c` (`str::split`): always at least one piece.
pub open spec fn split_char(s: Seq<char>, c: char) -> Seq<Seq<char>>
    decreases s.len(),
{
    match index_of(s, c) {
        Some(k) => if 0 <= k < s.len() {
            seq![s.take(k)] + split_char(s.skip(k + 1), c)
        } else {
            seq![s]
        },
        None => seq![s],
    }
}

/// `parts` joined with `c` between neighbours (`[..].join`).
pub open spec fn join_with(parts: Seq<Seq<char>>, c: char) -> Seq<char>
    decreases parts.len(),
{
    if parts.len() == 0 {
        Seq::empty()
    } else if parts.len() == 1 {
        parts[0]
    } else {
        join_with(parts.drop_last(), c) + seq![c] + parts.last()
    }
}

/// The view of a vector of character vectors.
pub open spec fn views(v: Seq<Vec<char>>) -> Seq<Seq<char>> {
    v.map_values(|x: Vec<char>| x@)
}

/// Exec: `split_char`.
pub fn split_char_exec(s: &[char], c: char) -> (r: Vec<Vec<char>>)
    ensures
        views(r@) == split_char(s@, c),
{
    let mut out: Vec<Vec<char>> = Vec::new();
    let mut rest = slice_vec(s, 0, s.len());
    assert(rest@ =~= s@);
    loop
        invariant
            split_char(s@, c) == views(out@) + split_char(rest@, c),
        decreases rest@.len(),
    {
        let n = rest.len();
        match index_of_exec(&rest, c) {
            Some(k) => {
                assert(k < n);
                let head = slice_vec(&rest, 0, k);
                let tail = slice_vec(&rest, k + 1, rest.len());
                assert(head@ =~= rest@.take(k as int));
                assert(tail@ =~= rest@.skip(k + 1));
                let ghost old_out = out@;
                out.push(head);
                assert(views(out@) =~= views(old_out) + seq![rest@.take(k as int)]);
                rest = tail;
            },
            None => {
                let ghost old_out = out@;
                let ghost last = rest@;
                out.push(rest);
                assert(views(out@) =~= views(old_out) + seq![last]);
                return out;
            },
        }
    }
}

/// Exec: `join_with`.
pub fn join_with_exec(parts: &[Vec<char>], c: char) -> (r: Vec<char>)
    ensures
        r@ == join_with(views(parts@), c),
{
    if parts.len() == 0 {
        return Vec::new();
    }
    let mut r = slice_vec(&parts[0], 0, parts[0].len());
    assert(r@ =~= parts@[0]@);
    assert(views(parts@.take(1)) =~= seq![parts@[0]@]);
    let mut i: usize = 1;
    while i < parts.len()
        invariant
            1 <= i <= parts.len(),
            r@ == join_with(views(parts@.take(i as int)), c),
        decreases parts.len() - i,
    {
        r.push(c);
        let r2 = concat(&r, &parts[i]);
        assert(views(parts@.take(i + 1)).drop_last() =~= views(parts@.take(i as int)));
        assert(views(parts@.take(i + 1)).last() == parts@[i as int]@);
        r = r2;
        i += 1;
    }
    assert(parts@.take(parts.len() as int) =~= parts@);
    r
}

/// Code-point lexicographic order (the order of `String`'s `Ord`).
pub open spec fn lex_lt(a: Seq<char>, b: Seq<char>) -> bool
    decreases a.len(),
{
    if a.len() == 0 {
        b.len() > 0
    } else if b.len() == 0 {
        false
    } else if a[0] != b[0] {
        a[0] < b[0]
    } else {
        lex_lt(a.drop_first(), b.drop_first())
    }
}

/// `lex_lt` is irreflexive and asymmetric, and total on distinct sequences.
pub proof fn lemma_lex_lt_order(a: Seq<char>, b: Seq<char>)
    ensures
        !lex_lt(a, a),
        lex_lt(a, b) ==> !lex_lt(b, a),
        a != b ==> lex_lt(a, b) || lex_lt(b, a),
    decreases a.len(),
{
    if a.len() > 0 && b.len() > 0 {
        lemma_lex_lt_order(a.drop_first(), b.drop_first());
        lemma_lex_lt_order(a.drop_first(), a.drop_first());
        if a[0] == b[0] && a != b {
            assert(a =~= seq![a[0]] + a.drop_first());
            assert(b =~= seq![b[0]] + b.drop_first());
        }
    } else if a.len() > 0 {
        lemma_lex_lt_order(a.drop_first(), a.drop_first());
    } else if b.len() == 0 {
        assert(a =~= b);
    }
}

/// `lex_lt` is transitive.
pub proof fn lemma_lex_lt_trans(a: Seq<char>, b: Seq<char>, c: Seq<char>)
    requires
        lex_lt(a, b),
        lex_lt(b, c),
    ensures
        lex_lt(a, c),
    decreases a.len(),
{
    if a.len() > 0 && b.len() > 0 && c.len() > 0 {
        if a[0] == b[0] && b[0] == c[0] {
            lemma_lex_lt_trans(a.drop_first(), b.drop_first(), c.drop_first());
        }
    }
}

/// Exec: three-way code-point comparison.
pub fn lex_compare(a: &[char], b: &[char]) -> (r: i8)
    ensures
        r == 0 ==> a@ == b@,
        r < 0 ==> lex_lt(a@, b@),
        r > 0 ==> lex_lt(b@, a@),
{
    let mut i: usize = 0;
    assert(a@.skip(0) =~= a@);
    assert(b@.skip(0) =~= b@);
    while i < a.len() && i < b.len()
        invariant
            i <= a.len(),
            i <= b.len(),
            a@.take(i as int) == b@.take(i as int),
            lex_lt(a@, b@) == lex_lt(a@.skip(i as int), b@.skip(i as int)),
            lex_lt(b@, a@) == lex_lt(b@.skip(i as int), a@.skip(i as int)),
        decreases a.len() - i,
    {
        if a[i] != b[i] {
            if a[i] < b[i] {
                return -1;
            } else {
                return 1;
            }
        }
        assert(a@.skip(i as int).drop_first() =~= a@.skip(i + 1));
        assert(b@.skip(i as int).drop_first() =~= b@.skip(i + 1));
        assert(a@.take(i + 1) =~= a@.take(i as int).push(a@[i as int]));
        assert(b@.take(i + 1) =~= b@.take(i as int).push(b@[i as int]));
        i += 1;
    }
    if a.len() == b.len() {
        assert(a@ =~= a@.take(i as int));
        assert(b@ =~= b@.take(i as int));
        0
    } else if a.len() < b.len() {
        -1
    } else {
        1
    }
}

} // verus!

verus! {

/// A pair of strings, as sequences.
pub type Pair = (Seq<char>, Seq<char>);

/// Lexicographic order on pairs (first component, then second).
pub open spec fn pair_lt(x: Pair, y: Pair) -> bool {
    lex_lt(x.0, y.0) || (x.0 == y.0 && lex_lt(x.1, y.1))
}

/// Strictly increasing under `pair_lt` (so also free of duplicates).
pub open spec fn sorted_pairs(s: Seq<Pair>) -> bool {
    forall|i: int, j: int| 0 <= i < j < s.len() ==> pair_lt(#[trigger] s[i], #[trigger] s[j])
}

/// The view of a vector of character-vector pairs.
pub open spec fn pair_views(v: Seq<(Vec<char>, Vec<char>)>) -> Seq<Pair> {
    v.map_values(|x: (Vec<char>, Vec<char>)| (x.0@, x.1@))
}

/// `pair_lt` is an order: irreflexive, transitive, total on distinct pairs.
pub proof fn lemma_pair_lt_order(x: Pair, y: Pair, z: Pair)
    ensures
        !pair_lt(x, x),
        pair_lt(x, y) ==> !pair_lt(y, x),
        x != y ==> pair_lt(x, y) || pair_lt(y, x),
        pair_lt(x, y) && pair_lt(y, z) ==> pair_lt(x, z),
{
    lemma_lex_lt_order(x.0, y.0);
    lemma_lex_lt_order(x.1, y.1);
    lemma_lex_lt_order(x.0, x.0);
    lemma_lex_lt_order(x.1, x.1);
    if pair_lt(x, y) && pair_lt(y, z) {
        if lex_lt(x.0, y.0) && lex_lt(y.0, z.0) {
            lemma_lex_lt_trans(x.0, y.0, z.0);
        }
        if x.0 == y.0 && y.0 == z.0 {
            lemma_lex_lt_trans(x.1, y.1, z.1);
        }
    }
}

/// Exec: `pair_lt` as a three-way comparison.
pub fn pair_compare(x: &(Vec<char>, Vec<char>), y: &(Vec<char>, Vec<char>)) -> (r: i8)
    ensures
        r == 0 ==> (x.0@, x.1@) == (y.0@, y.1@),
        r < 0 ==> pair_lt((x.0@, x.1@), (y.0@, y.1@)),
        r > 0 ==> pair_lt((y.0@, y.1@), (x.0@, x.1@)),
{
    let a = lex_compare(&x.0, &y.0);
    if a != 0 {
        return a;
    }
    lex_compare(&x.1, &y.1)
}

/// Insert `x` into a strictly increasing pair list, keeping it strictly
/// increasing; a pair already present is not added again.
pub fn insert_sorted(v: &mut Vec<(Vec<char>, Vec<char>)>, x: (Vec<char>, Vec<char>))
    requires
        sorted_pairs(pair_views(old(v)@)),
    ensures
        sorted_pairs(pair_views(final(v)@)),
        forall|p: Pair|
            pair_views(final(v)@).contains(p) <==> (pair_views(old(v)@).contains(p) || p == (
                x.0@,
                x.1@,
            )),
{
    let ghost xv = (x.0@, x.1@);
    let ghost s0 = pair_views(v@);
    let mut i: usize = 0;
    let mut done = false;
    while i < v.len() && !done
        invariant
            i <= v.len(),
            v@ == old(v)@,
            s0 == pair_views(v@),
            sorted_pairs(s0),
            forall|j: int| 0 <= j < i ==> pair_lt(#[trigger] s0[j], xv),
            done ==> i < v.len(),
            xv == (x.0@, x.1@),
            done ==> !pair_lt(s0[i as int], xv),
        decreases v.len() - i + (if done { 0int } else { 1int }),
    {
        assert(s0[i as int] == (v@[i as int].0@, v@[i as int].1@));
        let c = pair_compare(&v[i], &x);
        if c < 0 {
            i += 1;
        } else {
            proof {
                lemma_pair_lt_order(xv, s0[i as int], xv);
            }
            done = true;
        }
    }
    if i < v.len() {
        let c = pair_compare(&v[i], &x);
        assert(s0[i as int] == (v@[i as int].0@, v@[i as int].1@));
        if c == 0 {
            assert(s0[i as int] == xv);
            assert forall|p: Pair| pair_views(v@).contains(p) <==> (s0.contains(p) || p == xv) by {
                if p == xv {
                    assert(s0[i as int] == p);
                }
            }
            return;
        }
        assert(pair_lt(xv, s0[i as int]));
    }
    proof {
        assert forall|j: int| i <= j < s0.len() implies pair_lt(xv, #[trigger] s0[j]) by {
            if j > i {
                assert(pair_lt(s0[i as int], s0[j]));
                lemma_pair_lt_order(xv, s0[i as int], s0[j]);
            }
        }
    }
    v.insert(i, x);
    proof {
        let s1 = pair_views(v@);
        assert(s1 =~= s0.insert(i as int, xv));
        assert forall|a: int, b: int| 0 <= a < b < s1.len() implies pair_lt(
            #[trigger] s1[a],
            #[trigger] s1[b],
        ) by {
            if a < i && b < i {
            } else if a < i && b == i {
            } else if a < i && b > i {
                assert(s1[b] == s0[b - 1]);
            } else if a == i {
                assert(s1[b] == s0[b - 1]);
            } else {
                assert(s1[a] == s0[a - 1]);
                assert(s1[b] == s0[b - 1]);
            }
        }
        assert forall|p: Pair| s1.contains(p) <==> (s0.contains(p) || p == xv) by {
            if s1.contains(p) {
                let k = choose|k: int| 0 <= k < s1.len() && s1[k] == p;
                if k < i {
                    assert(s0[k] == p);
                } else if k > i {
                    assert(s0[k - 1] == p);
                }
            }
            if s0.contains(p) {
                let k = choose|k: int| 0 <= k < s0.len() && s0[k] == p;
                if k < i {
                    assert(s1[k] == p);
                } else {
                    assert(s1[k + 1] == p);
                }
            }
            if p == xv {
                assert(s1[i as int] == p);
            }
        }
    }
}

} // verus!

verus! {

/// The index of the last `c` in `s`.
pub open spec fn rindex_of(s: Seq<char>, c: char) -> Option<int>
    decreases s.len(),
{
    if s.len() == 0 {
        None
    } else if s.last() == c {
        Some(s.len() - 1)
    } else {
        rindex_of(s.drop_last(), c)
    }
}

/// What `rindex_of` says about the characters after the match.
pub proof fn lemma_rindex_of(s: Seq<char>, c: char)
    ensures
        rindex_of(s, c) matches Some(k) ==> 0 <= k < s.len() && s[k] == c && forall|j: int|
            k < j < s.len() ==> s[j] != c,
        rindex_of(s, c) is None ==> forall|j: int| 0 <= j < s.len() ==> s[j] != c,
    decreases s.len(),
{
    if s.len() > 0 && s.last() != c {
        let t = s.drop_last();
        lemma_rindex_of(t, c);
        assert forall|j: int| 0 <= j < t.len() implies t[j] == s[j] by {}
    }
}

/// Exec: `rindex_of`.
pub fn rindex_of_exec(s: &[char], c: char) -> (r: Option<usize>)
    ensures
        r matches Some(k) ==> rindex_of(s@, c) == Some(k as int) && k < s@.len(),
        r is None ==> rindex_of(s@, c) is None,
{
    let mut j = s.len();
    assert(s@.take(j as int) =~= s@);
    while j > 0
        invariant
            j <= s.len(),
            rindex_of(s@, c) == rindex_of(s@.take(j as int), c),
        decreases j,
    {
        if s[j - 1] == c {
            return Some(j - 1);
        }
        assert(s@.take(j as int).drop_last() =~= s@.take(j - 1));
        j -= 1;
    }
    None
}

/// Exec: join the first `k` parts with `c`.
pub fn join_prefix_exec(parts: &[Vec<char>], k: usize, c: char) -> (r: Vec<char>)
    requires
        k <= parts.len(),
    ensures
        r@ == join_with(views(parts@).take(k as int), c),
{
    if k == 0 {
        assert(views(parts@).take(0) =~= Seq::<Seq<char>>::empty());
        return Vec::new();
    }
    let mut r = slice_vec(&parts[0], 0, parts[0].len());
    assert(r@ =~= parts@[0]@);
    assert(views(parts@).take(1) =~= seq![parts@[0]@]);
    let mut i: usize = 1;
    while i < k
        invariant
            1 <= i <= k <= parts.len(),
            r@ == join_with(views(parts@).take(i as int), c),
        decreases k - i,
    {
        r.push(c);
        let r2 = concat(&r, &parts[i]);
        assert(views(parts@).take(i + 1).drop_last() =~= views(parts@).take(i as int));
        assert(views(parts@).take(i + 1).last() == parts@[i as int]@);
        r = r2;
        i += 1;
    }
    r
}

/// The views of a vector of strings.
pub open spec fn str_views(v: Seq<String>) -> Seq<Seq<char>> {
    v.map_values(|x: String| x@)
}

/// Exec: the characters of every string.
pub fn chars_of_all(v: &[String]) -> (r: Vec<Vec<char>>)
    ensures
        views(r@) == str_views(v@),
{
    let mut r: Vec<Vec<char>> = Vec::new();
    let mut i: usize = 0;
    while i < v.len()
        invariant
            i <= v.len(),
            views(r@) =~= str_views(v@).take(i as int),
        decreases v.len() - i,
    {
        let ghost old_r = r@;
        let x = chars_of(v[i].as_str());
        r.push(x);
        assert(views(r@) =~= views(old_r).push(v@[i as int]@));
        assert(str_views(v@).take(i + 1) =~= str_views(v@).take(i as int).push(v@[i as int]@));
        i += 1;
    }
    r
}

} // verus!

verus! {

/// Exec: are `a` and `b` the same characters?
pub fn eq_exec(a: &[char], b: &[char]) -> (r: bool)
    ensures
        r == (a@ == b@),
{
    if a.len() != b.len() {
        return false;
    }
    let r = starts_with_exec(a, b);
    assert(a@.take(b@.len() as int) =~= a@);
    r
}

/// Exec: `a + b + c`.
pub fn concat3(a: &[char], b: &[char], c: &[char]) -> (r: Vec<char>)
    ensures
        r@ == a@ + b@ + c@,
{
    let ab = concat(a, b);
    concat(&ab, c)
}

} // verus!

verus! {

/// `s` with every `"` escaped as `\"`.
pub open spec fn escape_quotes(s: Seq<char>) -> Seq<char>
    decreases s.len(),
{
    if s.len() == 0 {
        Seq::empty()
    } else if s.last() == '"' {
        escape_quotes(s.drop_last()) + seq!['\\', '"']
    } else {
        escape_quotes(s.drop_last()).push(s.last())
    }
}

/// `s` escaped and wrapped in double quotes.
pub open spec fn quoted(s: Seq<char>) -> Seq<char> {
    seq!['"'] + escape_quotes(s) + seq!['"']
}

/// Exec: `escape_quotes`.
pub fn escape_quotes_exec(s: &[char]) -> (r: Vec<char>)
    ensures
        r@ == escape_quotes(s@),
{
    let mut out: Vec<char> = Vec::new();
    let mut i: usize = 0;
    while i < s.len()
        invariant
            i <= s.len(),
            out@ == escape_quotes(s@.take(i as int)),
        decreases s.len() - i,
    {
        assert(s@.take(i + 1).drop_last() =~= s@.take(i as int));
        if s[i] == '"' {
            out.push('\\');
            out.push('"');
            assert(out@ =~= escape_quotes(s@.take(i as int)) + seq!['\\', '"']);
        } else {
            out.push(s[i]);
        }
        i += 1;
    }
    assert(s@.take(s.len() as int) =~= s@);
    out
}

/// Exec: `quoted`.
pub fn quoted_exec(s: &[char]) -> (r: Vec<char>)
    ensures
        r@ == quoted(s@),
{
    let e = escape_quotes_exec(s);
    let mut out: Vec<char> = Vec::new();
    out.push('"');
    let body = concat(&out, &e);
    let mut r = body;
    r.push('"');
    assert(r@ =~= quoted(s@));
    r
}

} // verus!

verus! {

/// `c` is an ASCII digit.
pub open spec fn is_digit(c: char) -> bool {
    '0' <= c && c <= '9'
}

/// The value of a run of ASCII digits.
pub open spec fn digits_value(d: Seq<char>) -> nat
    decreases d.len(),
{
    if d.len() == 0 {
        0
    } else {
        digits_value(d.drop_last()) * 10 + ((d.last() as u32) - ('0' as u32)) as nat
    }
}

/// `str::parse::<u64>`: an optional `+`, then one or more ASCII digits whose
/// value fits in `u64`.
pub open spec fn parse_u64(s: Seq<char>) -> Option<u64> {
    let d = unsigned_digits(s);
    if d.len() == 0 || exists|i: int| 0 <= i < d.len() && !is_digit(#[trigger] d[i]) {
        None
    } else if digits_value(d) > u64::MAX {
        None
    } else {
        Some(digits_value(d) as u64)
    }
}

/// The text after an optional leading `+`.
pub open spec fn unsigned_digits(s: Seq<char>) -> Seq<char> {
    if s.len() > 0 && s[0] == '+' {
        s.drop_first()
    } else {
        s
    }
}

/// A longer run of digits is worth at least as much.
pub proof fn lemma_digits_value_grows(d: Seq<char>, c: char)
    requires
        is_digit(c),
    ensures
        digits_value(d.push(c)) >= digits_value(d),
        digits_value(d.push(c)) == digits_value(d) * 10 + ((c as u32) - ('0' as u32)) as nat,
{
    assert(d.push(c).drop_last() =~= d);
}

/// Exec: the value of the digits `d`, or `None` when it exceeds `u64::MAX`.
pub fn digits_value_u64(d: &[char]) -> (r: Option<u64>)
    requires
        forall|i: int| 0 <= i < d@.len() ==> is_digit(#[trigger] d@[i]),
    ensures
        r matches Some(v) ==> digits_value(d@) <= u64::MAX && v == digits_value(d@),
        r is None ==> digits_value(d@) > u64::MAX,
{
    let mut acc: u64 = 0;
    let mut big = false;
    let mut i: usize = 0;
    while i < d.len()
        invariant
            i <= d.len(),
            forall|k: int| 0 <= k < d@.len() ==> is_digit(#[trigger] d@[k]),
            big ==> digits_value(d@.take(i as int)) > u64::MAX,
            !big ==> acc == digits_value(d@.take(i as int)),
        decreases d.len() - i,
    {
        let c = d[i];
        proof {
            lemma_digits_value_grows(d@.take(i as int), c);
            assert(d@.take(i + 1) =~= d@.take(i as int).push(c));
        }
        let v = (c as u32 - '0' as u32) as u64;
        if !big {
            if acc > (u64::MAX - v) / 10 {
                big = true;
                assert(acc * 10 + v > u64::MAX) by (nonlinear_arith)
                    requires
                        acc > (u64::MAX - v) / 10,
                        v <= 9,
                ;
            } else {
                assert(acc * 10 + v <= u64::MAX) by (nonlinear_arith)
                    requires
                        acc <= (u64::MAX - v) / 10,
                        v <= 9,
                ;
                acc = acc * 10 + v;
            }
        }
        i += 1;
    }
    assert(d@.take(d.len() as int) =~= d@);
    if big {
        None
    } else {
        Some(acc)
    }
}

/// Exec: `parse_u64`.
pub fn parse_u64_exec(s: &[char]) -> (r: Option<u64>)
    ensures
        r == parse_u64(s@),
{
    let d = if s.len() > 0 && s[0] == '+' {
        slice_vec(s, 1, s.len())
    } else {
        slice_vec(s, 0, s.len())
    };
    assert(d@ =~= unsigned_digits(s@));
    if d.len() == 0 {
        return None;
    }
    let mut i: usize = 0;
    while i < d.len()
        invariant
            i <= d.len(),
            forall|k: int| 0 <= k < i ==> is_digit(#[trigger] d@[k]),
            d@ == unsigned_digits(s@),
        decreases d.len() - i,
    {
        if !('0' <= d[i] && d[i] <= '9') {
            assert(!is_digit(unsigned_digits(s@)[i as int]));
            return None;
        }
        i += 1;
    }
    digits_value_u64(&d)
}

} // verus!

verus! {

/// ASCII lower-casing of a character.
pub open spec fn lower(c: char) -> char {
    if 'A' <= c && c <= 'Z' {
        ((c as u32) + 32) as char
    } else {
        c
    }
}

/// `str::to_ascii_lowercase`.
pub open spec fn to_lower(s: Seq<char>) -> Seq<char> {
    Seq::new(s.len(), |i: int| lower(s[i]))
}

/// Exec: `to_lower`.
pub fn to_lower_exec(s: &[char]) -> (r: Vec<char>)
    ensures
        r@ == to_lower(s@),
{
    let mut out: Vec<char> = Vec::new();
    let mut i: usize = 0;
    while i < s.len()
        invariant
            i <= s.len(),
            out@ =~= to_lower(s@).take(i as int),
        decreases s.len() - i,
    {
        let c = s[i];
        let l = if 'A' <= c && c <= 'Z' {
            ((c as u32) + 32) as u8 as char
        } else {
            c
        };
        assert(l == lower(c)) by {
            if 'A' <= c && c <= 'Z' {
                assert((c as u32) + 32 < 128);
            }
        };
        out.push(l);
        i += 1;
    }
    out
}

/// `Path::join` of a Unix directory and a name: an absolute `name` replaces
/// the directory; otherwise a `/` is inserted unless `dir` is empty or already
/// ends with one.
pub open spec fn path_join(dir: Seq<char>, name: Seq<char>) -> Seq<char> {
    if name.len() > 0 && name[0] == '/' {
        name
    } else if dir.len() == 0 || dir.last() == '/' {
        dir + name
    } else {
        dir + "/"@ + name
    }
}

/// Exec: `path_join`.
pub fn path_join_exec(dir: &str, name: &str) -> (r: String)
    ensures
        r@ == path_join(dir@, name@),
{
    let d = chars_of(dir);
    let n = chars_of(name);
    if n.len() > 0 && n[0] == '/' {
        string_of(&n)
    } else if d.len() == 0 || d[d.len() - 1] == '/' {
        string_of(&concat(&d, &n))
    } else {
        string_of(&concat3(&d, &chars_of("/"), &n))
    }
}

} // verus!

verus! {

/// The whitespace-separated words of `s` (`str::split_whitespace`), built one
/// character at a time: whitespace separates, a non-whitespace character
/// extends the word its predecessor belongs to or starts a new one.
pub open spec fn words(s: Seq<char>) -> Seq<Seq<char>>
    decreases s.len(),
{
    if s.len() == 0 {
        Seq::empty()
    } else {
        let w = words(s.drop_last());
        let c = s.last();
        if is_ws(c) {
            w
        } else if s.len() >= 2 && !is_ws(s[s.len() - 2]) {
            w.drop_last().push(w.last().push(c))
        } else {
            w.push(seq![c])
        }
    }
}

/// A text ending in a non-whitespace character has a word.
pub proof fn lemma_words_nonempty(s: Seq<char>)
    requires
        s.len() > 0,
        !is_ws(s.last()),
    ensures
        words(s).len() > 0,
    decreases s.len(),
{
    if s.len() >= 2 && !is_ws(s[s.len() - 2]) {
        let d = s.drop_last();
        assert(d.last() == s[s.len() - 2]);
        lemma_words_nonempty(d);
    }
}

/// Exec: `words`.
pub fn words_exec(s: &[char]) -> (r: Vec<Vec<char>>)
    ensures
        views(r@) == words(s@),
{
    let mut out: Vec<Vec<char>> = Vec::new();
    let mut i: usize = 0;
    assert(s@.take(0) =~= Seq::<char>::empty());
    while i < s.len()
        invariant
            i <= s.len(),
            views(out@) == words(s@.take(i as int)),
        decreases s.len() - i,
    {
        let c = s[i];
        let ghost t = s@.take(i + 1);
        assert(t.drop_last() =~= s@.take(i as int));
        assert(t.last() == c);
        if is_ws_exec(c) {
        } else if i >= 1 && !is_ws_exec(s[i - 1]) {
            assert(t[t.len() - 2] == s@[i - 1]);
            proof {
                let p = s@.take(i as int);
                assert(p.last() == s@[i - 1]);
                lemma_words_nonempty(p);
            }
            let ghost before = views(out@);
            let mut lastw = out.pop().unwrap();
            lastw.push(c);
            out.push(lastw);
            assert(views(out@) =~= before.drop_last().push(before.last().push(c)));
        } else {
            let ghost before = views(out@);
            let mut w: Vec<char> = Vec::new();
            w.push(c);
            out.push(w);
            assert(views(out@) =~= before.push(seq![c]));
        }
        i += 1;
    }
    assert(s@.take(s.len() as int) =~= s@);
    out
}

} // verus!

verus! {

/// `parts` joined with the separator `sep` between neighbours.
pub open spec fn join_str(parts: Seq<Seq<char>>, sep: Seq<char>) -> Seq<char>
    decreases parts.len(),
{
    if parts.len() == 0 {
        Seq::empty()
    } else if parts.len() == 1 {
        parts[0]
    } else {
        join_str(parts.drop_last(), sep) + sep + parts.last()
    }
}

/// Exec: `join_str` over strings.
pub fn join_str_exec(parts: &Vec<String>, sep: &[char]) -> (r: Vec<char>)
    ensures
        r@ == join_str(str_views(parts@), sep@),
{
    if parts.len() == 0 {
        return Vec::new();
    }
    let mut r = chars_of(parts[0].as_str());
    assert(str_views(parts@.take(1)) =~= seq![parts@[0]@]);
    let mut i: usize = 1;
    while i < parts.len()
        invariant
            1 <= i <= parts.len(),
            r@ == join_str(str_views(parts@.take(i as int)), sep@),
        decreases parts.len() - i,
    {
        let r2 = concat3(&r, sep, &chars_of(parts[i].as_str()));
        assert(str_views(parts@.take(i + 1)).drop_last() =~= str_views(parts@.take(i as int)));
        assert(str_views(parts@.take(i + 1)).last() == parts@[i as int]@);
        r = r2;
        i += 1;
    }
    assert(parts@.take(parts.len() as int) =~= parts@);
    r
}

} // verus!

verus! {

/// `s` without one trailing `\r`.
pub open spec fn strip_cr(s: Seq<char>) -> Seq<char> {
    if s.len() > 0 && s.last() == '\r' {
        s.drop_last()
    } else {
        s
    }
}

/// The lines of `s` (`str::lines`): split at `\n`, without a final empty
/// line after a trailing `\n`, each without a trailing `\r`.
pub open spec fn lines(s: Seq<char>) -> Seq<Seq<char>> {
    let parts = split_char(s, '\n');
    let kept = if s.len() == 0 {
        Seq::empty()
    } else if s.last() == '\n' {
        parts.drop_last()
    } else {
        parts
    };
    kept.map_values(|l: Seq<char>| strip_cr(l))
}

/// Exec: `lines`.
pub fn lines_exec(s: &[char]) -> (r: Vec<Vec<char>>)
    ensures
        views(r@) == lines(s@),
{
    let parts = split_char_exec(s, '\n');
    let n = if s.len() == 0 {
        0
    } else if s[s.len() - 1] == '\n' {
        proof {
            lemma_split_char_len(s@, '\n');
        }
        parts.len() - 1
    } else {
        parts.len()
    };
    let ghost kept = if s@.len() == 0 {
        Seq::<Seq<char>>::empty()
    } else if s@.last() == '\n' {
        views(parts@).drop_last()
    } else {
        views(parts@)
    };
    assert(kept.len() == n);
    let mut out: Vec<Vec<char>> = Vec::new();
    let mut i: usize = 0;
    while i < n
        invariant
            i <= n,
            n <= parts.len(),
            kept.len() == n,
            forall|k: int| 0 <= k < n ==> kept[k] == parts@[k]@,
            views(out@) =~= kept.take(i as int).map_values(|l: Seq<char>| strip_cr(l)),
        decreases n - i,
    {
        let p = &parts[i];
        let l = if p.len() > 0 && p[p.len() - 1] == '\r' {
            slice_vec(p, 0, p.len() - 1)
        } else {
            slice_vec(p, 0, p.len())
        };
        assert(l@ =~= strip_cr(p@));
        let ghost before = views(out@);
        out.push(l);
        assert(views(out@) =~= before.push(strip_cr(kept[i as int])));
        assert(kept.take(i + 1) =~= kept.take(i as int).push(kept[i as int]));
        i += 1;
    }
    assert(kept.take(n as int) =~= kept);
    out
}

/// `split_char` yields at least one piece.
pub proof fn lemma_split_char_len(s: Seq<char>, c: char)
    ensures
        split_char(s, c).len() >= 1,
    decreases s.len(),
{
    match index_of(s, c) {
        Some(k) => if 0 <= k < s.len() {
            lemma_split_char_len(s.skip(k + 1), c);
        },
        None => {},
    }
}

} // verus!
