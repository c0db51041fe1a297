//! Verified string helpers: searching, splitting, trimming and joining over
//! `&str` values, each tied to a spec function on `Seq<char>`.

use vstd::prelude::*;

verus! {

/// `pat` occurs in `s` starting at index `i`.
pub open spec fn occurs_at(s: Seq<char>, pat: Seq<char>, i: int) -> bool {
    0 <= i && i + pat.len() <= s.len() && s.subrange(i, i + pat.len()) == pat
}

/// Index of the first occurrence of a non-empty `pat` in `s` at or after `from`, if any.
pub open spec fn find_from(s: Seq<char>, pat: Seq<char>, from: int) -> Option<int>
    decreases s.len() - from,
{
    if from < 0 || from >= s.len() || from + pat.len() > s.len() {
        None
    } else if occurs_at(s, pat, from) {
        Some(from)
    } else {
        find_from(s, pat, from + 1)
    }
}

/// A found index lies between `from` and `s.len() - pat.len()`.
pub proof fn lemma_find_from_bounds(s: Seq<char>, pat: Seq<char>, from: int)
    ensures
        find_from(s, pat, from) matches Some(i) ==> from <= i && i + pat.len() <= s.len()
            && occurs_at(s, pat, i),
    decreases s.len() - from,
{
    if 0 <= from && from < s.len() && from + pat.len() <= s.len() && !occurs_at(s, pat, from) {
        lemma_find_from_bounds(s, pat, from + 1);
    }
}

/// Does `pat` occur in `s` at position `i`?
pub fn match_at(s: &str, pat: &str, i: usize) -> (b: bool)
    ensures
        b == occurs_at(s@, pat@, i as int),
{
    let s_len = s.unicode_len();
    let pat_len = pat.unicode_len();
    if i > s_len || pat_len > s_len - i {
        assert(!occurs_at(s@, pat@, i as int));
        return false;
    }
    let mut j: usize = 0;
    while j < pat_len
        invariant
            i + pat_len <= s_len,
            s_len == s@.len(),
            pat_len == pat@.len(),
            j <= pat_len,
            forall|k: int| 0 <= k < j ==> s@[i + k] == pat@[k],
        decreases pat_len - j,
    {
        if s.get_char(i + j) != pat.get_char(j) {
            assert(!occurs_at(s@, pat@, i as int)) by {
                assert(s@.subrange(i as int, i + pat@.len())[j as int] == s@[i + j]);
            }
            return false;
        }
        j += 1;
    }
    assert(s@.subrange(i as int, i + pat@.len()) =~= pat@);
    true
}

/// First occurrence of `pat` in `s` at or after `from`, as [`find_from`] gives it.
pub fn find_str(s: &str, pat: &str, from: usize) -> (r: Option<usize>)
    ensures
        match r {
            Some(i) => find_from(s@, pat@, from as int) == Some(i as int),
            None => find_from(s@, pat@, from as int) is None,
        },
{
    let s_len = s.unicode_len();
    let pat_len = pat.unicode_len();
    if from > s_len {
        assert(find_from(s@, pat@, from as int) is None);
        return None;
    }
    let mut i: usize = from;
    loop
        invariant
            s_len == s@.len(),
            pat_len == pat@.len(),
            from <= i <= s_len,
            find_from(s@, pat@, from as int) == find_from(s@, pat@, i as int),
        decreases s_len - i,
    {
        if i >= s_len || pat_len > s_len - i {
            assert(find_from(s@, pat@, i as int) is None);
            return None;
        }
        if match_at(s, pat, i) {
            assert(find_from(s@, pat@, i as int) == Some(i as int));
            return Some(i);
        }
        assert(find_from(s@, pat@, i as int) == find_from(s@, pat@, i + 1));
        i += 1;
    }
}

/// The views of a sequence of owned strings.
pub open spec fn str_views(v: Seq<String>) -> Seq<Seq<char>> {
    v.map_values(|t: String| t@)
}

/// `s` split around the first occurrence of `pat`, if `pat` occurs at all.
pub open spec fn split_once_seq(s: Seq<char>, pat: Seq<char>) -> Option<(Seq<char>, Seq<char>)> {
    match find_from(s, pat, 0) {
        Some(i) => Some((s.subrange(0, i), s.subrange(i + pat.len(), s.len() as int))),
        None => None,
    }
}

/// `s` split around every occurrence of a non-empty `pat`, left to right.
pub open spec fn split_seq(s: Seq<char>, pat: Seq<char>) -> Seq<Seq<char>>
    decreases s.len(),
{
    if pat.len() == 0 {
        seq![s]
    } else {
        match find_from(s, pat, 0) {
            Some(i) => if 0 <= i && i + pat.len() <= s.len() {
                seq![s.subrange(0, i)] + split_seq(
                    s.subrange(i + pat.len(), s.len() as int),
                    pat,
                )
            } else {
                seq![s]
            },
            None => seq![s],
        }
    }
}

/// `s` split around the first occurrence of `pat`: the pieces before and after.
pub fn split_once(s: &str, pat: &str) -> (r: Option<(String, String)>)
    ensures
        match r {
            Some(p) => split_once_seq(s@, pat@) == Some((p.0@, p.1@)),
            None => split_once_seq(s@, pat@) is None,
        },
{
    proof {
        lemma_find_from_bounds(s@, pat@, 0);
    }
    let s_len = s.unicode_len();
    let pat_len = pat.unicode_len();
    match find_str(s, pat, 0) {
        Some(i) => {
            let before = s.substring_char(0, i).to_owned();
            let after = s.substring_char(i + pat_len, s_len).to_owned();
            Some((before, after))
        },
        None => None,
    }
}

/// `s` split around every occurrence of `pat`, left to right.
pub fn split_string(s: &str, pat: &str) -> (v: Vec<String>)
    requires
        pat@.len() >= 1,
    ensures
        str_views(v@) == split_seq(s@, pat@),
    decreases s@.len(),
{
    proof {
        lemma_find_from_bounds(s@, pat@, 0);
    }
    let s_len = s.unicode_len();
    let pat_len = pat.unicode_len();
    match find_str(s, pat, 0) {
        Some(i) => {
            let head = s.substring_char(0, i).to_owned();
            let tail = s.substring_char(i + pat_len, s_len);
            let rest = split_string(tail, pat);
            let mut v: Vec<String> = Vec::new();
            v.push(head);
            let mut rest = rest;
            v.append(&mut rest);
            assert(str_views(v@) =~= split_seq(s@, pat@));
            v
        },
        None => {
            let mut v: Vec<String> = Vec::new();
            v.push(s.to_owned());
            assert(str_views(v@) =~= split_seq(s@, pat@));
            v
        },
    }
}

/// The whitespace characters the protocol cares about.
pub open spec fn is_space(c: char) -> bool {
    c == ' ' || c == '\t' || c == '\r' || c == '\n'
}

/// Exec mirror of [`is_space`].
pub fn is_space_char(c: char) -> (b: bool)
    ensures
        b == is_space(c),
{
    c == ' ' || c == '\t' || c == '\r' || c == '\n'
}

/// First index at or after `i` holding a non-space character (or the length).
pub open spec fn trim_start_idx(s: Seq<char>, i: int) -> int
    decreases s.len() - i,
{
    if 0 <= i && i < s.len() && is_space(s[i]) {
        trim_start_idx(s, i + 1)
    } else {
        i
    }
}

/// Last index at or before `j` such that everything from it to `j` is spaces.
pub open spec fn trim_end_idx(s: Seq<char>, j: int) -> int
    decreases j,
{
    if 0 < j && j <= s.len() && is_space(s[j - 1]) {
        trim_end_idx(s, j - 1)
    } else {
        j
    }
}

/// `s` with leading and trailing whitespace removed.
pub open spec fn trim_seq(s: Seq<char>) -> Seq<char> {
    let a = trim_start_idx(s, 0);
    let b = trim_end_idx(s, s.len() as int);
    if a <= b {
        s.subrange(a, b)
    } else {
        Seq::empty()
    }
}

/// `s` with leading and trailing whitespace removed, as an owned string.
pub fn trim(s: &str) -> (r: String)
    ensures
        r@ == trim_seq(s@),
{
    let len = s.unicode_len();
    let mut a: usize = 0;
    while a < len && is_space_char(s.get_char(a))
        invariant
            len == s@.len(),
            0 <= a <= len,
            trim_start_idx(s@, 0) == trim_start_idx(s@, a as int),
        decreases len - a,
    {
        assert(trim_start_idx(s@, a as int) == trim_start_idx(s@, a + 1));
        a += 1;
    }
    assert(trim_start_idx(s@, 0) == a);
    let mut b: usize = len;
    while b > 0 && is_space_char(s.get_char(b - 1))
        invariant
            len == s@.len(),
            0 <= b <= len,
            trim_end_idx(s@, len as int) == trim_end_idx(s@, b as int),
        decreases b,
    {
        assert(trim_end_idx(s@, b as int) == trim_end_idx(s@, b - 1));
        b -= 1;
    }
    assert(trim_end_idx(s@, len as int) == b);
    if a <= b {
        s.substring_char(a, b).to_owned()
    } else {
        let r = String::new();
        assert(r@ =~= trim_seq(s@));
        r
    }
}

/// First index at or after `i` whose character is not `c` (or the length).
pub open spec fn skip_char_idx(s: Seq<char>, c: char, i: int) -> int
    decreases s.len() - i,
{
    if 0 <= i && i < s.len() && s[i] == c {
        skip_char_idx(s, c, i + 1)
    } else {
        i
    }
}

/// `s` with every leading occurrence of `c` removed.
pub open spec fn strip_leading(s: Seq<char>, c: char) -> Seq<char> {
    let a = skip_char_idx(s, c, 0);
    if 0 <= a <= s.len() {
        s.subrange(a, s.len() as int)
    } else {
        s
    }
}

/// `s` with every leading occurrence of `c` removed, as an owned string.
pub fn strip_leading_char(s: &str, c: char) -> (r: String)
    ensures
        r@ == strip_leading(s@, c),
{
    let len = s.unicode_len();
    let mut a: usize = 0;
    while a < len && s.get_char(a) == c
        invariant
            len == s@.len(),
            0 <= a <= len,
            skip_char_idx(s@, c, 0) == skip_char_idx(s@, c, a as int),
        decreases len - a,
    {
        assert(skip_char_idx(s@, c, a as int) == skip_char_idx(s@, c, a + 1));
        a += 1;
    }
    assert(skip_char_idx(s@, c, 0) == a);
    s.substring_char(a, len).to_owned()
}

/// `s` with every trailing repetition of a non-empty `pat` removed.
pub open spec fn strip_trailing(s: Seq<char>, pat: Seq<char>) -> Seq<char>
    decreases s.len(),
{
    if pat.len() >= 1 && s.len() >= pat.len() && s.subrange(
        s.len() - pat.len(),
        s.len() as int,
    ) == pat {
        strip_trailing(s.subrange(0, s.len() - pat.len()), pat)
    } else {
        s
    }
}

/// `s` with every trailing repetition of `pat` removed, as an owned string.
pub fn strip_trailing_str(s: &str, pat: &str) -> (r: String)
    requires
        pat@.len() >= 1,
    ensures
        r@ == strip_trailing(s@, pat@),
{
    let len = s.unicode_len();
    let pat_len = pat.unicode_len();
    let mut end: usize = len;
    proof {
        assert(s@.subrange(0, len as int) =~= s@);
    }
    while end >= pat_len && match_at(s, pat, end - pat_len)
        invariant
            len == s@.len(),
            pat_len == pat@.len(),
            pat_len >= 1,
            0 <= end <= len,
            strip_trailing(s@, pat@) == strip_trailing(s@.subrange(0, end as int), pat@),
        decreases end,
    {
        let ghost pre = s@.subrange(0, end as int);
        assert(pre.subrange(pre.len() - pat@.len(), pre.len() as int) =~= s@.subrange(
            end - pat_len,
            end as int,
        ));
        assert(pre.subrange(0, pre.len() - pat@.len()) =~= s@.subrange(0, end - pat_len));
        end -= pat_len;
    }
    proof {
        let pre = s@.subrange(0, end as int);
        if end >= pat_len {
            assert(pre.subrange(pre.len() - pat@.len(), pre.len() as int) =~= s@.subrange(
                end - pat_len,
                end as int,
            ));
        }
        assert(strip_trailing(pre, pat@) == pre);
    }
    s.substring_char(0, end).to_owned()
}

/// First index at or after `i` holding a space (or the length): the end of the
/// word that starts at `i`.
pub open spec fn word_end(s: Seq<char>, i: int) -> int
    decreases s.len() - i,
{
    if 0 <= i && i < s.len() && !is_space(s[i]) {
        word_end(s, i + 1)
    } else {
        i
    }
}

/// The whitespace-separated words of `s` from index `i` on: no empties, in order.
pub open spec fn split_ws_from(s: Seq<char>, i: int) -> Seq<Seq<char>>
    decreases s.len() - i,
{
    if i < 0 || i >= s.len() {
        Seq::empty()
    } else if is_space(s[i]) {
        split_ws_from(s, i + 1)
    } else {
        let e = word_end(s, i);
        if i < e <= s.len() {
            seq![s.subrange(i, e)] + split_ws_from(s, e)
        } else {
            seq![s.subrange(i, s.len() as int)]
        }
    }
}

/// The whitespace-separated words of `s`.
pub open spec fn split_ws(s: Seq<char>) -> Seq<Seq<char>> {
    split_ws_from(s, 0)
}

/// The whitespace-separated words of `s`, as owned strings.
pub fn split_whitespace_vec(s: &str) -> (v: Vec<String>)
    ensures
        str_views(v@) == split_ws(s@),
{
    let len = s.unicode_len();
    let mut out: Vec<String> = Vec::new();
    let mut i: usize = 0;
    while i < len
        invariant
            len == s@.len(),
            0 <= i <= len,
            str_views(out@) + split_ws_from(s@, i as int) =~= split_ws(s@),
        decreases len - i,
    {
        if is_space_char(s.get_char(i)) {
            assert(split_ws_from(s@, i as int) == split_ws_from(s@, i + 1));
            i += 1;
        } else {
            let word_start = i;
            let mut e: usize = i;
            while e < len && !is_space_char(s.get_char(e))
                invariant
                    len == s@.len(),
                    0 <= i <= e <= len,
                    word_end(s@, i as int) == word_end(s@, e as int),
                decreases len - e,
            {
                assert(word_end(s@, e as int) == word_end(s@, e + 1));
                e += 1;
            }
            assert(word_end(s@, i as int) == e);
            let word = s.substring_char(i, e).to_owned();
            let ghost prev = out@;
            out.push(word);
            assert(str_views(out@) =~= str_views(prev) + seq![word@]);
            assert(split_ws_from(s@, i as int) == seq![s@.subrange(i as int, e as int)]
                + split_ws_from(s@, e as int));
            i = e;
        }
    }
    assert(split_ws_from(s@, i as int) =~= Seq::<Seq<char>>::empty());
    assert(str_views(out@) =~= split_ws(s@));
    out
}

/// The elements of `parts` from index `i` on, joined with single spaces.
pub open spec fn join_spaces_from(parts: Seq<Seq<char>>, i: int) -> Seq<char>
    decreases parts.len() - i,
{
    if i < 0 || i >= parts.len() {
        Seq::empty()
    } else if i == parts.len() - 1 {
        parts[i]
    } else {
        parts[i] + seq![' '] + join_spaces_from(parts, i + 1)
    }
}

/// The words of `parts`, joined with single spaces.
pub open spec fn join_spaces(parts: Seq<Seq<char>>) -> Seq<char> {
    join_spaces_from(parts, 0)
}

/// Joins `parts[from..to]` with single spaces.
pub fn join_spaces_range(parts: &Vec<String>, from: usize, to: usize) -> (r: String)
    requires
        from <= to <= parts@.len(),
    ensures
        r@ == join_spaces(str_views(parts@.subrange(from as int, to as int))),
    decreases to - from,
{
    let ghost window = str_views(parts@.subrange(from as int, to as int));
    if from == to {
        let r = String::new();
        assert(r@ =~= join_spaces(window));
        r
    } else if from + 1 == to {
        let r = parts[from].clone();
        assert(window.len() == 1 && window[0] == parts@[from as int]@);
        r
    } else {
        let mut r = parts[from].clone();
        r.append(" ");
        let rest = join_spaces_range(parts, from + 1, to);
        r.append(rest.as_str());
        proof {
            let sub = parts@.subrange(from as int, to as int);
            let sub1 = parts@.subrange(from + 1, to as int);
            let w = str_views(sub);
            let w1 = str_views(sub1);
            reveal_strlit(" ");
            assert(" "@ =~= seq![' ']);
            assert(w[0] == parts@[from as int]@);
            lemma_join_from_congruent(w, 1, w1, 0);
        }
        r
    }
}

/// Joining two lists of words agrees when their suffixes hold the same words.
proof fn lemma_join_from_congruent(a: Seq<Seq<char>>, i: int, b: Seq<Seq<char>>, j: int)
    requires
        0 <= i <= a.len(),
        0 <= j <= b.len(),
        a.len() - i == b.len() - j,
        forall|k: int| 0 <= k < a.len() - i ==> #[trigger] a[i + k] == b[j + k],
    ensures
        join_spaces_from(a, i) == join_spaces_from(b, j),
    decreases a.len() - i,
{
    if i < a.len() {
        assert(a[i + 0] == b[j + 0]);
        assert forall|k: int| 0 <= k < a.len() - (i + 1) implies #[trigger] a[(i + 1) + k] == b[(j
            + 1) + k] by {
            assert(a[i + (k + 1)] == b[j + (k + 1)]);
        }
        lemma_join_from_congruent(a, i + 1, b, j + 1);
    }
}

/// The first whitespace-separated word of `s`: everything before the first
/// space, the whole string if it has none.
pub fn first_word(s: &str) -> (w: String)
    ensures
        w@ == s@.subrange(0, word_end(s@, 0)),
{
    let len = s.unicode_len();
    let mut e: usize = 0;
    while e < len && !is_space_char(s.get_char(e))
        invariant
            len == s@.len(),
            0 <= e <= len,
            word_end(s@, 0) == word_end(s@, e as int),
        decreases len - e,
    {
        assert(word_end(s@, e as int) == word_end(s@, e + 1));
        e += 1;
    }
    assert(word_end(s@, 0) == e);
    s.substring_char(0, e).to_owned()
}

/// Do two strings hold the same characters?
pub fn str_eq(a: &str, b: &str) -> (r: bool)
    ensures
        r == (a@ == b@),
{
    let a_len = a.unicode_len();
    let b_len = b.unicode_len();
    if a_len != b_len {
        return false;
    }
    let mut i: usize = 0;
    while i < a_len
        invariant
            a_len == a@.len() == b@.len(),
            0 <= i <= a_len,
            forall|k: int| 0 <= k < i ==> a@[k] == b@[k],
        decreases a_len - i,
    {
        if a.get_char(i) != b.get_char(i) {
            return false;
        }
        i += 1;
    }
    proof {
        assert(a@ =~= b@);
    }
    true
}

/// Does `s` start with the character `c`?
pub fn starts_with_char(s: &str, c: char) -> (b: bool)
    ensures
        b == (s@.len() > 0 && s@[0] == c),
{
    if s.unicode_len() == 0 {
        false
    } else {
        s.get_char(0) == c
    }
}

} // verus!
