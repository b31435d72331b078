//! Character-level text utilities: substring search, whitespace trimming,
//! splitting into lines, and leading-token extraction, each with a
//! sequence-level specification.

use vstd::prelude::*;

verus! {

/// The whitespace characters that surround tokens in the query output.
pub open spec fn is_space(c: char) -> bool {
    c == ' ' || c == '\t' || c == '\n' || c == '\r'
}

/// Executable mirror of [`is_space`].
pub fn is_space_char(c: char) -> (r: bool)
    ensures
        r == is_space(c),
{
    c == ' ' || c == '\t' || c == '\n' || c == '\r'
}

/// `pat` occurs in `s` starting at position `i`.
pub open spec fn match_at(s: Seq<char>, pat: Seq<char>, i: int) -> bool {
    &&& 0 <= i
    &&& i + pat.len() <= s.len()
    &&& s.subrange(i, i + pat.len() as int) == pat
}

/// `pat` occurs somewhere in `s`.
pub open spec fn has_match(s: Seq<char>, pat: Seq<char>) -> bool {
    exists|i: int| match_at(s, pat, i)
}

/// Whether `pat` occurs in `s` at position `i`.
fn match_at_idx(s: &str, pat: &str, i: usize) -> (r: bool)
    requires
        i + pat@.len() <= s@.len(),
    ensures
        r == match_at(s@, pat@, i as int),
{
    let sn: usize = s.unicode_len();
    let pn: usize = pat.unicode_len();
    let mut j: usize = 0;
    while j < pn
        invariant
            sn == s@.len(),
            pn == pat@.len(),
            i + pn <= sn,
            0 <= j <= pn,
            forall|k: int| 0 <= k < j ==> s@[i + k] == pat@[k],
        decreases pn - j,
    {
        if s.get_char(i + j) != pat.get_char(j) {
            assert(s@.subrange(i as int, i + pn) != pat@) by {
                assert(s@.subrange(i as int, i + pn)[j as int] != pat@[j as int]);
            }
            return false;
        }
        j += 1;
    }
    assert(s@.subrange(i as int, i + pn) =~= pat@);
    true
}

/// Position of the first occurrence of `pat` in `s`, or nothing.
pub open spec fn find_of(s: Seq<char>, pat: Seq<char>) -> Option<int>
    decreases s.len(),
{
    if s.len() < pat.len() {
        None
    } else if s.subrange(0, pat.len() as int) == pat {
        Some(0)
    } else if s.len() == 0 {
        None
    } else {
        match find_of(s.subrange(1, s.len() as int), pat) {
            Some(i) => Some(i + 1),
            None => None,
        }
    }
}

/// A match of `pat` inside the tail of `s` is a shifted match inside `s`.
proof fn lemma_match_at_shift(s: Seq<char>, pat: Seq<char>, j: int)
    requires
        0 <= j,
        s.len() > 0,
    ensures
        match_at(s.subrange(1, s.len() as int), pat, j) <==> match_at(s, pat, j + 1),
{
    let t = s.subrange(1, s.len() as int);
    if j + pat.len() <= t.len() {
        assert(t.subrange(j, j + pat.len() as int) =~= s.subrange(j + 1, j + 1 + pat.len() as int));
    }
}

/// If `pat` matches at `k` and nowhere earlier, `find_of` returns `k`.
proof fn lemma_find_of_at(s: Seq<char>, pat: Seq<char>, k: int)
    requires
        match_at(s, pat, k),
        forall|j: int| 0 <= j < k ==> !match_at(s, pat, j),
    ensures
        find_of(s, pat) == Some(k),
    decreases k,
{
    if k == 0 {
        assert(s.len() >= pat.len());
    } else {
        assert(!match_at(s, pat, 0));
        assert(s.len() > 0);
        let t = s.subrange(1, s.len() as int);
        lemma_match_at_shift(s, pat, k - 1);
        assert forall|j: int| 0 <= j < k - 1 implies !match_at(t, pat, j) by {
            lemma_match_at_shift(s, pat, j);
        }
        lemma_find_of_at(t, pat, k - 1);
        if s.subrange(0, pat.len() as int) == pat {
            assert(match_at(s, pat, 0));
        }
    }
}

/// If `pat` matches nowhere in `s`, `find_of` returns nothing.
proof fn lemma_find_of_none(s: Seq<char>, pat: Seq<char>)
    requires
        !has_match(s, pat),
    ensures
        find_of(s, pat) is None,
    decreases s.len(),
{
    if s.len() >= pat.len() {
        if s.subrange(0, pat.len() as int) == pat {
            assert(match_at(s, pat, 0));
        }
        if s.len() > 0 {
            let t = s.subrange(1, s.len() as int);
            assert forall|j: int| !match_at(t, pat, j) by {
                if j >= 0 {
                    lemma_match_at_shift(s, pat, j);
                    assert(!match_at(s, pat, j + 1));
                }
            }
            lemma_find_of_none(t, pat);
        }
    }
}

/// Position of the first occurrence of `pat` in `s`, if any.
pub fn find_sub(s: &str, pat: &str) -> (r: Option<usize>)
    ensures
        match r {
            Some(i) => find_of(s@, pat@) == Some(i as int) && match_at(s@, pat@, i as int) && (
            forall|j: int| 0 <= j < i ==> !match_at(s@, pat@, j)),
            None => find_of(s@, pat@) is None && !has_match(s@, pat@),
        },
{
    let sn: usize = s.unicode_len();
    let pn: usize = pat.unicode_len();
    if pn > sn {
        proof {
            assert(!has_match(s@, pat@));
            lemma_find_of_none(s@, pat@);
        }
        return None;
    }
    if pn == 0 {
        proof {
            assert(match_at(s@, pat@, 0)) by {
                assert(s@.subrange(0, 0) =~= pat@);
            }
            lemma_find_of_at(s@, pat@, 0);
        }
        return Some(0);
    }
    let mut i: usize = 0;
    while i <= sn - pn
        invariant
            sn == s@.len(),
            pn == pat@.len(),
            0 < pn <= sn,
            0 <= i <= sn - pn + 1,
            forall|j: int| 0 <= j < i ==> !match_at(s@, pat@, j),
        decreases sn - pn + 1 - i,
    {
        if match_at_idx(s, pat, i) {
            proof {
                lemma_find_of_at(s@, pat@, i as int);
            }
            return Some(i);
        }
        i += 1;
    }
    proof {
        assert forall|j: int| !match_at(s@, pat@, j) by {
            if 0 <= j <= sn - pn {
                assert(!match_at(s@, pat@, j));
            }
        }
        lemma_find_of_none(s@, pat@);
    }
    None
}

/// Whether `pat` occurs anywhere in `s`.
pub fn contains_sub(s: &str, pat: &str) -> (r: bool)
    ensures
        r == has_match(s@, pat@),
{
    match find_sub(s, pat) {
        Some(i) => {
            assert(has_match(s@, pat@)) by {
                assert(match_at(s@, pat@, i as int));
            }
            true
        },
        None => false,
    }
}

/// `s` without its leading whitespace.
pub open spec fn trim_start(s: Seq<char>) -> Seq<char>
    decreases s.len(),
{
    if s.len() > 0 && is_space(s[0]) {
        trim_start(s.subrange(1, s.len() as int))
    } else {
        s
    }
}

/// `s` without its trailing whitespace.
pub open spec fn trim_end(s: Seq<char>) -> Seq<char>
    decreases s.len(),
{
    if s.len() > 0 && is_space(s[s.len() - 1]) {
        trim_end(s.subrange(0, s.len() - 1))
    } else {
        s
    }
}

/// `s` without leading and trailing whitespace.
pub open spec fn trimmed(s: Seq<char>) -> Seq<char> {
    trim_end(trim_start(s))
}

/// If everything before `i` is whitespace and `s[i]` is not (or `i` is the
/// end), trimming from the start cuts exactly the first `i` characters.
proof fn lemma_trim_start_at(s: Seq<char>, i: int)
    requires
        0 <= i <= s.len(),
        forall|k: int| 0 <= k < i ==> is_space(s[k]),
        i == s.len() || !is_space(s[i]),
    ensures
        trim_start(s) == s.subrange(i, s.len() as int),
    decreases i,
{
    if i == 0 {
        assert(s.subrange(0, s.len() as int) =~= s);
    } else {
        let t = s.subrange(1, s.len() as int);
        lemma_trim_start_at(t, i - 1);
        assert(t.subrange(i - 1, t.len() as int) =~= s.subrange(i, s.len() as int));
    }
}

/// If everything from `j` on is whitespace and `s[j - 1]` is not (or `j` is
/// zero), trimming from the end cuts exactly the characters from `j` on.
proof fn lemma_trim_end_at(s: Seq<char>, j: int)
    requires
        0 <= j <= s.len(),
        forall|k: int| j <= k < s.len() ==> is_space(s[k]),
        j == 0 || !is_space(s[j - 1]),
    ensures
        trim_end(s) == s.subrange(0, j),
    decreases s.len(),
{
    if j == s.len() {
        assert(s.subrange(0, s.len() as int) =~= s);
    } else {
        let t = s.subrange(0, s.len() - 1);
        assert(forall|k: int| j <= k < t.len() ==> t[k] == s[k]);
        lemma_trim_end_at(t, j);
        assert(t.subrange(0, j) =~= s.subrange(0, j));
    }
}

/// `s` with surrounding whitespace removed; the result is a slice of `s`.
pub fn trim(s: &str) -> (r: &str)
    ensures
        r@ == trimmed(s@),
{
    let n: usize = s.unicode_len();
    let mut a: usize = 0;
    while a < n && is_space_char(s.get_char(a))
        invariant
            n == s@.len(),
            0 <= a <= n,
            forall|k: int| 0 <= k < a ==> is_space(s@[k]),
        decreases n - a,
    {
        a += 1;
    }
    proof {
        lemma_trim_start_at(s@, a as int);
    }
    if a == n {
        let r = s.substring_char(0, 0);
        assert(r@ =~= trimmed(s@)) by {
            assert(trim_start(s@) =~= Seq::<char>::empty());
        }
        return r;
    }
    let mut b: usize = n;
    while b > a && is_space_char(s.get_char(b - 1))
        invariant
            n == s@.len(),
            0 <= a <= b <= n,
            !is_space(s@[a as int]),
            forall|k: int| b <= k < n ==> is_space(s@[k]),
        decreases b,
    {
        b -= 1;
    }
    let r = s.substring_char(a, b);
    proof {
        let t = trim_start(s@);
        assert(t == s@.subrange(a as int, n as int));
        assert(b > a);
        assert(!is_space(s@[b - 1]));
        assert(forall|k: int| b - a <= k < t.len() ==> is_space(t[k]));
        lemma_trim_end_at(t, b - a);
        assert(t.subrange(0, b - a) =~= s@.subrange(a as int, b as int));
    }
    r
}

/// The views of a sequence of owned strings.
pub open spec fn views_of(lines: Seq<String>) -> Seq<Seq<char>> {
    Seq::new(lines.len(), |i: int| lines[i]@)
}

/// `s` split on newline characters. Splitting the empty text gives one empty
/// line, and a trailing newline contributes a final empty line, as the
/// standard line splitting does.
pub open spec fn lines_of(s: Seq<char>) -> Seq<Seq<char>>
    decreases s.len(),
{
    if s.len() == 0 {
        seq![Seq::<char>::empty()]
    } else if s[0] == '\n' {
        seq![Seq::<char>::empty()] + lines_of(s.subrange(1, s.len() as int))
    } else {
        let rest = lines_of(s.subrange(1, s.len() as int));
        seq![seq![s[0]] + rest[0]] + rest.subrange(1, rest.len() as int)
    }
}

/// There is always at least one line.
proof fn lemma_lines_nonempty(s: Seq<char>)
    ensures
        lines_of(s).len() >= 1,
    decreases s.len(),
{
    if s.len() > 0 {
        lemma_lines_nonempty(s.subrange(1, s.len() as int));
    }
}

/// A text without newlines is a single line.
proof fn lemma_lines_single(s: Seq<char>)
    requires
        forall|k: int| 0 <= k < s.len() ==> s[k] != '\n',
    ensures
        lines_of(s) == seq![s],
    decreases s.len(),
{
    if s.len() == 0 {
        assert(s =~= Seq::<char>::empty());
        assert(lines_of(s) =~= seq![s]);
    } else {
        assert(s[0] != '\n');
        let t = s.subrange(1, s.len() as int);
        lemma_lines_single(t);
        let rest = lines_of(t);
        assert(rest[0] == t);
        assert(rest.subrange(1, rest.len() as int) =~= Seq::<Seq<char>>::empty());
        assert(seq![s[0]] + t =~= s);
        assert(lines_of(s) =~~= seq![s]);
    }
}

/// Splitting off the first line: if the first newline of `s` is at `m`, the
/// lines of `s` are the prefix before `m` followed by the lines of the rest.
proof fn lemma_lines_head(s: Seq<char>, m: int)
    requires
        0 <= m < s.len(),
        s[m] == '\n',
        forall|k: int| 0 <= k < m ==> s[k] != '\n',
    ensures
        lines_of(s) == seq![s.subrange(0, m)] + lines_of(s.subrange(m + 1, s.len() as int)),
    decreases m,
{
    let t = s.subrange(1, s.len() as int);
    if m == 0 {
        assert(s.subrange(0, 0) =~= Seq::<char>::empty());
        assert(s.subrange(1, s.len() as int) =~= t);
    } else {
        lemma_lines_head(t, m - 1);
        let rest = lines_of(t);
        lemma_lines_nonempty(t.subrange(m, t.len() as int));
        assert(t.subrange(0, m - 1) =~= s.subrange(1, m));
        assert(t.subrange(m, t.len() as int) =~= s.subrange(m + 1, s.len() as int));
        assert(rest == seq![s.subrange(1, m)] + lines_of(s.subrange(m + 1, s.len() as int)));
        assert(seq![s[0]] + rest[0] =~= s.subrange(0, m));
        assert(rest.subrange(1, rest.len() as int) =~= lines_of(
            s.subrange(m + 1, s.len() as int),
        ));
        assert(lines_of(s) =~= seq![s.subrange(0, m)] + lines_of(
            s.subrange(m + 1, s.len() as int),
        ));
    }
}

/// `s` split into owned lines on newline characters.
pub fn split_lines(s: &str) -> (r: Vec<String>)
    ensures
        views_of(r@) == lines_of(s@),
{
    let n: usize = s.unicode_len();
    let mut out: Vec<String> = Vec::new();
    let mut start: usize = 0;
    let mut k: usize = 0;
    proof {
        assert(s@.subrange(0, n as int) =~= s@);
        assert(views_of(out@) + lines_of(s@) =~= lines_of(s@));
    }
    while k < n
        invariant
            n == s@.len(),
            0 <= start <= k <= n,
            forall|t: int| start <= t < k ==> s@[t] != '\n',
            lines_of(s@) == views_of(out@) + lines_of(s@.subrange(start as int, n as int)),
        decreases n - k,
    {
        if s.get_char(k) == '\n' {
            let line = String::from_str(s.substring_char(start, k));
            proof {
                let rem = s@.subrange(start as int, n as int);
                lemma_lines_head(rem, k - start);
                assert(rem.subrange(0, k - start) =~= s@.subrange(start as int, k as int));
                assert(rem.subrange(k - start + 1, rem.len() as int) =~= s@.subrange(
                    k + 1,
                    n as int,
                ));
                assert(views_of(out@.push(line)) =~= views_of(out@) + seq![line@]);
                assert(views_of(out@.push(line)) + lines_of(s@.subrange(k + 1, n as int)) =~= (
                views_of(out@) + lines_of(rem)));
            }
            out.push(line);
            start = k + 1;
        }
        k += 1;
    }
    let line = String::from_str(s.substring_char(start, n));
    proof {
        let rem = s@.subrange(start as int, n as int);
        lemma_lines_single(rem);
        assert(views_of(out@.push(line)) =~= views_of(out@) + seq![rem]);
    }
    out.push(line);
    out
}

/// Trimming strips any surrounding whitespace and nothing else: a token with
/// non-whitespace ends, padded with whitespace on either side, trims back to
/// exactly the token.
pub proof fn lemma_trimmed_padding(pre: Seq<char>, s: Seq<char>, post: Seq<char>)
    requires
        forall|k: int| 0 <= k < pre.len() ==> is_space(#[trigger] pre[k]),
        forall|k: int| 0 <= k < post.len() ==> is_space(#[trigger] post[k]),
        s.len() > 0,
        !is_space(s[0]),
        !is_space(s[s.len() - 1]),
    ensures
        trimmed(pre + s + post) == s,
{
    let t = pre + s + post;
    assert(forall|k: int| 0 <= k < pre.len() ==> t[k] == pre[k]);
    assert(t[pre.len() as int] == s[0]);
    lemma_trim_start_at(t, pre.len() as int);
    let u = t.subrange(pre.len() as int, t.len() as int);
    assert(u =~= s + post);
    assert(forall|k: int| s.len() <= k < u.len() ==> #[trigger] u[k] == post[k - s.len()]);
    assert(u[s.len() - 1] == s[s.len() - 1]);
    lemma_trim_end_at(u, s.len() as int);
    assert(u.subrange(0, s.len() as int) =~= s);
}

/// The longest whitespace-free prefix of `s`.
pub open spec fn leading_token(s: Seq<char>) -> Seq<char>
    decreases s.len(),
{
    if s.len() > 0 && !is_space(s[0]) {
        seq![s[0]] + leading_token(s.subrange(1, s.len() as int))
    } else {
        Seq::empty()
    }
}

/// The first whitespace-delimited token of `line`; empty when the line holds
/// only whitespace.
pub open spec fn first_token(line: Seq<char>) -> Seq<char> {
    leading_token(trim_start(line))
}

/// If the first `m` characters are not whitespace and `s[m]` is (or `m` is
/// the end), the leading token is exactly the first `m` characters.
proof fn lemma_leading_token_at(s: Seq<char>, m: int)
    requires
        0 <= m <= s.len(),
        forall|k: int| 0 <= k < m ==> !is_space(s[k]),
        m == s.len() || is_space(s[m]),
    ensures
        leading_token(s) == s.subrange(0, m),
    decreases m,
{
    if m == 0 {
        assert(leading_token(s) =~= s.subrange(0, 0));
    } else {
        assert(!is_space(s[0]));
        let t = s.subrange(1, s.len() as int);
        lemma_leading_token_at(t, m - 1);
        assert(t.subrange(0, m - 1) =~= s.subrange(1, m));
        assert(seq![s[0]] + s.subrange(1, m) =~= s.subrange(0, m));
    }
}

/// The first whitespace-delimited token of `line`, as an owned string.
pub fn first_token_str(line: &str) -> (r: String)
    ensures
        r@ == first_token(line@),
{
    let n: usize = line.unicode_len();
    let mut a: usize = 0;
    while a < n && is_space_char(line.get_char(a))
        invariant
            n == line@.len(),
            0 <= a <= n,
            forall|k: int| 0 <= k < a ==> is_space(line@[k]),
        decreases n - a,
    {
        a += 1;
    }
    proof {
        lemma_trim_start_at(line@, a as int);
    }
    let mut b: usize = a;
    while b < n && !is_space_char(line.get_char(b))
        invariant
            n == line@.len(),
            0 <= a <= b <= n,
            forall|k: int| a <= k < b ==> !is_space(line@[k]),
        decreases n - b,
    {
        b += 1;
    }
    let r = String::from_str(line.substring_char(a, b));
    proof {
        let t = line@.subrange(a as int, n as int);
        lemma_leading_token_at(t, b - a);
        assert(t.subrange(0, b - a) =~= line@.subrange(a as int, b as int));
    }
    r
}

/// Character-for-character equality of two string slices.
pub fn str_eq(a: &str, b: &str) -> (r: bool)
    ensures
        r == (a@ == b@),
{
    let an: usize = a.unicode_len();
    let bn: usize = b.unicode_len();
    if an != bn {
        return false;
    }
    let mut i: usize = 0;
    while i < an
        invariant
            an == a@.len(),
            an == b@.len(),
            0 <= i <= an,
            forall|k: int| 0 <= k < i ==> a@[k] == b@[k],
        decreases an - i,
    {
        if a.get_char(i) != b.get_char(i) {
            return false;
        }
        i += 1;
    }
    proof {
        assert(a@ =~= b@);
    }
    true
}

/// Index of the first line in `lines` that contains `marker`, or nothing.
pub open spec fn first_line_with(lines: Seq<Seq<char>>, marker: Seq<char>) -> Option<int>
    decreases lines.len(),
{
    if lines.len() == 0 {
        None
    } else if has_match(lines[0], marker) {
        Some(0)
    } else {
        match first_line_with(lines.subrange(1, lines.len() as int), marker) {
            Some(i) => Some(i + 1),
            None => None,
        }
    }
}

/// If line `k` contains `marker` and no earlier line does, `first_line_with`
/// returns `k`.
proof fn lemma_first_line_with_at(lines: Seq<Seq<char>>, marker: Seq<char>, k: int)
    requires
        0 <= k < lines.len(),
        has_match(lines[k], marker),
        forall|j: int| 0 <= j < k ==> !has_match(#[trigger] lines[j], marker),
    ensures
        first_line_with(lines, marker) == Some(k),
    decreases k,
{
    if k > 0 {
        let t = lines.subrange(1, lines.len() as int);
        assert(t[k - 1] == lines[k]);
        assert(forall|j: int| 0 <= j < k - 1 ==> #[trigger] t[j] == lines[j + 1]);
        lemma_first_line_with_at(t, marker, k - 1);
    }
}

/// If no line contains `marker`, `first_line_with` returns nothing.
proof fn lemma_first_line_with_none(lines: Seq<Seq<char>>, marker: Seq<char>)
    requires
        forall|j: int| 0 <= j < lines.len() ==> !has_match(#[trigger] lines[j], marker),
    ensures
        first_line_with(lines, marker) is None,
    decreases lines.len(),
{
    if lines.len() > 0 {
        let t = lines.subrange(1, lines.len() as int);
        assert(forall|j: int| 0 <= j < t.len() ==> #[trigger] t[j] == lines[j + 1]);
        lemma_first_line_with_none(t, marker);
    }
}

/// Index of the first line of `lines` that contains `marker`, if any.
pub fn find_line_with(lines: &Vec<String>, marker: &str) -> (r: Option<usize>)
    ensures
        match r {
            Some(i) => i < lines.len() && first_line_with(views_of(lines@), marker@) == Some(
                i as int,
            ) && has_match(lines@[i as int]@, marker@),
            None => first_line_with(views_of(lines@), marker@) is None,
        },
{
    let n: usize = lines.len();
    let mut k: usize = 0;
    while k < n
        invariant
            n == lines.len(),
            0 <= k <= n,
            forall|j: int| 0 <= j < k ==> !has_match(#[trigger] views_of(lines@)[j], marker@),
        decreases n - k,
    {
        if contains_sub(lines[k].as_str(), marker) {
            proof {
                assert(views_of(lines@)[k as int] == lines@[k as int]@);
                lemma_first_line_with_at(views_of(lines@), marker@, k as int);
            }
            return Some(k);
        }
        assert(views_of(lines@)[k as int] == lines@[k as int]@);
        k += 1;
    }
    proof {
        lemma_first_line_with_none(views_of(lines@), marker@);
    }
    None
}

} // verus!
