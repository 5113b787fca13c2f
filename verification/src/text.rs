//! Line-oriented text utilities.
//!
//! Every parser in the crate works on `Vec<char>` buffers whose view is a
//! `Seq<char>`.  The two conversions at the `&str` boundary are the only
//! trusted pieces; everything else is verified against spec functions that
//! define the operation over sequences.

use vstd::prelude::*;

verus! {

/// Relies on `str::chars` collected into a `Vec`: the characters of the
/// string, in order.
#[verifier::external_body]
pub fn str_chars(s: &str) -> (r: Vec<char>)
    ensures
        r@ == s@,
{
    s.chars().collect()
}

/// Relies on `String::from_iter` over `char`s: the string made of exactly
/// those characters, in order.
#[verifier::external_body]
pub fn chars_string(v: &Vec<char>) -> (r: String)
    ensures
        r@ == v@,
{
    v.iter().collect()
}

/// ASCII whitespace, the class the parsers split and trim on.
pub open spec fn is_wspace(c: char) -> bool {
    c == ' ' || c == '\t' || c == '\n' || c == '\r' || c == '\u{000b}' || c == '\u{000c}'
}

pub fn wspace(c: char) -> (r: bool)
    ensures
        r == is_wspace(c),
{
    c == ' ' || c == '\t' || c == '\n' || c == '\r' || c == '\u{000b}' || c == '\u{000c}'
}

/// ASCII-only lowercase folding of one character.
pub open spec fn lower_char(c: char) -> char {
    if 'A' <= c && c <= 'Z' {
        ((c as u32) + 32) as char
    } else {
        c
    }
}

/// ASCII-only lowercase folding of a sequence.
pub open spec fn spec_lower(s: Seq<char>) -> Seq<char> {
    s.map_values(|c: char| lower_char(c))
}

pub fn lower_vec(s: &Vec<char>) -> (r: Vec<char>)
    ensures
        r@ == spec_lower(s@),
{
    let mut r: Vec<char> = Vec::new();
    let mut i: usize = 0;
    while i < s.len()
        invariant
            i <= s.len(),
            r@ == spec_lower(s@.take(i as int)),
        decreases s.len() - i,
    {
        let c = s[i];
        let l = if 'A' <= c && c <= 'Z' {
            (((c as u8) + 32) as char)
        } else {
            c
        };
        assert(l == lower_char(c));
        r.push(l);
        proof {
            assert(s@.take(i + 1 as int).map_values(|c: char| lower_char(c))
                =~= s@.take(i as int).map_values(|c: char| lower_char(c)).push(lower_char(s@[i as int])));
        }
        i = i + 1;
    }
    proof {
        assert(s@.take(s@.len() as int) =~= s@);
    }
    r
}

/// A copy of `s[from..to]`.
pub fn subvec(s: &Vec<char>, from: usize, to: usize) -> (r: Vec<char>)
    requires
        from <= to <= s@.len(),
    ensures
        r@ == s@.subrange(from as int, to as int),
{
    let mut r: Vec<char> = Vec::new();
    let mut i: usize = from;
    while i < to
        invariant
            from <= i <= to <= s@.len(),
            r@ == s@.subrange(from as int, i as int),
        decreases to - i,
    {
        r.push(s[i]);
        proof {
            assert(s@.subrange(from as int, i + 1 as int)
                =~= s@.subrange(from as int, i as int).push(s@[i as int]));
        }
        i = i + 1;
    }
    r
}

/// First occurrence of `c` in `s` at or after `from`.
pub fn find_char_from(s: &Vec<char>, from: usize, c: char) -> (r: Option<usize>)
    requires
        from <= s@.len(),
    ensures
        match r {
            Some(i) => from <= i < s@.len() && s@[i as int] == c
                && forall|j: int| from <= j < i ==> s@[j] != c,
            None => forall|j: int| from <= j < s@.len() ==> s@[j] != c,
        },
{
    let mut i: usize = from;
    while i < s.len()
        invariant
            from <= i <= s@.len(),
            forall|j: int| from <= j < i ==> s@[j] != c,
        decreases s.len() - i,
    {
        if s[i] == c {
            return Some(i);
        }
        i = i + 1;
    }
    None
}

/// Whether `p` is a prefix of `s`.
pub open spec fn spec_starts_with(s: Seq<char>, p: Seq<char>) -> bool {
    p.len() <= s.len() && s.subrange(0, p.len() as int) == p
}

pub fn starts_with(s: &Vec<char>, p: &Vec<char>) -> (r: bool)
    ensures
        r == spec_starts_with(s@, p@),
{
    if p.len() > s.len() {
        assert(!spec_starts_with(s@, p@));
        return false;
    }
    let mut i: usize = 0;
    while i < p.len()
        invariant
            i <= p@.len() <= s@.len(),
            forall|j: int| 0 <= j < i ==> s@[j] == p@[j],
        decreases p.len() - i,
    {
        if s[i] != p[i] {
            assert(s@.subrange(0, p@.len() as int)[i as int] != p@[i as int]);
            return false;
        }
        i = i + 1;
    }
    proof {
        assert(s@.subrange(0, p@.len() as int) =~= p@);
    }
    true
}

/// Whether `p` is a suffix of `s`.
pub open spec fn spec_ends_with(s: Seq<char>, p: Seq<char>) -> bool {
    p.len() <= s.len() && s.subrange(s.len() - p.len(), s.len() as int) == p
}

pub fn ends_with(s: &Vec<char>, p: &Vec<char>) -> (r: bool)
    ensures
        r == spec_ends_with(s@, p@),
{
    if p.len() > s.len() {
        return false;
    }
    let off: usize = s.len() - p.len();
    let mut i: usize = 0;
    while i < p.len()
        invariant
            off == s@.len() - p@.len(),
            i <= p@.len() <= s@.len() <= usize::MAX,
            forall|j: int| 0 <= j < i ==> s@[off + j] == p@[j],
        decreases p.len() - i,
    {
        if s[off + i] != p[i] {
            assert(s@.subrange(s@.len() - p@.len(), s@.len() as int)[i as int] != p@[i as int]);
            return false;
        }
        i = i + 1;
    }
    proof {
        assert(s@.subrange(s@.len() - p@.len(), s@.len() as int) =~= p@);
    }
    true
}

/// Whether `p` occurs anywhere in `s` as a contiguous run.
pub open spec fn spec_contains(s: Seq<char>, p: Seq<char>) -> bool {
    exists|i: int|
        0 <= i && i + p.len() <= s.len() && #[trigger] s.subrange(i, i + p.len() as int) == p
}

pub fn contains_seq(s: &Vec<char>, p: &Vec<char>) -> (r: bool)
    ensures
        r == spec_contains(s@, p@),
{
    if p.len() > s.len() {
        return false;
    }
    if p.len() == 0 {
        proof {
            assert(s@.subrange(0, 0 + p@.len() as int) =~= p@);
        }
        return true;
    }
    let bound: usize = s.len() - p.len();
    let mut i: usize = 0;
    while i <= bound
        invariant
            1 <= p@.len() <= s@.len() <= usize::MAX,
            bound == s@.len() - p@.len(),
            i <= bound + 1,
            forall|k: int| 0 <= k < i ==> #[trigger] s@.subrange(k, k + p@.len() as int) != p@,
        decreases bound + 1 - i,
    {
        let mut j: usize = 0;
        let mut matched: bool = true;
        while matched && j < p.len()
            invariant
                i + p@.len() <= s@.len() <= usize::MAX,
                j <= p@.len(),
                matched ==> (forall|t: int| 0 <= t < j ==> s@[i + t] == p@[t]),
                !matched ==> (exists|t: int| 0 <= t < p@.len() && s@[i + t] != p@[t]),
            decreases p.len() - j,
        {
            if s[i + j] != p[j] {
                matched = false;
                assert(s@[i + j as int] != p@[j as int]);
            }
            j = j + 1;
        }
        if matched {
            proof {
                assert(s@.subrange(i as int, i + p@.len() as int) =~= p@);
            }
            return true;
        }
        proof {
            let w = choose|t: int| 0 <= t < p@.len() && s@[i + t] != p@[t];
            assert(s@.subrange(i as int, i + p@.len() as int)[w] != p@[w]);
        }
        i = i + 1;
    }
    proof {
        assert forall|k: int| 0 <= k && k + p@.len() <= s@.len() implies
            #[trigger] s@.subrange(k, k + p@.len() as int) != p@ by {
            assert(k < i as int);
        }
    }
    false
}

/// Whether two buffers hold the same characters.
pub fn eq_vec(a: &Vec<char>, b: &Vec<char>) -> (r: bool)
    ensures
        r == (a@ == b@),
{
    if a.len() != b.len() {
        return false;
    }
    let mut i: usize = 0;
    while i < a.len()
        invariant
            a@.len() == b@.len(),
            i <= a@.len(),
            forall|j: int| 0 <= j < i ==> a@[j] == b@[j],
        decreases a.len() - i,
    {
        if a[i] != b[i] {
            return false;
        }
        i = i + 1;
    }
    proof {
        assert(a@ =~= b@);
    }
    true
}

/// Index of the first occurrence of `c` at or after `i`, or the length of
/// `s` if there is none.
pub open spec fn scan_to(s: Seq<char>, c: char, i: int) -> int
    decreases s.len() - i,
{
    if i < 0 {
        0
    } else if i >= s.len() {
        s.len() as int
    } else if s[i] == c {
        i
    } else {
        scan_to(s, c, i + 1)
    }
}

pub proof fn lemma_scan_to(s: Seq<char>, c: char, i: int)
    requires
        0 <= i <= s.len(),
    ensures
        i <= scan_to(s, c, i) <= s.len(),
        forall|j: int| i <= j < scan_to(s, c, i) ==> s[j] != c,
        scan_to(s, c, i) < s.len() ==> s[scan_to(s, c, i)] == c,
    decreases s.len() - i,
{
    if i < s.len() && s[i] != c {
        lemma_scan_to(s, c, i + 1);
    }
}

/// The characterisation of `scan_to` is unique.
pub proof fn lemma_scan_to_eq(s: Seq<char>, c: char, i: int, j: int)
    requires
        0 <= i <= j <= s.len(),
        forall|t: int| i <= t < j ==> s[t] != c,
        j < s.len() ==> s[j] == c,
    ensures
        scan_to(s, c, i) == j,
{
    lemma_scan_to(s, c, i);
}

/// A line with one trailing carriage return removed.
pub open spec fn strip_cr(t: Seq<char>) -> Seq<char> {
    if t.len() > 0 && t[t.len() - 1] == '\r' {
        t.drop_last()
    } else {
        t
    }
}

/// The lines of `s` from position `i` on: split at `'\n'`, one trailing
/// `'\r'` removed from each piece, and no empty piece after a final break.
pub open spec fn lines_from(s: Seq<char>, i: int) -> Seq<Seq<char>>
    decreases s.len() - i + 1,
    via lines_from_decreases
{
    if i < 0 || i >= s.len() {
        Seq::empty()
    } else {
        seq![strip_cr(s.subrange(i, scan_to(s, '\n', i)))] + lines_from(s, scan_to(s, '\n', i) + 1)
    }
}

#[via_fn]
proof fn lines_from_decreases(s: Seq<char>, i: int) {
    if 0 <= i < s.len() {
        lemma_scan_to(s, '\n', i);
    }
}

/// The lines of a whole text.
pub open spec fn spec_lines(s: Seq<char>) -> Seq<Seq<char>> {
    lines_from(s, 0)
}

pub fn lines_of(s: &Vec<char>) -> (r: Vec<Vec<char>>)
    ensures
        r.deep_view() == spec_lines(s@),
{
    let mut r: Vec<Vec<char>> = Vec::new();
    proof {
        assert(r.deep_view() =~~= Seq::<Seq<char>>::empty());
        assert(Seq::<Seq<char>>::empty() + lines_from(s@, 0) =~= lines_from(s@, 0));
    }
    let mut i: usize = 0;
    while i < s.len()
        invariant
            i <= s@.len(),
            spec_lines(s@) == r.deep_view() + lines_from(s@, i as int),
        decreases s.len() - i,
    {
        let ghost i0 = i as int;
        let j = match find_char_from(s, i, '\n') {
            Some(j) => j,
            None => s.len(),
        };
        proof {
            lemma_scan_to_eq(s@, '\n', i0, j as int);
        }
        let mut line = subvec(s, i, j);
        if line.len() > 0 && line[line.len() - 1] == '\r' {
            line.pop();
            proof {
                assert(line@ =~= strip_cr(s@.subrange(i0, j as int)));
            }
        }
        assert(line@ == strip_cr(s@.subrange(i0, j as int)));
        let ghost prev = r.deep_view();
        r.push(line);
        proof {
            assert(r.deep_view() =~~= prev.push(line@));
        }
        if j == s.len() {
            i = s.len();
        } else {
            i = j + 1;
        }
        proof {
            assert(lines_from(s@, i0) == seq![strip_cr(s@.subrange(i0, j as int))] + lines_from(
                s@,
                j + 1 as int,
            ));
            if j == s@.len() {
                assert(lines_from(s@, j + 1 as int) =~= lines_from(s@, i as int));
            }
            assert(spec_lines(s@) =~= r.deep_view() + lines_from(s@, i as int));
        }
    }
    proof {
        assert(r.deep_view() =~= spec_lines(s@));
    }
    r
}

/// Appends a copy of `src` to `dst`.
pub fn push_all(dst: &mut Vec<char>, src: &Vec<char>)
    ensures
        final(dst)@ == old(dst)@ + src@,
{
    let mut k: usize = 0;
    while k < src.len()
        invariant
            k <= src@.len(),
            dst@ == old(dst)@ + src@.take(k as int),
        decreases src.len() - k,
    {
        dst.push(src[k]);
        proof {
            assert(old(dst)@ + src@.take(k + 1 as int) =~= (old(dst)@ + src@.take(k as int)).push(
                src@[k as int],
            ));
        }
        k = k + 1;
    }
    proof {
        assert(old(dst)@ + src@.take(src@.len() as int) =~= old(dst)@ + src@);
    }
}

/// The pieces of `ls` from position `i` on, joined with a line break.
pub open spec fn join_nl_from(ls: Seq<Seq<char>>, i: int) -> Seq<char>
    decreases ls.len() - i,
{
    if i < 0 || i >= ls.len() {
        Seq::empty()
    } else if i == ls.len() - 1 {
        ls[i]
    } else {
        ls[i] + seq!['\n'] + join_nl_from(ls, i + 1)
    }
}

/// All pieces of `ls` joined with a line break.
pub open spec fn spec_join_nl(ls: Seq<Seq<char>>) -> Seq<char> {
    join_nl_from(ls, 0)
}

pub fn join_nl(ls: &Vec<Vec<char>>) -> (r: Vec<char>)
    ensures
        r@ == spec_join_nl(ls.deep_view()),
{
    let ghost d = ls.deep_view();
    let mut r: Vec<char> = Vec::new();
    proof {
        assert(Seq::<char>::empty() + join_nl_from(d, 0) =~= join_nl_from(d, 0));
    }
    let mut i: usize = 0;
    while i < ls.len()
        invariant
            i <= ls@.len(),
            d == ls.deep_view(),
            d.len() == ls@.len(),
            spec_join_nl(d) == r@ + join_nl_from(d, i as int),
        decreases ls.len() - i,
    {
        proof {
            assert(d[i as int] == ls@[i as int]@);
        }
        push_all(&mut r, &ls[i]);
        if i + 1 < ls.len() {
            r.push('\n');
            proof {
                assert(r@ + join_nl_from(d, i + 1 as int) =~= spec_join_nl(d));
            }
        } else {
            proof {
                assert(join_nl_from(d, i + 1 as int) =~= Seq::<char>::empty());
                assert(r@ + join_nl_from(d, i + 1 as int) =~= spec_join_nl(d));
            }
        }
        i = i + 1;
    }
    proof {
        assert(r@ =~= spec_join_nl(d));
    }
    r
}

/// Index of the first occurrence of `p` in `s` at or after `i`.
pub open spec fn find_sub_from(s: Seq<char>, p: Seq<char>, i: int) -> Option<int>
    decreases s.len() - i + 1,
{
    if i < 0 || i + p.len() > s.len() {
        None
    } else if s.subrange(i, i + p.len() as int) == p {
        Some(i)
    } else {
        find_sub_from(s, p, i + 1)
    }
}

/// Index of the first occurrence of `p` in `s`.
pub open spec fn spec_find_sub(s: Seq<char>, p: Seq<char>) -> Option<int> {
    find_sub_from(s, p, 0)
}

pub fn find_sub(s: &Vec<char>, p: &Vec<char>) -> (r: Option<usize>)
    ensures
        match r {
            Some(k) => spec_find_sub(s@, p@) == Some(k as int) && k + p@.len() <= s@.len()
                && s@.subrange(k as int, k + p@.len() as int) == p@,
            None => spec_find_sub(s@, p@) is None,
        },
{
    if p.len() > s.len() {
        return None;
    }
    let bound: usize = s.len() - p.len();
    let mut i: usize = 0;
    while i <= bound
        invariant
            p@.len() <= s@.len() <= usize::MAX,
            bound == s@.len() - p@.len(),
            i <= bound + 1,
            spec_find_sub(s@, p@) == find_sub_from(s@, p@, i as int),
        decreases bound + 1 - i,
    {
        let mut j: usize = 0;
        let mut matched: bool = true;
        while matched && j < p.len()
            invariant
                i + p@.len() <= s@.len() <= usize::MAX,
                j <= p@.len(),
                matched ==> (forall|t: int| 0 <= t < j ==> s@[i + t] == p@[t]),
                !matched ==> (exists|t: int| 0 <= t < p@.len() && s@[i + t] != p@[t]),
            decreases p.len() - j,
        {
            if s[i + j] != p[j] {
                matched = false;
                assert(s@[i + j as int] != p@[j as int]);
            }
            j = j + 1;
        }
        if matched {
            proof {
                assert(s@.subrange(i as int, i + p@.len() as int) =~= p@);
            }
            return Some(i);
        }
        proof {
            let w = choose|t: int| 0 <= t < p@.len() && s@[i + t] != p@[t];
            assert(s@.subrange(i as int, i + p@.len() as int)[w] != p@[w]);
        }
        i = i + 1;
    }
    None
}

/// Leading whitespace removed.
pub open spec fn spec_trim_start(s: Seq<char>) -> Seq<char>
    decreases s.len(),
{
    if s.len() > 0 && is_wspace(s[0]) {
        spec_trim_start(s.drop_first())
    } else {
        s
    }
}

/// Trailing whitespace removed.
pub open spec fn spec_trim_end(s: Seq<char>) -> Seq<char>
    decreases s.len(),
{
    if s.len() > 0 && is_wspace(s[s.len() - 1]) {
        spec_trim_end(s.drop_last())
    } else {
        s
    }
}

/// Leading and trailing whitespace removed.
pub open spec fn spec_trim(s: Seq<char>) -> Seq<char> {
    spec_trim_end(spec_trim_start(s))
}

proof fn lemma_trim_start(s: Seq<char>, a: int)
    requires
        0 <= a <= s.len(),
        forall|j: int| 0 <= j < a ==> is_wspace(s[j]),
        a < s.len() ==> !is_wspace(s[a]),
    ensures
        spec_trim_start(s) == s.subrange(a, s.len() as int),
    decreases a,
{
    if a == 0 {
        assert(s.subrange(0, s.len() as int) =~= s);
    } else {
        lemma_trim_start(s.drop_first(), a - 1);
        assert(s.drop_first().subrange(a - 1, s.drop_first().len() as int) =~= s.subrange(
            a,
            s.len() as int,
        ));
    }
}

proof fn lemma_trim_end(s: Seq<char>, b: int)
    requires
        0 <= b <= s.len(),
        forall|j: int| b <= j < s.len() ==> is_wspace(s[j]),
        b > 0 ==> !is_wspace(s[b - 1]),
    ensures
        spec_trim_end(s) == s.subrange(0, b),
    decreases s.len(),
{
    if b == s.len() {
        if s.len() > 0 && is_wspace(s[s.len() - 1]) {
            assert(!is_wspace(s[b - 1]));
            assert(false);
        }
        assert(s.subrange(0, s.len() as int) =~= s);
    } else {
        assert(is_wspace(s[s.len() - 1]));
        lemma_trim_end(s.drop_last(), b);
        assert(s.drop_last().subrange(0, b) =~= s.subrange(0, b));
    }
}

pub fn trim_vec(s: &Vec<char>) -> (r: Vec<char>)
    ensures
        r@ == spec_trim(s@),
{
    let mut a: usize = 0;
    while a < s.len() && wspace(s[a])
        invariant
            a <= s@.len(),
            forall|j: int| 0 <= j < a ==> is_wspace(s@[j]),
        decreases s.len() - a,
    {
        a = a + 1;
    }
    proof {
        lemma_trim_start(s@, a as int);
    }
    if a == s.len() {
        proof {
            assert(spec_trim_start(s@) =~= Seq::<char>::empty());
            lemma_trim_end(Seq::<char>::empty(), 0);
            assert(spec_trim(s@) =~= Seq::<char>::empty());
        }
        let r: Vec<char> = Vec::new();
        return r;
    }
    let mut b: usize = s.len();
    while b > a && wspace(s[b - 1])
        invariant
            a <= b <= s@.len(),
            a < s@.len(),
            !is_wspace(s@[a as int]),
            forall|j: int| b <= j < s@.len() ==> is_wspace(s@[j]),
        decreases b,
    {
        b = b - 1;
    }
    proof {
        assert(b > a) by {
            if b == a {
                assert(is_wspace(s@[a as int]));
            }
        }
        let tail = s@.subrange(a as int, s@.len() as int);
        assert(forall|j: int| b - a <= j < tail.len() ==> is_wspace(#[trigger] tail[j]));
        assert(!is_wspace(tail[b - a - 1]));
        lemma_trim_end(tail, b - a as int);
        assert(tail.subrange(0, b - a as int) =~= s@.subrange(a as int, b as int));
    }
    subvec(s, a, b)
}

/// End of the whitespace-free run that starts at `i`.
pub open spec fn token_end(s: Seq<char>, i: int) -> int
    decreases s.len() - i,
{
    if i < 0 {
        0
    } else if i >= s.len() {
        s.len() as int
    } else if is_wspace(s[i]) {
        i
    } else {
        token_end(s, i + 1)
    }
}

pub proof fn lemma_token_end(s: Seq<char>, i: int)
    requires
        0 <= i <= s.len(),
    ensures
        i <= token_end(s, i) <= s.len(),
        forall|j: int| i <= j < token_end(s, i) ==> !is_wspace(s[j]),
        token_end(s, i) < s.len() ==> is_wspace(s[token_end(s, i)]),
    decreases s.len() - i,
{
    if i < s.len() && !is_wspace(s[i]) {
        lemma_token_end(s, i + 1);
    }
}

/// The whitespace-separated fields of `s` from position `i` on.
pub open spec fn fields_from(s: Seq<char>, i: int) -> Seq<Seq<char>>
    decreases s.len() - i,
    via fields_from_decreases
{
    if i < 0 || i >= s.len() {
        Seq::empty()
    } else if is_wspace(s[i]) {
        fields_from(s, i + 1)
    } else {
        seq![s.subrange(i, token_end(s, i))] + fields_from(s, token_end(s, i))
    }
}

#[via_fn]
proof fn fields_from_decreases(s: Seq<char>, i: int) {
    if 0 <= i < s.len() && !is_wspace(s[i]) {
        lemma_token_end(s, i);
        assert(token_end(s, i) == token_end(s, i + 1));
    }
}

/// The whitespace-separated fields of a whole text.
pub open spec fn spec_fields(s: Seq<char>) -> Seq<Seq<char>> {
    fields_from(s, 0)
}

pub fn fields_of(s: &Vec<char>) -> (r: Vec<Vec<char>>)
    ensures
        r.deep_view() == spec_fields(s@),
{
    let mut r: Vec<Vec<char>> = Vec::new();
    proof {
        assert(r.deep_view() =~~= Seq::<Seq<char>>::empty());
        assert(Seq::<Seq<char>>::empty() + fields_from(s@, 0) =~= fields_from(s@, 0));
    }
    let mut i: usize = 0;
    while i < s.len()
        invariant
            i <= s@.len(),
            spec_fields(s@) == r.deep_view() + fields_from(s@, i as int),
        decreases s.len() - i,
    {
        let ghost i0 = i as int;
        if wspace(s[i]) {
            i = i + 1;
        } else {
            let mut j: usize = i + 1;
            while j < s.len() && !wspace(s[j])
                invariant
                    i0 < j <= s@.len(),
                    forall|t: int| i0 <= t < j ==> !is_wspace(s@[t]),
                decreases s.len() - j,
            {
                j = j + 1;
            }
            proof {
                lemma_token_end(s@, i0);
                assert(token_end(s@, i0) == j as int) by {
                    let e = token_end(s@, i0);
                    if e < j {
                        assert(!is_wspace(s@[e]));
                    }
                    if e > j {
                        assert(is_wspace(s@[j as int]));
                        assert((j as int) < e);
                    }
                }
            }
            let tok = subvec(s, i, j);
            let ghost prev = r.deep_view();
            r.push(tok);
            proof {
                assert(r.deep_view() =~~= prev.push(tok@));
                assert(spec_fields(s@) =~= r.deep_view() + fields_from(s@, j as int));
            }
            i = j;
        }
    }
    proof {
        assert(r.deep_view() =~= spec_fields(s@));
    }
    r
}

/// The trimmed text after the first colon, if a colon is present and the
/// trimmed remainder is non-empty.
pub open spec fn spec_after_colon(s: Seq<char>) -> Option<Seq<char>> {
    let j = scan_to(s, ':', 0);
    if j < s.len() {
        let v = spec_trim(s.subrange(j + 1, s.len() as int));
        if v.len() > 0 {
            Some(v)
        } else {
            None
        }
    } else {
        None
    }
}

pub fn after_colon(s: &Vec<char>) -> (r: Option<Vec<char>>)
    ensures
        match r {
            Some(v) => spec_after_colon(s@) == Some(v@),
            None => spec_after_colon(s@) is None,
        },
{
    let j = match find_char_from(s, 0, ':') {
        Some(j) => j,
        None => {
            proof {
                lemma_scan_to_eq(s@, ':', 0, s@.len() as int);
            }
            return None;
        },
    };
    proof {
        lemma_scan_to_eq(s@, ':', 0, j as int);
    }
    let n = s.len();
    let rest = subvec(s, j + 1, n);
    let v = trim_vec(&rest);
    if v.len() > 0 {
        Some(v)
    } else {
        None
    }
}

} // verus!
