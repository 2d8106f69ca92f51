//! Verified text utilities: character extraction, equality, substring
//! search, trimming, line splitting and decimal rendering.  Everything
//! the validator and the report builders say about text is stated over
//! `Seq<char>` through the spec functions here.

use vstd::prelude::*;
use vstd::string::*;

verus! {

/// `needle` occurs in `hay` exactly at position `i`.
pub open spec fn matches_at(hay: Seq<char>, needle: Seq<char>, i: int) -> bool {
    0 <= i && i + needle.len() <= hay.len() && hay.subrange(i, i + needle.len() as int)
        == needle
}

/// `needle` occurs somewhere in `hay` (an empty needle occurs in anything).
pub open spec fn contains_seq(hay: Seq<char>, needle: Seq<char>) -> bool {
    exists|i: int| matches_at(hay, needle, i)
}

/// `hay` begins with `needle`.
pub open spec fn starts_with(hay: Seq<char>, needle: Seq<char>) -> bool {
    matches_at(hay, needle, 0)
}

/// The characters of `s`, one by one.
pub fn chars_of(s: &str) -> (r: Vec<char>)
    ensures
        r@ == s@,
{
    let n: usize = s.unicode_len();
    let mut r: Vec<char> = Vec::new();
    let mut i: usize = 0;
    while i < n
        invariant
            i <= n,
            n == s@.len(),
            r@ == s@.subrange(0, i as int),
        decreases n - i,
    {
        r.push(s.get_char(i));
        i = i + 1;
        proof {
            assert(r@ =~= s@.subrange(0, i as int));
        }
    }
    proof {
        assert(s@.subrange(0, n as int) =~= s@);
    }
    r
}

/// Character-for-character equality of two string slices.
pub fn str_eq(a: &str, b: &str) -> (r: bool)
    ensures
        r == (a@ == b@),
{
    let na: usize = a.unicode_len();
    let nb: usize = b.unicode_len();
    if na != nb {
        return false;
    }
    let mut i: usize = 0;
    while i < na
        invariant
            i <= na,
            na == a@.len(),
            na == b@.len(),
            forall|j: int| 0 <= j < i ==> a@[j] == b@[j],
        decreases na - i,
    {
        if a.get_char(i) != b.get_char(i) {
            return false;
        }
        i = i + 1;
    }
    proof {
        assert(a@ =~= b@);
    }
    true
}

/// Whether `needle` occurs at position `i` of `hay`.
pub fn occurs_at(hay: &Vec<char>, needle: &Vec<char>, i: usize) -> (r: bool)
    requires
        i + needle@.len() <= hay@.len(),
    ensures
        r == matches_at(hay@, needle@, i as int),
{
    let m: usize = needle.len();
    let hl: usize = hay.len();
    let mut j: usize = 0;
    while j < m
        invariant
            j <= m,
            m == needle@.len(),
            hl == hay@.len(),
            i + m <= hay@.len(),
            forall|k: int| 0 <= k < j ==> hay@[i + k] == needle@[k],
        decreases m - j,
    {
        if hay[i + j] != needle[j] {
            proof {
                assert(hay@.subrange(i as int, i + m as int)[j as int] != needle@[j as int]);
            }
            return false;
        }
        j = j + 1;
    }
    proof {
        assert(hay@.subrange(i as int, i + m as int) =~= needle@);
    }
    true
}

/// Whether `needle` occurs anywhere in `hay`.
pub fn contains_chars(hay: &Vec<char>, needle: &Vec<char>) -> (r: bool)
    ensures
        r == contains_seq(hay@, needle@),
{
    let n: usize = hay.len();
    let m: usize = needle.len();
    if m > n {
        proof {
            assert(forall|i: int| !matches_at(hay@, needle@, i));
        }
        return false;
    }
    if m == 0 {
        proof {
            assert(hay@.subrange(0, 0) =~= needle@);
            assert(matches_at(hay@, needle@, 0));
        }
        return true;
    }
    let mut i: usize = 0;
    while i <= n - m
        invariant
            1 <= m <= n,
            n == hay@.len(),
            m == needle@.len(),
            i <= n - m + 1,
            forall|k: int| 0 <= k < i ==> !matches_at(hay@, needle@, k),
        decreases n - m - i + 1,
    {
        if occurs_at(hay, needle, i) {
            proof {
                assert(matches_at(hay@, needle@, i as int));
            }
            return true;
        }
        i = i + 1;
    }
    proof {
        assert(forall|k: int| matches_at(hay@, needle@, k) ==> 0 <= k <= n - m);
    }
    false
}

/// Whether the text of `needle` occurs anywhere in `hay`.
pub fn contains_str(hay: &Vec<char>, needle: &str) -> (r: bool)
    ensures
        r == contains_seq(hay@, needle@),
{
    let nv: Vec<char> = chars_of(needle);
    contains_chars(hay, &nv)
}

/// Whether `hay` begins with the text of `needle`.
pub fn starts_with_str(hay: &Vec<char>, needle: &str) -> (r: bool)
    ensures
        r == starts_with(hay@, needle@),
{
    let nv: Vec<char> = chars_of(needle);
    if nv.len() > hay.len() {
        return false;
    }
    occurs_at(hay, &nv, 0)
}

/// Whether the characters of `v` spell exactly the text of `s`.
pub fn vec_eq_str(v: &Vec<char>, s: &str) -> (r: bool)
    ensures
        r == (v@ == s@),
{
    let sv: Vec<char> = chars_of(s);
    let n: usize = v.len();
    if n != sv.len() {
        return false;
    }
    let mut i: usize = 0;
    while i < n
        invariant
            i <= n,
            n == v@.len(),
            n == sv@.len(),
            sv@ == s@,
            forall|j: int| 0 <= j < i ==> v@[j] == sv@[j],
        decreases n - i,
    {
        if v[i] != sv[i] {
            return false;
        }
        i = i + 1;
    }
    proof {
        assert(v@ =~= sv@);
    }
    true
}

/// A horizontal whitespace character.
pub open spec fn is_blank(c: char) -> bool {
    c == ' ' || c == '\t'
}

/// `s` without its leading blanks.
pub open spec fn spec_trim_start(s: Seq<char>) -> Seq<char>
    decreases s.len(),
{
    if s.len() > 0 && is_blank(s[0]) {
        spec_trim_start(s.drop_first())
    } else {
        s
    }
}

/// `s` without its trailing blanks.
pub open spec fn spec_trim_end(s: Seq<char>) -> Seq<char>
    decreases s.len(),
{
    if s.len() > 0 && is_blank(s.last()) {
        spec_trim_end(s.drop_last())
    } else {
        s
    }
}

/// `s` without leading or trailing blanks.
pub open spec fn spec_trim(s: Seq<char>) -> Seq<char> {
    spec_trim_end(spec_trim_start(s))
}

/// A copy of `v` with leading and trailing blanks removed.
pub fn trimmed(v: &Vec<char>) -> (r: Vec<char>)
    ensures
        r@ == spec_trim(v@),
{
    let n: usize = v.len();
    proof {
        assert(v@.skip(0) =~= v@);
    }
    let mut lo: usize = 0;
    while lo < n && (v[lo] == ' ' || v[lo] == '\t')
        invariant
            lo <= n,
            n == v@.len(),
            spec_trim_start(v@) == spec_trim_start(v@.skip(lo as int)),
        decreases n - lo,
    {
        proof {
            assert(v@.skip(lo as int).drop_first() =~= v@.skip(lo as int + 1));
        }
        lo = lo + 1;
    }
    proof {
        assert(spec_trim_start(v@) == v@.skip(lo as int));
    }
    let mut hi: usize = n;
    while hi > lo && (v[hi - 1] == ' ' || v[hi - 1] == '\t')
        invariant
            lo <= hi <= n,
            n == v@.len(),
            spec_trim_start(v@) == v@.skip(lo as int),
            spec_trim_end(v@.skip(lo as int)) == spec_trim_end(v@.subrange(lo as int, hi as int)),
        decreases hi,
    {
        proof {
            assert(v@.subrange(lo as int, hi as int).drop_last() =~= v@.subrange(
                lo as int,
                hi as int - 1,
            ));
        }
        hi = hi - 1;
    }
    proof {
        assert(spec_trim(v@) == v@.subrange(lo as int, hi as int));
    }
    let mut r: Vec<char> = Vec::new();
    let mut i: usize = lo;
    while i < hi
        invariant
            lo <= i <= hi <= n,
            n == v@.len(),
            r@ == v@.subrange(lo as int, i as int),
        decreases hi - i,
    {
        r.push(v[i]);
        i = i + 1;
        proof {
            assert(r@ =~= v@.subrange(lo as int, i as int));
        }
    }
    r
}

/// The character for the decimal digit `d`.
pub open spec fn spec_digit_char(d: int) -> char {
    if d == 0 {
        '0'
    } else if d == 1 {
        '1'
    } else if d == 2 {
        '2'
    } else if d == 3 {
        '3'
    } else if d == 4 {
        '4'
    } else if d == 5 {
        '5'
    } else if d == 6 {
        '6'
    } else if d == 7 {
        '7'
    } else if d == 8 {
        '8'
    } else {
        '9'
    }
}

/// The decimal rendering of `n`, most significant digit first.
pub open spec fn spec_dec(n: nat) -> Seq<char>
    decreases n,
{
    if n < 10 {
        seq![spec_digit_char(n as int)]
    } else {
        spec_dec(n / 10).push(spec_digit_char((n % 10) as int))
    }
}

/// The one-character text for the decimal digit `d`.
fn digit_str(d: u64) -> (r: &'static str)
    requires
        d < 10,
    ensures
        r@ == seq![spec_digit_char(d as int)],
{
    proof {
        reveal_strlit("0");
        reveal_strlit("1");
        reveal_strlit("2");
        reveal_strlit("3");
        reveal_strlit("4");
        reveal_strlit("5");
        reveal_strlit("6");
        reveal_strlit("7");
        reveal_strlit("8");
        reveal_strlit("9");
    }
    let r: &'static str = if d == 0 {
        "0"
    } else if d == 1 {
        "1"
    } else if d == 2 {
        "2"
    } else if d == 3 {
        "3"
    } else if d == 4 {
        "4"
    } else if d == 5 {
        "5"
    } else if d == 6 {
        "6"
    } else if d == 7 {
        "7"
    } else {
        "8"
    };
    let r: &'static str = if d == 9 {
        "9"
    } else {
        r
    };
    proof {
        assert(r@ =~= seq![spec_digit_char(d as int)]);
    }
    r
}

/// The position of the first newline in `s`, or `s.len()` if there is none.
pub open spec fn first_nl(s: Seq<char>) -> int
    decreases s.len(),
{
    if s.len() == 0 {
        0
    } else if s[0] == '\n' {
        0
    } else {
        1 + first_nl(s.drop_first())
    }
}

pub proof fn lemma_first_nl(s: Seq<char>)
    ensures
        0 <= first_nl(s) <= s.len(),
        first_nl(s) < s.len() ==> s[first_nl(s)] == '\n',
        forall|k: int| 0 <= k < first_nl(s) ==> s[k] != '\n',
    decreases s.len(),
{
    if s.len() == 0 || s[0] == '\n' {
    } else {
        lemma_first_nl(s.drop_first());
        assert forall|k: int| 0 <= k < first_nl(s) implies s[k] != '\n' by {
            if k > 0 {
                assert(s.drop_first()[k - 1] != '\n');
            }
        }
    }
}

/// The first-newline position is wherever a newline first stands.
pub proof fn lemma_first_nl_at(s: Seq<char>, j: int)
    requires
        0 <= j <= s.len(),
        forall|k: int| 0 <= k < j ==> s[k] != '\n',
        j < s.len() ==> s[j] == '\n',
    ensures
        first_nl(s) == j,
    decreases s.len(),
{
    if s.len() == 0 {
    } else if s[0] == '\n' {
    } else {
        assert(forall|k: int| 0 <= k < j - 1 ==> s.drop_first()[k] != '\n');
        lemma_first_nl_at(s.drop_first(), j - 1);
    }
}

/// `piece` without one trailing carriage return, if it has one.
pub open spec fn strip_cr(s: Seq<char>) -> Seq<char> {
    if s.len() > 0 && s.last() == '\r' {
        s.drop_last()
    } else {
        s
    }
}

/// `s` cut at every newline; always at least one (possibly empty) piece.
pub open spec fn raw_split(s: Seq<char>) -> Seq<Seq<char>>
    decreases s.len(),
{
    let i = first_nl(s);
    if i == s.len() {
        seq![s]
    } else if 0 <= i < s.len() {
        seq![s.subrange(0, i)] + raw_split(s.subrange(i + 1, s.len() as int))
    } else {
        seq![s]
    }
}

/// The views of a vector of lines.
pub open spec fn lines_view(r: Seq<Vec<char>>) -> Seq<Seq<char>> {
    r.map_values(|l: Vec<char>| l@)
}

/// `strip_cr` applied to every piece.
pub open spec fn strip_all(p: Seq<Seq<char>>) -> Seq<Seq<char>> {
    p.map_values(|l: Seq<char>| strip_cr(l))
}

pub proof fn lemma_lines_view_push(r: Seq<Vec<char>>, x: Vec<char>)
    ensures
        lines_view(r.push(x)) == lines_view(r).push(x@),
{
    assert(lines_view(r.push(x)) =~= lines_view(r).push(x@));
}

pub proof fn lemma_strip_all_push(p: Seq<Seq<char>>, x: Seq<char>)
    ensures
        strip_all(p.push(x)) == strip_all(p).push(strip_cr(x)),
{
    assert(strip_all(p.push(x)) =~= strip_all(p).push(strip_cr(x)));
}

/// The lines of `s`: pieces cut at newlines, a final empty piece
/// dropped, and one trailing carriage return removed from each piece.
pub open spec fn spec_lines(s: Seq<char>) -> Seq<Seq<char>> {
    let p = raw_split(s);
    let q = if p.last().len() == 0 {
        p.drop_last()
    } else {
        p
    };
    strip_all(q)
}

/// Splitting off a newline-free prefix splits off one piece.
pub proof fn lemma_raw_split_step(s: Seq<char>, j: int)
    requires
        0 <= j < s.len(),
        forall|k: int| 0 <= k < j ==> s[k] != '\n',
        s[j] == '\n',
    ensures
        raw_split(s) == seq![s.subrange(0, j)] + raw_split(s.subrange(j + 1, s.len() as int)),
{
    lemma_first_nl_at(s, j);
}

/// A newline-free text is one single piece.
pub proof fn lemma_raw_split_whole(s: Seq<char>)
    requires
        forall|k: int| 0 <= k < s.len() ==> s[k] != '\n',
    ensures
        raw_split(s) == seq![s],
{
    lemma_first_nl_at(s, s.len() as int);
}

/// The lines of the text of `v`.
pub fn split_lines(v: &Vec<char>) -> (r: Vec<Vec<char>>)
    ensures
        lines_view(r@) == spec_lines(v@),
{
    let n: usize = v.len();
    let mut out: Vec<Vec<char>> = Vec::new();
    let mut cur: Vec<char> = Vec::new();
    let ghost mut raw_done: Seq<Seq<char>> = Seq::empty();
    let mut start: usize = 0;
    let mut i: usize = 0;
    proof {
        assert(v@.skip(0) =~= v@);
        assert(lines_view(out@) =~= strip_all(raw_done));
    }
    while i < n
        invariant
            start <= i <= n,
            n == v@.len(),
            cur@ == v@.subrange(start as int, i as int),
            forall|k: int| start <= k < i ==> v@[k] != '\n',
            raw_split(v@) == raw_done + raw_split(v@.skip(start as int)),
            lines_view(out@) == strip_all(raw_done),
        decreases n - i,
    {
        if v[i] == '\n' {
            proof {
                let tail = v@.skip(start as int);
                assert(forall|k: int| 0 <= k < i - start ==> tail[k] != '\n');
                assert(tail[i - start] == '\n');
                lemma_raw_split_step(tail, i - start);
                assert(tail.subrange(0, i - start) =~= cur@);
                assert(tail.subrange(i - start + 1, tail.len() as int) =~= v@.skip(i + 1));
                lemma_lines_view_push(out@, cur);
                lemma_strip_all_push(raw_done, cur@);
                assert(raw_done.push(cur@) + raw_split(v@.skip(i as int + 1)) =~= raw_done + (seq![
                    cur@,
                ] + raw_split(v@.skip(i as int + 1))));
            }
            let ghost old_cur = cur@;
            let mut piece: Vec<char> = cur;
            if piece.len() > 0 && piece[piece.len() - 1] == '\r' {
                piece.pop();
            }
            proof {
                assert(piece@ == strip_cr(old_cur));
                lemma_lines_view_push(out@, piece);
            }
            out.push(piece);
            proof {
                raw_done = raw_done.push(old_cur);
            }
            cur = Vec::new();
            start = i + 1;
        } else {
            cur.push(v[i]);
            proof {
                assert(cur@ =~= v@.subrange(start as int, i as int + 1));
            }
        }
        i = i + 1;
    }
    proof {
        let tail = v@.skip(start as int);
        lemma_raw_split_whole(tail);
        assert(tail =~= cur@);
        assert(raw_done + seq![cur@] =~= raw_done.push(cur@));
        assert(raw_split(v@) == raw_done.push(cur@));
        assert(raw_split(v@).last() == cur@);
        assert(raw_split(v@).drop_last() =~= raw_done);
    }
    if cur.len() > 0 {
        let ghost old_cur = cur@;
        let mut piece: Vec<char> = cur;
        if piece[piece.len() - 1] == '\r' {
            piece.pop();
        }
        proof {
            assert(piece@ == strip_cr(old_cur));
            lemma_lines_view_push(out@, piece);
            lemma_strip_all_push(raw_done, old_cur);
        }
        out.push(piece);
        proof {
            assert(lines_view(out@) == spec_lines(v@));
        }
    }
    out
}

/// The decimal rendering of `n` as a `String`.
pub fn dec_string(n: u64) -> (r: String)
    ensures
        r@ == spec_dec(n as nat),
    decreases n,
{
    if n < 10 {
        String::from_str(digit_str(n))
    } else {
        let mut r: String = dec_string(n / 10);
        r.append(digit_str(n % 10));
        proof {
            assert(r@ =~= spec_dec(n as nat));
        }
        r
    }
}

} // verus!
