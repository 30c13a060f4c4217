//! Verified string helpers: trimming, searching, slicing and decimal
//! formatting over `Seq<char>` views.

use vstd::prelude::*;

verus! {

/// Character classes that the pipeline trims from rule components.
#[derive(Copy, Clone, Eq, PartialEq, Structural, Debug)]
pub enum TrimClass {
    /// The path separator `/`.
    PathSep,
    /// ASCII whitespace: space, tab, newline, carriage return.
    AsciiSpace,
    /// The double quote `"`.
    DoubleQuote,
}

pub open spec fn class_pred(k: TrimClass, c: char) -> bool {
    match k {
        TrimClass::PathSep => c == '/',
        TrimClass::AsciiSpace => c == ' ' || c == '\t' || c == '\n' || c == '\r',
        TrimClass::DoubleQuote => c == '"',
    }
}

fn class_matches(k: TrimClass, c: char) -> (r: bool)
    ensures
        r == class_pred(k, c),
{
    match k {
        TrimClass::PathSep => c == '/',
        TrimClass::AsciiSpace => c == ' ' || c == '\t' || c == '\n' || c == '\r',
        TrimClass::DoubleQuote => c == '"',
    }
}

/// `s` with every leading character of class `k` removed.
pub open spec fn trim_start_while(s: Seq<char>, k: TrimClass) -> Seq<char>
    decreases s.len(),
{
    if s.len() > 0 && class_pred(k, s[0]) {
        trim_start_while(s.drop_first(), k)
    } else {
        s
    }
}

/// `s` with every trailing character of class `k` removed.
pub open spec fn trim_end_while(s: Seq<char>, k: TrimClass) -> Seq<char>
    decreases s.len(),
{
    if s.len() > 0 && class_pred(k, s.last()) {
        trim_end_while(s.drop_last(), k)
    } else {
        s
    }
}

/// `s` with characters of class `k` removed from both ends.
pub open spec fn trim_while(s: Seq<char>, k: TrimClass) -> Seq<char> {
    trim_end_while(trim_start_while(s, k), k)
}

proof fn lemma_trim_start_subrange(s: Seq<char>, k: TrimClass, lo: int)
    requires
        0 <= lo <= s.len(),
        forall|j: int| 0 <= j < lo ==> class_pred(k, s[j]),
        lo < s.len() ==> !class_pred(k, s[lo]),
    ensures
        trim_start_while(s, k) == s.subrange(lo, s.len() as int),
    decreases lo,
{
    if lo == 0 {
        assert(s.subrange(0, s.len() as int) =~= s);
    } else {
        let t = s.drop_first();
        assert(t =~= s.subrange(1, s.len() as int));
        lemma_trim_start_subrange(t, k, lo - 1);
        assert(t.subrange(lo - 1, t.len() as int) =~= s.subrange(lo, s.len() as int));
    }
}

proof fn lemma_trim_end_subrange(s: Seq<char>, k: TrimClass, hi: int)
    requires
        0 <= hi <= s.len(),
        forall|j: int| hi <= j < s.len() ==> class_pred(k, s[j]),
        hi > 0 ==> !class_pred(k, s[hi - 1]),
    ensures
        trim_end_while(s, k) == s.subrange(0, hi),
    decreases s.len(),
{
    if hi == s.len() {
        if s.len() > 0 && class_pred(k, s.last()) {
            assert(false);
        }
        assert(s.subrange(0, s.len() as int) =~= s);
    } else {
        let t = s.drop_last();
        assert(t =~= s.subrange(0, s.len() - 1));
        lemma_trim_end_subrange(t, k, hi);
        assert(t.subrange(0, hi) =~= s.subrange(0, hi));
    }
}

/// Remove the characters of class `k` from both ends of `s`.
pub fn trim_class(s: &str, k: TrimClass) -> (r: String)
    ensures
        r@ == trim_while(s@, k),
{
    let n = s.unicode_len();
    let mut lo: usize = 0;
    while lo < n && class_matches(k, s.get_char(lo))
        invariant
            n == s@.len(),
            lo <= n,
            forall|j: int| 0 <= j < lo ==> class_pred(k, s@[j]),
        decreases n - lo,
    {
        lo = lo + 1;
    }
    let mut hi: usize = n;
    while hi > lo && class_matches(k, s.get_char(hi - 1))
        invariant
            n == s@.len(),
            lo <= hi <= n,
            forall|j: int| hi <= j < n ==> class_pred(k, s@[j]),
        decreases hi,
    {
        hi = hi - 1;
    }
    let sub = s.substring_char(lo, hi);
    proof {
        lemma_trim_start_subrange(s@, k, lo as int);
        let t = s@.subrange(lo as int, s@.len() as int);
        lemma_trim_end_subrange(t, k, hi - lo);
        assert(t.subrange(0, hi - lo) =~= s@.subrange(lo as int, hi as int));
    }
    String::from_str(sub)
}

/// Whether the character sequences of two string slices are equal.
pub fn str_eq(a: &str, b: &str) -> (r: bool)
    ensures
        r == (a@ == b@),
{
    let na = a.unicode_len();
    let nb = b.unicode_len();
    if na != nb {
        assert(a@ != b@);
        return false;
    }
    let mut i: usize = 0;
    while i < na
        invariant
            na == a@.len(),
            na == b@.len(),
            i <= na,
            forall|j: int| 0 <= j < i ==> a@[j] == b@[j],
        decreases na - i,
    {
        if a.get_char(i) != b.get_char(i) {
            assert(a@ != b@);
            return false;
        }
        i = i + 1;
    }
    proof {
        assert(a@ =~= b@);
    }
    true
}

/// First index at which `c` occurs in `s`, if any.
pub fn find_char(s: &str, c: char) -> (r: Option<usize>)
    ensures
        match r {
            Some(i) => i < s@.len() && s@[i as int] == c && forall|j: int|
                0 <= j < i ==> s@[j] != c,
            None => forall|j: int| 0 <= j < s@.len() ==> s@[j] != c,
        },
{
    let n = s.unicode_len();
    let mut i: usize = 0;
    while i < n
        invariant
            n == s@.len(),
            i <= n,
            forall|j: int| 0 <= j < i ==> s@[j] != c,
        decreases n - i,
    {
        if s.get_char(i) == c {
            return Some(i);
        }
        i = i + 1;
    }
    None
}

/// Last index at which `c` occurs in `s`, if any.
pub fn rfind_char(s: &str, c: char) -> (r: Option<usize>)
    ensures
        match r {
            Some(i) => i < s@.len() && s@[i as int] == c && forall|j: int|
                i < j < s@.len() ==> s@[j] != c,
            None => forall|j: int| 0 <= j < s@.len() ==> s@[j] != c,
        },
{
    let n = s.unicode_len();
    let mut i: usize = n;
    while i > 0
        invariant
            n == s@.len(),
            i <= n,
            forall|j: int| i <= j < n ==> s@[j] != c,
        decreases i,
    {
        i = i - 1;
        if s.get_char(i) == c {
            return Some(i);
        }
    }
    None
}

/// Whether `c` occurs in `s`.
pub fn contains_char(s: &str, c: char) -> (r: bool)
    ensures
        r == s@.contains(c),
{
    match find_char(s, c) {
        Some(i) => {
            assert(s@[i as int] == c);
            true
        },
        None => {
            assert(forall|j: int| 0 <= j < s@.len() ==> s@[j] != c);
            false
        },
    }
}

/// How many times `c` occurs in `s`.
pub open spec fn count_char(s: Seq<char>, c: char) -> nat
    decreases s.len(),
{
    if s.len() == 0 {
        0
    } else {
        count_char(s.drop_last(), c) + if s.last() == c {
            1nat
        } else {
            0nat
        }
    }
}

/// The copy of `s@.subrange(lo, hi)` as an owned string.
pub fn substr(s: &str, lo: usize, hi: usize) -> (r: String)
    requires
        lo <= hi <= s@.len(),
    ensures
        r@ == s@.subrange(lo as int, hi as int),
{
    String::from_str(s.substring_char(lo, hi))
}

/// The decimal digit `d` as a character; meaningful for `0 <= d <= 9`.
pub open spec fn dec_digit(d: int) -> char {
    if d == 0 {
        '0'
    } else if d == 1 {
        '1'
    } else if d == 2 {
        '2'
    } else if d == 3 {
        '3'
    } else if d == 4 {
        '4'
    } else if d == 5 {
        '5'
    } else if d == 6 {
        '6'
    } else if d == 7 {
        '7'
    } else if d == 8 {
        '8'
    } else {
        '9'
    }
}

/// The decimal digit string of a non-negative number, without leading zeros
/// (`0` itself is `"0"`).
pub open spec fn spec_dec(n: int) -> Seq<char>
    decreases n,
{
    if n < 0 {
        Seq::empty()
    } else if n < 10 {
        seq![dec_digit(n)]
    } else {
        spec_dec(n / 10).push(dec_digit(n % 10))
    }
}

fn digit_str(d: u64) -> (r: &'static str)
    requires
        d < 10,
    ensures
        r@ =~= seq![dec_digit(d as int)],
{
    proof {
        reveal_strlit("0");
        reveal_strlit("1");
        reveal_strlit("2");
        reveal_strlit("3");
        reveal_strlit("4");
        reveal_strlit("5");
        reveal_strlit("6");
        reveal_strlit("7");
        reveal_strlit("8");
        reveal_strlit("9");
    }
    if d == 0 {
        "0"
    } else if d == 1 {
        "1"
    } else if d == 2 {
        "2"
    } else if d == 3 {
        "3"
    } else if d == 4 {
        "4"
    } else if d == 5 {
        "5"
    } else if d == 6 {
        "6"
    } else if d == 7 {
        "7"
    } else if d == 8 {
        "8"
    } else {
        "9"
    }
}

/// Whether `s` begins with `p`.
pub open spec fn spec_starts_with(s: Seq<char>, p: Seq<char>) -> bool {
    p.len() <= s.len() && s.subrange(0, p.len() as int) == p
}

/// Whether `s` ends with `p`.
pub open spec fn spec_ends_with(s: Seq<char>, p: Seq<char>) -> bool {
    p.len() <= s.len() && s.subrange(s.len() - p.len(), s.len() as int) == p
}

/// Whether `s` begins with `p`, on string slices.
pub fn starts_with_str(s: &str, p: &str) -> (r: bool)
    ensures
        r == spec_starts_with(s@, p@),
{
    let ns = s.unicode_len();
    let np = p.unicode_len();
    if np > ns {
        return false;
    }
    let mut i: usize = 0;
    while i < np
        invariant
            ns == s@.len(),
            np == p@.len(),
            np <= ns,
            i <= np,
            forall|j: int| 0 <= j < i ==> s@[j] == p@[j],
        decreases np - i,
    {
        if s.get_char(i) != p.get_char(i) {
            assert(s@.subrange(0, np as int)[i as int] != p@[i as int]);
            return false;
        }
        i = i + 1;
    }
    proof {
        assert(s@.subrange(0, np as int) =~= p@);
    }
    true
}

/// ASCII lower case of one character; other characters are unchanged.
pub open spec fn lower_char(c: char) -> char {
    if 'A' <= c && c <= 'Z' {
        (((c as u8) + 32) as char)
    } else {
        c
    }
}

/// ASCII lower case of a character sequence.
pub open spec fn lower_seq(s: Seq<char>) -> Seq<char>
    decreases s.len(),
{
    if s.len() == 0 {
        Seq::empty()
    } else {
        lower_seq(s.drop_last()).push(lower_char(s.last()))
    }
}

pub broadcast proof fn lemma_lower_seq_len(s: Seq<char>)
    ensures
        #[trigger] lower_seq(s).len() == s.len(),
    decreases s.len(),
{
    if s.len() > 0 {
        lemma_lower_seq_len(s.drop_last());
    }
}

pub broadcast proof fn lemma_lower_seq_index(s: Seq<char>, i: int)
    requires
        0 <= i < s.len(),
    ensures
        #[trigger] lower_seq(s)[i] == lower_char(s[i]),
    decreases s.len(),
{
    lemma_lower_seq_len(s);
    if i < s.len() - 1 {
        lemma_lower_seq_len(s.drop_last());
        lemma_lower_seq_index(s.drop_last(), i);
    }
}

fn lower_char_exec(c: char) -> (r: char)
    ensures
        r == lower_char(c),
{
    if 'A' <= c && c <= 'Z' {
        ((c as u8) + 32) as char
    } else {
        c
    }
}

/// Whether the ASCII lower case of `s` equals `t` (so `t` is usually an
/// already lower-case word).
pub fn lower_eq(s: &str, t: &str) -> (r: bool)
    ensures
        r == (lower_seq(s@) == t@),
{
    proof {
        lemma_lower_seq_len(s@);
    }
    let ns = s.unicode_len();
    let nt = t.unicode_len();
    if ns != nt {
        assert(lower_seq(s@) != t@);
        return false;
    }
    let mut i: usize = 0;
    while i < ns
        invariant
            ns == s@.len(),
            ns == t@.len(),
            lower_seq(s@).len() == ns,
            i <= ns,
            forall|j: int| 0 <= j < i ==> lower_seq(s@)[j] == t@[j],
        decreases ns - i,
    {
        proof {
            lemma_lower_seq_index(s@, i as int);
        }
        if lower_char_exec(s.get_char(i)) != t.get_char(i) {
            assert(lower_seq(s@)[i as int] != t@[i as int]);
            return false;
        }
        i = i + 1;
    }
    proof {
        assert(lower_seq(s@) =~= t@);
    }
    true
}

/// Whether the ASCII lower case of `s` ends with `p` (so `p` is usually an
/// already lower-case suffix).
pub fn lower_ends_with(s: &str, p: &str) -> (r: bool)
    ensures
        r == spec_ends_with(lower_seq(s@), p@),
{
    proof {
        lemma_lower_seq_len(s@);
    }
    let ns = s.unicode_len();
    let np = p.unicode_len();
    if np > ns {
        return false;
    }
    let off = ns - np;
    let mut i: usize = 0;
    while i < np
        invariant
            ns == s@.len(),
            np == p@.len(),
            np <= ns,
            off == ns - np,
            lower_seq(s@).len() == ns,
            i <= np,
            forall|j: int| 0 <= j < i ==> lower_seq(s@)[off + j] == p@[j],
        decreases np - i,
    {
        proof {
            lemma_lower_seq_index(s@, off + i);
        }
        if lower_char_exec(s.get_char(off + i)) != p.get_char(i) {
            assert(lower_seq(s@).subrange(off as int, ns as int)[i as int] != p@[i as int]);
            return false;
        }
        i = i + 1;
    }
    proof {
        assert(lower_seq(s@).subrange(off as int, ns as int) =~= p@);
    }
    true
}

/// Whether `n` occurs in `s` starting at index `i`.
pub open spec fn match_at(s: Seq<char>, n: Seq<char>, i: int) -> bool {
    0 <= i && i + n.len() <= s.len() && s.subrange(i, i + n.len()) == n
}

fn match_at_exec(s: &str, n: &str, i: usize) -> (r: bool)
    requires
        i + n@.len() <= s@.len(),
    ensures
        r == match_at(s@, n@, i as int),
{
    let ns = s.unicode_len();
    let nn = n.unicode_len();
    let mut j: usize = 0;
    while j < nn
        invariant
            ns == s@.len(),
            nn == n@.len(),
            i + nn <= ns,
            j <= nn,
            forall|k: int| 0 <= k < j ==> s@[i + k] == n@[k],
        decreases nn - j,
    {
        if s.get_char(i + j) != n.get_char(j) {
            assert(s@.subrange(i as int, i + nn)[j as int] != n@[j as int]);
            return false;
        }
        j = j + 1;
    }
    proof {
        assert(s@.subrange(i as int, i + nn) =~= n@);
    }
    true
}

/// First index at which `n` occurs in `s`, if any.
pub fn find_sub(s: &str, n: &str) -> (r: Option<usize>)
    ensures
        match r {
            Some(i) => match_at(s@, n@, i as int) && forall|j: int|
                0 <= j < i ==> !match_at(s@, n@, j),
            None => forall|j: int| !match_at(s@, n@, j),
        },
{
    let ns = s.unicode_len();
    let nn = n.unicode_len();
    if nn == 0 {
        proof {
            assert(s@.subrange(0, 0) =~= n@);
        }
        return Some(0);
    }
    if nn > ns {
        assert(forall|j: int| !match_at(s@, n@, j));
        return None;
    }
    let mut i: usize = 0;
    while i <= ns - nn
        invariant
            ns == s@.len(),
            nn == n@.len(),
            1 <= nn <= ns,
            i <= ns - nn + 1,
            forall|j: int| 0 <= j < i ==> !match_at(s@, n@, j),
        decreases ns - i,
    {
        if match_at_exec(s, n, i) {
            return Some(i);
        }
        i = i + 1;
    }
    assert(forall|j: int| j > ns - nn ==> !match_at(s@, n@, j));
    None
}

/// `a` and `b` joined by a path separator; just `b` when `a` is empty.
pub open spec fn spec_join(a: Seq<char>, b: Seq<char>) -> Seq<char> {
    if a.len() == 0 {
        b
    } else {
        a + seq!['/'] + b
    }
}

/// Join a destination directory and a relative path.
pub fn join_path(a: &str, b: &str) -> (r: String)
    ensures
        r@ == spec_join(a@, b@),
{
    if a.unicode_len() == 0 {
        String::from_str(b)
    } else {
        let mut r = String::from_str(a);
        r.append("/");
        r.append(b);
        proof {
            reveal_strlit("/");
            assert(r@ =~= spec_join(a@, b@));
        }
        r
    }
}

/// The part of `p` after its last path separator; `p` itself when it has
/// none.
pub open spec fn spec_basename(p: Seq<char>) -> Seq<char> {
    if exists|j: int| 0 <= j < p.len() && p[j] == '/' {
        let i = choose|i: int|
            0 <= i < p.len() && p[i] == '/' && forall|j: int| i < j < p.len() ==> p[j] != '/';
        p.subrange(i + 1, p.len() as int)
    } else {
        p
    }
}

proof fn lemma_last_sep_unique(p: Seq<char>, i: int)
    requires
        0 <= i < p.len(),
        p[i] == '/',
        forall|j: int| i < j < p.len() ==> p[j] != '/',
    ensures
        spec_basename(p) == p.subrange(i + 1, p.len() as int),
{
    let w = choose|w: int|
        0 <= w < p.len() && p[w] == '/' && forall|j: int| w < j < p.len() ==> p[j] != '/';
    if w < i {
        assert(p[i] != '/');
    }
    if i < w {
        assert(p[w] != '/');
    }
}

/// The base file name of `p`.
pub fn basename(p: &str) -> (r: String)
    ensures
        r@ == spec_basename(p@),
{
    let n = p.unicode_len();
    match rfind_char(p, '/') {
        Some(i) => {
            proof {
                lemma_last_sep_unique(p@, i as int);
            }
            substr(p, i + 1, n)
        },
        None => {
            assert(forall|j: int| 0 <= j < p@.len() ==> p@[j] != '/');
            String::from_str(p)
        },
    }
}

/// Format `n` in decimal.
pub fn u64_to_string(n: u64) -> (r: String)
    ensures
        r@ == spec_dec(n as int),
    decreases n,
{
    if n < 10 {
        String::from_str(digit_str(n))
    } else {
        let mut r = u64_to_string(n / 10);
        r.append(digit_str(n % 10));
        proof {
            assert(r@ =~= spec_dec(n as int));
        }
        r
    }
}

} // verus!
