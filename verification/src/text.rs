//! Character-level string building blocks: whitespace trimming as `str::trim`
//! does it, substring search, and decimal rendering of integers.
use vstd::prelude::*;

verus! {

broadcast use vstd::string::group_string_axioms;

/// Unicode `White_Space`, the set `char::is_whitespace` tests.
pub open spec fn is_white(c: char) -> bool {
    ||| '\u{9}' <= c <= '\u{d}'
    ||| c == ' '
    ||| c == '\u{85}'
    ||| c == '\u{a0}'
    ||| c == '\u{1680}'
    ||| '\u{2000}' <= c <= '\u{200a}'
    ||| c == '\u{2028}'
    ||| c == '\u{2029}'
    ||| c == '\u{202f}'
    ||| c == '\u{205f}'
    ||| c == '\u{3000}'
}

/// Number of white characters that open `s`.
pub open spec fn lead_white(s: Seq<char>) -> nat
    decreases s.len(),
{
    if s.len() > 0 && is_white(s[0]) {
        1 + lead_white(s.drop_first())
    } else {
        0
    }
}

/// Number of white characters that close `s`.
pub open spec fn trail_white(s: Seq<char>) -> nat
    decreases s.len(),
{
    if s.len() > 0 && is_white(s.last()) {
        1 + trail_white(s.drop_last())
    } else {
        0
    }
}

/// `s` without leading white characters.
pub open spec fn trim_start(s: Seq<char>) -> Seq<char> {
    s.subrange(lead_white(s) as int, s.len() as int)
}

/// `s` without trailing white characters.
pub open spec fn trim_end(s: Seq<char>) -> Seq<char> {
    s.subrange(0, s.len() - trail_white(s))
}

/// `s` without leading or trailing white characters, as `str::trim` returns it.
pub open spec fn trimmed(s: Seq<char>) -> Seq<char> {
    trim_end(trim_start(s))
}

/// Whether `needle` occurs in `hay` as a contiguous run.
pub open spec fn has_substring(hay: Seq<char>, needle: Seq<char>) -> bool {
    exists|i: int|
        0 <= i && i + needle.len() <= hay.len() && #[trigger] hay.subrange(i, i + needle.len())
            == needle
}

/// The ASCII digit for `d` (below ten).
pub open spec fn digit_char(d: nat) -> char {
    ('0' as u8 + d) as char
}

/// Decimal notation of `n`, without sign or leading zeros.
pub open spec fn decimal(n: nat) -> Seq<char>
    decreases n,
{
    if n < 10 {
        seq![digit_char(n)]
    } else {
        decimal(n / 10).push(digit_char(n % 10))
    }
}

/// `lead_white` counts exactly the run of white characters that opens `s`.
proof fn lemma_lead_white_exact(s: Seq<char>, k: int)
    requires
        0 <= k <= s.len(),
        forall|i: int| 0 <= i < k ==> is_white(#[trigger] s[i]),
        k < s.len() ==> !is_white(s[k]),
    ensures
        lead_white(s) == k,
    decreases k,
{
    if k > 0 {
        assert forall|i: int| 0 <= i < k - 1 implies is_white(#[trigger] s.drop_first()[i]) by {
            assert(s.drop_first()[i] == s[i + 1]);
        }
        if k - 1 < s.drop_first().len() {
            assert(s.drop_first()[k - 1] == s[k]);
        }
        lemma_lead_white_exact(s.drop_first(), k - 1);
    }
}

/// `trail_white` counts exactly the run of white characters that closes `s`.
proof fn lemma_trail_white_exact(s: Seq<char>, k: int)
    requires
        0 <= k <= s.len(),
        forall|i: int| s.len() - k <= i < s.len() ==> is_white(#[trigger] s[i]),
        k < s.len() ==> !is_white(s[s.len() - k - 1]),
    ensures
        trail_white(s) == k,
    decreases k,
{
    if k > 0 {
        let d = s.drop_last();
        assert forall|i: int| d.len() - (k - 1) <= i < d.len() implies is_white(#[trigger] d[i]) by {
            assert(d[i] == s[i]);
        }
        if k - 1 < d.len() {
            assert(d[d.len() - (k - 1) - 1] == s[s.len() - k - 1]);
        }
        assert(is_white(s.last()));
        lemma_trail_white_exact(d, k - 1);
    }
}

/// Appends one character; calls `String::push`.
#[verifier::external_body]
pub(crate) fn push_char(s: &mut String, c: char)
    ensures
        final(s)@ == old(s)@.push(c),
{
    s.push(c);
}

/// The characters of `s`, in order.
pub fn chars_of(s: &str) -> (v: Vec<char>)
    ensures
        v@ == s@,
{
    let n = s.unicode_len();
    let mut v: Vec<char> = Vec::new();
    let mut i: usize = 0;
    while i < n
        invariant
            n == s@.len(),
            i <= n,
            v@ == s@.subrange(0, i as int),
        decreases n - i,
    {
        let c = s.get_char(i);
        v.push(c);
        i = i + 1;
        proof {
            assert(v@ =~= s@.subrange(0, i as int));
        }
    }
    proof {
        assert(v@ =~= s@);
    }
    v
}

/// The string made of `cs[from..to]`.
pub fn string_of(cs: &Vec<char>, from: usize, to: usize) -> (r: String)
    requires
        from <= to <= cs.len(),
    ensures
        r@ == cs@.subrange(from as int, to as int),
{
    let mut r = String::new();
    let mut i = from;
    while i < to
        invariant
            from <= i <= to,
            to <= cs.len(),
            r@ == cs@.subrange(from as int, i as int),
        decreases to - i,
    {
        push_char(&mut r, cs[i]);
        i = i + 1;
        proof {
            assert(r@ =~= cs@.subrange(from as int, i as int));
        }
    }
    r
}

/// Whether `c` is Unicode white space.
pub fn is_white_char(c: char) -> (r: bool)
    ensures
        r == is_white(c),
{
    ('\u{9}' <= c && c <= '\u{d}') || c == ' ' || c == '\u{85}' || c == '\u{a0}' || c == '\u{1680}'
        || ('\u{2000}' <= c && c <= '\u{200a}') || c == '\u{2028}' || c == '\u{2029}' || c
        == '\u{202f}' || c == '\u{205f}' || c == '\u{3000}'
}

/// Bounds of the trimmed part of `cs`: the first and one past the last character that
/// is not white.
pub fn trim_bounds(cs: &Vec<char>) -> (r: (usize, usize))
    ensures
        r.0 as int == lead_white(cs@),
        r.1 as int == cs@.len() - trail_white(trim_start(cs@)) as int,
        r.0 <= r.1 <= cs.len(),
        cs@.subrange(r.0 as int, r.1 as int) == trimmed(cs@),
{
    let n = cs.len();
    let mut a: usize = 0;
    while a < n && is_white_char(cs[a])
        invariant
            a <= n,
            n == cs.len(),
            forall|i: int| 0 <= i < a ==> is_white(#[trigger] cs@[i]),
        decreases n - a,
    {
        a = a + 1;
    }
    proof {
        lemma_lead_white_exact(cs@, a as int);
    }
    let mut b: usize = n;
    while b > a && is_white_char(cs[b - 1])
        invariant
            a <= b <= n,
            n == cs.len(),
            forall|i: int| b <= i < n ==> is_white(#[trigger] cs@[i]),
        decreases b,
    {
        b = b - 1;
    }
    proof {
        let ts = trim_start(cs@);
        assert(ts =~= cs@.subrange(a as int, n as int));
        assert forall|i: int| ts.len() - (n - b) <= i < ts.len() implies is_white(#[trigger] ts[i]) by {
            assert(ts[i] == cs@[a + i]);
        }
        if b > a {
            assert(ts[ts.len() - (n - b) - 1] == cs@[b - 1]);
        }
        lemma_trail_white_exact(ts, (n - b) as int);
        assert(trimmed(cs@) =~= cs@.subrange(a as int, b as int));
    }
    (a, b)
}

} // verus!

verus! {

/// `s` with leading and trailing white space removed, as `str::trim` returns it.
pub fn trim(s: &str) -> (r: String)
    ensures
        r@ == trimmed(s@),
{
    let cs = chars_of(s);
    let (a, b) = trim_bounds(&cs);
    string_of(&cs, a, b)
}

/// Decimal notation of `n`, as `u64::to_string` writes it.
pub fn decimal_string(n: u64) -> (r: String)
    ensures
        r@ == decimal(n as nat),
    decreases n,
{
    if n < 10 {
        let mut r = String::new();
        push_char(&mut r, digit(n));
        proof {
            assert(r@ =~= decimal(n as nat));
        }
        r
    } else {
        let mut r = decimal_string(n / 10);
        push_char(&mut r, digit(n % 10));
        r
    }
}

/// The ASCII digit for `d`.
pub fn digit(d: u64) -> (c: char)
    requires
        d < 10,
    ensures
        c == digit_char(d as nat),
{
    if d == 0 { '0' } else if d == 1 { '1' } else if d == 2 { '2' } else if d == 3 { '3' } else if d
        == 4 { '4' } else if d == 5 { '5' } else if d == 6 { '6' } else if d == 7 { '7' } else if d
        == 8 { '8' } else { '9' }
}

/// Whether `needle` occurs in `hay`.
pub fn contains(hay: &Vec<char>, needle: &str) -> (r: bool)
    ensures
        r == has_substring(hay@, needle@),
{
    let nd = chars_of(needle);
    let m = nd.len();
    let n = hay.len();
    if m > n {
        return false;
    }
    let mut i: usize = 0;
    while i <= n - m
        invariant
            m <= n,
            n == hay@.len(),
            m == nd@.len(),
            nd@ == needle@,
            i <= n - m + 1,
            forall|k: int| 0 <= k < i ==> #[trigger] hay@.subrange(k, k + m) != needle@,
        decreases n - m + 1 - i,
    {
        let mut j: usize = 0;
        while j < m && hay[i + j] == nd[j]
            invariant
                j <= m,
                i + m <= n,
                n == hay@.len(),
                m == nd@.len(),
                forall|t: int| 0 <= t < j ==> hay@[i + t] == nd@[t],
            decreases m - j,
        {
            j = j + 1;
        }
        if j == m {
            proof {
                assert(hay@.subrange(i as int, i + m) =~= needle@);
            }
            return true;
        }
        proof {
            assert(hay@.subrange(i as int, i + m)[j as int] != needle@[j as int]);
        }
        i = i + 1;
    }
    proof {
        assert forall|k: int| 0 <= k && k + needle@.len() <= hay@.len() implies #[trigger] hay@.subrange(
            k,
            k + needle@.len(),
        ) != needle@ by {}
    }
    false
}

} // verus!

verus! {

/// The text of an optional string.
pub open spec fn opt_text(o: Option<String>) -> Option<Seq<char>> {
    match o {
        Some(s) => Some(s@),
        None => None,
    }
}

/// Index of the first `c` in `s`, or -1 where there is none.
pub open spec fn find_char(s: Seq<char>, c: char) -> int
    decreases s.len(),
{
    if s.len() == 0 {
        -1
    } else if s[0] == c {
        0
    } else {
        let r = find_char(s.drop_first(), c);
        if r < 0 {
            -1
        } else {
            r + 1
        }
    }
}

/// `find_char` is -1 or an index of `s`.
pub proof fn lemma_find_char_range(s: Seq<char>, c: char)
    ensures
        -1 <= find_char(s, c) < s.len(),
    decreases s.len(),
{
    if s.len() > 0 {
        lemma_find_char_range(s.drop_first(), c);
    }
}

/// `find_char` is the first index of `c`, or -1 exactly when `c` does not occur.
pub proof fn lemma_find_char(s: Seq<char>, c: char, k: int)
    requires
        -1 <= k < s.len(),
        k >= 0 ==> s[k] == c,
        forall|j: int| 0 <= j < s.len() && (k < 0 || j < k) ==> #[trigger] s[j] != c,
    ensures
        find_char(s, c) == k,
    decreases s.len(),
{
    if s.len() > 0 && k != 0 {
        let d = s.drop_first();
        assert forall|j: int| 0 <= j < d.len() && (k - 1 < 0 || j < k - 1) implies #[trigger] d[j]
            != c by {
            assert(d[j] == s[j + 1]);
        }
        if k > 0 {
            assert(d[k - 1] == s[k]);
            lemma_find_char(d, c, k - 1);
        } else {
            assert(s[0] != c);
            lemma_find_char(d, c, -1);
        }
    }
}

/// Index of the first `c` in `cs` at or after `from`.
pub fn find_from(cs: &Vec<char>, from: usize, c: char) -> (r: Option<usize>)
    requires
        from <= cs.len(),
    ensures
        match r {
            Some(k) => from <= k < cs.len() && cs@[k as int] == c && find_char(
                cs@.subrange(from as int, cs.len() as int),
                c,
            ) == k - from,
            None => find_char(cs@.subrange(from as int, cs.len() as int), c) == -1,
        },
{
    let n = cs.len();
    let mut i = from;
    while i < n
        invariant
            from <= i <= n,
            n == cs.len(),
            forall|j: int| from <= j < i ==> #[trigger] cs@[j] != c,
        decreases n - i,
    {
        if cs[i] == c {
            proof {
                let t = cs@.subrange(from as int, n as int);
                assert forall|j: int| 0 <= j < t.len() && j < i - from implies #[trigger] t[j] != c by {
                    assert(t[j] == cs@[from + j]);
                }
                lemma_find_char(t, c, i - from);
            }
            return Some(i);
        }
        i = i + 1;
    }
    proof {
        let t = cs@.subrange(from as int, n as int);
        assert forall|j: int| 0 <= j < t.len() implies #[trigger] t[j] != c by {
            assert(t[j] == cs@[from + j]);
        }
        lemma_find_char(t, c, -1);
    }
    None
}

/// Number of characters that are not white space at the start of `s`.
pub open spec fn word_len(s: Seq<char>) -> nat
    decreases s.len(),
{
    if s.len() > 0 && !is_white(s[0]) {
        1 + word_len(s.drop_first())
    } else {
        0
    }
}

/// The second run of non-white characters in `s` (what
/// `s.split_whitespace().nth(1)` gives), if there is one.
pub open spec fn second_word(s: Seq<char>) -> Option<Seq<char>> {
    let a = lead_white(s) as int;
    let b = a + word_len(s.subrange(a, s.len() as int));
    let c = b + lead_white(s.subrange(b, s.len() as int));
    let d = c + word_len(s.subrange(c, s.len() as int));
    if c < s.len() {
        Some(s.subrange(c, d))
    } else {
        None
    }
}

proof fn lemma_word_len_exact(s: Seq<char>, k: int)
    requires
        0 <= k <= s.len(),
        forall|i: int| 0 <= i < k ==> !is_white(#[trigger] s[i]),
        k < s.len() ==> is_white(s[k]),
    ensures
        word_len(s) == k,
    decreases k,
{
    if k > 0 {
        let d = s.drop_first();
        assert forall|i: int| 0 <= i < k - 1 implies !is_white(#[trigger] d[i]) by {
            assert(d[i] == s[i + 1]);
        }
        if k - 1 < d.len() {
            assert(d[k - 1] == s[k]);
        }
        lemma_word_len_exact(d, k - 1);
    }
}

/// End of the run of characters of `cs`, starting at `from`, that are (`white`) or are
/// not (`!white`) white space.
fn run_end(cs: &Vec<char>, from: usize, white: bool) -> (r: usize)
    requires
        from <= cs.len(),
    ensures
        from <= r <= cs.len(),
        white ==> r - from == lead_white(cs@.subrange(from as int, cs.len() as int)),
        !white ==> r - from == word_len(cs@.subrange(from as int, cs.len() as int)),
{
    let n = cs.len();
    let mut i = from;
    while i < n && is_white_char(cs[i]) == white
        invariant
            from <= i <= n,
            n == cs.len(),
            forall|j: int| from <= j < i ==> is_white(#[trigger] cs@[j]) == white,
        decreases n - i,
    {
        i = i + 1;
    }
    proof {
        let t = cs@.subrange(from as int, n as int);
        assert forall|j: int| 0 <= j < i - from implies is_white(#[trigger] t[j]) == white by {
            assert(t[j] == cs@[from + j]);
        }
        if i < n {
            assert(t[i - from] == cs@[i as int]);
        }
        if white {
            lemma_lead_white_exact(t, i - from);
        } else {
            lemma_word_len_exact(t, i - from);
        }
    }
    i
}

/// The second whitespace-separated word of `s`, if any.
pub fn second_word_of(s: &str) -> (r: Option<String>)
    ensures
        match r {
            Some(w) => second_word(s@) == Some(w@),
            None => second_word(s@) is None,
        },
{
    let cs = chars_of(s);
    let a = run_end(&cs, 0, true);
    let b = run_end(&cs, a, false);
    let c = run_end(&cs, b, true);
    let d = run_end(&cs, c, false);
    proof {
        assert(cs@.subrange(0, cs@.len() as int) =~= cs@);
    }
    if c < cs.len() {
        Some(string_of(&cs, c, d))
    } else {
        None
    }
}

} // verus!
