//! Character-level text utilities shared by the library: whitespace
//! trimming, substring search, string building and decimal numbers.
//!
//! Text is modelled as `Seq<char>`, the view of `str` and `String`.
use vstd::prelude::*;

verus! {

// ---------------------------------------------------------------------------
// Whitespace
// ---------------------------------------------------------------------------

/// The Unicode `White_Space` property, which `char::is_whitespace` and the
/// `trim` family of `str` methods test.
pub open spec fn is_ws(c: char) -> bool {
    let u = c as u32;
    ||| 9 <= u <= 13
    ||| u == 32
    ||| u == 0x85
    ||| u == 0xa0
    ||| u == 0x1680
    ||| 0x2000 <= u <= 0x200a
    ||| u == 0x2028
    ||| u == 0x2029
    ||| u == 0x202f
    ||| u == 0x205f
    ||| u == 0x3000
}

pub fn is_whitespace(c: char) -> (r: bool)
    ensures
        r == is_ws(c),
{
    let u = c as u32;
    (9 <= u && u <= 13) || u == 32 || u == 0x85 || u == 0xa0 || u == 0x1680 || (0x2000 <= u && u
        <= 0x200a) || u == 0x2028 || u == 0x2029 || u == 0x202f || u == 0x205f || u == 0x3000
}

/// `s` without its trailing whitespace (`str::trim_end`).
pub open spec fn trim_end(s: Seq<char>) -> Seq<char>
    decreases s.len(),
{
    if s.len() > 0 && is_ws(s.last()) {
        trim_end(s.drop_last())
    } else {
        s
    }
}

/// `s` without its leading whitespace (`str::trim_start`).
pub open spec fn trim_start(s: Seq<char>) -> Seq<char>
    decreases s.len(),
{
    if s.len() > 0 && is_ws(s[0]) {
        trim_start(s.drop_first())
    } else {
        s
    }
}

/// `s` without leading and trailing whitespace (`str::trim`).
pub open spec fn trim(s: Seq<char>) -> Seq<char> {
    trim_end(trim_start(s))
}

/// `s` without its leading line feeds (`str::trim_start_matches('\n')`).
pub open spec fn trim_start_newlines(s: Seq<char>) -> Seq<char>
    decreases s.len(),
{
    if s.len() > 0 && s[0] == '\n' {
        trim_start_newlines(s.drop_first())
    } else {
        s
    }
}

/// What `trim_end` leaves is a prefix whose last character is not whitespace.
pub proof fn lemma_trim_end_shape(s: Seq<char>)
    ensures
        trim_end(s).len() <= s.len(),
        trim_end(s) =~= s.subrange(0, trim_end(s).len() as int),
        trim_end(s).len() > 0 ==> !is_ws(trim_end(s).last()),
        forall|i: int| trim_end(s).len() <= i < s.len() ==> is_ws(#[trigger] s[i]),
    decreases s.len(),
{
    if s.len() > 0 && is_ws(s.last()) {
        lemma_trim_end_shape(s.drop_last());
        assert forall|i: int| trim_end(s).len() <= i < s.len() implies is_ws(#[trigger] s[i]) by {
            if i < s.len() - 1 {
                assert(s.drop_last()[i] == s[i]);
            }
        }
    }
}

/// Trimming the end twice changes nothing more.
pub proof fn lemma_trim_end_idempotent(s: Seq<char>)
    ensures
        trim_end(trim_end(s)) == trim_end(s),
{
    lemma_trim_end_shape(s);
}

/// Whitespace appended after a text is removed again by `trim_end`.
pub proof fn lemma_trim_end_append_ws(s: Seq<char>, w: Seq<char>)
    requires
        forall|i: int| 0 <= i < w.len() ==> is_ws(#[trigger] w[i]),
    ensures
        trim_end(s + w) == trim_end(s),
    decreases w.len(),
{
    if w.len() > 0 {
        assert((s + w).drop_last() =~= s + w.drop_last());
        assert((s + w).last() == w.last());
        assert forall|i: int| 0 <= i < w.drop_last().len() implies is_ws(
            #[trigger] w.drop_last()[i],
        ) by {
            assert(w.drop_last()[i] == w[i]);
        }
        lemma_trim_end_append_ws(s, w.drop_last());
    } else {
        assert(s + w =~= s);
    }
}

/// `trim_end` of `v[lo..hi]`, given as the end index `k` of `v[lo..k]`.
pub fn trim_end_at(v: &Vec<char>, lo: usize, hi: usize) -> (k: usize)
    requires
        lo <= hi <= v@.len(),
    ensures
        lo <= k <= hi,
        v@.subrange(lo as int, k as int) == trim_end(v@.subrange(lo as int, hi as int)),
{
    let mut k = hi;
    while k > lo && is_whitespace(v[k - 1])
        invariant
            lo <= k <= hi <= v@.len(),
            trim_end(v@.subrange(lo as int, hi as int)) == trim_end(
                v@.subrange(lo as int, k as int),
            ),
        decreases k,
    {
        assert(v@.subrange(lo as int, k as int).drop_last() =~= v@.subrange(
            lo as int,
            k - 1 as int,
        ));
        k = k - 1;
    }
    k
}

/// `trim_start` of `v[lo..hi]`, given as the start index `k` of `v[k..hi]`.
pub fn trim_start_at(v: &Vec<char>, lo: usize, hi: usize) -> (k: usize)
    requires
        lo <= hi <= v@.len(),
    ensures
        lo <= k <= hi,
        v@.subrange(k as int, hi as int) == trim_start(v@.subrange(lo as int, hi as int)),
{
    let mut k = lo;
    while k < hi && is_whitespace(v[k])
        invariant
            lo <= k <= hi <= v@.len(),
            trim_start(v@.subrange(lo as int, hi as int)) == trim_start(
                v@.subrange(k as int, hi as int),
            ),
        decreases hi - k,
    {
        assert(v@.subrange(k as int, hi as int).drop_first() =~= v@.subrange(
            k + 1 as int,
            hi as int,
        ));
        k = k + 1;
    }
    k
}

/// `trim_start_newlines` of `v[lo..hi]`, given as the start index `k`.
pub fn skip_newlines_at(v: &Vec<char>, lo: usize, hi: usize) -> (k: usize)
    requires
        lo <= hi <= v@.len(),
    ensures
        lo <= k <= hi,
        v@.subrange(k as int, hi as int) == trim_start_newlines(
            v@.subrange(lo as int, hi as int),
        ),
{
    let mut k = lo;
    while k < hi && v[k] == '\n'
        invariant
            lo <= k <= hi <= v@.len(),
            trim_start_newlines(v@.subrange(lo as int, hi as int)) == trim_start_newlines(
                v@.subrange(k as int, hi as int),
            ),
        decreases hi - k,
    {
        assert(v@.subrange(k as int, hi as int).drop_first() =~= v@.subrange(
            k + 1 as int,
            hi as int,
        ));
        k = k + 1;
    }
    k
}

// ---------------------------------------------------------------------------
// Substring search
// ---------------------------------------------------------------------------

/// A single line feed.
pub open spec fn nl() -> Seq<char> {
    seq!['\n']
}

/// `p` holds no line feed.
pub open spec fn no_newline(p: Seq<char>) -> bool {
    forall|i: int| 0 <= i < p.len() ==> #[trigger] p[i] != '\n'
}

/// `p` occurs in `s` starting at index `i`.
pub open spec fn occurs_at(s: Seq<char>, p: Seq<char>, i: int) -> bool {
    0 <= i && i + p.len() <= s.len() && s.subrange(i, i + p.len()) == p
}

/// `p` is a substring of `s` (`str::contains`).
pub open spec fn contains(s: Seq<char>, p: Seq<char>) -> bool {
    exists|i: int| occurs_at(s, p, i)
}

/// The first occurrence of `p` in `s` at or after `i`.
pub open spec fn find_from(s: Seq<char>, p: Seq<char>, i: int) -> Option<int>
    decreases s.len() + 1 - i,
{
    if i < 0 || i + p.len() > s.len() {
        None
    } else if occurs_at(s, p, i) {
        Some(i)
    } else {
        find_from(s, p, i + 1)
    }
}

/// The index of the first occurrence of `p` in `s` (`str::find`).
pub open spec fn find(s: Seq<char>, p: Seq<char>) -> Option<int> {
    find_from(s, p, 0)
}

pub proof fn lemma_find_from(s: Seq<char>, p: Seq<char>, i: int)
    requires
        0 <= i,
    ensures
        match find_from(s, p, i) {
            Some(k) => i <= k && occurs_at(s, p, k) && forall|j: int|
                i <= j < k ==> !#[trigger] occurs_at(s, p, j),
            None => forall|j: int| i <= j ==> !#[trigger] occurs_at(s, p, j),
        },
    decreases s.len() + 1 - i,
{
    if i + p.len() > s.len() {
    } else if occurs_at(s, p, i) {
    } else {
        lemma_find_from(s, p, i + 1);
    }
}

/// `find` returns the first occurrence, and finds one exactly when `p` occurs.
pub proof fn lemma_find(s: Seq<char>, p: Seq<char>)
    ensures
        match find(s, p) {
            Some(k) => occurs_at(s, p, k) && forall|j: int| 0 <= j < k ==> !#[trigger] occurs_at(s, p, j),
            None => !contains(s, p),
        },
        find(s, p) is Some <==> contains(s, p),
{
    lemma_find_from(s, p, 0);
}

/// An occurrence at `k` with none before it is what `find` returns.
pub proof fn lemma_find_is(s: Seq<char>, p: Seq<char>, k: int)
    requires
        occurs_at(s, p, k),
        forall|j: int| 0 <= j < k ==> !#[trigger] occurs_at(s, p, j),
    ensures
        find(s, p) == Some(k),
{
    lemma_find(s, p);
    if let Some(f) = find(s, p) {
        if f < k {
            assert(!occurs_at(s, p, f));
        }
        if k < f {
            assert(!occurs_at(s, p, k));
        }
    }
}

/// An occurrence in `y` is one in `x + y`, shifted by the length of `x`.
pub proof fn lemma_occurs_shift(x: Seq<char>, y: Seq<char>, p: Seq<char>, i: int)
    requires
        occurs_at(y, p, i),
    ensures
        occurs_at(x + y, p, x.len() + i),
{
    assert((x + y).subrange(x.len() + i, x.len() + i + p.len()) =~= y.subrange(i, i + p.len()));
}

/// An occurrence in `x` is one in `x + y`.
pub proof fn lemma_occurs_extend(x: Seq<char>, y: Seq<char>, p: Seq<char>, i: int)
    requires
        occurs_at(x, p, i),
    ensures
        occurs_at(x + y, p, i),
{
    assert((x + y).subrange(i, i + p.len()) =~= x.subrange(i, i + p.len()));
}

/// A text without `p` has no prefix with `p`.
pub proof fn lemma_prefix_not_contains(s: Seq<char>, k: int, p: Seq<char>)
    requires
        0 <= k <= s.len(),
        !contains(s, p),
    ensures
        !contains(s.take(k), p),
{
    if contains(s.take(k), p) {
        let i = choose|i: int| occurs_at(s.take(k), p, i);
        assert(s.subrange(i, i + p.len()) =~= s.take(k).subrange(i, i + p.len()));
        assert(occurs_at(s, p, i));
    }
}

/// An occurrence of a pattern without line feeds in `x + "\n" + y` lies
/// wholly in `x` or wholly in `y`.
pub proof fn lemma_occurs_split(x: Seq<char>, y: Seq<char>, p: Seq<char>, i: int)
    requires
        no_newline(p),
        occurs_at(x + nl() + y, p, i),
    ensures
        occurs_at(x, p, i) || (i >= x.len() + 1 && occurs_at(y, p, i - x.len() - 1)),
{
    let s = x + nl() + y;
    if i <= x.len() && x.len() < i + p.len() {
        assert(s.subrange(i, i + p.len())[x.len() - i] == s[x.len() as int]);
        assert(p[x.len() - i] == '\n');
    } else if i + p.len() <= x.len() {
        assert(x.subrange(i, i + p.len()) =~= s.subrange(i, i + p.len()));
    } else {
        assert(y.subrange(i - x.len() - 1, i - x.len() - 1 + p.len()) =~= s.subrange(
            i,
            i + p.len(),
        ));
    }
}

/// Joining two texts without `p` by a line feed gives a text without `p`.
pub proof fn lemma_not_contains_join(x: Seq<char>, y: Seq<char>, p: Seq<char>)
    requires
        no_newline(p),
        !contains(x, p),
        !contains(y, p),
    ensures
        !contains(x + nl() + y, p),
{
    if contains(x + nl() + y, p) {
        let i = choose|i: int| occurs_at(x + nl() + y, p, i);
        lemma_occurs_split(x, y, p, i);
        assert(occurs_at(y, p, i - x.len() - 1) ==> contains(y, p));
    }
}

/// A non-empty pattern without line feeds that is not in `x` is not in `x + "\n"`.
pub proof fn lemma_not_contains_newline_end(x: Seq<char>, p: Seq<char>)
    requires
        no_newline(p),
        p.len() > 0,
        !contains(x, p),
    ensures
        !contains(x + nl(), p),
{
    let e: Seq<char> = seq![];
    assert(!contains(e, p));
    lemma_not_contains_join(x, e, p);
    assert(x + nl() + e =~= x + nl());
}

/// When `x` holds no `p` and `y` starts with it, the first `p` in
/// `x + "\n" + y` starts right after the line feed.
pub proof fn lemma_find_after_newline(x: Seq<char>, y: Seq<char>, p: Seq<char>)
    requires
        no_newline(p),
        !contains(x, p),
        occurs_at(y, p, 0),
    ensures
        find(x + nl() + y, p) == Some(x.len() + 1 as int),
{
    let s = x + nl() + y;
    assert(s =~= (x + nl()) + y);
    lemma_occurs_shift(x + nl(), y, p, 0);
    assert forall|j: int| 0 <= j < x.len() + 1 implies !#[trigger] occurs_at(s, p, j) by {
        if occurs_at(s, p, j) {
            lemma_occurs_split(x, y, p, j);
        }
    }
    lemma_find_is(s, p, x.len() + 1 as int);
}

/// A text that starts with `p` finds it at index 0.
pub proof fn lemma_find_at_start(y: Seq<char>, p: Seq<char>)
    requires
        occurs_at(y, p, 0),
    ensures
        find(y, p) == Some(0int),
{
    lemma_find_is(y, p, 0);
}

/// Does `p` occur in `v` at index `i`?
pub fn matches_at(v: &Vec<char>, i: usize, hi: usize, p: &Vec<char>) -> (r: bool)
    requires
        i <= hi <= v@.len(),
    ensures
        r == (i + p@.len() <= hi && v@.subrange(i as int, i + p@.len()) == p@),
{
    if p.len() > hi - i {
        return false;
    }
    let mut j: usize = 0;
    while j < p.len()
        invariant
            i + p@.len() <= hi <= v@.len(),
            j <= p@.len(),
            forall|t: int| 0 <= t < j ==> v@[i + t] == p@[t],
        decreases p@.len() - j,
    {
        if v[i + j] != p[j] {
            assert(v@.subrange(i as int, i + p@.len())[j as int] != p@[j as int]);
            return false;
        }
        j = j + 1;
    }
    assert(v@.subrange(i as int, i + p@.len()) =~= p@);
    true
}

/// The first occurrence of `p` in `v[lo..hi]`, as an index into `v`.
pub fn find_in(v: &Vec<char>, lo: usize, hi: usize, p: &Vec<char>) -> (r: Option<usize>)
    requires
        lo <= hi <= v@.len(),
    ensures
        match r {
            Some(k) => lo <= k && k + p@.len() <= hi && find(v@.subrange(lo as int, hi as int), p@)
                == Some(k - lo),
            None => find(v@.subrange(lo as int, hi as int), p@) is None,
        },
{
    let ghost s = v@.subrange(lo as int, hi as int);
    let mut i = lo;
    while p.len() <= hi - i
        invariant
            lo <= i <= hi,
            hi <= v@.len(),
            s == v@.subrange(lo as int, hi as int),
            find(s, p@) == find_from(s, p@, i - lo),
        decreases hi - i,
    {
        let m = matches_at(v, i, hi, p);
        assert(s.subrange(i - lo, i - lo + p@.len()) =~= v@.subrange(i as int, i + p@.len()));
        if m {
            assert(occurs_at(s, p@, i - lo));
            return Some(i);
        }
        assert(!occurs_at(s, p@, i - lo));
        if i == hi {
            assert(p@.len() == 0);
            assert(v@.subrange(i as int, i + p@.len()) =~= p@);
            assert(false);
        }
        i = i + 1;
    }
    None
}

// ---------------------------------------------------------------------------
// Building text
// ---------------------------------------------------------------------------

/// `String::push`. Claimed: afterwards the string holds its former text
/// followed by `c`.
#[verifier::external_body]
fn string_push(s: &mut String, c: char)
    ensures
        final(s)@ == old(s)@.push(c),
{
    s.push(c);
}

/// The characters of a string slice, in order.
pub fn chars_of(s: &str) -> (r: Vec<char>)
    ensures
        r@ == s@,
{
    let mut out: Vec<char> = Vec::new();
    for c in it: s.chars()
        invariant
            out@ == it.seq().take(it.index() as int),
    {
        out.push(c);
    }
    out
}

/// A `String` holding the given characters.
pub fn string_of(v: &Vec<char>) -> (r: String)
    ensures
        r@ == v@,
{
    let mut out = String::new();
    let mut i: usize = 0;
    while i < v.len()
        invariant
            i <= v@.len(),
            out@ == v@.subrange(0, i as int),
        decreases v@.len() - i,
    {
        string_push(&mut out, v[i]);
        assert(v@.subrange(0, i + 1) =~= v@.subrange(0, i as int).push(v@[i as int]));
        i = i + 1;
    }
    assert(v@.subrange(0, v@.len() as int) =~= v@);
    out
}

/// Appends `v[lo..hi]` to `out`.
pub fn push_range(out: &mut Vec<char>, v: &Vec<char>, lo: usize, hi: usize)
    requires
        lo <= hi <= v@.len(),
    ensures
        final(out)@ == old(out)@ + v@.subrange(lo as int, hi as int),
{
    let ghost start = out@;
    let mut i = lo;
    while i < hi
        invariant
            lo <= i <= hi <= v@.len(),
            out@ == start + v@.subrange(lo as int, i as int),
        decreases hi - i,
    {
        out.push(v[i]);
        assert(v@.subrange(lo as int, i + 1) =~= v@.subrange(lo as int, i as int).push(
            v@[i as int],
        ));
        i = i + 1;
    }
    assert(start + v@.subrange(lo as int, hi as int) =~= out@);
}

/// Appends all of `v` to `out`.
pub fn push_all(out: &mut Vec<char>, v: &Vec<char>)
    ensures
        final(out)@ == old(out)@ + v@,
{
    push_range(out, v, 0, v.len());
    assert(v@.subrange(0, v@.len() as int) =~= v@);
}

/// Appends the characters of `s` to `out`.
pub fn push_str(out: &mut Vec<char>, s: &str)
    ensures
        final(out)@ == old(out)@ + s@,
{
    let v = chars_of(s);
    push_all(out, &v);
}

// ---------------------------------------------------------------------------
// Decimal numbers
// ---------------------------------------------------------------------------

pub open spec fn digit_char(d: nat) -> char {
    (d + 48) as char
}

/// The decimal representation of `n`, as `u32::to_string` writes it.
pub open spec fn decimal(n: nat) -> Seq<char>
    decreases n,
{
    if n < 10 {
        seq![digit_char(n)]
    } else {
        decimal(n / 10).push(digit_char(n % 10))
    }
}

/// Appends the decimal representation of `n` to `out`.
pub fn push_decimal(out: &mut Vec<char>, n: u32)
    ensures
        final(out)@ == old(out)@ + decimal(n as nat),
    decreases n,
{
    if n >= 10 {
        push_decimal(out, n / 10);
    }
    let d = (n % 10) as u8;
    let c = (d + 48) as char;
    assert(c == digit_char((n % 10) as nat));
    out.push(c);
    proof {
        if n >= 10 {
            assert(old(out)@ + decimal(n as nat) =~= old(out)@ + decimal((n / 10) as nat) + seq![c]);
        }
    }
    assert(final(out)@ =~= old(out)@ + decimal(n as nat));
}

pub open spec fn is_digit(c: char) -> bool {
    '0' <= c && c <= '9'
}

pub open spec fn digit_value(c: char) -> nat {
    (c as u32 - 48) as nat
}

/// The number that a string of decimal digits denotes.
pub open spec fn digits_value(s: Seq<char>) -> nat
    decreases s.len(),
{
    if s.len() == 0 {
        0
    } else {
        digits_value(s.drop_last()) * 10 + digit_value(s.last())
    }
}

pub open spec fn all_digits(s: Seq<char>) -> bool {
    forall|i: int| 0 <= i < s.len() ==> is_digit(#[trigger] s[i])
}

/// The digits of an unsigned number in its text form: a leading `+` is dropped.
pub open spec fn unsigned_digits(s: Seq<char>) -> Seq<char> {
    if s.len() > 0 && s[0] == '+' {
        s.drop_first()
    } else {
        s
    }
}

/// The unsigned number that `s` denotes, as the `FromStr` impls of the
/// unsigned integer types read it: an optional `+` and then one or more ASCII
/// digits, with a value of at most `max`.
pub open spec fn parse_unsigned(s: Seq<char>, max: nat) -> Option<nat> {
    let d = unsigned_digits(s);
    if d.len() > 0 && all_digits(d) && digits_value(d) <= max {
        Some(digits_value(d))
    } else {
        None
    }
}

proof fn lemma_digits_value_prefix(s: Seq<char>, k: int)
    requires
        0 <= k <= s.len(),
    ensures
        digits_value(s.take(k)) <= digits_value(s),
    decreases s.len(),
{
    if k < s.len() {
        assert(s.drop_last().take(k) =~= s.take(k));
        lemma_digits_value_prefix(s.drop_last(), k);
    } else {
        assert(s.take(k) =~= s);
    }
}

/// Reads an unsigned decimal number of at most `max` from `v`.
fn parse_unsigned_chars(v: &Vec<char>, max: u32) -> (r: Option<u32>)
    requires
        max < 100_000,
    ensures
        match parse_unsigned(v@, max as nat) {
            Some(n) => r == Some(n as u32),
            None => r is None,
        },
{
    let start: usize = if v.len() > 0 && v[0] == '+' {
        1
    } else {
        0
    };
    let ghost d = unsigned_digits(v@);
    assert(d =~= v@.subrange(start as int, v@.len() as int));
    if start >= v.len() {
        return None;
    }
    let mut acc: u32 = 0;
    let mut i = start;
    while i < v.len()
        invariant
            start <= i <= v@.len(),
            max < 100_000,
            d == v@.subrange(start as int, v@.len() as int),
            d == unsigned_digits(v@),
            acc as nat == digits_value(d.take(i - start)),
            acc <= max,
            all_digits(d.take(i - start)),
        decreases v@.len() - i,
    {
        let c = v[i];
        if !('0' <= c && c <= '9') {
            assert(d[i - start] == c);
            assert(!is_digit(d[i - start]));
            assert(!all_digits(d));
            assert(parse_unsigned(v@, max as nat) is None);
            return None;
        }
        let dv = (c as u32) - 48;
        assert(d.take(i - start + 1).drop_last() =~= d.take(i - start));
        assert(d.take(i - start + 1).last() == c);
        let next = acc * 10 + dv;
        assert(digits_value(d.take(i - start + 1)) == next);
        if next > max {
            proof {
                lemma_digits_value_prefix(d, i - start + 1);
            }
            assert(digits_value(d) > max);
            assert(parse_unsigned(v@, max as nat) is None);
            return None;
        }
        acc = next;
        assert(all_digits(d.take(i - start + 1))) by {
            assert forall|t: int| 0 <= t < d.take(i - start + 1).len() implies is_digit(
                #[trigger] d.take(i - start + 1)[t],
            ) by {
                if t < i - start {
                    assert(d.take(i - start + 1)[t] == d.take(i - start)[t]);
                }
            }
        }
        i = i + 1;
    }
    assert(d.take(d.len() as int) =~= d);
    Some(acc)
}

/// Reads a `u16` the way `str::parse::<u16>` does.
pub fn parse_u16(s: &str) -> (r: Option<u16>)
    ensures
        match parse_unsigned(s@, 65535) {
            Some(n) => r == Some(n as u16),
            None => r is None,
        },
{
    let v = chars_of(s);
    match parse_unsigned_chars(&v, 65535) {
        Some(n) => Some(n as u16),
        None => None,
    }
}

/// Reads a `u8` the way `str::parse::<u8>` does.
pub fn parse_u8_chars(v: &Vec<char>) -> (r: Option<u8>)
    ensures
        match parse_unsigned(v@, 255) {
            Some(n) => r == Some(n as u8),
            None => r is None,
        },
{
    match parse_unsigned_chars(v, 255) {
        Some(n) => Some(n as u8),
        None => None,
    }
}

} // verus!

verus! {

// ---------------------------------------------------------------------------
// Lists of strings and paths
// ---------------------------------------------------------------------------

/// The texts of a list of strings.
pub open spec fn views(v: Seq<String>) -> Seq<Seq<char>> {
    v.map_values(|s: String| s@)
}

/// The parts joined by single spaces (`join(" ")`).
pub open spec fn join_spaced(parts: Seq<Seq<char>>) -> Seq<char>
    decreases parts.len(),
{
    if parts.len() == 0 {
        seq![]
    } else if parts.len() == 1 {
        parts[0]
    } else {
        join_spaced(parts.drop_last()) + seq![' '] + parts.last()
    }
}

/// The strings joined by single spaces.
pub fn join_spaced_chars(v: &Vec<String>) -> (r: Vec<char>)
    ensures
        r@ == join_spaced(views(v@)),
{
    let mut out: Vec<char> = Vec::new();
    let mut i: usize = 0;
    while i < v.len()
        invariant
            i <= v@.len(),
            out@ == join_spaced(views(v@.take(i as int))),
        decreases v@.len() - i,
    {
        if i > 0 {
            out.push(' ');
        }
        push_str(&mut out, v[i].as_str());
        assert(views(v@.take(i + 1)).drop_last() =~= views(v@.take(i as int)));
        assert(views(v@.take(i + 1)).last() == v@[i as int]@);
        if i == 0 {
            assert(out@ =~= join_spaced(views(v@.take(i + 1))));
        }
        i = i + 1;
    }
    assert(v@.take(v@.len() as int) =~= v@);
    out
}

/// `base` joined with the path `part`, as `Path::join` does on Unix: an
/// absolute `part` replaces `base`; otherwise a `/` separates them unless
/// `base` is empty or already ends with one.
pub open spec fn path_join(base: Seq<char>, part: Seq<char>) -> Seq<char> {
    if part.len() > 0 && part[0] == '/' {
        part
    } else if base.len() > 0 && base.last() != '/' {
        base + seq!['/'] + part
    } else {
        base + part
    }
}

/// `base` joined with the path `part`.
pub fn join_path(base: &str, part: &str) -> (r: String)
    ensures
        r@ == path_join(base@, part@),
{
    let b = chars_of(base);
    let p = chars_of(part);
    let mut out: Vec<char> = Vec::new();
    if p.len() > 0 && p[0] == '/' {
        push_all(&mut out, &p);
    } else {
        push_all(&mut out, &b);
        if b.len() > 0 && b[b.len() - 1] != '/' {
            out.push('/');
        }
        push_all(&mut out, &p);
    }
    string_of(&out)
}

/// A copy of a string slice as a `String`.
pub fn owned(s: &str) -> (r: String)
    ensures
        r@ == s@,
{
    s.to_owned()
}

/// Whether two character vectors are equal.
pub fn eq_chars(a: &Vec<char>, b: &Vec<char>) -> (r: bool)
    ensures
        r == (a@ == b@),
{
    if a.len() != b.len() {
        return false;
    }
    let mut i: usize = 0;
    while i < a.len()
        invariant
            a@.len() == b@.len(),
            i <= a@.len(),
            forall|j: int| 0 <= j < i ==> a@[j] == b@[j],
        decreases a@.len() - i,
    {
        if a[i] != b[i] {
            return false;
        }
        i = i + 1;
    }
    assert(a@ =~= b@);
    true
}

/// Whether two string slices hold the same text.
pub fn str_eq(a: &str, b: &str) -> (r: bool)
    ensures
        r == (a@ == b@),
{
    let x = chars_of(a);
    let y = chars_of(b);
    eq_chars(&x, &y)
}

// ---------------------------------------------------------------------------
// Words
// ---------------------------------------------------------------------------

/// The index of the first whitespace character of `s` (its length if none).
pub open spec fn first_ws(s: Seq<char>) -> int
    decreases s.len(),
{
    if s.len() == 0 {
        0
    } else if is_ws(s[0]) {
        0
    } else {
        1 + first_ws(s.drop_first())
    }
}

/// The first whitespace-separated word of `s` (empty if there is none).
pub open spec fn first_word(s: Seq<char>) -> Seq<char> {
    trim_start(s).take(first_ws(trim_start(s)))
}

/// What follows the first word of `s`.
pub open spec fn after_first_word(s: Seq<char>) -> Seq<char> {
    trim_start(s).skip(first_ws(trim_start(s)))
}

/// Where the first word of `v[lo..hi]` starts and ends.
pub fn first_word_at(v: &Vec<char>, lo: usize, hi: usize) -> (r: (usize, usize))
    requires
        lo <= hi <= v@.len(),
    ensures
        lo <= r.0 <= r.1 <= hi,
        v@.subrange(r.0 as int, r.1 as int) == first_word(v@.subrange(lo as int, hi as int)),
        v@.subrange(r.1 as int, hi as int) == after_first_word(v@.subrange(lo as int, hi as int)),
        v@.subrange(r.0 as int, hi as int) == trim_start(v@.subrange(lo as int, hi as int)),
{
    let a = trim_start_at(v, lo, hi);
    let ghost t = v@.subrange(a as int, hi as int);
    let mut b = a;
    while b < hi && !is_whitespace(v[b])
        invariant
            lo <= a <= b <= hi <= v@.len(),
            t == v@.subrange(a as int, hi as int),
            first_ws(t) == (b - a) + first_ws(v@.subrange(b as int, hi as int)),
        decreases hi - b,
    {
        assert(v@.subrange(b as int, hi as int).drop_first() =~= v@.subrange(
            b + 1 as int,
            hi as int,
        ));
        b = b + 1;
    }
    assert(first_ws(v@.subrange(b as int, hi as int)) == 0);
    assert(t.take(b - a) =~= v@.subrange(a as int, b as int));
    assert(t.skip(b - a) =~= v@.subrange(b as int, hi as int));
    (a, b)
}

/// What `trim_start` leaves is a suffix that starts with no whitespace.
pub proof fn lemma_trim_start_shape(s: Seq<char>)
    ensures
        trim_start(s).len() <= s.len(),
        trim_start(s) =~= s.skip(s.len() - trim_start(s).len()),
        trim_start(s).len() > 0 ==> !is_ws(trim_start(s)[0]),
    decreases s.len(),
{
    if s.len() > 0 && is_ws(s[0]) {
        lemma_trim_start_shape(s.drop_first());
    }
}

proof fn lemma_first_ws_bounds(s: Seq<char>)
    ensures
        0 <= first_ws(s) <= s.len(),
        s.len() > 0 && !is_ws(s[0]) ==> first_ws(s) >= 1,
    decreases s.len(),
{
    if s.len() > 0 && !is_ws(s[0]) {
        lemma_first_ws_bounds(s.drop_first());
    }
}

/// Past a word, less text is left.
pub proof fn lemma_after_first_word_shorter(s: Seq<char>)
    requires
        trim_start(s).len() > 0,
    ensures
        after_first_word(s).len() < s.len(),
{
    lemma_trim_start_shape(s);
    lemma_first_ws_bounds(trim_start(s));
}

/// The whitespace-separated words of `s`, in order (`str::split_whitespace`).
pub open spec fn words(s: Seq<char>) -> Seq<Seq<char>>
    decreases s.len(),
{
    if trim_start(s).len() == 0 {
        seq![]
    } else {
        proof {
            lemma_after_first_word_shorter(s);
        }
        seq![first_word(s)] + words(after_first_word(s))
    }
}

/// An occurrence in a suffix is one in the whole text.
pub proof fn lemma_occurs_in_suffix(s: Seq<char>, m: int, p: Seq<char>, j: int)
    requires
        0 <= m <= s.len(),
        occurs_at(s.skip(m), p, j),
    ensures
        occurs_at(s, p, m + j),
{
    assert(s.subrange(m + j, m + j + p.len()) =~= s.skip(m).subrange(j, j + p.len()));
}

/// An occurrence in a prefix is one in the whole text, within the prefix.
pub proof fn lemma_occurs_in_prefix(s: Seq<char>, m: int, p: Seq<char>, j: int)
    requires
        0 <= m <= s.len(),
        occurs_at(s.take(m), p, j),
    ensures
        occurs_at(s, p, j),
        j + p.len() <= m,
{
    assert(s.subrange(j, j + p.len()) =~= s.take(m).subrange(j, j + p.len()));
}

/// What `trim_start_newlines` leaves is a suffix.
pub proof fn lemma_trim_start_newlines_suffix(s: Seq<char>)
    ensures
        trim_start_newlines(s).len() <= s.len(),
        trim_start_newlines(s) =~= s.skip(s.len() - trim_start_newlines(s).len()),
    decreases s.len(),
{
    if s.len() > 0 && s[0] == '\n' {
        lemma_trim_start_newlines_suffix(s.drop_first());
    }
}

} // verus!
