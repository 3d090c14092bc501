//! Character-level text helpers: whitespace trimming, prefix stripping,
//! character removal and replacement, decimal numbers.
//!
//! Every function works on the characters of its input (the view of a `str`
//! or `String` is its sequence of `char`s) and returns a fresh `String`.
use vstd::prelude::*;
use vstd::std_specs::iter::IteratorSpec;

verus! {

// ---------------------------------------------------------------------------
// Specifications
// ---------------------------------------------------------------------------

/// The Unicode `White_Space` property: the characters that
/// `char::is_whitespace` accepts and that `str::trim` removes.
pub open spec fn is_white_space(c: char) -> bool {
    ||| ('\u{9}' <= c && c <= '\u{d}')
    ||| c == ' '
    ||| c == '\u{85}'
    ||| c == '\u{a0}'
    ||| c == '\u{1680}'
    ||| ('\u{2000}' <= c && c <= '\u{200a}')
    ||| c == '\u{2028}'
    ||| c == '\u{2029}'
    ||| c == '\u{202f}'
    ||| c == '\u{205f}'
    ||| c == '\u{3000}'
}

/// `s` without its leading white space.
pub open spec fn trim_start(s: Seq<char>) -> Seq<char>
    decreases s.len(),
{
    if s.len() > 0 && is_white_space(s[0]) {
        trim_start(s.drop_first())
    } else {
        s
    }
}

/// `s` without its trailing white space.
pub open spec fn trim_end(s: Seq<char>) -> Seq<char>
    decreases s.len(),
{
    if s.len() > 0 && is_white_space(s.last()) {
        trim_end(s.drop_last())
    } else {
        s
    }
}

/// `s` without leading and trailing white space (what `str::trim` gives).
pub open spec fn trimmed(s: Seq<char>) -> Seq<char> {
    trim_end(trim_start(s))
}

/// `s` with every leading copy of the non-empty pattern `p` removed, again
/// and again (what `str::trim_start_matches` gives for a string pattern).
/// An empty pattern leaves `s` as it is.
pub open spec fn strip_prefixes(s: Seq<char>, p: Seq<char>) -> Seq<char>
    decreases s.len(),
{
    if p.len() > 0 && p.len() <= s.len() && s.take(p.len() as int) == p {
        strip_prefixes(s.skip(p.len() as int), p)
    } else {
        s
    }
}

/// `s` with every occurrence of `c` removed (`str::replace(c, "")`).
pub open spec fn without_char(s: Seq<char>, c: char) -> Seq<char>
    decreases s.len(),
{
    if s.len() == 0 {
        s
    } else if s.last() == c {
        without_char(s.drop_last(), c)
    } else {
        without_char(s.drop_last(), c).push(s.last())
    }
}

/// `s` with every occurrence of `from` replaced by `to`.
pub open spec fn replaced(s: Seq<char>, from: char, to: char) -> Seq<char> {
    s.map_values(|x: char| if x == from { to } else { x })
}

/// Index of the first occurrence of `c` in `s`, if any.
pub open spec fn first_index_of(s: Seq<char>, c: char) -> Option<int> {
    if s.contains(c) {
        Some(choose|i: int| 0 <= i < s.len() && s[i] == c && forall|j: int| 0 <= j < i ==> s[j] != c)
    } else {
        None
    }
}

/// An ASCII decimal digit.
pub open spec fn is_digit(c: char) -> bool {
    '0' <= c && c <= '9'
}

/// The value of an ASCII decimal digit.
pub open spec fn digit_value(c: char) -> nat {
    (c as int - '0' as int) as nat
}

/// The ASCII decimal digit for `d < 10`.
pub open spec fn digit_char(d: nat) -> char {
    if d == 0 {
        '0'
    } else if d == 1 {
        '1'
    } else if d == 2 {
        '2'
    } else if d == 3 {
        '3'
    } else if d == 4 {
        '4'
    } else if d == 5 {
        '5'
    } else if d == 6 {
        '6'
    } else if d == 7 {
        '7'
    } else if d == 8 {
        '8'
    } else {
        '9'
    }
}

/// Whether every character of `s` is a decimal digit.
pub open spec fn all_digits(s: Seq<char>) -> bool {
    forall|i: int| 0 <= i < s.len() ==> #[trigger] is_digit(s[i])
}

/// The number that the digit string `s` denotes (most significant first).
pub open spec fn decimal_value(s: Seq<char>) -> nat
    decreases s.len(),
{
    if s.len() == 0 {
        0
    } else {
        decimal_value(s.drop_last()) * 10 + digit_value(s.last())
    }
}

/// The decimal representation of `n`: no leading zero, `"0"` for zero
/// (what `to_string` gives for an unsigned integer).
pub open spec fn decimal_digits(n: nat) -> Seq<char>
    decreases n,
{
    if n < 10 {
        seq![digit_char(n)]
    } else {
        decimal_digits(n / 10).push(digit_char(n % 10))
    }
}

/// What `s.parse::<usize>()` accepts and gives: an optional `+` followed by
/// at least one decimal digit, whose value fits in a `usize`; nothing else
/// (no sign but `+`, no white space).
pub open spec fn usize_value(s: Seq<char>) -> Option<usize> {
    let body = if s.len() > 0 && s[0] == '+' {
        s.drop_first()
    } else {
        s
    };
    if body.len() > 0 && all_digits(body) && decimal_value(body) <= usize::MAX {
        Some(decimal_value(body) as usize)
    } else {
        None
    }
}

// ---------------------------------------------------------------------------
// Lemmas
// ---------------------------------------------------------------------------

proof fn lemma_trim_start_skip(s: Seq<char>, i: int)
    requires
        0 <= i < s.len(),
        is_white_space(s[i]),
    ensures
        trim_start(s.skip(i)) == trim_start(s.skip(i + 1)),
{
    assert(s.skip(i).drop_first() =~= s.skip(i + 1));
}

proof fn lemma_trim_end_take(s: Seq<char>, j: int)
    requires
        0 < j <= s.len(),
        is_white_space(s[j - 1]),
    ensures
        trim_end(s.take(j)) == trim_end(s.take(j - 1)),
{
    assert(s.take(j).drop_last() =~= s.take(j - 1));
}

/// A longer digit string never denotes a smaller number.
proof fn lemma_decimal_value_prefix(s: Seq<char>, i: int)
    requires
        0 <= i <= s.len(),
    ensures
        decimal_value(s.take(i)) <= decimal_value(s),
    decreases s.len() - i,
{
    if i < s.len() {
        lemma_decimal_value_prefix(s, i + 1);
        assert(s.take(i + 1).drop_last() =~= s.take(i));
    } else {
        assert(s.take(i) =~= s);
    }
}

proof fn lemma_digit_char(d: nat)
    requires
        d < 10,
    ensures
        is_digit(digit_char(d)),
        digit_value(digit_char(d)) == d,
{
}

/// The decimal representation of `n` is a digit string that denotes `n`.
pub proof fn lemma_decimal_digits(n: nat)
    ensures
        decimal_digits(n).len() > 0,
        all_digits(decimal_digits(n)),
        decimal_value(decimal_digits(n)) == n,
        decimal_digits(n)[0] != '+',
        decimal_digits(n)[0] == '0' ==> n == 0,
        n == 0 ==> decimal_digits(n) == seq!['0'],
    decreases n,
{
    if n < 10 {
        lemma_digit_char(n);
        let s = seq![digit_char(n)];
        assert(s.drop_last() =~= Seq::<char>::empty());
        assert(decimal_value(s) == decimal_value(s.drop_last()) * 10 + digit_value(s.last()));
    } else {
        lemma_decimal_digits(n / 10);
        lemma_digit_char(n % 10);
        let p = decimal_digits(n / 10);
        let s = p.push(digit_char(n % 10));
        assert(s.drop_last() =~= p);
        assert(s.last() == digit_char(n % 10));
        assert(decimal_value(s) == decimal_value(p) * 10 + digit_value(s.last()));
        assert((n / 10) * 10 + n % 10 == n);
        assert forall|i: int| 0 <= i < s.len() implies #[trigger] is_digit(s[i]) by {
            if i < p.len() {
                assert(is_digit(p[i]));
            }
        }
    }
}

/// Reading back the decimal representation of a number gives the number:
/// `n.to_string().parse::<usize>() == Ok(n)`.
pub proof fn lemma_parse_usize_decimal_digits(n: usize)
    ensures
        usize_value(decimal_digits(n as nat)) == Some(n),
{
    lemma_decimal_digits(n as nat);
}

/// The number of leading white-space characters of `s`.
proof fn lemma_trim_start_index(s: Seq<char>) -> (a: int)
    ensures
        0 <= a <= s.len(),
        trim_start(s) == s.skip(a),
        forall|i: int| 0 <= i < a ==> #[trigger] is_white_space(s[i]),
        a < s.len() ==> !is_white_space(s[a]),
    decreases s.len(),
{
    if s.len() > 0 && is_white_space(s[0]) {
        let a = lemma_trim_start_index(s.drop_first());
        assert(s.drop_first().skip(a) =~= s.skip(a + 1));
        assert forall|i: int| 0 <= i < a + 1 implies #[trigger] is_white_space(s[i]) by {
            if i > 0 {
                assert(s[i] == s.drop_first()[i - 1]);
            }
        }
        a + 1
    } else {
        assert(s.skip(0) =~= s);
        0
    }
}

/// Where the trailing white space of `s` begins.
proof fn lemma_trim_end_index(s: Seq<char>) -> (b: int)
    ensures
        0 <= b <= s.len(),
        trim_end(s) == s.take(b),
        forall|i: int| b <= i < s.len() ==> #[trigger] is_white_space(s[i]),
        b > 0 ==> !is_white_space(s[b - 1]),
    decreases s.len(),
{
    if s.len() > 0 && is_white_space(s.last()) {
        let b = lemma_trim_end_index(s.drop_last());
        assert(s.drop_last().take(b) =~= s.take(b));
        assert forall|i: int| b <= i < s.len() implies #[trigger] is_white_space(s[i]) by {
            if i < s.len() - 1 {
                assert(s[i] == s.drop_last()[i]);
            }
        }
        b
    } else {
        assert(s.take(s.len() as int) =~= s);
        s.len() as int
    }
}

/// What trimming gives: the part of `s` between a run of leading and a run
/// of trailing white space, beginning and ending with a character that is
/// not white space (or empty when `s` is all white space).
pub proof fn lemma_trimmed_shape(s: Seq<char>)
    ensures
        exists|a: int, b: int|
            0 <= a <= b <= s.len() && trimmed(s) == s.subrange(a, b) && (forall|i: int|
                0 <= i < a ==> #[trigger] is_white_space(s[i])) && (forall|i: int|
                b <= i < s.len() ==> #[trigger] is_white_space(s[i])) && (a < b ==> !is_white_space(
                s[a],
            ) && !is_white_space(s[b - 1])),
{
    let a = lemma_trim_start_index(s);
    let rest = s.skip(a);
    let b0 = lemma_trim_end_index(rest);
    let b = a + b0;
    assert(rest.take(b0) =~= s.subrange(a, b));
    assert forall|i: int| b <= i < s.len() implies #[trigger] is_white_space(s[i]) by {
        assert(s[i] == rest[i - a]);
    }
    if a < b {
        assert(s[b - 1] == rest[b0 - 1]);
        assert(s[a] == rest[0]);
    }
    if a == s.len() {
        assert(b == a);
    }
}

/// Stripping a pattern: a leading copy of a non-empty `p` is removed and
/// stripping goes on; a string that does not begin with `p` is left as it
/// is; an empty pattern changes nothing.
pub proof fn lemma_strip_prefixes(s: Seq<char>, p: Seq<char>)
    ensures
        p.len() > 0 ==> strip_prefixes(p + s, p) == strip_prefixes(s, p),
        !(p.len() <= s.len() && s.take(p.len() as int) == p) ==> strip_prefixes(s, p) == s,
        strip_prefixes(s, Seq::<char>::empty()) == s,
{
    if p.len() > 0 {
        assert((p + s).take(p.len() as int) =~= p);
        assert((p + s).skip(p.len() as int) =~= s);
    }
}

/// Replacing a character changes exactly its occurrences.
pub proof fn lemma_replaced(s: Seq<char>, from: char, to: char)
    ensures
        replaced(s, from, to).len() == s.len(),
        forall|i: int|
            0 <= i < s.len() ==> #[trigger] replaced(s, from, to)[i] == (if s[i] == from {
                to
            } else {
                s[i]
            }),
{
}

/// Removing a character works piece by piece: on a concatenation it is the
/// concatenation of the results, a single character `c` disappears and any
/// other single character stays.
pub proof fn lemma_without_char(s1: Seq<char>, s2: Seq<char>, c: char, x: char)
    ensures
        without_char(s1 + s2, c) == without_char(s1, c) + without_char(s2, c),
        without_char(seq![x], c) == (if x == c {
            Seq::<char>::empty()
        } else {
            seq![x]
        }),
    decreases s2.len(),
{
    assert(seq![x].drop_last() =~= Seq::<char>::empty());
    assert(without_char(Seq::<char>::empty(), c) == Seq::<char>::empty());
    assert(seq![x].last() == x);
    if x != c {
        assert(Seq::<char>::empty().push(x) =~= seq![x]);
    }
    if s2.len() == 0 {
        assert(s1 + s2 =~= s1);
        assert(without_char(s1, c) + without_char(s2, c) =~= without_char(s1, c));
    } else {
        lemma_without_char(s1, s2.drop_last(), c, x);
        assert((s1 + s2).drop_last() =~= s1 + s2.drop_last());
        assert((s1 + s2).last() == s2.last());
        if s2.last() == c {
        } else {
            assert(without_char(s1, c) + without_char(s2.drop_last(), c).push(s2.last()) =~= (
            without_char(s1, c) + without_char(s2.drop_last(), c)).push(s2.last()));
        }
    }
}

/// Reading numbers: a decimal representation reads back as its number,
/// also with a leading `+`; a leading zero before digits changes nothing.
pub proof fn lemma_usize_value(n: usize, s: Seq<char>)
    ensures
        usize_value(decimal_digits(n as nat)) == Some(n),
        usize_value(seq!['+'] + decimal_digits(n as nat)) == Some(n),
        s.len() > 0 && all_digits(s) ==> usize_value(seq!['0'] + s) == usize_value(s),
        !all_digits(s) && !(s.len() > 0 && s[0] == '+') ==> usize_value(s) is None,
{
    lemma_decimal_digits(n as nat);
    let d = decimal_digits(n as nat);
    assert((seq!['+'] + d).drop_first() =~= d);
    if s.len() > 0 && all_digits(s) {
        let z = seq!['0'] + s;
        assert(z[0] == '0');
        assert(s[0] != '+') by {
            assert(is_digit(s[0]));
        }
        lemma_decimal_value_leading_zero(s);
        assert(all_digits(z)) by {
            assert forall|i: int| 0 <= i < z.len() implies #[trigger] is_digit(z[i]) by {
                if i > 0 {
                    assert(z[i] == s[i - 1]);
                }
            }
        }
    }
}

proof fn lemma_decimal_value_leading_zero(s: Seq<char>)
    ensures
        decimal_value(seq!['0'] + s) == decimal_value(s),
    decreases s.len(),
{
    let z = seq!['0'] + s;
    if s.len() == 0 {
        assert(z =~= seq!['0']);
        assert(z.drop_last() =~= Seq::<char>::empty());
        assert(decimal_value(z) == decimal_value(z.drop_last()) * 10 + digit_value(z.last()));
        assert(digit_value('0') == 0);
    } else {
        lemma_decimal_value_leading_zero(s.drop_last());
        assert(z.drop_last() =~= seq!['0'] + s.drop_last());
        assert(z.last() == s.last());
        assert(decimal_value(z) == decimal_value(z.drop_last()) * 10 + digit_value(z.last()));
        assert(decimal_value(s) == decimal_value(s.drop_last()) * 10 + digit_value(s.last()));
    }
}

// ---------------------------------------------------------------------------
// Executable functions
// ---------------------------------------------------------------------------

/// Whether `c` has the Unicode `White_Space` property.
pub fn white_space(c: char) -> (r: bool)
    ensures
        r == is_white_space(c),
{
    ('\u{9}' <= c && c <= '\u{d}') || c == ' ' || c == '\u{85}' || c == '\u{a0}' || c == '\u{1680}'
        || ('\u{2000}' <= c && c <= '\u{200a}') || c == '\u{2028}' || c == '\u{2029}' || c
        == '\u{202f}' || c == '\u{205f}' || c == '\u{3000}'
}

/// Appends one character to a `String` (`String::push`). Trusted: the
/// string afterwards is the string before followed by `c`, as std documents.
#[verifier::external_body]
pub(crate) fn push_char(s: &mut String, c: char)
    ensures
        final(s)@ == old(s)@.push(c),
{
    s.push(c)
}

/// The characters of `s`, in order.
pub fn chars_of(s: &str) -> (v: Vec<char>)
    ensures
        v@ == s@,
{
    let mut v: Vec<char> = Vec::new();
    let mut it = s.chars();
    loop
        invariant_except_break
            v@ + IteratorSpec::remaining(&it) == s@,
            it.obeys_prophetic_iter_laws(),
            IteratorSpec::decrease(&it) is Some,
        ensures
            v@ == s@,
        decreases IteratorSpec::decrease(&it)->0,
    {
        let ghost before = IteratorSpec::remaining(&it);
        match it.next() {
            Some(c) => {
                assert(v@.push(c) + before.drop_first() =~= v@ + before);
                v.push(c);
            },
            None => {
                assert(v@ + before =~= v@);
                break ;
            },
        }
    }
    v
}

/// The `String` made of the characters `v[lo..hi]`.
pub fn string_of_range(v: &Vec<char>, lo: usize, hi: usize) -> (r: String)
    requires
        lo <= hi <= v.len(),
    ensures
        r@ == v@.subrange(lo as int, hi as int),
{
    let mut r = String::new();
    let mut i = lo;
    while i < hi
        invariant
            lo <= i <= hi <= v.len(),
            r@ == v@.subrange(lo as int, i as int),
        decreases hi - i,
    {
        push_char(&mut r, v[i]);
        assert(v@.subrange(lo as int, i + 1) =~= v@.subrange(lo as int, i as int).push(v@[i as int]));
        i += 1;
    }
    r
}

/// Position of the first character of `v` that is not white space
/// (`v.len()` if there is none).
fn skip_leading_white_space(v: &Vec<char>) -> (i: usize)
    ensures
        i <= v.len(),
        trim_start(v@) == v@.skip(i as int),
{
    let n = v.len();
    let mut i: usize = 0;
    assert(v@.skip(0) =~= v@);
    while i < n && white_space(v[i])
        invariant
            i <= n == v.len(),
            trim_start(v@) == trim_start(v@.skip(i as int)),
        decreases n - i,
    {
        proof {
            lemma_trim_start_skip(v@, i as int);
        }
        i += 1;
    }
    if i == n {
        assert(v@.skip(i as int) =~= Seq::<char>::empty());
    }
    i
}

/// End of `v[lo..]` once its trailing white space is dropped.
fn drop_trailing_white_space(v: &Vec<char>, lo: usize) -> (j: usize)
    requires
        lo <= v.len(),
    ensures
        lo <= j <= v.len(),
        trim_end(v@.skip(lo as int)) == v@.subrange(lo as int, j as int),
{
    let ghost rest = v@.skip(lo as int);
    let mut j: usize = v.len();
    assert(rest.take(rest.len() as int) =~= rest);
    while j > lo && white_space(v[j - 1])
        invariant
            lo <= j <= v.len(),
            rest == v@.skip(lo as int),
            trim_end(rest) == trim_end(rest.take(j - lo)),
        decreases j,
    {
        proof {
            assert(rest[j - lo - 1] == v@[j - 1]);
            lemma_trim_end_take(rest, j - lo);
        }
        j -= 1;
    }
    assert(rest.take(j - lo) =~= v@.subrange(lo as int, j as int));
    if j > lo {
        assert(rest.take(j - lo).last() == v@[j - 1]);
    }
    j
}

/// `s` without leading and trailing white space (`str::trim`).
pub fn trim(s: &str) -> (r: String)
    ensures
        r@ == trimmed(s@),
{
    let v = chars_of(s);
    let i = skip_leading_white_space(&v);
    let j = drop_trailing_white_space(&v, i);
    string_of_range(&v, i, j)
}

/// `s` with every leading copy of `pat` removed (`str::trim_start_matches`
/// with a string pattern).
pub fn trim_start_matches(s: &str, pat: &str) -> (r: String)
    ensures
        r@ == strip_prefixes(s@, pat@),
{
    let v = chars_of(s);
    let p = chars_of(pat);
    let n = v.len();
    let m = p.len();
    let mut i: usize = 0;
    assert(v@.skip(0) =~= v@);
    if m == 0 {
        return string_of_range(&v, 0, n);
    }
    loop
        invariant_except_break
            i <= n == v.len(),
            m == p.len() > 0,
            v@ == s@,
            p@ == pat@,
            strip_prefixes(s@, pat@) == strip_prefixes(v@.skip(i as int), p@),
        ensures
            i <= n == v.len(),
            strip_prefixes(s@, pat@) == v@.skip(i as int),
        decreases n - i,
    {
        // does p occur at position i?
        if m > n - i {
            break ;
        }
        let mut k: usize = 0;
        while k < m && v[i + k] == p[k]
            invariant
                k <= m == p.len(),
                i + m <= n == v.len(),
                forall|t: int| 0 <= t < k ==> v@[i + t] == p@[t],
            decreases m - k,
        {
            k += 1;
        }
        if k < m {
            assert(v@.skip(i as int).take(m as int)[k as int] != p@[k as int]);
            assert(v@.skip(i as int).take(m as int) != p@);
            break ;
        }
        assert(v@.skip(i as int).take(m as int) =~= p@);
        assert(v@.skip(i as int).skip(m as int) =~= v@.skip(i + m));
        i = i + m;
    }
    assert(v@.skip(i as int) =~= v@.subrange(i as int, n as int));
    string_of_range(&v, i, n)
}

/// `s` with every occurrence of `c` removed (`str::replace` of `c` by `""`).
pub fn remove_char(s: &str, c: char) -> (r: String)
    ensures
        r@ == without_char(s@, c),
{
    let v = chars_of(s);
    let mut r = String::new();
    let mut i: usize = 0;
    assert(v@.take(0) =~= Seq::<char>::empty());
    while i < v.len()
        invariant
            i <= v.len(),
            v@ == s@,
            r@ == without_char(v@.take(i as int), c),
        decreases v.len() - i,
    {
        assert(v@.take(i + 1).drop_last() =~= v@.take(i as int));
        if v[i] != c {
            push_char(&mut r, v[i]);
        }
        i += 1;
    }
    assert(v@.take(v.len() as int) =~= v@);
    r
}

/// `s` with every occurrence of `from` replaced by `to`.
pub fn replace_char(s: &str, from: char, to: char) -> (r: String)
    ensures
        r@ == replaced(s@, from, to),
{
    let v = chars_of(s);
    let mut r = String::new();
    let mut i: usize = 0;
    while i < v.len()
        invariant
            i <= v.len(),
            v@ == s@,
            r@ == replaced(v@.take(i as int), from, to),
        decreases v.len() - i,
    {
        if v[i] == from {
            push_char(&mut r, to);
        } else {
            push_char(&mut r, v[i]);
        }
        assert(replaced(v@.take(i + 1), from, to) =~= replaced(v@.take(i as int), from, to).push(
            if v@[i as int] == from { to } else { v@[i as int] },
        ));
        i += 1;
    }
    assert(v@.take(v.len() as int) =~= v@);
    r
}

/// Index (in characters) of the first occurrence of `c` in `s`.
pub fn find_char(s: &Vec<char>, c: char) -> (r: Option<usize>)
    ensures
        r matches Some(i) ==> first_index_of(s@, c) == Some(i as int) && i < s.len(),
        r is None <==> first_index_of(s@, c) is None,
{
    let mut i: usize = 0;
    while i < s.len()
        invariant
            i <= s.len(),
            forall|j: int| 0 <= j < i ==> s@[j] != c,
        decreases s.len() - i,
    {
        if s[i] == c {
            assert(s@.contains(c));
            let ghost k = choose|k: int| 0 <= k < s@.len() && s@[k] == c && forall|j: int| 0 <= j < k ==> s@[j] != c;
            assert(k == i) by {
                if k < i {
                } else if k > i {
                    assert(s@[i as int] != c);
                }
            }
            return Some(i);
        }
        i += 1;
    }
    assert(!s@.contains(c));
    None
}

/// The value of a decimal digit `c` (`'0'..='9'`).
fn digit_to_value(c: char) -> (d: usize)
    requires
        is_digit(c),
    ensures
        d == digit_value(c),
        d < 10,
{
    (c as u32 - '0' as u32) as usize
}

/// The decimal digit for `d < 10`.
fn value_to_digit(d: usize) -> (c: char)
    requires
        d < 10,
    ensures
        c == digit_char(d as nat),
{
    if d == 0 {
        '0'
    } else if d == 1 {
        '1'
    } else if d == 2 {
        '2'
    } else if d == 3 {
        '3'
    } else if d == 4 {
        '4'
    } else if d == 5 {
        '5'
    } else if d == 6 {
        '6'
    } else if d == 7 {
        '7'
    } else if d == 8 {
        '8'
    } else {
        '9'
    }
}

/// Parses `s` as an unsigned decimal number, as `s.parse::<usize>()` does:
/// `None` exactly where that parse fails.
pub fn parse_usize(s: &str) -> (r: Option<usize>)
    ensures
        r == usize_value(s@),
{
    let v = chars_of(s);
    let n = v.len();
    let start: usize = if n > 0 && v[0] == '+' {
        1
    } else {
        0
    };
    let ghost body = if s@.len() > 0 && s@[0] == '+' {
        s@.drop_first()
    } else {
        s@
    };
    assert(body =~= v@.skip(start as int));
    if start == n {
        return None;
    }
    let mut acc: usize = 0;
    let mut i: usize = start;
    assert(body.take(0) =~= Seq::<char>::empty());
    while i < n
        invariant
            start <= i <= n == v.len(),
            start < n,
            v@ == s@,
            body == (if s@.len() > 0 && s@[0] == '+' {
                s@.drop_first()
            } else {
                s@
            }),
            body == v@.skip(start as int),
            acc == decimal_value(body.take(i - start)),
            all_digits(body.take(i - start)),
        decreases n - i,
    {
        let c = v[i];
        assert(body[i - start] == c);
        if !('0' <= c && c <= '9') {
            assert(!all_digits(body)) by {
                assert(!is_digit(body[i - start]));
            }
            return None;
        }
        let d = digit_to_value(c);
        assert(body.take(i - start + 1).drop_last() =~= body.take(i - start));
        assert(decimal_value(body.take(i - start + 1)) == acc * 10 + d);
        if acc > (usize::MAX - d) / 10 {
            proof {
                assert(acc * 10 + d > usize::MAX) by (nonlinear_arith)
                    requires
                        acc > (usize::MAX - d) / 10,
                        d < 10,
                ;
                lemma_decimal_value_prefix(body, i - start + 1);
            }
            return None;
        }
        assert(acc * 10 + d <= usize::MAX) by (nonlinear_arith)
            requires
                acc <= (usize::MAX - d) / 10,
                d < 10,
        ;
        acc = acc * 10 + d;
        i += 1;
        assert forall|t: int| 0 <= t < i - start implies #[trigger] is_digit(body.take(i - start)[t]) by {
            if t < i - start - 1 {
                assert(body.take(i - start)[t] == body.take(i - start - 1)[t]);
            }
        }
    }
    assert(body.take(n - start) =~= body);
    Some(acc)
}

/// The decimal representation of `n` (`n.to_string()`).
pub fn usize_to_string(n: usize) -> (r: String)
    ensures
        r@ == decimal_digits(n as nat),
    decreases n,
{
    if n < 10 {
        let mut r = String::new();
        push_char(&mut r, value_to_digit(n));
        assert(r@ =~= seq![digit_char(n as nat)]);
        r
    } else {
        let mut r = usize_to_string(n / 10);
        push_char(&mut r, value_to_digit(n % 10));
        r
    }
}

/// Whether `v` holds a string equal to `s`.
pub fn contains_string(v: &Vec<String>, s: &String) -> (r: bool)
    ensures
        r == v.deep_view().contains(s@),
{
    let mut i: usize = 0;
    while i < v.len()
        invariant
            i <= v.len(),
            forall|j: int| 0 <= j < i ==> v@[j]@ != s@,
        decreases v.len() - i,
    {
        if v[i] == *s {
            assert(v.deep_view()[i as int] == s@);
            return true;
        }
        i += 1;
    }
    assert forall|j: int| 0 <= j < v.deep_view().len() implies v.deep_view()[j] != s@ by {
        assert(v.deep_view()[j] == v@[j]@);
    }
    false
}

} // verus!
