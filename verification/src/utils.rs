//! What the browsing helpers compute: prices and links of a listing, the
//! page count, the scripts that move the browser, random pauses.
use rand::random_range;
use vstd::prelude::*;

use crate::html::{first_attr, first_text, fragment_first_attr, fragment_first_text};
use crate::text::{
    all_digits, chars_of, decimal_digits, find_char, first_index_of, is_digit, lemma_decimal_digits, lemma_usize_value,
    parse_usize, string_of_range, trim, trim_end, trim_start, trimmed, usize_value,
};

verus! {

/// The price shown in a listing: the trimmed text of its first
/// `span[class='cost']`; `None` when the listing has no such element.
pub open spec fn listing_price(fragment: Seq<char>) -> Option<Seq<char>> {
    match fragment_first_text(fragment, "span[class='cost']"@) {
        Some(t) => Some(trimmed(t)),
        None => None,
    }
}

/// The link of a listing: the `href` of its first `a` element; `None` when
/// there is no `a` element or it has no `href`.
pub open spec fn listing_link(fragment: Seq<char>) -> Option<Seq<char>> {
    match fragment_first_attr(fragment, "a"@, "href"@) {
        Some(Some(h)) => Some(h),
        _ => None,
    }
}

/// Price of the listing whose HTML is `fragment`.
///
/// `None` exactly where the listing has no price element (the browsing
/// loop stops there).
pub fn get_price(fragment: &str) -> (r: Option<String>)
    ensures
        r.deep_view() == listing_price(fragment@),
        r is Some <==> fragment_first_text(fragment@, "span[class='cost']"@) is Some,
        r matches Some(p) ==> p@ == trimmed(fragment_first_text(fragment@, "span[class='cost']"@)->0),
{
    match first_text(fragment, "span[class='cost']") {
        Some(t) => Some(trim(t.as_str())),
        None => None,
    }
}

/// Link of the listing whose HTML is `fragment`.
///
/// `None` exactly where the listing has no `a` element or it carries no
/// `href` (the browsing loop stops there).
pub fn get_link(fragment: &str) -> (r: Option<String>)
    ensures
        r.deep_view() == listing_link(fragment@),
        r is Some <==> fragment_first_attr(fragment@, "a"@, "href"@) matches Some(Some(_)),
        r matches Some(l) ==> fragment_first_attr(fragment@, "a"@, "href"@) == Some(Some(l@)),
{
    match first_attr(fragment, "a", "href") {
        Some(Some(h)) => Some(h),
        _ => None,
    }
}

/// Why a page counter could not be read.
#[derive(Debug, Clone, Copy, PartialEq, Eq, Structural)]
pub enum PageCountError {
    /// The counter holds no `/`.
    NoSeparator,
    /// What follows the first `/` is not a number once trimmed.
    NotANumber,
}

/// The number of result pages that a counter such as `"1 / 12"` shows:
/// what follows its first `/`, trimmed, read as a decimal number.
pub open spec fn page_count(counter: Seq<char>) -> Result<usize, PageCountError> {
    match first_index_of(counter, '/') {
        None => Err(PageCountError::NoSeparator),
        Some(k) => match usize_value(trimmed(counter.skip(k + 1))) {
            Some(n) => Ok(n),
            None => Err(PageCountError::NotANumber),
        },
    }
}

/// Reading the page counter, stated on its first `/`: when `k` is the
/// position of the first `/`, the count is the number that the rest of the
/// counter denotes once trimmed (any number that fits in a `usize`), and
/// there is none if the rest is not a number; a counter without `/` has no
/// count.
pub proof fn lemma_page_count(counter: Seq<char>, k: int)
    ensures
        !counter.contains('/') ==> page_count(counter) == Err::<usize, PageCountError>(
            PageCountError::NoSeparator,
        ),
        0 <= k < counter.len() && counter[k] == '/' && (forall|j: int| 0 <= j < k ==> counter[j] != '/')
            ==> page_count(counter) == match usize_value(trimmed(counter.skip(k + 1))) {
            Some(n) => Ok::<usize, PageCountError>(n),
            None => Err(PageCountError::NotANumber),
        },
{
    if 0 <= k < counter.len() && counter[k] == '/' && (forall|j: int| 0 <= j < k ==> counter[j] != '/') {
        assert(counter.contains('/'));
        let f = choose|i: int|
            0 <= i < counter.len() && counter[i] == '/' && forall|j: int| 0 <= j < i ==> counter[j] != '/';
        assert(0 <= k < counter.len() && counter[k] == '/' && forall|j: int| 0 <= j < k ==> counter[j] != '/');
        assert(f == k) by {
            if f < k {
                assert(counter[f] != '/');
            } else if f > k {
                assert(counter[k] != '/');
            }
        }
    }
}

/// Every count is read back from a counter that shows it: a counter made of
/// a text without `/`, then `/`, then blanks and the count in decimal, gives
/// that count.
pub proof fn lemma_page_count_of_counter(before: Seq<char>, n: usize)
    requires
        !before.contains('/'),
    ensures
        page_count(before + "/ "@ + decimal_digits(n as nat)) == Ok::<usize, PageCountError>(n),
{
    reveal_strlit("/ ");
    let d = decimal_digits(n as nat);
    let c = before + "/ "@ + d;
    let k = before.len() as int;
    assert(c[k] == '/');
    assert forall|j: int| 0 <= j < k implies c[j] != '/' by {
        assert(c[j] == before[j]);
        if c[j] == '/' {
            assert(before.contains('/'));
        }
    }
    lemma_page_count(c, k);
    assert(c.skip(k + 1) =~= seq![' '] + d);
    lemma_decimal_digits(n as nat);
    lemma_trimmed_digits(d);
    assert(trimmed(seq![' '] + d) == d) by {
        assert((seq![' '] + d).drop_first() =~= d);
        assert(trim_start(seq![' '] + d) == trim_start(d));
    }
    lemma_usize_value(n, d);
}

/// A non-empty digit string has nothing to trim.
proof fn lemma_trimmed_digits(d: Seq<char>)
    requires
        d.len() > 0,
        all_digits(d),
    ensures
        trim_start(d) == d,
        trim_end(d) == d,
{
    assert(is_digit(d[0]));
    assert(is_digit(d[d.len() - 1]));
}

/// Reads the number of result pages from the page counter text.
pub fn get_num_pages(pages_str: &str) -> (r: Result<usize, PageCountError>)
    ensures
        r == page_count(pages_str@),
        !pages_str@.contains('/') ==> r == Err::<usize, PageCountError>(PageCountError::NoSeparator),
        forall|k: int|
            0 <= k < pages_str@.len() && #[trigger] pages_str@[k] == '/' && (forall|j: int|
                0 <= j < k ==> pages_str@[j] != '/') ==> r == match usize_value(
                trimmed(pages_str@.skip(k + 1)),
            ) {
                Some(n) => Ok::<usize, PageCountError>(n),
                None => Err(PageCountError::NotANumber),
            },
{
    proof {
        assert forall|k: int|
            0 <= k < pages_str@.len() && #[trigger] pages_str@[k] == '/' && (forall|j: int|
                0 <= j < k ==> pages_str@[j] != '/') implies page_count(pages_str@) == match usize_value(
            trimmed(pages_str@.skip(k + 1)),
        ) {
            Some(n) => Ok::<usize, PageCountError>(n),
            None => Err(PageCountError::NotANumber),
        } by {
            lemma_page_count(pages_str@, k);
        }
        lemma_page_count(pages_str@, 0);
    }
    let v = chars_of(pages_str);
    match find_char(&v, '/') {
        None => Err(PageCountError::NoSeparator),
        Some(k) => {
            let rest = string_of_range(&v, k + 1, v.len());
            assert(rest@ =~= pages_str@.skip(k + 1));
            let t = trim(rest.as_str());
            match parse_usize(t.as_str()) {
                Some(n) => Ok(n),
                None => Err(PageCountError::NotANumber),
            }
        },
    }
}

/// The script that opens `link` in the current tab.
pub open spec fn open_link_script(link: Seq<char>) -> Seq<char> {
    "open('"@ + link + "', target='_self')"@
}

/// Script for `goto_link`: opens `link` in the current tab.
pub fn goto_link_script(link: &str) -> (r: String)
    ensures
        r@ == open_link_script(link@),
{
    let mut r = String::from_str("open('");
    r.append(link);
    r.append("', target='_self')");
    r
}

/// Where to scroll.
#[derive(Debug)]
pub enum Direction {
    /// The top of the page.
    Top,
    /// The bottom of the page.
    Bot,
    /// A given element; the element is scrolled into view by the driver.
    ToElement,
}

/// The script that `scroll_to` runs for `d` (empty for an element, which
/// is brought into view directly).
pub fn scroll_script(d: &Direction) -> (r: &'static str)
    ensures
        d is Top ==> r@ == "window.scrollTo(0, 0, { behavior: 'smooth' });"@,
        d is Bot ==> r@ == "window.scrollTo(0, document.body.scrollHeight, { behavior: 'smooth' });"@,
        d is ToElement ==> r@ == ""@,
{
    match d {
        Direction::Top => "window.scrollTo(0, 0, { behavior: 'smooth' });",
        Direction::Bot => "window.scrollTo(0, document.body.scrollHeight, { behavior: 'smooth' });",
        Direction::ToElement => "",
    }
}

/// A random pause length in seconds, drawn by `rand::random_range(2..=5)`.
/// Trusted: that it lies in `2..=5`, the range handed over; which value
/// comes is chance and is not stated.
#[verifier::external_body]
pub fn rnd() -> (r: u64)
    ensures
        2 <= r <= 5,
{
    random_range(2..=5)
}

} // verus!
