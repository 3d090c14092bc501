//! The single-page overview: the columns read from every listing of a
//! result page, and the CSV file made of them.
use vstd::prelude::*;

use crate::csv_io::{csv_bytes, encode_rows, uniform_rows};
use crate::html::{first_attr, first_text, fragment_first_attr, fragment_first_text};
use crate::text::{decimal_digits, parse_usize, trim, trimmed, usize_to_string, usize_value};

verus! {

/// The columns read from the listings of a result page; entry `i` of each
/// column belongs to listing `i`.
#[derive(Debug)]
pub struct Juice {
    /// Number of listings.
    pub size: usize,
    /// Prices.
    pub prices: Vec<usize>,
    /// Positions (region labels).
    pub positions: Vec<String>,
    /// Creation dates.
    pub dates: Vec<String>,
    /// Availability periods.
    pub periods: Vec<String>,
    /// Links to the detail pages.
    pub links: Vec<String>,
}

/// One listing of the overview.
pub struct EntryView {
    pub price: usize,
    pub position: Seq<char>,
    pub date: Seq<char>,
    pub period: Seq<char>,
    pub link: Seq<char>,
}

/// One listing of the overview, as read.
#[derive(Debug)]
pub struct Entry {
    pub price: usize,
    pub position: String,
    pub date: String,
    pub period: String,
    pub link: String,
}

impl View for Entry {
    type V = EntryView;

    open spec fn view(&self) -> EntryView {
        EntryView {
            price: self.price,
            position: self.position@,
            date: self.date@,
            period: self.period@,
            link: self.link@,
        }
    }
}

/// The entry made of what was found in a listing: the price text (trimmed
/// and read as a number), the position, date and period texts, and the
/// link. `None` when one of them is missing or the price is not a number.
pub open spec fn entry_of(
    cost: Option<Seq<char>>,
    position: Option<Seq<char>>,
    date: Option<Seq<char>>,
    period: Option<Seq<char>>,
    link: Option<Option<Seq<char>>>,
) -> Option<EntryView> {
    match (cost, position, date, period, link) {
        (Some(cost), Some(position), Some(date), Some(period), Some(Some(link))) => match usize_value(
            trimmed(cost),
        ) {
            Some(price) => Some(EntryView { price, position, date, period, link }),
            None => None,
        },
        _ => None,
    }
}

/// The entry read from the listing whose HTML is `html`: the text of
/// `span[class='cost']`, the texts of `span[class='thumbState']`,
/// `div.create-date.left-image-result strong` and `span[class='from-date']`,
/// and the `href` of the first `a`.
pub open spec fn listing_entry(html: Seq<char>) -> Option<EntryView> {
    entry_of(
        fragment_first_text(html, "span[class='cost']"@),
        fragment_first_text(html, "span[class='thumbState']"@),
        fragment_first_text(html, "div.create-date.left-image-result strong"@),
        fragment_first_text(html, "span[class='from-date']"@),
        fragment_first_attr(html, "a"@, "href"@),
    )
}

/// The view of an optional entry.
pub open spec fn entry_view(e: Option<Entry>) -> Option<EntryView> {
    match e {
        Some(x) => Some(x@),
        None => None,
    }
}

/// Makes the entry of a listing out of what was found in it (see
/// `entry_of`).
pub fn read_entry(
    cost: Option<String>,
    position: Option<String>,
    date: Option<String>,
    period: Option<String>,
    link: Option<Option<String>>,
) -> (r: Option<Entry>)
    ensures
        entry_view(r) == entry_of(
            cost.deep_view(),
            position.deep_view(),
            date.deep_view(),
            period.deep_view(),
            link.deep_view(),
        ),
        r matches Some(e) ==> {
            &&& cost.deep_view() is Some
            &&& usize_value(trimmed(cost.deep_view()->0)) == Some(e.price)
            &&& position.deep_view() == Some(e.position@)
            &&& date.deep_view() == Some(e.date@)
            &&& period.deep_view() == Some(e.period@)
            &&& link.deep_view() == Some(Some(e.link@))
        },
        r is None <==> (cost is None || position is None || date is None || period is None || !(
        link matches Some(Some(_))) || usize_value(trimmed(cost.deep_view()->0)) is None),
{
    match (cost, position, date, period, link) {
        (Some(cost), Some(position), Some(date), Some(period), Some(Some(link))) => {
            let t = trim(cost.as_str());
            match parse_usize(t.as_str()) {
                Some(price) => Some(Entry { price, position, date, period, link }),
                None => None,
            }
        },
        _ => None,
    }
}

impl Juice {
    /// Every column has at least `size` entries (only the first `size`
    /// count).
    pub open spec fn wf(&self) -> bool {
        &&& self.size <= self.prices.len()
        &&& self.size <= self.positions.len()
        &&& self.size <= self.dates.len()
        &&& self.size <= self.periods.len()
        &&& self.size <= self.links.len()
    }

    /// Entry `i`.
    pub open spec fn entry(&self, i: int) -> EntryView {
        EntryView {
            price: self.prices@[i],
            position: self.positions@[i]@,
            date: self.dates@[i]@,
            period: self.periods@[i]@,
            link: self.links@[i]@,
        }
    }

    /// Reads every listing of a result page, given as its HTML, in order.
    /// `None` exactly when some listing lacks one of the columns or its
    /// price is not a number; reading stops at that listing.
    pub fn extract(listings: &Vec<String>) -> (r: Option<Juice>)
        ensures
            r is Some <==> forall|i: int|
                0 <= i < listings.len() ==> #[trigger] listing_entry(listings@[i]@) is Some,
            r matches Some(j) ==> {
                &&& j.wf()
                &&& j.size == listings.len()
                &&& j.prices.len() == j.size
                &&& j.positions.len() == j.size
                &&& j.dates.len() == j.size
                &&& j.periods.len() == j.size
                &&& j.links.len() == j.size
                &&& forall|i: int|
                    0 <= i < listings.len() ==> Some(#[trigger] j.entry(i)) == listing_entry(
                        listings@[i]@,
                    )
            },
    {
        let mut j = Juice {
            size: listings.len(),
            prices: Vec::new(),
            positions: Vec::new(),
            dates: Vec::new(),
            periods: Vec::new(),
            links: Vec::new(),
        };
        let mut i: usize = 0;
        while i < listings.len()
            invariant
                i <= listings.len(),
                j.size == listings.len(),
                j.prices.len() == i,
                j.positions.len() == i,
                j.dates.len() == i,
                j.periods.len() == i,
                j.links.len() == i,
                forall|k: int| 0 <= k < i ==> Some(#[trigger] j.entry(k)) == listing_entry(listings@[k]@),
            decreases listings.len() - i,
        {
            let html = listings[i].as_str();
            let entry = read_entry(
                first_text(html, "span[class='cost']"),
                first_text(html, "span[class='thumbState']"),
                first_text(html, "div.create-date.left-image-result strong"),
                first_text(html, "span[class='from-date']"),
                first_attr(html, "a", "href"),
            );
            match entry {
                Some(e) => {
                    let ghost oj = j;
                    j.prices.push(e.price);
                    j.positions.push(e.position);
                    j.dates.push(e.date);
                    j.periods.push(e.period);
                    j.links.push(e.link);
                    assert forall|k: int| 0 <= k < i + 1 implies Some(#[trigger] j.entry(k))
                        == listing_entry(listings@[k]@) by {
                        if k < i {
                            assert(j.entry(k) == oj.entry(k));
                        }
                    }
                },
                None => {
                    assert(listing_entry(listings@[i as int]@) is None);
                    return None;
                },
            }
            i += 1;
        }
        assert forall|k: int| 0 <= k < listings.len() implies #[trigger] listing_entry(
            listings@[k]@,
        ) is Some by {
            assert(Some(j.entry(k)) == listing_entry(listings@[k]@));
        }
        Some(j)
    }
}

/// The header of the overview file.
pub open spec fn juice_header() -> Seq<Seq<char>> {
    seq!["price"@, "position"@, "date"@, "period"@, "link"@]
}

/// The row of the overview file for an entry: the price in decimal, then
/// the texts.
pub open spec fn entry_row(e: EntryView) -> Seq<Seq<char>> {
    seq![decimal_digits(e.price as nat), e.position, e.date, e.period, e.link]
}

/// The rows for all entries of `j`, in order.
pub open spec fn juice_rows(j: Juice) -> Seq<Seq<Seq<char>>> {
    Seq::new(j.size as nat, |i: int| entry_row(j.entry(i)))
}

/// The rows for all entries of all of `js`, one `Juice` after the other.
pub open spec fn all_juice_rows(js: Seq<Juice>) -> Seq<Seq<Seq<char>>>
    decreases js.len(),
{
    if js.len() == 0 {
        Seq::empty()
    } else {
        all_juice_rows(js.drop_last()) + juice_rows(js.last())
    }
}

/// The rows of the overview file for `data`: the header, then one row per
/// entry.
pub fn overview_rows(data: &Vec<Juice>) -> (rows: Vec<Vec<String>>)
    requires
        forall|k: int| 0 <= k < data.len() ==> #[trigger] data@[k].wf(),
    ensures
        rows.deep_view() == seq![juice_header()] + all_juice_rows(data@),
        rows.deep_view()[0] == seq!["price"@, "position"@, "date"@, "period"@, "link"@],
        rows.len() == 1 + entries_before(data@, data.len() as int),
        forall|k: int, i: int|
            0 <= k < data.len() && 0 <= i < data@[k].size ==> #[trigger] rows.deep_view()[1
                + entries_before(data@, k) + i] == seq![
                decimal_digits(data@[k].prices@[i] as nat),
                data@[k].positions@[i]@,
                data@[k].dates@[i]@,
                data@[k].periods@[i]@,
                data@[k].links@[i]@,
            ],
{
    let mut rows: Vec<Vec<String>> = Vec::new();
    let mut head: Vec<String> = Vec::new();
    head.push(String::from_str("price"));
    head.push(String::from_str("position"));
    head.push(String::from_str("date"));
    head.push(String::from_str("period"));
    head.push(String::from_str("link"));
    assert(head.deep_view() =~= juice_header());
    rows.push(head);
    assert(rows.deep_view() =~= seq![juice_header()] + all_juice_rows(data@.take(0)));
    let mut k: usize = 0;
    while k < data.len()
        invariant
            k <= data.len(),
            forall|t: int| 0 <= t < data.len() ==> #[trigger] data@[t].wf(),
            rows.deep_view() == seq![juice_header()] + all_juice_rows(data@.take(k as int)),
        decreases data.len() - k,
    {
        let juice = &data[k];
        assert(juice.wf());
        let ghost base = rows.deep_view();
        let mut i: usize = 0;
        while i < juice.size
            invariant
                i <= juice.size,
                juice.wf(),
                rows.deep_view() == base + juice_rows(*juice).take(i as int),
            decreases juice.size - i,
        {
            let mut row: Vec<String> = Vec::new();
            row.push(usize_to_string(juice.prices[i]));
            row.push(juice.positions[i].clone());
            row.push(juice.dates[i].clone());
            row.push(juice.periods[i].clone());
            row.push(juice.links[i].clone());
            assert(row.deep_view() =~= entry_row(juice.entry(i as int)));
            let ghost prev = rows.deep_view();
            rows.push(row);
            assert(rows.deep_view() =~= prev.push(entry_row(juice.entry(i as int))));
            assert(juice_rows(*juice).take(i + 1) =~= juice_rows(*juice).take(i as int).push(
                entry_row(juice.entry(i as int)),
            ));
            i += 1;
        }
        assert(juice_rows(*juice).take(juice.size as int) =~= juice_rows(*juice));
        assert(data@.take(k + 1).drop_last() =~= data@.take(k as int));
        assert(rows.deep_view() =~= seq![juice_header()] + all_juice_rows(data@.take(k + 1)));
        k += 1;
    }
    assert(data@.take(data.len() as int) =~= data@);
    proof {
        lemma_overview_entries(data@);
        let h = seq![juice_header()];
        let a = all_juice_rows(data@);
        assert forall|k: int, i: int|
            0 <= k < data.len() && 0 <= i < data@[k].size implies #[trigger] rows.deep_view()[1
            + entries_before(data@, k) + i] == seq![
            decimal_digits(data@[k].prices@[i] as nat),
            data@[k].positions@[i]@,
            data@[k].dates@[i]@,
            data@[k].periods@[i]@,
            data@[k].links@[i]@,
        ] by {
            assert(a[entries_before(data@, k) + i] == seq![
                decimal_digits(data@[k].prices@[i] as nat),
                data@[k].positions@[i]@,
                data@[k].dates@[i]@,
                data@[k].periods@[i]@,
                data@[k].links@[i]@,
            ]);
            lemma_entries_before_monotone(data@, k, data.len() as int);
            assert((h + a)[1 + entries_before(data@, k) + i] == a[entries_before(data@, k) + i]);
        }
    }
    rows
}

/// The content of the overview file for `data`: the header, then one row
/// per entry.
pub fn write_to_csv(data: &Vec<Juice>) -> (r: Vec<u8>)
    requires
        forall|k: int| 0 <= k < data.len() ==> #[trigger] data@[k].wf(),
    ensures
        r@ == csv_bytes(seq![juice_header()] + all_juice_rows(data@)),
{
    let rows = overview_rows(data);
    proof {
        lemma_juice_rows_uniform(data@);
    }
    encode_rows(&rows)
}

/// The number of entries written for the first `k` elements of `js`.
pub open spec fn entries_before(js: Seq<Juice>, k: int) -> int
    decreases k,
{
    if k <= 0 {
        0
    } else {
        entries_before(js, k - 1) + js[k - 1].size
    }
}

proof fn lemma_entries_before_prefix(js: Seq<Juice>, k: int)
    requires
        0 <= k < js.len(),
    ensures
        entries_before(js.drop_last(), k) == entries_before(js, k),
    decreases k,
{
    if k > 0 {
        lemma_entries_before_prefix(js, k - 1);
    }
}

proof fn lemma_entries_before_monotone(js: Seq<Juice>, k: int, l: int)
    requires
        0 <= k <= l <= js.len(),
    ensures
        k < l ==> entries_before(js, k) + js[k].size <= entries_before(js, l),
        entries_before(js, k) <= entries_before(js, l),
        0 <= entries_before(js, k),
    decreases l,
{
    if k < l {
        lemma_entries_before_monotone(js, k, l - 1);
    } else if k > 0 {
        lemma_entries_before_monotone(js, k - 1, k - 1);
    }
}

/// What the overview holds, entry by entry: the rows for `js` are the
/// entries of each `Juice` in turn, and the row for entry `i` of element
/// `k` (counting only the first `size` entries of each) is its price in
/// decimal followed by its position, date, period and link.
pub proof fn lemma_overview_entries(js: Seq<Juice>)
    ensures
        all_juice_rows(js).len() == entries_before(js, js.len() as int),
        forall|k: int, i: int|
            0 <= k < js.len() && 0 <= i < js[k].size ==> #[trigger] all_juice_rows(js)[entries_before(
                js,
                k,
            ) + i] == seq![
                decimal_digits(js[k].prices@[i] as nat),
                js[k].positions@[i]@,
                js[k].dates@[i]@,
                js[k].periods@[i]@,
                js[k].links@[i]@,
            ],
    decreases js.len(),
{
    if js.len() > 0 {
        let init = js.drop_last();
        lemma_overview_entries(init);
        let a = all_juice_rows(init);
        let b = juice_rows(js.last());
        assert(all_juice_rows(js) == a + b);
        lemma_entries_before_prefix(js, init.len() as int);
        assert forall|k: int, i: int|
            0 <= k < js.len() && 0 <= i < js[k].size implies #[trigger] all_juice_rows(js)[entries_before(
            js,
            k,
        ) + i] == seq![
            decimal_digits(js[k].prices@[i] as nat),
            js[k].positions@[i]@,
            js[k].dates@[i]@,
            js[k].periods@[i]@,
            js[k].links@[i]@,
        ] by {
            if k < init.len() {
                lemma_entries_before_prefix(js, k);
                lemma_entries_before_monotone(init, k, init.len() as int);
                assert(init[k] == js[k]);
                assert(entries_before(init, k) + i < a.len());
                assert((a + b)[entries_before(js, k) + i] == a[entries_before(init, k) + i]);
            } else {
                assert(k == init.len());
                assert((a + b)[entries_before(js, k) + i] == b[i]);
            }
        }
    }
}

/// Writing the entries of two lists of `Juice` one after the other gives the
/// rows of the first followed by the rows of the second.
pub proof fn lemma_all_juice_rows_concat(a: Seq<Juice>, b: Seq<Juice>)
    ensures
        all_juice_rows(a + b) == all_juice_rows(a) + all_juice_rows(b),
    decreases b.len(),
{
    if b.len() == 0 {
        assert(a + b =~= a);
        assert(all_juice_rows(a) + all_juice_rows(b) =~= all_juice_rows(a));
    } else {
        lemma_all_juice_rows_concat(a, b.drop_last());
        assert((a + b).drop_last() =~= a + b.drop_last());
        assert((a + b).last() == b.last());
        assert(all_juice_rows(a + b) =~= all_juice_rows(a) + all_juice_rows(b));
    }
}

/// Overview rows are uniform: five fields each, header included.
proof fn lemma_juice_rows_uniform(js: Seq<Juice>)
    ensures
        uniform_rows(seq![juice_header()] + all_juice_rows(js)),
{
    lemma_all_juice_rows_len(js);
    let rows = seq![juice_header()] + all_juice_rows(js);
    assert forall|i: int| 0 <= i < rows.len() implies #[trigger] rows[i].len() == rows[0].len() by {
        if i > 0 {
            assert(rows[i] == all_juice_rows(js)[i - 1]);
        }
    }
}

proof fn lemma_all_juice_rows_len(js: Seq<Juice>)
    ensures
        forall|i: int| 0 <= i < all_juice_rows(js).len() ==> #[trigger] all_juice_rows(js)[i].len() == 5,
    decreases js.len(),
{
    if js.len() > 0 {
        lemma_all_juice_rows_len(js.drop_last());
        let a = all_juice_rows(js.drop_last());
        let b = juice_rows(js.last());
        assert forall|i: int| 0 <= i < (a + b).len() implies #[trigger] (a + b)[i].len() == 5 by {
            if i >= a.len() {
                assert((a + b)[i] == b[i - a.len()]);
            }
        }
    }
}

/// The path of the overview file in `dir_path` for the time stamp
/// `timestamp`: the directory path, the time stamp and `.csv`.
pub open spec fn data_file_path(dir: Seq<char>, timestamp: Seq<char>) -> Seq<char> {
    dir + timestamp + ".csv"@
}

/// The path of an overview file is the directory path, then the time stamp
/// unchanged, then `.csv`.
pub proof fn lemma_data_file_path(dir: Seq<char>, timestamp: Seq<char>)
    ensures
        data_file_path(dir, timestamp).take(dir.len() as int) == dir,
        data_file_path(dir, timestamp).subrange(dir.len() as int, (dir.len() + timestamp.len()) as int)
            == timestamp,
        data_file_path(dir, timestamp).skip((dir.len() + timestamp.len()) as int) == ".csv"@,
{
    let r = data_file_path(dir, timestamp);
    assert(r.take(dir.len() as int) =~= dir);
    assert(r.subrange(dir.len() as int, (dir.len() + timestamp.len()) as int) =~= timestamp);
    assert(r.skip((dir.len() + timestamp.len()) as int) =~= ".csv"@);
}

/// The current UTC time as text (`chrono::Utc::now().to_string()`).
/// Trusted for nothing: the text depends on the clock.
#[verifier::external_body]
fn utc_now() -> String {
    chrono::Utc::now().to_string()
}

/// The path of the overview file in `dir_path` for `timestamp`.
pub fn handle_files_path(dir_path: &str, timestamp: &str) -> (r: String)
    ensures
        r@ == data_file_path(dir_path@, timestamp@),
        r@.take(dir_path@.len() as int) == dir_path@,
        r@.subrange(dir_path@.len() as int, (dir_path@.len() + timestamp@.len()) as int) == timestamp@,
        r@.skip((dir_path@.len() + timestamp@.len()) as int) == ".csv"@,
{
    proof {
        lemma_data_file_path(dir_path@, timestamp@);
    }
    let mut r = String::from_str(dir_path);
    r.append(timestamp);
    r.append(".csv");
    r
}

/// The path of a new overview file in `dir_path`, stamped with the current
/// UTC time.
pub fn handle_files(dir_path: &str) -> (r: String)
    ensures
        exists|timestamp: Seq<char>| r@ == data_file_path(dir_path@, timestamp),
{
    let now = utc_now();
    handle_files_path(dir_path, now.as_str())
}

} // verus!
