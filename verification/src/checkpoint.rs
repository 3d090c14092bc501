//! The record of applied-for offers kept between runs: one CSV file per run
//! in a data directory, and the links read back from those files so that
//! an offer is not applied for twice.
use vstd::prelude::*;

use crate::csv_io::{csv_bytes, csv_read, decode_records, encode_rows, uniform_rows};
use crate::text::{replace_char, replaced};
use crate::wg::{offers_view, Wg, WgView};

verus! {

/// The header of a checkpoint file.
pub open spec fn header() -> Seq<Seq<char>> {
    seq!["price"@, "link"@, "address"@, "place"@, "from"@, "until"@]
}

/// The row of a checkpoint file for an offer.
pub open spec fn wg_row(w: WgView) -> Seq<Seq<char>> {
    seq![w.price, w.link, w.address, w.place, w.from, w.until]
}

/// The rows of a checkpoint file for `data`: the header, then one row per
/// offer in order.
pub open spec fn saved_rows(data: Seq<WgView>) -> Seq<Seq<Seq<char>>> {
    seq![header()] + data.map_values(|w: WgView| wg_row(w))
}

/// The content of the checkpoint file for `data`.
pub open spec fn saved_bytes(data: Seq<WgView>) -> Seq<u8> {
    csv_bytes(saved_rows(data))
}

/// Whether every record has a field at `col`.
pub open spec fn has_column(recs: Seq<Seq<Seq<char>>>, col: int) -> bool {
    forall|i: int| 0 <= i < recs.len() ==> col < #[trigger] recs[i].len()
}

/// The field at `col` of every record.
pub open spec fn column(recs: Seq<Seq<Seq<char>>>, col: int) -> Seq<Seq<char>> {
    recs.map_values(|r: Seq<Seq<char>>| r[col])
}

/// The path of a new checkpoint file: the directory path followed by the
/// time stamp and `.csv`, with spaces in the file name turned into `_`.
pub open spec fn checkpoint_path(dir: Seq<char>, timestamp: Seq<char>) -> Seq<char> {
    dir + replaced(timestamp + ".csv"@, ' ', '_')
}

/// The path of a checkpoint file keeps the directory path as it is and then
/// names the file after the time stamp, character by character with every
/// space turned into `_`, followed by `.csv`.
pub proof fn lemma_checkpoint_path(dir: Seq<char>, timestamp: Seq<char>)
    ensures
        checkpoint_path(dir, timestamp).len() == dir.len() + timestamp.len() + 4,
        checkpoint_path(dir, timestamp).take(dir.len() as int) == dir,
        forall|i: int|
            0 <= i < timestamp.len() ==> #[trigger] checkpoint_path(dir, timestamp)[dir.len() + i] == (
            if timestamp[i] == ' ' {
                '_'
            } else {
                timestamp[i]
            }),
        checkpoint_path(dir, timestamp).skip((dir.len() + timestamp.len()) as int) == ".csv"@,
{
    reveal_strlit(".csv");
    let name = timestamp + ".csv"@;
    let r = checkpoint_path(dir, timestamp);
    assert(r.take(dir.len() as int) =~= dir);
    assert forall|i: int| 0 <= i < timestamp.len() implies #[trigger] r[dir.len() + i] == (if timestamp[i]
        == ' ' {
        '_'
    } else {
        timestamp[i]
    }) by {
        assert(name[i] == timestamp[i]);
    }
    assert(r.skip((dir.len() + timestamp.len()) as int) =~= ".csv"@);
}

/// The rows of a checkpoint file, stated field by field: first the header
/// `price, link, address, place, from, until`, then for each offer in order
/// its price, link, address, place, from and until.
pub proof fn lemma_saved_rows(data: Seq<WgView>)
    ensures
        saved_rows(data).len() == data.len() + 1,
        saved_rows(data)[0] == seq!["price"@, "link"@, "address"@, "place"@, "from"@, "until"@],
        forall|i: int|
            0 <= i < data.len() ==> #[trigger] saved_rows(data)[i + 1] == seq![
                data[i].price,
                data[i].link,
                data[i].address,
                data[i].place,
                data[i].from,
                data[i].until,
            ],
{
    assert forall|i: int| 0 <= i < data.len() implies #[trigger] saved_rows(data)[i + 1] == seq![
        data[i].price,
        data[i].link,
        data[i].address,
        data[i].place,
        data[i].from,
        data[i].until,
    ] by {
        assert(saved_rows(data)[i + 1] == wg_row(data[i]));
    }
}

/// Why the links of a checkpoint file could not be read.
#[derive(Debug)]
pub enum LinkReadError {
    /// The file is not valid CSV at some record.
    Csv(csv::Error),
    /// A record has no field at the requested column; reading stops at it.
    MissingColumn,
}

/// The current local time as text (`chrono::Local::now().to_string()`).
/// Trusted for nothing: the text depends on the clock and the time zone.
#[verifier::external_body]
fn local_now() -> String {
    chrono::Local::now().to_string()
}

/// The path of a new checkpoint file in `dir_path` for the time stamp
/// `timestamp`.
pub fn init_path(dir_path: &str, timestamp: &str) -> (r: String)
    ensures
        r@ == checkpoint_path(dir_path@, timestamp@),
        r@.len() == dir_path@.len() + timestamp@.len() + 4,
        r@.take(dir_path@.len() as int) == dir_path@,
        forall|i: int|
            0 <= i < timestamp@.len() ==> #[trigger] r@[dir_path@.len() + i] == (if timestamp@[i] == ' ' {
                '_'
            } else {
                timestamp@[i]
            }),
        r@.skip((dir_path@.len() + timestamp@.len()) as int) == ".csv"@,
{
    proof {
        lemma_checkpoint_path(dir_path@, timestamp@);
    }
    let mut name = String::from_str(timestamp);
    name.append(".csv");
    let name = replace_char(name.as_str(), ' ', '_');
    let mut r = String::from_str(dir_path);
    r.append(name.as_str());
    r
}

/// The path of a new checkpoint file in `dir_path`, stamped with the current
/// local time.
pub fn init(dir_path: &str) -> (r: String)
    ensures
        exists|timestamp: Seq<char>| r@ == checkpoint_path(dir_path@, timestamp),
{
    let now = local_now();
    init_path(dir_path, now.as_str())
}

/// The row for one offer.
fn wg_record(w: &Wg) -> (r: Vec<String>)
    ensures
        r.deep_view() == wg_row(w@),
{
    let r = vec![w.price.clone(), w.link.clone(), w.address.clone(), w.place.clone(), w.from.clone(), w.until.clone()];
    assert(r.deep_view() =~= wg_row(w@));
    r
}

/// The rows of the checkpoint file for `data`: the header, then one row
/// per offer.
pub fn saved_records(data: &Vec<Wg>) -> (rows: Vec<Vec<String>>)
    ensures
        rows.deep_view() == saved_rows(offers_view(data@)),
{
    let ghost dv = offers_view(data@);
    let mut rows: Vec<Vec<String>> = Vec::new();
    let mut head: Vec<String> = Vec::new();
    head.push(String::from_str("price"));
    head.push(String::from_str("link"));
    head.push(String::from_str("address"));
    head.push(String::from_str("place"));
    head.push(String::from_str("from"));
    head.push(String::from_str("until"));
    assert(head.deep_view() =~= header());
    rows.push(head);
    assert(rows.deep_view() =~= seq![header()]);
    let mut i: usize = 0;
    while i < data.len()
        invariant
            i <= data.len(),
            dv == offers_view(data@),
            rows.deep_view() == saved_rows(dv.take(i as int)),
        decreases data.len() - i,
    {
        let ghost prev = rows.deep_view();
        let row = wg_record(&data[i]);
        rows.push(row);
        assert(rows.deep_view() =~= prev.push(wg_row(dv[i as int])));
        assert(saved_rows(dv.take(i + 1)) =~= saved_rows(dv.take(i as int)).push(wg_row(dv[i as int])));
        i += 1;
    }
    assert(dv.take(data.len() as int) =~= dv);
    rows
}

/// The content of the checkpoint file for `data`.
pub fn save(data: &Vec<Wg>) -> (r: Vec<u8>)
    ensures
        r@ == saved_bytes(offers_view(data@)),
{
    let rows = saved_records(data);
    proof {
        lemma_saved_rows_uniform(offers_view(data@));
    }
    encode_rows(&rows)
}

/// Checkpoint rows are uniform: six fields each, header included.
proof fn lemma_saved_rows_uniform(data: Seq<WgView>)
    ensures
        uniform_rows(saved_rows(data)),
        saved_rows(data).drop_first() == data.map_values(|w: WgView| wg_row(w)),
{
    let rows = saved_rows(data);
    assert forall|i: int| 0 <= i < rows.len() implies #[trigger] rows[i].len() == rows[0].len() by {
        if i > 0 {
            assert(rows[i] == wg_row(data[i - 1]));
        }
    }
    assert(rows.drop_first() =~= data.map_values(|w: WgView| wg_row(w)));
}

/// The field at `col_index` of every record of the checkpoint file whose
/// content is `bytes`, in order.
///
/// A file written by `save` for some offers gives back, at column 1, the
/// links of those offers, in order (and at each column below 6 the
/// corresponding field).
pub fn links_in_file(bytes: &Vec<u8>, col_index: usize) -> (r: Result<Vec<String>, LinkReadError>)
    ensures
        !has_column(csv_read(bytes@).0, col_index as int) <==> r matches Err(LinkReadError::MissingColumn),
        has_column(csv_read(bytes@).0, col_index as int) && csv_read(bytes@).1 <==> r matches Err(
            LinkReadError::Csv(_),
        ),
        has_column(csv_read(bytes@).0, col_index as int) && !csv_read(bytes@).1 <==> r is Ok,
        r is Ok ==> r->Ok_0.deep_view() == column(csv_read(bytes@).0, col_index as int),
        forall|data: Seq<WgView>|
            #[trigger] saved_bytes(data) == bytes@ && col_index < 6 ==> r is Ok && r->Ok_0.deep_view()
                == data.map_values(|w: WgView| wg_row(w)[col_index as int]),
        forall|data: Seq<WgView>|
            #[trigger] saved_bytes(data) == bytes@ && col_index == 1 ==> r is Ok && r->Ok_0.deep_view()
                == data.map_values(|w: WgView| w.link),
{
    let (recs, err) = decode_records(bytes);
    let r = links_of_records(&recs, err, col_index);
    proof {
        let rv = recs.deep_view();
        assert forall|data: Seq<WgView>|
            #[trigger] saved_bytes(data) == bytes@ && col_index < 6 implies r is Ok
            && r->Ok_0.deep_view() == data.map_values(|w: WgView| wg_row(w)[col_index as int]) by {
            lemma_saved_rows_uniform(data);
            assert(csv_bytes(saved_rows(data)) == bytes@);
            assert forall|i: int| 0 <= i < rv.len() implies col_index < #[trigger] rv[i].len() by {
                assert(rv[i] == wg_row(data[i]));
            }
            assert(column(rv, col_index as int) =~= data.map_values(
                |w: WgView| wg_row(w)[col_index as int],
            ));
        }
        assert forall|data: Seq<WgView>|
            #[trigger] saved_bytes(data) == bytes@ && col_index == 1 implies r is Ok && r->Ok_0.deep_view()
            == data.map_values(|w: WgView| w.link) by {
            assert(data.map_values(|w: WgView| wg_row(w)[col_index as int]) =~= data.map_values(
                |w: WgView| w.link,
            ));
        }
    }
    r
}

/// The field at `col_index` of every record of `recs`, given the records
/// a CSV reader returned and the error that stopped it, if any. A record
/// without that field comes first (reading stops at it); then
/// the error.
pub fn links_of_records(recs: &Vec<Vec<String>>, err: Option<csv::Error>, col_index: usize) -> (r:
    Result<Vec<String>, LinkReadError>)
    ensures
        !has_column(recs.deep_view(), col_index as int) <==> r matches Err(LinkReadError::MissingColumn),
        has_column(recs.deep_view(), col_index as int) && err is Some <==> r matches Err(
            LinkReadError::Csv(_),
        ),
        has_column(recs.deep_view(), col_index as int) && err is None <==> r is Ok,
        r is Ok ==> r->Ok_0.deep_view() == column(recs.deep_view(), col_index as int),
        r is Ok ==> r->Ok_0.len() == recs.len() && forall|i: int|
            0 <= i < recs.len() ==> #[trigger] r->Ok_0.deep_view()[i] == recs.deep_view()[i][col_index as int],
        r matches Err(LinkReadError::MissingColumn) <==> exists|i: int|
            0 <= i < recs.len() && #[trigger] recs.deep_view()[i].len() <= col_index,
{
    let ghost rv = recs.deep_view();
    let mut out: Vec<String> = Vec::new();
    let mut i: usize = 0;
    while i < recs.len()
        invariant
            i <= recs.len(),
            rv == recs.deep_view(),
            has_column(rv.take(i as int), col_index as int),
            out.deep_view() == column(rv.take(i as int), col_index as int),
        decreases recs.len() - i,
    {
        assert(recs[i as int].deep_view() == rv[i as int]);
        if col_index >= recs[i].len() {
            assert(!has_column(rv, col_index as int)) by {
                assert(!(col_index < rv[i as int].len()));
            }
            return Err(LinkReadError::MissingColumn);
        }
        let ghost prev = out.deep_view();
        out.push(recs[i][col_index].clone());
        assert(out.deep_view() =~= prev.push(rv[i as int][col_index as int]));
        assert(column(rv.take(i + 1), col_index as int) =~= column(rv.take(i as int), col_index as int).push(
            rv[i as int][col_index as int],
        ));
        assert forall|k: int| 0 <= k < i + 1 implies col_index < #[trigger] rv.take(i + 1)[k].len() by {
            if k < i {
                assert(rv.take(i + 1)[k] == rv.take(i as int)[k]);
            }
        }
        i += 1;
    }
    assert(rv.take(recs.len() as int) =~= rv);
    match err {
        Some(e) => Err(LinkReadError::Csv(e)),
        None => Ok(out),
    }
}

} // verus!
