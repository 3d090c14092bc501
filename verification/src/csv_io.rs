//! CSV encoding and decoding in memory, done by the `csv` crate.
//!
//! Rows are lists of fields; the first row written is the header, and a
//! reader (with headers on, as `csv::Reader` has by default) gives back the
//! rows after it.
use std::collections::VecDeque;
use vstd::prelude::*;

verus! {

/// `csv::Error`.
#[verifier::external_type_specification]
#[verifier::external_body]
pub struct ExCsvError(csv::Error);

/// A `csv::Writer` into memory. (Verus does not take a declaration of
/// `csv::Writer` itself: its parameter is bound by `std::io::Write`.)
#[verifier::external_body]
pub struct CsvWriter {
    inner: csv::Writer<Vec<u8>>,
}

/// `csv::Reader`.
#[verifier::external_type_specification]
#[verifier::external_body]
#[verifier::reject_recursive_types(R)]
pub struct ExCsvReader<R>(csv::Reader<R>);

/// The rows a writer has been given so far, in order.
pub uninterp spec fn csv_written(w: CsvWriter) -> Seq<Seq<Seq<char>>>;

/// The bytes that a default `csv::Writer` produces for `rows`.
pub uninterp spec fn csv_bytes(rows: Seq<Seq<Seq<char>>>) -> Seq<u8>;

/// What a default `csv::Reader` (first line taken as the header) yields
/// from `bytes`: the records it returns before its first error, and whether
/// an error came after them.
pub uninterp spec fn csv_read(bytes: Seq<u8>) -> (Seq<Seq<Seq<char>>>, bool);

/// What a reader still has to yield, in the same form as `csv_read`.
pub uninterp spec fn csv_pending(r: csv::Reader<VecDeque<u8>>) -> (Seq<Seq<Seq<char>>>, bool);

/// Rows that come back unchanged through a CSV file: at least one row (the
/// header), all of the same non-zero length.
pub open spec fn uniform_rows(rows: Seq<Seq<Seq<char>>>) -> bool {
    &&& rows.len() >= 1
    &&& rows[0].len() >= 1
    &&& forall|i: int| 0 <= i < rows.len() ==> #[trigger] rows[i].len() == rows[0].len()
}

/// `csv::Writer::from_writer(Vec::new())`. Trusted: the new writer has been
/// given no rows.
#[verifier::external_body]
pub(crate) fn csv_writer() -> (w: CsvWriter)
    ensures
        csv_written(w) == Seq::<Seq<Seq<char>>>::empty(),
{
    CsvWriter { inner: csv::Writer::from_writer(Vec::new()) }
}

/// `csv::Writer::write_record` with the fields of `row`. The writer is not
/// flexible: a row of another length than the first one would fail and
/// leave a partial row behind, so such a row is not admitted. Trusted:
/// writing an admitted row into memory succeeds, and the writer has then
/// been given `row` as well.
#[verifier::external_body]
pub(crate) fn csv_write_record(w: &mut CsvWriter, row: &Vec<String>) -> (r: Result<
    (),
    csv::Error,
>)
    requires
        csv_written(*old(w)).len() == 0 || row.len() == csv_written(*old(w))[0].len(),
    ensures
        r is Ok,
        csv_written(*final(w)) == csv_written(*old(w)).push(row.deep_view()),
{
    w.inner.write_record(row)
}

/// `csv::Writer::into_inner`. Trusted: flushing into memory cannot fail,
/// and the bytes are `csv_bytes` of the rows the writer was given (every
/// write having been admitted by `csv_write_record`, none is partial).
#[verifier::external_body]
pub(crate) fn csv_into_bytes(w: CsvWriter) -> (r: Option<Vec<u8>>)
    ensures
        r is Some,
        r is Some ==> r->0@ == csv_bytes(csv_written(w)),
{
    match w.inner.into_inner() {
        Ok(v) => Some(v),
        Err(_) => None,
    }
}

/// `csv::Reader::from_reader` over a copy of `bytes`. Trusted: the reader
/// yields `csv_read(bytes)`; and bytes written for uniform rows read back as
/// those rows after the header, without error (what CSV quoting is for).
#[verifier::external_body]
pub(crate) fn csv_reader(bytes: &Vec<u8>) -> (r: csv::Reader<VecDeque<u8>>)
    ensures
        csv_pending(r) == csv_read(bytes@),
        forall|rows: Seq<Seq<Seq<char>>>|
            uniform_rows(rows) && #[trigger] csv_bytes(rows) == bytes@ ==> csv_pending(r) == (
            rows.drop_first(),
            false,
        ),
{
    csv::Reader::from_reader(VecDeque::from(bytes.clone()))
}

/// `csv::Reader::read_record`, with the record's fields copied out.
/// Trusted: the next pending record comes first; once none is left, the
/// pending error, if any, comes; then nothing.
#[verifier::external_body]
pub(crate) fn csv_next_record(r: &mut csv::Reader<VecDeque<u8>>) -> (out: Option<
    Result<Vec<String>, csv::Error>,
>)
    ensures
        csv_pending(*old(r)).0.len() > 0 ==> {
            &&& out matches Some(Ok(rec))
            &&& rec.deep_view() == csv_pending(*old(r)).0[0]
            &&& csv_pending(*final(r)) == (csv_pending(*old(r)).0.drop_first(), csv_pending(*old(r)).1)
        },
        csv_pending(*old(r)).0.len() == 0 && csv_pending(*old(r)).1 ==> out matches Some(Err(_)),
        csv_pending(*old(r)).0.len() == 0 && !csv_pending(*old(r)).1 ==> out is None,
{
    let mut record = csv::StringRecord::new();
    match r.read_record(&mut record) {
        Ok(true) => Some(Ok(record.iter().map(String::from).collect())),
        Ok(false) => None,
        Err(e) => Some(Err(e)),
    }
}

/// The CSV bytes for `rows` (header first).
pub fn encode_rows(rows: &Vec<Vec<String>>) -> (r: Vec<u8>)
    requires
        uniform_rows(rows.deep_view()),
    ensures
        r@ == csv_bytes(rows.deep_view()),
{
    let ghost rv = rows.deep_view();
    let mut w = csv_writer();
    let mut i: usize = 0;
    while i < rows.len()
        invariant
            i <= rows.len(),
            rv == rows.deep_view(),
            uniform_rows(rv),
            csv_written(w) == rv.take(i as int),
        decreases rows.len() - i,
    {
        assert(rows[i as int].deep_view() == rv[i as int]);
        assert(rows[i as int].len() == rv[i as int].len());
        if i > 0 {
            assert(csv_written(w)[0] == rv[0]);
        }
        let res = csv_write_record(&mut w, &rows[i]);
        match res {
            Ok(()) => {},
            Err(_) => {
                assert(false);
            },
        }
        assert(rv.take(i + 1) =~= rv.take(i as int).push(rv[i as int]));
        i += 1;
    }
    assert(rv.take(rows.len() as int) =~= rv);
    match csv_into_bytes(w) {
        Some(b) => b,
        None => Vec::new(),
    }
}

/// Decodes CSV bytes: the records after the header line that come before
/// the first error, and the first error if one came.
pub fn decode_records(bytes: &Vec<u8>) -> (r: (Vec<Vec<String>>, Option<csv::Error>))
    ensures
        r.0.deep_view() == csv_read(bytes@).0,
        r.1 is Some <==> csv_read(bytes@).1,
        forall|rows: Seq<Seq<Seq<char>>>|
            uniform_rows(rows) && #[trigger] csv_bytes(rows) == bytes@ ==> r.0.deep_view()
                == rows.drop_first() && r.1 is None,
{
    let mut rdr = csv_reader(bytes);
    let ghost all = csv_pending(rdr);
    assert forall|rows: Seq<Seq<Seq<char>>>|
        uniform_rows(rows) && #[trigger] csv_bytes(rows) == bytes@ implies all == (
        rows.drop_first(),
        false,
    ) by {}
    let mut out: Vec<Vec<String>> = Vec::new();
    loop
        invariant_except_break
            all == csv_read(bytes@),
            out.deep_view() + csv_pending(rdr).0 == all.0,
            csv_pending(rdr).1 == all.1,
            forall|rows: Seq<Seq<Seq<char>>>|
                uniform_rows(rows) && #[trigger] csv_bytes(rows) == bytes@ ==> all == (
                rows.drop_first(),
                false,
            ),
        ensures
            all == csv_read(bytes@),
            out.deep_view() == all.0,
            !all.1,
            forall|rows: Seq<Seq<Seq<char>>>|
                uniform_rows(rows) && #[trigger] csv_bytes(rows) == bytes@ ==> all == (
                rows.drop_first(),
                false,
            ),
        decreases csv_pending(rdr).0.len(),
    {
        let ghost before = csv_pending(rdr);
        match csv_next_record(&mut rdr) {
            Some(Ok(rec)) => {
                let ghost prev = out.deep_view();
                assert(prev.push(rec.deep_view()) + before.0.drop_first() =~= prev + before.0);
                out.push(rec);
                assert(out.deep_view() =~= prev.push(rec.deep_view()));
            },
            Some(Err(e)) => {
                assert(out.deep_view() + before.0 =~= out.deep_view());
                return (out, Some(e));
            },
            None => {
                assert(out.deep_view() + before.0 =~= out.deep_view());
                break ;
            },
        }
    }
    (out, None)
}

} // verus!
