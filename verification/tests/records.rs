use wgzimmer::checkpoint::{links_of_records, saved_records, LinkReadError};
use wgzimmer::scrape::{Scraper, SkipReason, Step};
use wgzimmer::wg::Wg;
use wgzimmer::wg_zimmer::{overview_rows, read_entry, write_to_csv, Juice};

fn s(x: &str) -> String {
    x.to_string()
}

#[test]
fn entry_from_found_texts() {
    let e = read_entry(Some(s(" 1200 ")), Some(s("Bern")), Some(s("02.02.2025")), Some(s("ab sofort")), Some(Some(s("/r/7")))).unwrap();
    assert_eq!((e.price, e.position.as_str(), e.link.as_str()), (1200, "Bern", "/r/7"));
    assert!(read_entry(Some(s("12 00")), Some(s("a")), Some(s("b")), Some(s("c")), Some(Some(s("d")))).is_none());
    assert!(read_entry(Some(s("1")), None, Some(s("b")), Some(s("c")), Some(Some(s("d")))).is_none());
    assert!(read_entry(Some(s("1")), Some(s("a")), Some(s("b")), Some(s("c")), Some(None)).is_none());
}

#[test]
fn rows_of_the_files() {
    let w = Wg { price: s("650"), link: s("/r/1"), address: s("A"), place: s("P"), from: s("F"), until: s("U") };
    let rows = saved_records(&vec![w]);
    assert_eq!(rows, vec![
        vec![s("price"), s("link"), s("address"), s("place"), s("from"), s("until")],
        vec![s("650"), s("/r/1"), s("A"), s("P"), s("F"), s("U")],
    ]);
    let j = Juice { size: 1, prices: vec![5], positions: vec![s("p")], dates: vec![s("d")], periods: vec![s("e")], links: vec![s("l")] };
    assert_eq!(overview_rows(&vec![j]), vec![
        vec![s("price"), s("position"), s("date"), s("period"), s("link")],
        vec![s("5"), s("p"), s("d"), s("e"), s("l")],
    ]);
}

#[test]
fn column_of_records() {
    let recs = vec![vec![s("1"), s("/a")], vec![s("2"), s("/b")]];
    assert_eq!(links_of_records(&recs, None, 1).unwrap(), vec![s("/a"), s("/b")]);
    assert!(matches!(links_of_records(&recs, None, 2), Err(LinkReadError::MissingColumn)));
    assert!(links_of_records(&vec![], None, 5).unwrap().is_empty());
}

#[test]
fn listing_by_price_and_link() {
    let mut sc = Scraper::new(vec![s("/seen")]);
    assert!(matches!(sc.step_listing(None, Some(s("/x"))), Step::MissingPrice));
    assert!(matches!(sc.step_listing(Some(s("1")), None), Step::MissingLink));
    assert!(matches!(sc.step_listing(Some(s("1")), Some(s("/seen"))), Step::Skip(SkipReason::AlreadyProcessed)));
    match sc.step_listing(Some(s("1")), Some(s("/new"))) {
        Step::OpenLink(l) => assert_eq!(l, "/new"),
        other => panic!("unexpected {:?}", other),
    }
}

fn juice(size: usize, n: usize) -> Juice {
    Juice {
        size,
        prices: (0..n).collect(),
        positions: (0..n).map(|i| format!("p{}", i)).collect(),
        dates: (0..n).map(|i| format!("d{}", i)).collect(),
        periods: (0..n).map(|i| format!("e{}", i)).collect(),
        links: (0..n).map(|i| format!("/l{}", i)).collect(),
    }
}

#[test]
fn overview_writes_only_the_first_size_entries() {
    let only_header = write_to_csv(&vec![Juice {
        size: 0,
        prices: vec![1],
        positions: vec![s("a")],
        dates: vec![s("b")],
        periods: vec![s("c")],
        links: vec![s("d")],
    }]);
    assert_eq!(String::from_utf8(only_header).unwrap(), "price,position,date,period,link\n");
    let partial = write_to_csv(&vec![juice(1, 3)]);
    assert_eq!(String::from_utf8(partial).unwrap(), "price,position,date,period,link\n0,p0,d0,e0,/l0\n");
}

#[test]
fn overview_of_concatenated_lists() {
    let a = vec![juice(2, 2)];
    let b = vec![juice(1, 3), juice(3, 3)];
    let ab: Vec<Juice> = vec![juice(2, 2), juice(1, 3), juice(3, 3)];
    let ra = overview_rows(&a);
    let rb = overview_rows(&b);
    let rab = overview_rows(&ab);
    let mut expected = ra.clone();
    expected.extend(rb[1..].iter().cloned());
    assert_eq!(rab, expected);
    assert_eq!(rab.len(), 1 + 2 + 1 + 3);
}
