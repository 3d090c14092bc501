use wgzimmer::checkpoint::{init_path, links_in_file, save, LinkReadError};
use wgzimmer::scrape::{page_total, Event, Scraper, SkipReason, Step};
use wgzimmer::utils::PageCountError;
use wgzimmer::wg::{DetailTexts, Wg};
use wgzimmer::wg_zimmer::{handle_files_path, write_to_csv, Juice};

fn listing(price: &str, link: &str) -> String {
    format!(
        "<li class=\"search-result-entry search-mate-entry\"><a href=\"{}\">x</a><span class=\"cost\"> {} </span></li>",
        link, price
    )
}

fn details(n: u32) -> DetailTexts {
    DetailTexts {
        from: format!("Ab dem  0{}.05.2025 ", n),
        until: "Bis\n Unbefristet".to_string(),
        place: format!("Ort Zürich Kreis {}", n),
        address: format!("Adresse\n Lang\nstrasse {}\n", n),
    }
}

fn wg(price: &str, link: &str, n: u32) -> Wg {
    Wg {
        price: price.to_string(),
        link: link.to_string(),
        address: format!("Langstrasse {}", n),
        place: format!("Zürich Kreis {}", n),
        from: format!("0{}.05.2025", n),
        until: "Unbefristet".to_string(),
    }
}

fn is_step(s: &Step, expected: &Step) -> bool {
    match (s, expected) {
        (Step::OpenLink(a), Step::OpenLink(b)) => a == b,
        (Step::Skip(a), Step::Skip(b)) => a == b,
        (Step::MissingPrice, Step::MissingPrice)
        | (Step::MissingLink, Step::MissingLink)
        | (Step::ExtractInfo, Step::ExtractInfo)
        | (Step::SendApplication, Step::SendApplication)
        | (Step::BackToList, Step::BackToList)
        | (Step::NextListing, Step::NextListing)
        | (Step::EndPage, Step::EndPage) => true,
        _ => false,
    }
}

#[test]
fn extract_info_cleans_the_detail_texts() {
    let w = Wg::extract_info(&"650".to_string(), &"/r/1".to_string(), &details(1));
    assert_eq!(w, wg("650", "/r/1", 1));
}

#[test]
fn one_listing_from_opening_to_going_back() {
    let mut s = Scraper::new(vec!["/old".to_string()]);
    assert_eq!(s.count(), 1);
    let r = s.step(Event::Listing(listing("650", "/r/1")));
    assert!(is_step(&r, &Step::OpenLink("/r/1".to_string())));
    assert!(is_step(&s.step(Event::LinkOpened(true)), &Step::ExtractInfo));
    assert!(is_step(&s.step(Event::InfoExtracted(Some(details(1)))), &Step::SendApplication));
    assert!(s.data().is_empty());
    assert!(is_step(&s.step(Event::ApplicationSent(true)), &Step::BackToList));
    assert_eq!(s.data(), &vec![wg("650", "/r/1", 1)]);
    assert_eq!(s.count(), 2);
    assert!(is_step(&s.step(Event::BackedToList(true)), &Step::NextListing));
    assert!(s.accepts(&Event::Listing(String::new())));
    assert!(!s.accepts(&Event::LinkOpened(true)));
}

#[test]
fn listings_that_are_skipped() {
    let mut s = Scraper::new(vec!["/old".to_string()]);
    assert!(is_step(&s.step(Event::Listing(listing("500", "/old"))), &Step::Skip(SkipReason::AlreadyProcessed)));
    s.step(Event::Listing(listing("500", "/r/2")));
    assert!(is_step(&s.step(Event::LinkOpened(false)), &Step::Skip(SkipReason::LinkNotOpened)));
    s.step(Event::Listing(listing("500", "/r/2")));
    s.step(Event::LinkOpened(true));
    assert!(is_step(&s.step(Event::InfoExtracted(None)), &Step::Skip(SkipReason::InfoNotExtracted)));
    s.step(Event::Listing(listing("500", "/r/2")));
    s.step(Event::LinkOpened(true));
    s.step(Event::InfoExtracted(Some(details(2))));
    assert!(is_step(&s.step(Event::ApplicationSent(false)), &Step::Skip(SkipReason::NotApplied)));
    assert!(s.data().is_empty());
    assert_eq!(s.count(), 1);
}

#[test]
fn duplicate_offer_is_not_applied_for_twice() {
    let mut s = Scraper::new(vec![]);
    for expected_len in [1usize, 1] {
        s.step(Event::Listing(listing("700", "/r/3")));
        s.step(Event::LinkOpened(true));
        let r = s.step(Event::InfoExtracted(Some(details(3))));
        if s.data().is_empty() {
            assert!(is_step(&r, &Step::SendApplication));
            s.step(Event::ApplicationSent(true));
            s.step(Event::BackedToList(true));
        } else {
            assert!(is_step(&r, &Step::Skip(SkipReason::Duplicate)));
        }
        assert_eq!(s.data().len(), expected_len);
    }
}

#[test]
fn failing_to_go_back_ends_the_page_and_a_new_page_resets_the_counter() {
    let mut s = Scraper::new(vec![]);
    s.step(Event::Listing(listing("400", "/r/4")));
    s.step(Event::LinkOpened(true));
    s.step(Event::InfoExtracted(Some(details(4))));
    s.step(Event::ApplicationSent(true));
    assert_eq!(s.count(), 2);
    assert!(is_step(&s.step(Event::BackedToList(false)), &Step::EndPage));
    s.begin_page();
    assert_eq!(s.count(), 1);
    assert_eq!(s.into_data(), vec![wg("400", "/r/4", 4)]);
}

#[test]
fn listing_without_price_or_link_stops() {
    let mut s = Scraper::new(vec![]);
    assert!(is_step(&s.step(Event::Listing("<li><a href=\"/r\">x</a></li>".to_string())), &Step::MissingPrice));
    assert!(is_step(
        &s.step(Event::Listing("<li><span class=\"cost\">5</span></li>".to_string())),
        &Step::MissingLink
    ));
}

#[test]
fn number_of_pages() {
    assert_eq!(page_total(None), Ok(1));
    assert_eq!(page_total(Some("1 / 7")), Ok(7));
    assert_eq!(page_total(Some("7")), Err(PageCountError::NoSeparator));
}

#[test]
fn checkpoint_path_and_file() {
    assert_eq!(
        init_path("data/", "2025-05-01 12:00:00.123 +02:00"),
        "data/2025-05-01_12:00:00.123_+02:00.csv"
    );
    let data = vec![wg("650", "/r/1", 1), wg("7,00", "/r/\"2\"\n", 2)];
    let bytes = save(&data);
    let text = String::from_utf8(bytes.clone()).unwrap();
    assert!(text.starts_with("price,link,address,place,from,until\n650,/r/1,"));
    let links = links_in_file(&bytes, 1).unwrap();
    assert_eq!(links, vec!["/r/1".to_string(), "/r/\"2\"\n".to_string()]);
    let prices = links_in_file(&bytes, 0).unwrap();
    assert_eq!(prices, vec!["650".to_string(), "7,00".to_string()]);
    assert!(matches!(links_in_file(&bytes, 6), Err(LinkReadError::MissingColumn)));
    assert!(links_in_file(&save(&vec![]), 9).unwrap().is_empty());
}

#[test]
fn checkpoint_read_errors() {
    let uneven = b"price,link\n1,/a\n2\n".to_vec();
    assert!(matches!(links_in_file(&uneven, 1), Err(LinkReadError::Csv(_))));
    let bad_utf8 = b"price,link\n1,\xff\n".to_vec();
    assert!(matches!(links_in_file(&bad_utf8, 0), Err(LinkReadError::Csv(_))));
    let short = b"price\n1\n".to_vec();
    assert!(matches!(links_in_file(&short, 1), Err(LinkReadError::MissingColumn)));
}

#[test]
fn overview_of_a_page() {
    let html = "<li><a href=\"/r/9\">x</a><span class=\"cost\"> 800 </span><span class=\"thumbState\">Zürich</span><div class=\"create-date left-image-result\"><strong>01.04.2025</strong></div><span class=\"from-date\">ab 01.05.2025</span></li>".to_string();
    let j = Juice::extract(&vec![html.clone(), html]).unwrap();
    assert_eq!(j.size, 2);
    assert_eq!(j.prices, vec![800, 800]);
    assert_eq!(j.positions[0], "Zürich");
    assert_eq!(j.dates[1], "01.04.2025");
    assert_eq!(j.periods[0], "ab 01.05.2025");
    assert_eq!(j.links[1], "/r/9");
    let bytes = write_to_csv(&vec![j]);
    assert_eq!(
        String::from_utf8(bytes).unwrap(),
        "price,position,date,period,link\n800,Zürich,01.04.2025,ab 01.05.2025,/r/9\n800,Zürich,01.04.2025,ab 01.05.2025,/r/9\n"
    );
    let no_price = "<li><a href=\"/r/9\">x</a><span class=\"cost\">n/a</span><span class=\"thumbState\">a</span><div class=\"create-date left-image-result\"><strong>b</strong></div><span class=\"from-date\">c</span></li>".to_string();
    assert!(Juice::extract(&vec![no_price]).is_none());
    assert_eq!(handle_files_path("data/", "2025-05-01 10:00:00 UTC"), "data/2025-05-01 10:00:00 UTC.csv");
}

#[test]
fn offers_from_a_checkpoint_are_not_applied_for_again() {
    let earlier = vec![wg("650", "/r/1", 1), wg("700", "/r/3", 3)];
    let links = links_in_file(&save(&earlier), 1).unwrap();
    let mut s = Scraper::new(links);
    for (price, link) in [("650", "/r/1"), ("700", "/r/3")] {
        assert!(is_step(
            &s.step(Event::Listing(listing(price, link))),
            &Step::Skip(SkipReason::AlreadyProcessed)
        ));
    }
    assert!(is_step(&s.step(Event::Listing(listing("650", "/r/5"))), &Step::OpenLink("/r/5".to_string())));
    assert!(s.data().is_empty());
}

#[test]
fn one_offer_per_sent_application_over_a_page() {
    let mut s = Scraper::new(vec!["/old".to_string()]);
    let mut sent = 0;
    let listings = [("1", "/old"), ("2", "/r/1"), ("3", "/r/2"), ("2", "/r/1"), ("5", "/r/3")];
    for (k, (price, link)) in listings.iter().enumerate() {
        let mut step = s.step(Event::Listing(listing(price, link)));
        loop {
            let ev = match step {
                Step::OpenLink(_) => Event::LinkOpened(true),
                Step::ExtractInfo => Event::InfoExtracted(Some(details(if *link == "/r/1" { 1 } else { k as u32 }))),
                Step::SendApplication => {
                    let ok = *link != "/r/2";
                    if ok {
                        sent += 1;
                    }
                    Event::ApplicationSent(ok)
                }
                Step::BackToList => Event::BackedToList(true),
                _ => break,
            };
            step = s.step(ev);
        }
    }
    assert_eq!(s.data().len(), sent);
    assert_eq!(sent, 2);
    assert_eq!(s.count(), 3);
    assert!(s.data().iter().all(|w| w.link != "/old"));
    assert_ne!(s.data()[0], s.data()[1]);
}
