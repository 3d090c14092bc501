//! A flat-share offer and the decisions taken while going through a page
//! of search results.
use vstd::prelude::*;

use crate::text::{remove_char, strip_prefixes, trim, trim_start_matches, trimmed, without_char};

verus! {

/// A flat-share offer: its price, its link and what its detail page says.
#[derive(Debug)]
pub struct Wg {
    /// The price as shown in the listing.
    pub price: String,
    /// Link to the detail page.
    pub link: String,
    /// Street address.
    pub address: String,
    /// Place (town and district).
    pub place: String,
    /// Available from.
    pub from: String,
    /// Available until.
    pub until: String,
}

/// The content of a `Wg`.
pub struct WgView {
    pub price: Seq<char>,
    pub link: Seq<char>,
    pub address: Seq<char>,
    pub place: Seq<char>,
    pub from: Seq<char>,
    pub until: Seq<char>,
}

impl View for Wg {
    type V = WgView;

    open spec fn view(&self) -> WgView {
        WgView {
            price: self.price@,
            link: self.link@,
            address: self.address@,
            place: self.place@,
            from: self.from@,
            until: self.until@,
        }
    }
}

impl PartialEq for Wg {
    fn eq(&self, other: &Wg) -> (r: bool) {
        self.price == other.price && self.link == other.link && self.address == other.address
            && self.place == other.place && self.from == other.from && self.until == other.until
    }
}

impl vstd::std_specs::cmp::PartialEqSpecImpl for Wg {
    open spec fn obeys_eq_spec() -> bool {
        true
    }

    open spec fn eq_spec(&self, other: &Wg) -> bool {
        self@ == other@
    }
}

impl Eq for Wg {

}

/// The raw texts of an offer's detail page: the two paragraphs of the date
/// box and the two of the address box, as the browser reports them.
#[derive(Debug)]
pub struct DetailTexts {
    /// First date paragraph, such as `"Ab dem 01.05.2025"`.
    pub from: String,
    /// Second date paragraph, such as `"Bis Unbefristet"`.
    pub until: String,
    /// First address paragraph, such as `"Ort Zürich Kreis 4"`.
    pub place: String,
    /// Second address paragraph, such as `"Adresse Langstrasse 1"`.
    pub address: String,
}

/// The content of `DetailTexts`.
pub struct DetailView {
    pub from: Seq<char>,
    pub until: Seq<char>,
    pub place: Seq<char>,
    pub address: Seq<char>,
}

impl View for DetailTexts {
    type V = DetailView;

    open spec fn view(&self) -> DetailView {
        DetailView { from: self.from@, until: self.until@, place: self.place@, address: self.address@ }
    }
}

/// A date paragraph without its label and surrounding white space.
pub open spec fn clean_date(raw: Seq<char>, label: Seq<char>) -> Seq<char> {
    trimmed(strip_prefixes(raw, label))
}

/// An address paragraph without its label, surrounding white space and
/// line breaks.
pub open spec fn clean_address(raw: Seq<char>, label: Seq<char>) -> Seq<char> {
    without_char(trimmed(strip_prefixes(raw, label)), '\n')
}

/// The offer with the given price and link whose detail page shows
/// `details`.
pub open spec fn offer(price: Seq<char>, link: Seq<char>, details: DetailView) -> WgView {
    WgView {
        price: price,
        link: link,
        address: clean_address(details.address, "Adresse"@),
        place: clean_address(details.place, "Ort"@),
        from: clean_date(details.from, "Ab dem"@),
        until: clean_date(details.until, "Bis"@),
    }
}

/// The fields of an extracted offer, stated on the raw texts: price and
/// link as listed; the address and the place without every leading
/// "Adresse" / "Ort", trimmed, without line breaks; the dates without every
/// leading "Ab dem" / "Bis", trimmed.
pub proof fn lemma_offer_fields(price: Seq<char>, link: Seq<char>, d: DetailView)
    ensures
        offer(price, link, d).price == price,
        offer(price, link, d).link == link,
        offer(price, link, d).address == without_char(trimmed(strip_prefixes(d.address, "Adresse"@)), '\n'),
        offer(price, link, d).place == without_char(trimmed(strip_prefixes(d.place, "Ort"@)), '\n'),
        offer(price, link, d).from == trimmed(strip_prefixes(d.from, "Ab dem"@)),
        offer(price, link, d).until == trimmed(strip_prefixes(d.until, "Bis"@)),
{
}

impl Wg {
    /// The offer listed with `price` and `link` whose detail page shows
    /// `details`: labels ("Ab dem", "Bis", "Adresse", "Ort") and surrounding
    /// white space are removed, and line breaks inside the address fields.
    pub fn extract_info(price: &String, link: &String, details: &DetailTexts) -> (r: Wg)
        ensures
            r@ == offer(price@, link@, details@),
            r.price@ == price@,
            r.link@ == link@,
            r.address@ == without_char(trimmed(strip_prefixes(details.address@, "Adresse"@)), '\n'),
            r.place@ == without_char(trimmed(strip_prefixes(details.place@, "Ort"@)), '\n'),
            r.from@ == trimmed(strip_prefixes(details.from@, "Ab dem"@)),
            r.until@ == trimmed(strip_prefixes(details.until@, "Bis"@)),
    {
        let from = trim_start_matches(details.from.as_str(), "Ab dem");
        let from = trim(from.as_str());
        let until = trim_start_matches(details.until.as_str(), "Bis");
        let until = trim(until.as_str());
        let address = trim_start_matches(details.address.as_str(), "Adresse");
        let address = trim(address.as_str());
        let address = remove_char(address.as_str(), '\n');
        let place = trim_start_matches(details.place.as_str(), "Ort");
        let place = trim(place.as_str());
        let place = remove_char(place.as_str(), '\n');
        Wg { price: price.clone(), link: link.clone(), address, place, from, until }
    }
}

/// The views of a list of offers.
pub open spec fn offers_view(v: Seq<Wg>) -> Seq<WgView> {
    v.map_values(|w: Wg| w@)
}

/// Whether `data` holds an offer equal to `wg`.
pub fn contains_wg(data: &Vec<Wg>, wg: &Wg) -> (r: bool)
    ensures
        r == offers_view(data@).contains(wg@),
{
    let ghost views = offers_view(data@);
    let mut i: usize = 0;
    while i < data.len()
        invariant
            i <= data.len(),
            views == offers_view(data@),
            forall|j: int| 0 <= j < i ==> views[j] != wg@,
        decreases data.len() - i,
    {
        if data[i] == *wg {
            assert(views[i as int] == wg@);
            return true;
        }
        i += 1;
    }
    false
}

} // verus!
