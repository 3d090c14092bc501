//! The search query and what setting it up in the page computes.
use vstd::arithmetic::power::pow;
use vstd::prelude::*;

use crate::text::{decimal_digits, usize_to_string};
use crate::utils::rnd;

verus! {

/// A search for shared flats: the rent range and the region.
#[derive(Debug)]
pub struct WGQuery {
    /// Lowest monthly rent.
    pub price_min: usize,
    /// Highest monthly rent.
    pub price_max: usize,
    /// Region key, such as `"zurich-stadt"`.
    pub wg_state: String,
}

/// The script that sets the form field matched by `selector` to `value` and
/// fires its `change` and `input` events.
pub open spec fn set_value_js(selector: Seq<char>, value: Seq<char>) -> Seq<char> {
    "var el = document.querySelector(\""@ + selector + "\");\n                 el.value = '"@ + value
        + "';\n                 el.dispatchEvent(new Event('change', { bubbles: true }));\n                 el.dispatchEvent(new Event('input', { bubbles: true }));"@
}

/// Builds the script that sets the form field matched by `selector` to
/// `value` and fires its `change` and `input` events.
pub fn set_value_script(selector: &str, value: &str) -> (r: String)
    ensures
        r@ == set_value_js(selector@, value@),
{
    let mut r = String::from_str("var el = document.querySelector(\"");
    r.append(selector);
    r.append("\");\n                 el.value = '");
    r.append(value);
    r.append(
        "';\n                 el.dispatchEvent(new Event('change', { bubbles: true }));\n                 el.dispatchEvent(new Event('input', { bubbles: true }));",
    );
    r
}

/// The CSS selector of the region shortcut for the region `state`.
pub open spec fn state_selector(state: Seq<char>) -> Seq<char> {
    "span[class='stateShortcut'][data-state='"@ + state + "']"@
}

impl WGQuery {
    /// Script that sets the lowest rent in the search form.
    pub fn price_min_script(&self) -> (r: String)
        ensures
            r@ == set_value_js("select[name='priceMin']"@, decimal_digits(self.price_min as nat)),
    {
        let v = usize_to_string(self.price_min);
        set_value_script("select[name='priceMin']", v.as_str())
    }

    /// Script that sets the highest rent in the search form.
    pub fn price_max_script(&self) -> (r: String)
        ensures
            r@ == set_value_js("select[name='priceMax']"@, decimal_digits(self.price_max as nat)),
    {
        let v = usize_to_string(self.price_max);
        set_value_script("select[name='priceMax']", v.as_str())
    }

    /// Selector of the shortcut button for the query's region.
    pub fn state_button_selector(&self) -> (r: String)
        ensures
            r@ == state_selector(self.wg_state@),
    {
        let mut r = String::from_str("span[class='stateShortcut'][data-state='");
        r.append(self.wg_state.as_str());
        r.append("']");
        r
    }
}

/// `(-1)^e` is `1` for even and `-1` for odd `e`.
proof fn lemma_pow_minus_one(e: nat)
    ensures
        pow(-1, e) == (if e % 2 == 0 {
            1int
        } else {
            -1int
        }),
    decreases e,
{
    reveal(pow);
    if e > 0 {
        lemma_pow_minus_one((e - 1) as nat);
    }
}

/// The pointer offset used when clicking a form selector:
/// `10 + (-1)^exponent`.
pub fn action_offset(exponent: u32) -> (r: i64)
    ensures
        r == 10 + pow(-1, exponent as nat),
{
    proof {
        lemma_pow_minus_one(exponent as nat);
    }
    if exponent % 2 == 0 {
        11
    } else {
        9
    }
}

/// A pointer offset for a click with a random exponent from `rnd`.
pub fn random_offset() -> (r: i64)
    ensures
        r == 9 || r == 11,
{
    let e = rnd();
    proof {
        lemma_pow_minus_one(e as u32 as nat);
    }
    action_offset(e as u32)
}

} // verus!
