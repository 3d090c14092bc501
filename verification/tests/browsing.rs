use wgzimmer::apply::Application;
use wgzimmer::search::{action_offset, random_offset, set_value_script, WGQuery};
use wgzimmer::utils::{get_link, get_num_pages, get_price, goto_link_script, rnd, scroll_script, Direction, PageCountError};

const LISTING: &str = "<li class=\"search-result-entry search-mate-entry\"><a href=\"/en/wgzimmer/rooms/1234.html\"><span class=\"cost\">\n  650 \n</span><span class=\"thumbState\">Zürich</span></a></li>";

#[test]
fn price_and_link_of_a_listing() {
    assert_eq!(get_price(LISTING), Some("650".to_string()));
    assert_eq!(get_link(LISTING), Some("/en/wgzimmer/rooms/1234.html".to_string()));
}

#[test]
fn missing_price_or_link() {
    assert_eq!(get_price("<li><a href=\"/x\">no price</a></li>"), None);
    assert_eq!(get_link("<li><span class=\"cost\">1</span></li>"), None);
    assert_eq!(get_link("<li><a>no href</a></li>"), None);
    // the class must match exactly
    assert_eq!(get_price("<span class=\"cost big\">9</span>"), None);
}

#[test]
fn page_counter() {
    assert_eq!(get_num_pages("1 / 12"), Ok(12));
    assert_eq!(get_num_pages("3/4 "), Ok(4));
    assert_eq!(get_num_pages("1 / 2 / 3"), Err(PageCountError::NotANumber));
    assert_eq!(get_num_pages("12"), Err(PageCountError::NoSeparator));
    assert_eq!(get_num_pages("1 / x"), Err(PageCountError::NotANumber));
    assert_eq!(get_num_pages("1 /"), Err(PageCountError::NotANumber));
}

#[test]
fn browser_scripts() {
    let link = "/en/wgzimmer/rooms/1234.html".to_string();
    assert_eq!(goto_link_script(&link), format!("open('{}', target='_self')", link));
    assert_eq!(scroll_script(&Direction::Top), "window.scrollTo(0, 0, { behavior: 'smooth' });");
    assert_eq!(
        scroll_script(&Direction::Bot),
        "window.scrollTo(0, document.body.scrollHeight, { behavior: 'smooth' });"
    );
    assert_eq!(scroll_script(&Direction::ToElement), "");
}

fn field_script(selector: &str, value: &str) -> String {
    format!(
        "var el = document.querySelector(\"{}\");
                 el.value = '{}';
                 el.dispatchEvent(new Event('change', {{ bubbles: true }}));
                 el.dispatchEvent(new Event('input', {{ bubbles: true }}));",
        selector, value
    )
}

#[test]
fn query_scripts() {
    let q = WGQuery { price_min: 300, price_max: 800, wg_state: "zurich-stadt".to_string() };
    assert_eq!(q.price_min_script(), field_script("select[name='priceMin']", "300"));
    assert_eq!(q.price_max_script(), field_script("select[name='priceMax']", "800"));
    assert_eq!(
        q.state_button_selector(),
        "span[class='stateShortcut'][data-state='zurich-stadt']"
    );
    assert_eq!(set_value_script("a", "b"), field_script("a", "b"));
}

#[test]
fn pointer_offsets() {
    assert_eq!(action_offset(2), 11);
    assert_eq!(action_offset(3), 9);
    assert_eq!(action_offset(0), 11);
    for _ in 0..50 {
        let o = random_offset();
        assert!(o == 9 || o == 11);
        let r = rnd();
        assert!((2..=5).contains(&r));
    }
}

#[test]
fn application_message_is_a_json_string() {
    let text = "Hallo!\nIch bin \"Max\" \\ 25\t\u{1}".to_string();
    let a = Application::new("Max".to_string(), "max@example.com".to_string(), &text, 30);
    assert_eq!(a.msg, serde_json::to_string(&text).unwrap());
    assert_eq!(a.msg, "\"Hallo!\\nIch bin \\\"Max\\\" \\\\ 25\\t\\u0001\"");
    assert_eq!(a.wait_time, 30);
    assert_eq!(a.name_script(), field_script("input[id='senderName']", "Max"));
    assert_eq!(a.email_script(), field_script("input[id='senderEmail']", "max@example.com"));
    assert_eq!(a.msg_script(), field_script("textarea[id='senderText']", &a.msg));
}
