//! The application that is sent for a listing, and the scripts that fill
//! in the contact form.
use vstd::prelude::*;

use crate::search::{set_value_js, set_value_script};

verus! {

/// `serde_json::Error`, the error type of `serde_json::to_string`.
#[verifier::external_type_specification]
#[verifier::external_body]
pub struct ExJsonError(serde_json::Error);

/// Lower-case hexadecimal digit for `d < 16`.
pub open spec fn hex_digit(d: int) -> char {
    if d < 10 {
        (('0' as int) + d) as char
    } else {
        (('a' as int) + d - 10) as char
    }
}

/// How JSON writes one character inside a string literal: `"` and `\` and
/// the control characters below U+0020 are escaped (the short forms `\b`
/// `\t` `\n` `\f` `\r` where they exist, `\u00XX` otherwise); every other
/// character stands for itself.
pub open spec fn json_escape(c: char) -> Seq<char> {
    if c == '"' {
        seq!['\\', '"']
    } else if c == '\\' {
        seq!['\\', '\\']
    } else if c == '\u{8}' {
        seq!['\\', 'b']
    } else if c == '\t' {
        seq!['\\', 't']
    } else if c == '\n' {
        seq!['\\', 'n']
    } else if c == '\u{c}' {
        seq!['\\', 'f']
    } else if c == '\r' {
        seq!['\\', 'r']
    } else if (c as int) < 0x20 {
        seq!['\\', 'u', '0', '0', hex_digit((c as int) / 16), hex_digit((c as int) % 16)]
    } else {
        seq![c]
    }
}

/// The escaped characters of `s`, one after the other.
pub open spec fn json_escaped(s: Seq<char>) -> Seq<char>
    decreases s.len(),
{
    if s.len() == 0 {
        Seq::empty()
    } else {
        json_escaped(s.drop_last()) + json_escape(s.last())
    }
}

/// The JSON string literal for `s`: its escaped characters between double
/// quotes (what `serde_json::to_string` writes for a string).
pub open spec fn json_string(s: Seq<char>) -> Seq<char> {
    seq!['"'] + json_escaped(s) + seq!['"']
}

/// JSON string literals: text without quotes, backslashes and control
/// characters is written as it is, between double quotes; escaping works
/// character by character; quote, backslash and the control characters
/// with a short form are written as that two-character escape.
pub proof fn lemma_json_string(a: Seq<char>, b: Seq<char>)
    ensures
        json_escaped(a + b) == json_escaped(a) + json_escaped(b),
        (forall|i: int| 0 <= i < a.len() ==> #[trigger] a[i] != '"' && a[i] != '\\' && (a[i] as int) >= 0x20)
            ==> json_string(a) == seq!['"'] + a + seq!['"'],
        json_escape('"') == seq!['\\', '"'],
        json_escape('\\') == seq!['\\', '\\'],
        json_escape('\n') == seq!['\\', 'n'],
        json_escape('\r') == seq!['\\', 'r'],
        json_escape('\t') == seq!['\\', 't'],
    decreases b.len(),
{
    if b.len() == 0 {
        assert(a + b =~= a);
        assert(json_escaped(a) + json_escaped(b) =~= json_escaped(a));
    } else {
        lemma_json_string(a, b.drop_last());
        assert((a + b).drop_last() =~= a + b.drop_last());
        assert((a + b).last() == b.last());
        assert(json_escaped(a + b) =~= json_escaped(a) + json_escaped(b));
    }
    lemma_json_plain(a);
}

proof fn lemma_json_plain(a: Seq<char>)
    ensures
        (forall|i: int| 0 <= i < a.len() ==> #[trigger] a[i] != '"' && a[i] != '\\' && (a[i] as int) >= 0x20)
            ==> json_escaped(a) == a,
    decreases a.len(),
{
    if a.len() > 0 {
        lemma_json_plain(a.drop_last());
        if forall|i: int| 0 <= i < a.len() ==> #[trigger] a[i] != '"' && a[i] != '\\' && (a[i] as int) >= 0x20 {
            assert forall|i: int| 0 <= i < a.drop_last().len() implies #[trigger] a.drop_last()[i] != '"'
                && a.drop_last()[i] != '\\' && (a.drop_last()[i] as int) >= 0x20 by {
                assert(a.drop_last()[i] == a[i]);
            }
            let c = a.last();
            assert(c == a[a.len() - 1]);
            assert(json_escape(c) == seq![c]);
            assert(a.drop_last() + seq![c] =~= a);
        }
    } else {
        assert(json_escaped(a) =~= a);
    }
}

/// Calls `serde_json::to_string` on a `String`. Trusted: that it succeeds
/// and gives the JSON string literal `json_string` of its argument, as
/// serde_json's serializer writes it (escape table and `\u00XX` form in its
/// `ser.rs`).
#[verifier::external_body]
fn json_string_literal(s: &String) -> (r: Result<String, serde_json::Error>)
    ensures
        r is Ok,
        r is Ok ==> r->Ok_0@ == json_string(s@),
{
    serde_json::to_string(s)
}

/// An application: who sends it, the message, and how long to wait before
/// sending.
#[derive(Debug)]
pub struct Application {
    /// Sender name.
    pub name: String,
    /// Sender e-mail address.
    pub email: String,
    /// The message, already written as a JSON string literal.
    pub msg: String,
    /// Seconds to wait before sending.
    pub wait_time: u64,
}

impl Application {
    /// An application whose message is `message` written as a JSON string
    /// literal.
    pub fn new(name: String, email: String, message: &String, wait_time: u64) -> (r: Application)
        ensures
            r.name == name,
            r.email == email,
            r.msg@ == json_string(message@),
            r.wait_time == wait_time,
    {
        let msg = match json_string_literal(message) {
            Ok(j) => j,
            Err(_) => {
                assert(false);
                String::new()
            },
        };
        Application { name, email, msg, wait_time }
    }

    /// Script that fills in the sender name.
    pub fn name_script(&self) -> (r: String)
        ensures
            r@ == set_value_js("input[id='senderName']"@, self.name@),
    {
        set_value_script("input[id='senderName']", self.name.as_str())
    }

    /// Script that fills in the sender e-mail address.
    pub fn email_script(&self) -> (r: String)
        ensures
            r@ == set_value_js("input[id='senderEmail']"@, self.email@),
    {
        set_value_script("input[id='senderEmail']", self.email.as_str())
    }

    /// Script that fills in the message.
    pub fn msg_script(&self) -> (r: String)
        ensures
            r@ == set_value_js("textarea[id='senderText']"@, self.msg@),
    {
        set_value_script("textarea[id='senderText']", self.msg.as_str())
    }
}

} // verus!
