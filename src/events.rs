//! Session lifecycle events, published for dashboards as tagged JSON.

use vstd::prelude::*;
use vstd::string::StringExecFns;

verus! {

pub const EVENT_HEAD: &'static str = "{\"type\":\"";

pub const EVENT_DATA: &'static str = "\",\"data\":";

pub const EVENT_END: &'static str = "}";

pub const CREATED_TAG: &'static str = "SessionCreated";

pub const DELETED_TAG: &'static str = "SessionDeleted";

/// A change in the set of live sessions.
#[derive(Clone, Debug)]
pub enum GlobalEvent {
    SessionCreated(String),
    SessionDeleted(String),
}

/// Lower-case hexadecimal digits.
pub const HEX_DIGITS: &'static str = "0123456789abcdef";

/// How a JSON string literal writes one character: the quote, the
/// backslash and the control characters are escaped (short forms where
/// JSON has them, `\u00XX` otherwise); every other character stands as is.
pub open spec fn json_escape_char(c: char) -> Seq<char> {
    if c == '"' {
        seq!['\\', '"']
    } else if c == '\\' {
        seq!['\\', '\\']
    } else if c == '\u{8}' {
        seq!['\\', 'b']
    } else if c == '\t' {
        seq!['\\', 't']
    } else if c == '\n' {
        seq!['\\', 'n']
    } else if c == '\u{c}' {
        seq!['\\', 'f']
    } else if c == '\r' {
        seq!['\\', 'r']
    } else if (c as u32) < 0x20 {
        seq!['\\', 'u', '0', '0', HEX_DIGITS@[((c as u32) / 16) as int], HEX_DIGITS@[((c as u32) % 16) as int]]
    } else {
        seq![c]
    }
}

/// The characters of `s`, each escaped for a JSON string literal.
pub open spec fn json_escaped(s: Seq<char>) -> Seq<char>
    decreases s.len(),
{
    if s.len() == 0 {
        Seq::empty()
    } else {
        json_escaped(s.drop_last()) + json_escape_char(s.last())
    }
}

/// The JSON string literal for `s`: its escaped characters between quotes.
pub open spec fn json_string_literal(s: Seq<char>) -> Seq<char> {
    seq!['"'] + json_escaped(s) + seq!['"']
}

/// Relies on `serde_json::to_string` applied to a `str`: it writes the
/// string literal into a `Vec`, escaping as `json_escape_char` states (the
/// `ESCAPE` table and `write_char_escape` of its serializer), and writing
/// into a `Vec` cannot fail.
#[verifier::external_body]
fn json_string(s: &str) -> (r: Option<String>)
    ensures
        r is Some,
        r matches Some(t) ==> t@ == json_string_literal(s@),
{
    serde_json::to_string(s).ok()
}

impl GlobalEvent {
    /// The variant's name, the `type` tag of its JSON form.
    pub open spec fn tag(&self) -> Seq<char> {
        match self {
            GlobalEvent::SessionCreated(_) => CREATED_TAG@,
            GlobalEvent::SessionDeleted(_) => DELETED_TAG@,
        }
    }

    /// The session identifier the event is about.
    pub open spec fn session_id(&self) -> Seq<char> {
        match self {
            GlobalEvent::SessionCreated(id) => id@,
            GlobalEvent::SessionDeleted(id) => id@,
        }
    }

    /// `{"type":"<tag>","data":<data>}` for a data literal already encoded.
    pub open spec fn framed(&self, data: Seq<char>) -> Seq<char> {
        EVENT_HEAD@ + self.tag() + EVENT_DATA@ + data + EVENT_END@
    }

    pub fn id(&self) -> (r: &String)
        ensures
            r@ == self.session_id(),
    {
        match self {
            GlobalEvent::SessionCreated(id) => id,
            GlobalEvent::SessionDeleted(id) => id,
        }
    }

    /// Frames the event around `data`, the JSON literal of its identifier.
    pub fn frame_json(&self, data: &str) -> (r: String)
        ensures
            r@ == self.framed(data@),
    {
        let mut out = String::from_str(EVENT_HEAD);
        match self {
            GlobalEvent::SessionCreated(_) => out.append(CREATED_TAG),
            GlobalEvent::SessionDeleted(_) => out.append(DELETED_TAG),
        }
        out.append(EVENT_DATA);
        out.append(data);
        out.append(EVENT_END);
        out
    }

    /// The tagged JSON form of the event,
    /// `{"type":"SessionCreated","data":"<id>"}`.
    pub fn to_json(&self) -> (r: String)
        ensures
            r@ == self.framed(json_string_literal(self.session_id())),
    {
        let data = json_string(self.id().as_str()).unwrap();
        self.frame_json(data.as_str())
    }
}

} // verus!
