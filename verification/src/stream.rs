//! The websocket client's settings and its login message.
use vstd::prelude::*;
use crate::text::{decimal, digit_char, joined, push_decimal};
use crate::processor::Envelope;

verus! {

/// A lowercase hexadecimal digit.
pub open spec fn hex_digit(d: int) -> char {
    if d < 10 {
        digit_char(d)
    } else {
        ((d - 10 + 97) as u8) as char
    }
}

/// How a JSON string writes one character: `"` and `\` behind a backslash;
/// backspace, tab, line feed, form feed and carriage return as `\b`, `\t`,
/// `\n`, `\f`, `\r`; the other characters below U+0020 as `\u00` and two
/// lowercase hexadecimal digits; every other character as it is.
pub open spec fn json_escape(c: char) -> Seq<char> {
    if c == '"' {
        seq!['\\', '"']
    } else if c == '\\' {
        seq!['\\', '\\']
    } else if c == '\u{8}' {
        seq!['\\', 'b']
    } else if c == '\t' {
        seq!['\\', 't']
    } else if c == '\n' {
        seq!['\\', 'n']
    } else if c == '\u{c}' {
        seq!['\\', 'f']
    } else if c == '\r' {
        seq!['\\', 'r']
    } else if (c as int) < 0x20 {
        seq!['\\', 'u', '0', '0', hex_digit((c as int) / 16), hex_digit((c as int) % 16)]
    } else {
        seq![c]
    }
}

/// The characters of `s`, each written as a JSON string writes it.
pub open spec fn json_escaped(s: Seq<char>) -> Seq<char>
    decreases s.len(),
{
    if s.len() == 0 {
        Seq::empty()
    } else {
        json_escaped(s.drop_last()) + json_escape(s.last())
    }
}

/// The JSON text of a string value: its escaped characters between quotes.
pub open spec fn json_quoted(s: Seq<char>) -> Seq<char> {
    seq!['"'] + json_escaped(s) + seq!['"']
}

/// `serde_json::to_string` on a string slice, which writes the string's
/// characters between quotes through its escape table (`ESCAPE` and
/// `format_escaped_str_contents` in `ser.rs`). Serializing a `str` into memory
/// does not fail, so the error arm is not taken.
#[verifier::external_body]
fn json_quote(s: &str) -> (r: String)
    ensures
        r@ == json_quoted(s@),
{
    match serde_json::to_string(s) {
        Ok(text) => text,
        Err(_) => String::new(),
    }
}

/// One member of a JSON text, as `serde_json` reads it: the text is not
/// JSON, or is JSON but not an object, or is an object without the member,
/// or with a string member (its characters), or with another member (its
/// JSON text).
pub enum JsonMember {
    NotJson,
    NotObject,
    Absent,
    Text(String),
    Other(String),
}

/// What a `JsonMember` holds, as text.
pub ghost enum MemberView {
    NotJson,
    NotObject,
    Absent,
    Text(Seq<char>),
    Other(Seq<char>),
}

impl View for JsonMember {
    type V = MemberView;

    open spec fn view(&self) -> MemberView {
        match self {
            JsonMember::NotJson => MemberView::NotJson,
            JsonMember::NotObject => MemberView::NotObject,
            JsonMember::Absent => MemberView::Absent,
            JsonMember::Text(s) => MemberView::Text(s@),
            JsonMember::Other(t) => MemberView::Other(t@),
        }
    }
}

/// Member `key` of the JSON text `text`, as `serde_json::from_str` reads the
/// text into a `Value` and `Value::to_string` writes a non-string member back.
pub uninterp spec fn member_of(text: Seq<char>, key: Seq<char>) -> MemberView;

/// `serde_json::from_str::<Value>` on `text`, `Map::remove` of `key` from an
/// object, and `Value::to_string` of a member that is not a string. The claim
/// is that the result is what `member_of` names for the text and the key; no
/// more is said of JSON parsing.
#[verifier::external_body]
fn json_member(text: &str, key: &str) -> (r: JsonMember)
    ensures
        r@ == member_of(text@, key@),
{
    let mut object = match serde_json::from_str::<serde_json::Value>(text) {
        Ok(serde_json::Value::Object(object)) => object,
        Ok(_) => return JsonMember::NotObject,
        Err(_) => return JsonMember::NotJson,
    };
    match object.remove(key) {
        None => JsonMember::Absent,
        Some(serde_json::Value::String(s)) => JsonMember::Text(s),
        Some(other) => JsonMember::Other(other.to_string()),
    }
}

/// The characters of a string member.
pub open spec fn member_text(m: MemberView) -> Option<Seq<char>> {
    match m {
        MemberView::Text(s) => Some(s),
        _ => None,
    }
}

/// The JSON text of a member that is there: a string member is written back
/// between quotes.
pub open spec fn member_json(m: MemberView) -> Option<Seq<char>> {
    match m {
        MemberView::Text(s) => Some(json_quoted(s)),
        MemberView::Other(t) => Some(t),
        _ => None,
    }
}

/// What routing reads of a websocket frame: nothing when it is not JSON;
/// else whether it is an object, its `type` and `channel` members when they
/// are strings, and the JSON text of its `payload` member when there is one.
pub open spec fn frame_fields(text: Seq<char>) -> Option<(bool, Option<Seq<char>>, Option<Seq<char>>, Option<Seq<char>>)> {
    match member_of(text, "type"@) {
        MemberView::NotJson => None,
        MemberView::NotObject => Some((false, None, None, None)),
        kind => Some(
            (true, member_text(kind), member_text(member_of(text, "channel"@)), member_json(member_of(text, "payload"@))),
        ),
    }
}

/// The text of an optional string.
pub open spec fn opt_text(o: Option<String>) -> Option<Seq<char>> {
    match o {
        Some(s) => Some(s@),
        None => None,
    }
}

/// The envelope and payload text agree with the fields of the frame.
pub open spec fn message_agrees(
    r: Option<(Envelope, Option<String>)>,
    fields: Option<(bool, Option<Seq<char>>, Option<Seq<char>>, Option<Seq<char>>)>,
) -> bool {
    match (r, fields) {
        (None, None) => true,
        (Some((e, p)), Some((o, k, c, q))) => {
            &&& e.is_object == o
            &&& opt_text(e.kind) == k
            &&& opt_text(e.channel) == c
            &&& e.has_payload == (q is Some)
            &&& opt_text(p) == q
        },
        _ => false,
    }
}

/// Reads a websocket text frame: `None` when it is not JSON (the stream
/// then fails); else the envelope that decides where the message goes, from
/// the `type`, `channel` and `payload` members, and the JSON text of the
/// payload.
pub fn read_message(text: &str) -> (r: Option<(Envelope, Option<String>)>)
    ensures
        message_agrees(r, frame_fields(text@)),
{
    let kind = match json_member(text, "type") {
        JsonMember::NotJson => return None,
        JsonMember::NotObject => {
            return Some((Envelope { is_object: false, kind: None, channel: None, has_payload: false }, None));
        },
        JsonMember::Text(s) => Some(s),
        _ => None,
    };
    let channel = match json_member(text, "channel") {
        JsonMember::Text(s) => Some(s),
        _ => None,
    };
    let payload = match json_member(text, "payload") {
        JsonMember::Text(s) => Some(json_quote(s.as_str())),
        JsonMember::Other(t) => Some(t),
        _ => None,
    };
    let has_payload = payload.is_some();
    Some((Envelope { is_object: true, kind, channel, has_payload }, payload))
}

/// The decimal texts of the sport identifiers, separated by commas.
pub open spec fn sport_list(ids: Seq<u8>) -> Seq<char> {
    joined(ids.map_values(|i: u8| decimal(i as nat)), ","@)
}

/// The login message: a JSON object with the key, the channels
/// `fixtures`, `odds` and `bookmakers`, the receive type `json`, the sports
/// and the type `login`, its keys in sorted order as `serde_json` writes an
/// object.
pub open spec fn login_text(api_key: Seq<char>, sport_ids: Seq<u8>) -> Seq<char> {
    "{\"apiKey\":"@ + json_quoted(api_key)
        + ",\"channels\":[\"fixtures\",\"odds\",\"bookmakers\"],\"receiveType\":\"json\",\"sportIds\":["@
        + sport_list(sport_ids) + "],\"type\":\"login\"}"@
}

/// The websocket endpoint, the key and the sports to follow.
pub struct WsClient {
    url: String,
    api_key: String,
    sport_ids: Vec<u8>,
}

impl WsClient {
    pub fn new(url: &str, api_key: &str, sport_ids: &[u8]) -> (r: Self)
        ensures
            r.url_text() == url@,
            r.key_text() == api_key@,
            r.sports() == sport_ids@,
    {
        WsClient {
            url: String::from_str(url),
            api_key: String::from_str(api_key),
            sport_ids: vstd::slice::slice_to_vec(sport_ids),
        }
    }

    pub closed spec fn url_text(&self) -> Seq<char> {
        self.url@
    }

    pub closed spec fn key_text(&self) -> Seq<char> {
        self.api_key@
    }

    pub closed spec fn sports(&self) -> Seq<u8> {
        self.sport_ids@
    }

    /// The websocket endpoint.
    pub fn url(&self) -> (r: &str)
        ensures
            r@ == self.url_text(),
    {
        self.url.as_str()
    }

    /// The message that logs in and subscribes.
    pub fn login_message(&self) -> (r: String)
        ensures
            r@ == login_text(self.key_text(), self.sports()),
    {
        let mut m = String::from_str("{\"apiKey\":");
        let key = json_quote(self.api_key.as_str());
        m.append(key.as_str());
        m.append(",\"channels\":[\"fixtures\",\"odds\",\"bookmakers\"],\"receiveType\":\"json\",\"sportIds\":[");
        let ghost start = m@;
        let ghost ids = self.sport_ids@;
        let ghost texts = ids.map_values(|i: u8| decimal(i as nat));
        let mut i: usize = 0;
        assert(texts.take(0) =~= Seq::<Seq<char>>::empty());
        assert(m@ =~= start + joined(texts.take(0), ","@));
        while i < self.sport_ids.len()
            invariant
                i <= ids.len(),
                ids == self.sport_ids@,
                texts == ids.map_values(|i: u8| decimal(i as nat)),
                m@ == start + joined(texts.take(i as int), ","@),
            decreases ids.len() - i,
        {
            assert(texts.take(i + 1).drop_last() =~= texts.take(i as int));
            assert(texts.take(i + 1).last() == decimal(ids[i as int] as nat));
            if i > 0 {
                m.append(",");
            }
            push_decimal(&mut m, self.sport_ids[i]);
            i = i + 1;
            assert(m@ =~= start + joined(texts.take(i as int), ","@));
        }
        assert(texts.take(ids.len() as int) =~= texts);
        m.append("],\"type\":\"login\"}");
        m
    }
}

} // verus!
