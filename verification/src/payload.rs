//! The payloads an author publishes: the two parts of a signed packet, and
//! the JSON greeting stamped with the time of sending.

use vstd::prelude::*;
use vstd::string::StrSliceExecFns;

verus! {

/// The public and the masked payload of a signed packet.
pub struct SignedPayloads {
    pub public: Vec<u8>,
    pub masked: Vec<u8>,
}

/// The payloads that publish `text` in the clear: its UTF-8 bytes as the
/// public part, and nothing masked.
pub fn signed_payloads(text: &str) -> (payloads: SignedPayloads)
    ensures
        payloads.public@ == vstd::utf8::encode_utf8(text@),
        payloads.masked@ == Seq::<u8>::empty(),
{
    SignedPayloads { public: text.as_bytes_vec(), masked: Vec::new() }
}

/// The hexadecimal digit of `n` (below 16), in lower case.
pub open spec fn hex_digit(n: u32) -> char {
    if n < 10 {
        (48 + n) as char
    } else {
        (87 + n) as char
    }
}

/// How JSON writes `c` inside a string: quote and backslash behind a
/// backslash, the control characters below U+0020 as `\b`, `\t`, `\n`,
/// `\f`, `\r` or `\u00xx`, every other character as itself.
pub open spec fn json_escape_char(c: char) -> Seq<char> {
    let code = c as u32;
    if c == '"' {
        seq!['\\', '"']
    } else if c == '\\' {
        seq!['\\', '\\']
    } else if code == 0x08 {
        seq!['\\', 'b']
    } else if code == 0x09 {
        seq!['\\', 't']
    } else if code == 0x0a {
        seq!['\\', 'n']
    } else if code == 0x0c {
        seq!['\\', 'f']
    } else if code == 0x0d {
        seq!['\\', 'r']
    } else if code < 0x20 {
        seq!['\\', 'u', '0', '0', hex_digit(code / 16), hex_digit(code % 16)]
    } else {
        seq![c]
    }
}

/// `text` with each character written as JSON writes it inside a string.
pub open spec fn json_escape(text: Seq<char>) -> Seq<char>
    decreases text.len(),
{
    if text.len() == 0 {
        Seq::empty()
    } else {
        json_escape_char(text[0]) + json_escape(text.drop_first())
    }
}

/// The JSON string literal of `text`.
pub open spec fn json_string(text: Seq<char>) -> Seq<char> {
    seq!['"'] + json_escape(text) + seq!['"']
}

/// `first` comes before `second` in lexicographic order of code points,
/// which is the order of their UTF-8 bytes.
pub open spec fn chars_less(first: Seq<char>, second: Seq<char>) -> bool
    decreases first.len(),
{
    if first.len() == 0 {
        second.len() > 0
    } else if second.len() == 0 {
        false
    } else if first[0] != second[0] {
        (first[0] as u32) < (second[0] as u32)
    } else {
        chars_less(first.drop_first(), second.drop_first())
    }
}

/// The member `key: value` of a compact JSON object with a string value.
pub open spec fn json_member(key: Seq<char>, value: Seq<char>) -> Seq<char> {
    json_string(key) + seq![':'] + json_string(value)
}

/// The compact JSON text of the object that maps `first_key` to the string
/// `first_value` and then `second_key` to the string `second_value`: its
/// members in the order of their keys, a single member holding the second
/// value when the keys are equal.
pub open spec fn json_object_text(
    first_key: Seq<char>,
    first_value: Seq<char>,
    second_key: Seq<char>,
    second_value: Seq<char>,
) -> Seq<char> {
    if first_key == second_key {
        seq!['{'] + json_member(first_key, second_value) + seq!['}']
    } else if chars_less(first_key, second_key) {
        seq!['{'] + json_member(first_key, first_value) + seq![','] + json_member(
            second_key,
            second_value,
        ) + seq!['}']
    } else {
        seq!['{'] + json_member(second_key, second_value) + seq![','] + json_member(
            first_key,
            first_value,
        ) + seq!['}']
    }
}

/// `text` holds no character that JSON escapes inside a string: no quote, no
/// backslash, no control character below U+0020.
pub open spec fn needs_no_escape(text: Seq<char>) -> bool {
    forall|i: int|
        0 <= i < text.len() ==> #[trigger] text[i] != '"' && text[i] != '\\' && (text[i] as u32)
            >= 0x20
}

/// `text` between double quotes.
pub open spec fn quoted(text: Seq<char>) -> Seq<char> {
    seq!['"'] + text + seq!['"']
}

/// The compact JSON text of an object with two string members, none of whose
/// keys or values needs escaping.
pub open spec fn plain_object_text(
    first_key: Seq<char>,
    first_value: Seq<char>,
    second_key: Seq<char>,
    second_value: Seq<char>,
) -> Seq<char> {
    seq!['{'] + quoted(first_key) + seq![':'] + quoted(first_value) + seq![','] + quoted(
        second_key,
    ) + seq![':'] + quoted(second_value) + seq!['}']
}

/// Text that needs no escaping is written as itself.
proof fn lemma_json_escape_plain(text: Seq<char>)
    requires
        needs_no_escape(text),
    ensures
        json_escape(text) == text,
    decreases text.len(),
{
    if text.len() > 0 {
        let rest = text.drop_first();
        assert forall|i: int| 0 <= i < rest.len() implies #[trigger] rest[i] != '"' && rest[i]
            != '\\' && (rest[i] as u32) >= 0x20 by {
            assert(rest[i] == text[i + 1]);
        }
        lemma_json_escape_plain(rest);
        assert(text[0] != '"' && text[0] != '\\' && (text[0] as u32) >= 0x20);
        assert(json_escape_char(text[0]) == seq![text[0]]);
        assert(text =~= seq![text[0]] + rest);
    }
}

/// With plain keys and values and distinct keys in order, the object's text
/// is the plain one.
proof fn lemma_plain_object(
    first_key: Seq<char>,
    first_value: Seq<char>,
    second_key: Seq<char>,
    second_value: Seq<char>,
)
    requires
        needs_no_escape(first_key),
        needs_no_escape(first_value),
        needs_no_escape(second_key),
        needs_no_escape(second_value),
        first_key != second_key,
        chars_less(first_key, second_key),
    ensures
        json_object_text(first_key, first_value, second_key, second_value) == plain_object_text(
            first_key,
            first_value,
            second_key,
            second_value,
        ),
{
    lemma_json_escape_plain(first_key);
    lemma_json_escape_plain(first_value);
    lemma_json_escape_plain(second_key);
    lemma_json_escape_plain(second_value);
    assert(json_object_text(first_key, first_value, second_key, second_value)
        =~= plain_object_text(first_key, first_value, second_key, second_value));
}

/// `serde_json::Map::insert` (twice), `serde_json::Value::String`,
/// `Value::Object` and the compact printing of a `Value`: builds the object
/// with the two string members and prints it. Claims the text stated by
/// [`json_object_text`]: the map keeps its keys in byte order (a `BTreeMap`,
/// the `preserve_order` feature being off), a second insert under an equal key
/// replaces the value, and the compact printer writes `{"k":"v","k":"v"}`
/// with no space, escaping only quote, backslash and control characters.
#[verifier::external_body]
fn json_object_of_two_strings(
    first_key: &str,
    first_value: &str,
    second_key: &str,
    second_value: &str,
) -> (text: String)
    ensures
        text@ == json_object_text(first_key@, first_value@, second_key@, second_value@),
{
    let mut object = serde_json::Map::new();
    object.insert(first_key.to_string(), serde_json::Value::String(first_value.to_string()));
    object.insert(second_key.to_string(), serde_json::Value::String(second_value.to_string()));
    serde_json::Value::Object(object).to_string()
}

/// A character that an RFC 3339 time stamp in UTC may hold.
pub open spec fn is_time_stamp_char(c: char) -> bool {
    ||| '0' <= c <= '9'
    ||| c == '-'
    ||| c == '+'
    ||| c == ':'
    ||| c == 'T'
    ||| c == '.'
}

/// `stamp` has the shape of an RFC 3339 stamp in UTC as chrono writes it: at
/// least 25 characters, all digits or separators, exactly one `T` between the
/// date and the time, and the offset `+00:00` at the end.
pub open spec fn is_utc_rfc3339_stamp(stamp: Seq<char>) -> bool {
    &&& stamp.len() >= 25
    &&& forall|i: int| 0 <= i < stamp.len() ==> is_time_stamp_char(#[trigger] stamp[i])
    &&& exists|t: int|
        0 <= t < stamp.len() && stamp[t] == 'T' && forall|j: int|
            0 <= j < stamp.len() && j != t ==> #[trigger] stamp[j] != 'T'
    &&& stamp.subrange(stamp.len() - 6, stamp.len() as int) == seq!['+', '0', '0', ':', '0', '0']
}

/// `chrono::Utc::now` then `DateTime::to_rfc3339`: the current time as an
/// RFC 3339 stamp such as `2021-03-04T12:34:56.789+00:00`. Claims the shape
/// that chrono's writer of RFC 3339 stamps gives every outcome: a date of
/// digits and `-` (a sign only for a year out of 0..=9999), `T`, a time of
/// digits, `:` and an optional fraction after `.`, and the zero offset
/// written `+00:00`. Which time it is, is left unsaid.
#[verifier::external_body]
fn utc_now_rfc3339() -> (stamp: String)
    ensures
        is_utc_rfc3339_stamp(stamp@),
{
    chrono::Utc::now().to_rfc3339()
}

/// `stamp` is a value that reading the clock (`utc_now_rfc3339`) has
/// returned: only a call of it establishes this of a value.
pub closed spec fn is_clock_reading(stamp: String) -> bool {
    call_ensures(utc_now_rfc3339, (), stamp)
}

/// Every clock reading has the shape of an RFC 3339 stamp in UTC.
pub proof fn law_clock_reading_is_utc_stamp(stamp: String)
    requires
        is_clock_reading(stamp),
    ensures
        is_utc_rfc3339_stamp(stamp@),
{
}

/// The greeting the author publishes: a JSON object with the member
/// `"message": "Hello"` and the member `"timestamp"` set to `timestamp`.
pub fn hello_message(timestamp: &str) -> (text: String)
    ensures
        text@ == json_object_text("message"@, "Hello"@, "timestamp"@, timestamp@),
        needs_no_escape(timestamp@) ==> text@ == plain_object_text(
            "message"@,
            "Hello"@,
            "timestamp"@,
            timestamp@,
        ),
{
    proof {
        reveal_strlit("message");
        reveal_strlit("Hello");
        reveal_strlit("timestamp");
        if needs_no_escape(timestamp@) {
            let message = "message"@;
            let timestamp_key = "timestamp"@;
            assert(message[0] != timestamp_key[0]);
            assert(chars_less(message, timestamp_key));
            lemma_plain_object(message, "Hello"@, timestamp_key, timestamp@);
        }
    }
    json_object_of_two_strings("message", "Hello", "timestamp", timestamp)
}

/// The greeting stamped with the current time: the stamp in the text is one
/// that reading the clock (`utc_now_rfc3339`) has returned during the call.
pub fn hello_message_now() -> (text: String)
    ensures
        exists|stamp: String|
            is_clock_reading(stamp) && text@ == plain_object_text(
                "message"@,
                "Hello"@,
                "timestamp"@,
                stamp@,
            ),
        exists|stamp: Seq<char>|
            is_utc_rfc3339_stamp(stamp) && text@ == plain_object_text(
                "message"@,
                "Hello"@,
                "timestamp"@,
                stamp,
            ),
{
    let read_clock = utc_now_rfc3339;
    let stamp = read_clock();
    proof {
        assert(is_utc_rfc3339_stamp(stamp@));
        assert forall|i: int| 0 <= i < stamp@.len() implies #[trigger] stamp@[i] != '"'
            && stamp@[i] != '\\' && (stamp@[i] as u32) >= 0x20 by {
            assert(is_time_stamp_char(stamp@[i]));
        }
    }
    let text = hello_message(stamp.as_str());
    proof {
        assert(is_clock_reading(stamp));
    }
    text
}

/// The payloads of the greeting stamped with the current time: its UTF-8
/// bytes in the clear, nothing masked.
pub fn greeting_payloads() -> (payloads: SignedPayloads)
    ensures
        exists|stamp: String|
            is_clock_reading(stamp) && payloads.public@
                == vstd::utf8::encode_utf8(
                plain_object_text("message"@, "Hello"@, "timestamp"@, stamp@),
            ),
        exists|stamp: Seq<char>|
            is_utc_rfc3339_stamp(stamp) && payloads.public@ == vstd::utf8::encode_utf8(
                plain_object_text("message"@, "Hello"@, "timestamp"@, stamp),
            ),
        payloads.masked@ == Seq::<u8>::empty(),
{
    let text = hello_message_now();
    signed_payloads(text.as_str())
}

} // verus!
