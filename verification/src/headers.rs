//! HTTP headers.

use crate::text::{opt_text, same_text};
use vstd::prelude::*;
use vstd::utf8::{encode_utf8, is_ascii_chars, is_ascii_chars_encode_utf8};

verus! {

/// A header: its name in lower case and its value.
#[derive(Debug)]
pub struct Header {
    pub name: String,
    pub value: Vec<u8>,
}

/// The value of the first header with the name.
pub open spec fn header_value(headers: Seq<Header>, name: Seq<char>) -> Option<Seq<u8>>
    decreases headers.len(),
{
    if headers.len() == 0 {
        None
    } else if headers[0].name@ == name {
        Some(headers[0].value@)
    } else {
        header_value(headers.skip(1), name)
    }
}

/// Whether a header value is text with this byte in it: a visible ASCII
/// character, a space or a tab.
pub open spec fn is_text_byte(b: u8) -> bool {
    32 <= b < 127 || b == 9
}

/// The text of a header value, unless it is not text.
pub open spec fn value_text(value: Seq<u8>) -> Option<Seq<char>> {
    if forall|i: int| 0 <= i < value.len() ==> is_text_byte(#[trigger] value[i]) {
        Some(value.map_values(|b: u8| b as char))
    } else {
        None
    }
}

/// Whether a text can stand in a header.
pub open spec fn is_header_text(text: Seq<char>) -> bool {
    forall|i: int|
        0 <= i < text.len() ==> (' ' <= #[trigger] text[i] <= '~' || text[i] == '\t')
}

/// What is written into a header value as text is read back from it.
pub proof fn header_text_is_read_back(text: Seq<char>)
    requires
        is_header_text(text),
    ensures
        value_text(encode_utf8(text)) == Some(text),
{
    let value = encode_utf8(text);
    assert(is_ascii_chars(text)) by {
        assert forall|i: int| 0 <= i < text.len() implies '\0' <= #[trigger] text[i]
            <= '\u{7f}' by {}
    }
    is_ascii_chars_encode_utf8(text);
    assert forall|i: int| 0 <= i < value.len() implies is_text_byte(#[trigger] value[i]) by {
        assert(text[i] as u8 == value[i]);
    }
    assert(value.map_values(|b: u8| b as char) == text) by {
        assert forall|i: int| 0 <= i < value.len() implies #[trigger] (value[i] as char)
            == text[i] by {
            assert(text[i] as u8 == value[i]);
        }
    }
}

/// The value of the first header with the name.
pub fn find_header<'a>(headers: &'a Vec<Header>, name: &str) -> (value: Option<&'a Vec<u8>>)
    ensures
        match value {
            Some(value) => header_value(headers@, name@) == Some(value@),
            None => header_value(headers@, name@) is None,
        },
{
    let mut i: usize = 0;
    assert(headers@.skip(0) == headers@);
    while i < headers.len()
        invariant
            i <= headers@.len(),
            header_value(headers@.skip(i as int), name@) == header_value(headers@, name@),
        decreases headers@.len() - i,
    {
        if same_text(headers[i].name.as_str(), name) {
            return Some(&headers[i].value);
        }
        assert(headers@.skip(i as int).skip(1) == headers@.skip(i + 1));
        i = i + 1;
    }
    None
}

/// The text of a header value, unless it is not text.
pub fn text_of_value(value: &Vec<u8>) -> (text: Option<String>)
    ensures
        opt_text(text) == value_text(value@),
{
    let mut text = String::new();
    let mut i: usize = 0;
    while i < value.len()
        invariant
            i <= value@.len(),
            forall|j: int| 0 <= j < i ==> is_text_byte(#[trigger] value@[j]),
            text@ == value@.take(i as int).map_values(|b: u8| b as char),
        decreases value@.len() - i,
    {
        let b: u8 = value[i];
        if !((32 <= b && b < 127) || b == 9) {
            assert(!is_text_byte(value@[i as int]));
            return None;
        }
        text.push(b as char);
        assert(value@.take(i + 1) == value@.take(i as int).push(b));
        i = i + 1;
    }
    assert(value@.take(value@.len() as int) == value@);
    Some(text)
}

/// The first header with a name gives its value, whatever the others hold, and there is
/// none exactly when no header has the name.
pub proof fn the_first_header_counts(headers: Seq<Header>, name: Seq<char>, at: int)
    requires
        0 <= at <= headers.len(),
        forall|i: int| 0 <= i < at ==> (#[trigger] headers[i]).name@ != name,
        at < headers.len() ==> headers[at].name@ == name,
    ensures
        at < headers.len() ==> header_value(headers, name) == Some(headers[at].value@),
        at == headers.len() ==> header_value(headers, name) is None,
    decreases headers.len(),
{
    if at > 0 {
        let rest = headers.skip(1);
        assert(headers[0].name@ != name);
        assert forall|i: int| 0 <= i < at - 1 implies (#[trigger] rest[i]).name@ != name by {
            assert(rest[i] == headers[i + 1]);
        }
        the_first_header_counts(rest, name, at - 1);
    }
}

/// A value is text exactly when each of its bytes is a visible ASCII character, a space or
/// a tab, and then it is the text of these characters, one for each byte.
pub proof fn values_are_read_byte_by_byte(value: Seq<u8>)
    ensures
        value_text(value) is Some <==> forall|i: int|
            0 <= i < value.len() ==> (#[trigger] value[i] == 9 || 32 <= value[i] <= 126),
        value_text(value) matches Some(text) ==> text.len() == value.len() && forall|i: int|
            0 <= i < value.len() ==> #[trigger] text[i] as u8 == value[i] && text[i] <= '~',
{
    if let Some(text) = value_text(value) {
        assert forall|i: int| 0 <= i < value.len() implies #[trigger] text[i] as u8 == value[i]
            && text[i] <= '~' by {
            assert(is_text_byte(value[i]));
            assert(text[i] == value[i] as char);
        }
    }
    if forall|i: int|
        0 <= i < value.len() ==> (#[trigger] value[i] == 9 || 32 <= value[i] <= 126) {
        assert forall|i: int| 0 <= i < value.len() implies is_text_byte(#[trigger] value[i]) by {}
    }
}

/// What can stand in a header is exactly what is read back from one.
pub proof fn header_texts_are_those_read_back(text: Seq<char>)
    ensures
        is_header_text(text) <==> value_text(encode_utf8(text)) == Some(text),
{
    let value = encode_utf8(text);
    if is_header_text(text) {
        header_text_is_read_back(text);
    }
    if value_text(value) == Some(text) {
        assert forall|i: int| 0 <= i < text.len() implies (' ' <= #[trigger] text[i] <= '~'
            || text[i] == '\t') by {
            assert(is_text_byte(value[i]));
            assert(text[i] == value[i] as char);
        }
    }
}

} // verus!
