//! Request URLs: percent-encoding, the query string of a parameter document,
//! and the address of an endpoint.

use crate::json::{Json, JsonView, MemberView};
use vstd::prelude::*;
use vstd::utf8::encode_utf8;

verus! {

/// Where requests go when no other base is given.
pub const DEFAULT_BASE_URL: &'static str = "https://api.semanticscholar.org/graph/v1";

/// The bytes that percent-encoding leaves as they are: ASCII letters and
/// digits, `-`, `.`, `_` and `~`.
pub open spec fn is_unreserved(byte: u8) -> bool {
    ||| 0x30 <= byte <= 0x39
    ||| 0x41 <= byte <= 0x5a
    ||| 0x61 <= byte <= 0x7a
    ||| byte == 0x2d
    ||| byte == 0x2e
    ||| byte == 0x5f
    ||| byte == 0x7e
}

/// The upper-case hexadecimal digit of a value below sixteen.
pub open spec fn hex_digit(value: u8) -> char {
    if value < 10 {
        ((0x30 + value) as u8) as char
    } else {
        ((0x41 + value - 10) as u8) as char
    }
}

/// One byte, percent-encoded: itself where it is unreserved, else `%` and its
/// two hexadecimal digits.
pub open spec fn encoded_byte(byte: u8) -> Seq<char> {
    if is_unreserved(byte) {
        seq![byte as char]
    } else {
        seq!['%', hex_digit(byte / 16), hex_digit(byte % 16)]
    }
}

/// A run of bytes, percent-encoded byte by byte.
pub open spec fn encoded_bytes(bytes: Seq<u8>) -> Seq<char>
    decreases bytes.len(),
{
    if bytes.len() == 0 {
        Seq::empty()
    } else {
        encoded_bytes(bytes.drop_last()) + encoded_byte(bytes.last())
    }
}

/// A text, percent-encoded over its UTF-8 bytes.
pub open spec fn percent_encoded(text: Seq<char>) -> Seq<char> {
    encoded_bytes(encode_utf8(text))
}

/// The texts of `parts` in order, with `separator` between neighbours.
pub open spec fn joined(parts: Seq<Seq<char>>, separator: Seq<char>) -> Seq<char>
    decreases parts.len(),
{
    if parts.len() == 0 {
        Seq::empty()
    } else if parts.len() == 1 {
        parts[0]
    } else {
        joined(parts.drop_last(), separator) + separator + parts.last()
    }
}

/// The texts of the string elements of `items`, in order; elements of any
/// other kind are passed over.
pub open spec fn string_items(items: Seq<JsonView>) -> Seq<Seq<char>>
    decreases items.len(),
{
    if items.len() == 0 {
        Seq::empty()
    } else {
        let head = string_items(items.drop_last());
        match items.last() {
            JsonView::String(text) => head.push(text),
            _ => head,
        }
    }
}

/// How a parameter's value appears in a query string: a string
/// percent-encoded, a number and a boolean by their literal text, an array as
/// its string elements joined by commas and percent-encoded as one text.
/// `None` for a null and for an object, which do not appear.
pub open spec fn rendered_value(value: JsonView) -> Option<Seq<char>> {
    match value {
        JsonView::String(text) => Some(percent_encoded(text)),
        JsonView::Number(literal) => Some(literal),
        JsonView::Bool(flag) => Some(
            if flag {
                "true"@
            } else {
                "false"@
            },
        ),
        JsonView::Array(items) => Some(percent_encoded(joined(string_items(items), ","@))),
        JsonView::Null => None,
        JsonView::Object(_) => None,
    }
}

/// The `key=value` parts of the members that appear, in member order.
pub open spec fn query_parts(members: Seq<MemberView>) -> Seq<Seq<char>>
    decreases members.len(),
{
    if members.len() == 0 {
        Seq::empty()
    } else {
        let head = query_parts(members.drop_last());
        match rendered_value(members.last().value) {
            Some(text) => head.push(members.last().name + "="@ + text),
            None => head,
        }
    }
}

/// The query string of a parameter document: the parts of an object's
/// members joined by `&`, and the empty text for any other document.
pub open spec fn query_string(params: JsonView) -> Seq<char> {
    match params {
        JsonView::Object(members) => joined(query_parts(members), "&"@),
        _ => Seq::empty(),
    }
}

/// `urlencoding::encode`: every byte of the text's UTF-8 form is kept where
/// it is an ASCII letter, a digit, `-`, `.`, `_` or `~`, and otherwise
/// replaced by `%` and its two upper-case hexadecimal digits.
#[verifier::external_body]
fn percent_encode(text: &str) -> (encoded: String)
    ensures
        encoded@ == percent_encoded(text@),
{
    urlencoding::encode(text).into_owned()
}

/// What joining gains from one more part: the part alone where it is the
/// first, else the separator and the part after what was joined before.
proof fn lemma_joined_push(parts: Seq<Seq<char>>, part: Seq<char>, separator: Seq<char>)
    ensures
        joined(parts.push(part), separator) == if parts.len() == 0 {
            part
        } else {
            joined(parts, separator) + separator + part
        },
{
    assert(parts.push(part).drop_last() == parts);
}

/// The string elements of `items`, joined by commas.
fn join_string_items(items: &Vec<Json>, Ghost(views): Ghost<Seq<JsonView>>) -> (text: String)
    requires
        views.len() == items@.len(),
        forall|k: int| 0 <= k < items@.len() ==> views[k] == (#[trigger] items@[k])@,
    ensures
        text@ == joined(string_items(views), ","@),
{
    let mut text = String::new();
    let mut first = true;
    let mut i: usize = 0;
    while i < items.len()
        invariant
            i <= items.len(),
            views.len() == items@.len(),
            forall|k: int| 0 <= k < items@.len() ==> views[k] == (#[trigger] items@[k])@,
            text@ == joined(string_items(views.take(i as int)), ","@),
            first == (string_items(views.take(i as int)).len() == 0),
        decreases items.len() - i,
    {
        proof {
            assert(views.take(i + 1).drop_last() == views.take(i as int));
            assert(views[i as int] == items@[i as int]@);
        }
        match &items[i] {
            Json::String(item) => {
                proof {
                    lemma_joined_push(string_items(views.take(i as int)), item@, ","@);
                }
                if !first {
                    text.append(",");
                }
                text.append(item.as_str());
                first = false;
            },
            _ => {},
        }
        i += 1;
    }
    proof {
        assert(views.take(items.len() as int) == views);
    }
    text
}

/// The value of a parameter as it appears in a query string, if it appears.
fn render_value(value: &Json) -> (text: Option<String>)
    ensures
        text is Some <==> rendered_value(value@) is Some,
        text matches Some(t) ==> rendered_value(value@) == Some(t@),
{
    match value {
        Json::String(text) => Some(percent_encode(text.as_str())),
        Json::Number(literal) => Some(literal.clone()),
        Json::Bool(flag) => {
            if *flag {
                Some(String::from_str("true"))
            } else {
                Some(String::from_str("false"))
            }
        },
        Json::Array(items) => {
            let list = join_string_items(items, Ghost(value@->Array_0));
            Some(percent_encode(list.as_str()))
        },
        Json::Null => None,
        Json::Object(_) => None,
    }
}

/// Builds the query string of a parameter document. The members of an object
/// are taken in order, each as `key=value`, and joined by `&`: a string value
/// is percent-encoded, a number and a boolean appear by their literal text,
/// an array as its string elements joined by commas and percent-encoded as
/// one text; a null and a nested object are left out. The key is taken as it
/// is. A document that is no object gives the empty string.
pub fn build_query_string(params: &Json) -> (query: String)
    ensures
        query@ == query_string(params@),
{
    let mut query = String::new();
    match params {
        Json::Object(members) => {
            let ghost views = params@->Object_0;
            let mut first = true;
            let mut i: usize = 0;
            while i < members.len()
                invariant
                    i <= members.len(),
                    views.len() == members@.len(),
                    forall|k: int|
                        0 <= k < members@.len() ==> views[k] == (MemberView {
                            name: (#[trigger] members@[k]).0@,
                            value: members@[k].1@,
                        }),
                    query@ == joined(query_parts(views.take(i as int)), "&"@),
                    first == (query_parts(views.take(i as int)).len() == 0),
                decreases members.len() - i,
            {
                proof {
                    assert(views.take(i + 1).drop_last() == views.take(i as int));
                    assert(views[i as int].value == members@[i as int].1@);
                }
                match render_value(&members[i].1) {
                    Some(text) => {
                        proof {
                            lemma_joined_push(
                                query_parts(views.take(i as int)),
                                members@[i as int].0@ + "="@ + text@,
                                "&"@,
                            );
                        }
                        if !first {
                            query.append("&");
                        }
                        query.append(members[i].0.as_str());
                        query.append("=");
                        query.append(text.as_str());
                        first = false;
                    },
                    None => {},
                }
                i += 1;
            }
            proof {
                assert(views.take(members.len() as int) == views);
            }
        },
        _ => {},
    }
    query
}

/// The address of an endpoint: the base, the endpoint path and, where
/// parameters are given, `?` and their query string.
pub open spec fn url_of(base: Seq<char>, endpoint: Seq<char>, params: Option<JsonView>) -> Seq<
    char,
> {
    match params {
        Some(document) => base + endpoint + "?"@ + query_string(document),
        None => base + endpoint,
    }
}

/// Builds the address to request: `base_url`, or the default base where none
/// is given, followed by the endpoint path and, where parameters are given,
/// by `?` and their query string (also where that string is empty).
pub fn request_url(base_url: Option<&str>, endpoint: &str, params: Option<&Json>) -> (url: String)
    ensures
        url@ == url_of(
            match base_url {
                Some(base) => base@,
                None => DEFAULT_BASE_URL@,
            },
            endpoint@,
            match params {
                Some(document) => Some(document@),
                None => None,
            },
        ),
{
    let mut url = match base_url {
        Some(base) => String::from_str(base),
        None => String::from_str(DEFAULT_BASE_URL),
    };
    url.append(endpoint);
    match params {
        Some(document) => {
            let query = build_query_string(document);
            url.append("?");
            url.append(query.as_str());
        },
        None => {},
    }
    url
}

} // verus!
