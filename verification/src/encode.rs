//! Texts inside URLs and JSON.
use crate::content::slug::is_alnum;
use crate::text::{pairs, split};
use vstd::prelude::*;
use vstd::utf8::encode_utf8;

verus! {

/// A digit of base sixteen, in upper case.
pub open spec fn hex_digit(n: u8) -> char {
    if n < 10 {
        ('0' as u8 + n) as char
    } else {
        ('A' as u8 + (n - 10)) as char
    }
}

/// What stands in a URL for one byte: a letter, a digit and `-`, `_`, `.`, `~`
/// stand for themselves, any other byte is spelled in base sixteen.
pub open spec fn percent_byte(b: u8) -> Seq<char> {
    let c = b as char;
    if b < 128 && (is_alnum(c) || c == '-' || c == '_' || c == '.' || c == '~') {
        seq![c]
    } else {
        seq!['%', hex_digit(b / 16), hex_digit(b % 16)]
    }
}

/// What stands in a URL for bytes.
pub open spec fn percent_bytes(bytes: Seq<u8>) -> Seq<char>
    decreases bytes.len(),
{
    if bytes.len() == 0 {
        Seq::empty()
    } else {
        percent_bytes(bytes.drop_last()) + percent_byte(bytes.last())
    }
}

/// What stands in a URL for a text.
pub open spec fn percent(s: Seq<char>) -> Seq<char> {
    percent_bytes(encode_utf8(s))
}

/// `urlencoding::encode`: every byte of the text's UTF-8 but letters, digits
/// and `-`, `_`, `.`, `~` is percent-encoded.
#[verifier::external_body]
pub(crate) fn url_encode(s: &str) -> (r: String)
    ensures
        r@ == percent(s@),
{
    urlencoding::encode(s).into_owned()
}

/// The names and values in a query, decoded, in order.
pub uninterp spec fn form_pairs(query: Seq<char>) -> Seq<(Seq<char>, Seq<char>)>;

/// The names among pairs.
pub open spec fn names(pairs: Seq<(Seq<char>, Seq<char>)>) -> Seq<Seq<char>> {
    pairs.map_values(|p: (Seq<char>, Seq<char>)| p.0)
}

/// The names in a query as they stand: what is before the `=` in each of its
/// parts that is not empty.
pub open spec fn plain_names(query: Seq<char>) -> Seq<Seq<char>> {
    split(query, '&').filter(|p: Seq<char>| p.len() > 0).map_values(
        |p: Seq<char>| split(p, '=')[0],
    )
}

/// `url::form_urlencoded::parse`: the names and values in a query, decoded, a
/// function of the query. The names in one without `%` and `+` are as they stand.
#[verifier::external_body]
pub(crate) fn read_form(query: &str) -> (r: Vec<(String, String)>)
    ensures
        pairs(r@) == form_pairs(query@),
        !query@.contains('%') && !query@.contains('+') ==> names(pairs(r@)) == plain_names(query@),
{
    url::form_urlencoded::parse(query.as_bytes()).into_owned().collect()
}

/// A digit of base sixteen, in lower case.
pub open spec fn low_hex_digit(n: u8) -> char {
    if n < 10 {
        ('0' as u8 + n) as char
    } else {
        ('a' as u8 + (n - 10)) as char
    }
}

/// What stands in a JSON string for one character: a quote, a backslash and the
/// control characters are escaped, those with a short form by it; any other
/// character stands for itself.
pub open spec fn json_char(c: char) -> Seq<char> {
    let n = c as u32;
    if c == '"' || c == '\\' {
        seq!['\\', c]
    } else if n == 8 {
        seq!['\\', 'b']
    } else if n == 9 {
        seq!['\\', 't']
    } else if n == 10 {
        seq!['\\', 'n']
    } else if n == 12 {
        seq!['\\', 'f']
    } else if n == 13 {
        seq!['\\', 'r']
    } else if n < 32 {
        seq!['\\', 'u', '0', '0', low_hex_digit((n / 16) as u8), low_hex_digit((n % 16) as u8)]
    } else {
        seq![c]
    }
}

/// What stands between the quotes of a JSON string.
pub open spec fn json_chars(s: Seq<char>) -> Seq<char>
    decreases s.len(),
{
    if s.len() == 0 {
        Seq::empty()
    } else {
        json_chars(s.drop_last()) + json_char(s.last())
    }
}

/// A text as a JSON string, with its quotes.
pub open spec fn json_string(s: Seq<char>) -> Seq<char> {
    seq!['"'] + json_chars(s) + seq!['"']
}

/// `serde_json::Value::String` as text: the text in quotes, with quotes,
/// backslashes and control characters escaped.
#[verifier::external_body]
pub(crate) fn json_quote(s: &str) -> (r: String)
    ensures
        r@ == json_string(s@),
{
    serde_json::Value::String(s.to_owned()).to_string()
}

} // verus!
