//! Header fields of the `http` crate.
use http::header::{HeaderMap, HeaderName, HeaderValue};

use vstd::prelude::*;
use vstd::utf8::encode_utf8;

verus! {

/// The header fields of a message, from the `http` crate.
#[verifier::external_type_specification]
#[verifier::external_body]
#[verifier::reject_recursive_types(T)]
pub struct ExHeaderMap<T>(http::HeaderMap<T>);

/// The value of a header field, from the `http` crate.
#[verifier::external_type_specification]
#[verifier::external_body]
pub struct ExHeaderValue(http::HeaderValue);

/// The fields of a message, as names with values, in the order of iteration.
pub uninterp spec fn header_fields(headers: HeaderMap) -> Seq<(Seq<u8>, Seq<u8>)>;

/// Whether a byte may stand in the lower-case name of a field.
pub open spec fn is_name_byte(byte: u8) -> bool {
    ||| 97 <= byte <= 122
    ||| 48 <= byte <= 57
    ||| byte == 33
    ||| 35 <= byte <= 39
    ||| byte == 42
    ||| byte == 43
    ||| byte == 45
    ||| byte == 46
    ||| 94 <= byte <= 96
    ||| byte == 124
    ||| byte == 126
}

/// Whether bytes are the lower-case name of a field.
pub open spec fn is_field_name(name: Seq<u8>) -> bool {
    &&& 0 < name.len() <= 65535
    &&& forall|i: int| 0 <= i < name.len() ==> is_name_byte(#[trigger] name[i])
}

/// Whether a byte may stand in the value of a field.
pub open spec fn is_value_byte(byte: u8) -> bool {
    (byte >= 32 && byte != 127) || byte == 9
}

/// Whether bytes are the value of a field.
pub open spec fn is_field_value(value: Seq<u8>) -> bool {
    forall|i: int| 0 <= i < value.len() ==> is_value_byte(#[trigger] value[i])
}

/// The value of the first field called `name`.
pub open spec fn first_value(fields: Seq<(Seq<u8>, Seq<u8>)>, name: Seq<u8>) -> Option<Seq<u8>>
    decreases fields.len(),
{
    if fields.len() == 0 {
        None
    } else if fields[0].0 == name {
        Some(fields[0].1)
    } else {
        first_value(fields.skip(1), name)
    }
}

/// How many fields always have room for one more.
pub open spec fn roomy_fields() -> nat {
    6553
}

/// `HeaderMap::new` makes a map without fields.
#[verifier::external_body]
pub(crate) fn no_headers() -> (headers: HeaderMap)
    ensures
        header_fields(headers) == Seq::<(Seq<u8>, Seq<u8>)>::empty(),
{
    HeaderMap::new()
}

/// `HeaderMap::len` counts the fields.
#[verifier::external_body]
pub(crate) fn header_count(headers: &HeaderMap) -> (count: usize)
    ensures
        count == header_fields(*headers).len(),
{
    headers.len()
}

/// `HeaderMap::iter` walks the fields; what is kept of each is how long its name
/// and its value are.
#[verifier::external_body]
pub(crate) fn header_lengths(headers: &HeaderMap) -> (lengths: Vec<(usize, usize)>)
    ensures
        lengths@.len() == header_fields(*headers).len(),
        forall|i: int|
            0 <= i < lengths@.len() ==> (#[trigger] lengths@[i]).0 == header_fields(
                *headers,
            )[i].0.len() && lengths@[i].1 == header_fields(*headers)[i].1.len(),
{
    headers.iter().map(|(name, value)| (name.as_str().len(), value.as_bytes().len())).collect()
}

/// `HeaderMap::get` finds the value of the first field with a name.
#[verifier::external_body]
pub(crate) fn header_value<'a>(headers: &'a HeaderMap, name: &str) -> (value: Option<&'a [u8]>)
    requires
        is_field_name(encode_utf8(name@)),
    ensures
        match value {
            Some(value) => first_value(header_fields(*headers), encode_utf8(name@)) == Some(value@),
            None => first_value(header_fields(*headers), encode_utf8(name@)) is None,
        },
{
    match headers.get(name) {
        Some(value) => Some(value.as_bytes()),
        None => None,
    }
}

/// `HeaderMap::insert` with a name that no field has yet adds a field behind the
/// others. It panics where the map cannot grow, which a map of this size can.
#[verifier::external_body]
pub(crate) fn add_header(headers: &mut HeaderMap, name: &str, value: &[u8])
    requires
        is_field_name(encode_utf8(name@)),
        is_field_value(value@),
        first_value(header_fields(*old(headers)), encode_utf8(name@)) is None,
        header_fields(*old(headers)).len() <= roomy_fields(),
    ensures
        header_fields(*final(headers)) == header_fields(*old(headers)).push(
            (encode_utf8(name@), value@),
        ),
{
    if let (Ok(name), Ok(value)) = (
        HeaderName::from_bytes(name.as_bytes()),
        HeaderValue::from_bytes(value),
    ) {
        headers.insert(name, value);
    }
}

/// The bytes of an ASCII text are its characters.
pub proof fn lemma_ascii_bytes(text: Seq<char>)
    requires
        forall|i: int| 0 <= i < text.len() ==> '\0' <= #[trigger] text[i] <= '\u{7f}',
    ensures
        encode_utf8(text).len() == text.len(),
        forall|i: int| 0 <= i < text.len() ==> #[trigger] encode_utf8(text)[i] == text[i] as u8,
{
    vstd::utf8::is_ascii_chars_encode_utf8(text);
}

/// The names that are looked up are names of fields.
pub proof fn lemma_known_names()
    ensures
        is_field_name(encode_utf8("host"@)),
        is_field_name(encode_utf8("forwarded"@)),
        is_field_name(encode_utf8("x-forwarded-for"@)),
{
    reveal_strlit("host");
    lemma_ascii_bytes("host"@);
    reveal_strlit("forwarded");
    lemma_ascii_bytes("forwarded"@);
    reveal_strlit("x-forwarded-for");
    lemma_ascii_bytes("x-forwarded-for"@);
}

} // verus!
