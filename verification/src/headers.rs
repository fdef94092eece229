//! The header collection, and the few operations through which the library
//! reads and writes it.
//!
//! A header collection is `http::HeaderMap`. What it holds is modelled as
//! the sequence of its fields in the order in which one walk yields them.
//! A field is a header name, always in its canonical lower-case form, and
//! the bytes of one value. A value is text where all its bytes are visible
//! ASCII; only then is it read, and logged, as text.

use http::HeaderMap;
use http::HeaderValue;
use opentelemetry_http::HeaderInjector;
use vstd::prelude::*;
use vstd::seq_lib::seq_to_set_is_finite;
use vstd::utf8::encode_utf8;
use vstd::utf8::is_ascii_chars;
use vstd::utf8::is_ascii_chars_encode_utf8;

verus! {

#[verifier::external_type_specification]
#[verifier::external_body]
#[verifier::reject_recursive_types(T)]
pub struct ExHeaderMap<T>(HeaderMap<T>);

#[verifier::external_type_specification]
#[verifier::external_body]
pub struct ExHeaderValue(HeaderValue);

/// The fields of a header collection, as one walk over it yields them: each
/// name once per value, with the bytes of that value.
pub uninterp spec fn header_fields(headers: HeaderMap<HeaderValue>) -> Seq<(Seq<char>, Seq<u8>)>;

/// What `HeaderInjector::set` keeps of a name and a value: the canonical name
/// and the bytes of the value, or `None` where it rejects either and stores
/// nothing.
pub uninterp spec fn injected_field(name: Seq<char>, value: Seq<char>) -> Option<(Seq<char>, Seq<u8>)>;

/// The number of distinct names from which a collection may refuse to grow.
///
/// `HeaderMap::insert` panics when its table of slots cannot grow. A table
/// has at most 32768 slots. Once the collection has met many collisions,
/// `try_reserve_one` asks for a table twice as large as soon as five times
/// the number of names reaches the number of slots; with the largest table
/// that is at 6554 names, and nothing in `insert` fails below that. Every
/// test it makes is on the number of names: values beyond the first of a
/// name take no slot. The library writes into a collection only while it
/// holds fewer names than this.
pub const NAME_LIMIT: usize = 6554;

/// Whether a byte is visible ASCII or a tab: what `HeaderValue::to_str` takes
/// for text.
pub open spec fn visible(byte: u8) -> bool {
    (32 <= byte && byte < 127) || byte == 9
}

/// The text of a value, as `HeaderValue::to_str` gives it: the characters
/// that its bytes stand for where every byte is visible, and none otherwise.
pub open spec fn value_text(bytes: Seq<u8>) -> Option<Seq<char>> {
    if forall|i: int| 0 <= i < bytes.len() ==> visible(#[trigger] bytes[i]) {
        Some(Seq::new(bytes.len(), |i: int| bytes[i] as char))
    } else {
        None
    }
}

/// The fields with each value as it is read: its text, or `None`.
pub open spec fn texts_of(fields: Seq<(Seq<char>, Seq<u8>)>) -> Seq<(Seq<char>, Option<Seq<char>>)> {
    Seq::new(fields.len(), |i: int| (fields[i].0, value_text(fields[i].1)))
}

/// The fields of a header collection as they are read: each name once per
/// value, with the value's text where it has one.
pub open spec fn header_texts(headers: HeaderMap<HeaderValue>) -> Seq<(Seq<char>, Option<Seq<char>>)> {
    texts_of(header_fields(headers))
}

/// Whether a name is made of lower-case letters, digits and hyphens alone,
/// and is short enough for the collection to take it as it stands.
pub open spec fn plain_name(name: Seq<char>) -> bool {
    &&& 0 < name.len() <= 64
    &&& forall|i: int|
        0 <= i < name.len() ==> ('a' <= #[trigger] name[i] && name[i] <= 'z') || ('0' <= name[i]
            && name[i] <= '9') || name[i] == '-'
}

/// Whether every character of a text is visible ASCII or a tab.
pub open spec fn visible_text(text: Seq<char>) -> bool {
    forall|i: int| 0 <= i < text.len() ==> (' ' <= #[trigger] text[i] && text[i] <= '~') || text[i] == '\t'
}

/// The mathematical value of what a lookup found: nothing, a value that is
/// not text, or a text.
pub open spec fn lookup_view(found: Option<Option<String>>) -> Option<Option<Seq<char>>> {
    match found {
        Some(Some(text)) => Some(Some(text@)),
        Some(None) => Some(None),
        None => None,
    }
}

/// The mathematical value of one field handed out as owned text.
pub open spec fn field_view(field: (String, Option<String>)) -> (Seq<char>, Option<Seq<char>>) {
    (
        field.0@,
        match field.1 {
            Some(text) => Some(text@),
            None => None,
        },
    )
}

/// The mathematical value of a list of fields.
pub open spec fn fields_view(fields: Seq<(String, Option<String>)>) -> Seq<(Seq<char>, Option<Seq<char>>)> {
    Seq::new(fields.len(), |i: int| field_view(fields[i]))
}

/// Whether some field carries `name`.
pub open spec fn has_name(fields: Seq<(Seq<char>, Seq<u8>)>, name: Seq<char>) -> bool {
    exists|i: int| 0 <= i < fields.len() && (#[trigger] fields[i]).0 == name
}

/// The values that `fields` holds under `name`, in order.
pub open spec fn values_of(fields: Seq<(Seq<char>, Seq<u8>)>, name: Seq<char>) -> Seq<Seq<u8>>
    decreases fields.len(),
{
    if fields.len() == 0 {
        Seq::empty()
    } else if fields.last().0 == name {
        values_of(fields.drop_last(), name).push(fields.last().1)
    } else {
        values_of(fields.drop_last(), name)
    }
}

/// The first value that `fields` holds under `name`, if it holds any.
pub open spec fn first_value(fields: Seq<(Seq<char>, Option<Seq<char>>)>, name: Seq<char>) -> Option<Option<Seq<char>>>
    decreases fields.len(),
{
    if fields.len() == 0 {
        None
    } else if fields.first().0 == name {
        Some(fields.first().1)
    } else {
        first_value(fields.drop_first(), name)
    }
}

/// A header collection as a mapping from each name it holds to the bytes of
/// that name's values, in order.
pub open spec fn by_name(fields: Seq<(Seq<char>, Seq<u8>)>) -> Map<Seq<char>, Seq<Seq<u8>>> {
    Map::new(|name: Seq<char>| has_name(fields, name), |name: Seq<char>| values_of(fields, name))
}

/// What is kept of a field that is written. A plain name with a value of
/// visible text is kept as it stands, the value as the bytes that encode it;
/// for any other field the collection's own parsing decides.
pub open spec fn kept_field(name: Seq<char>, value: Seq<char>) -> Option<(Seq<char>, Seq<u8>)> {
    if plain_name(name) && visible_text(value) {
        Some((name, encode_utf8(value)))
    } else {
        injected_field(name, value)
    }
}

/// The mapping after one field was written: the name it is kept under holds
/// the new value alone, and every other name is as before. A rejected field
/// changes nothing.
pub open spec fn written(before: Map<Seq<char>, Seq<Seq<u8>>>, name: Seq<char>, value: Seq<char>) -> Map<
    Seq<char>,
    Seq<Seq<u8>>,
> {
    match kept_field(name, value) {
        Some((kept_name, bytes)) => before.insert(kept_name, seq![bytes]),
        None => before,
    }
}

/// A collection holds finitely many names.
pub proof fn lemma_names_finite(fields: Seq<(Seq<char>, Seq<u8>)>)
    ensures
        by_name(fields).dom().finite(),
{
    let names = fields.map_values(|field: (Seq<char>, Seq<u8>)| field.0);
    seq_to_set_is_finite(names);
    assert forall|name: Seq<char>| by_name(fields).dom().contains(name) <==> names.to_set().contains(
        name,
    ) by {
        if has_name(fields, name) {
            let i = choose|i: int| 0 <= i < fields.len() && (#[trigger] fields[i]).0 == name;
            assert(names[i] == name);
        }
        if names.contains(name) {
            let i = choose|i: int| 0 <= i < names.len() && names[i] == name;
            assert(fields[i].0 == name);
        }
    }
    assert(by_name(fields).dom() =~= names.to_set());
}

/// A visible text that was written is read back as that text.
pub proof fn lemma_visible_text_read_back(text: Seq<char>)
    requires
        visible_text(text),
    ensures
        value_text(encode_utf8(text)) == Some(text),
{
    assert(is_ascii_chars(text));
    is_ascii_chars_encode_utf8(text);
    let bytes = encode_utf8(text);
    assert forall|i: int| 0 <= i < bytes.len() implies visible(#[trigger] bytes[i]) by {
        assert(text[i] as u8 == bytes[i]);
    }
    assert(Seq::new(bytes.len(), |i: int| bytes[i] as char) =~= text) by {
        assert forall|i: int| 0 <= i < bytes.len() implies bytes[i] as char == text[i] by {
            assert(text[i] as u8 == bytes[i]);
        }
    }
}

/// Hands out every field of the collection, by `HeaderMap::iter`, with
/// `HeaderName::as_str` for the name and `HeaderValue::to_str` for the text.
/// The result is the collection's fields in walking order, each value as
/// text where all its bytes are visible and as `None` otherwise.
#[verifier::external_body]
pub(crate) fn header_pairs(headers: &HeaderMap<HeaderValue>) -> (pairs: Vec<(String, Option<String>)>)
    ensures
        fields_view(pairs@) == header_texts(*headers),
{
    headers
        .iter()
        .map(|(name, value)| (name.as_str().to_owned(), value.to_str().ok().map(|text| text.to_owned())))
        .collect()
}

/// The number of distinct names, by `HeaderMap::keys_len`.
#[verifier::external_body]
pub(crate) fn name_count(headers: &HeaderMap<HeaderValue>) -> (count: usize)
    ensures
        count == by_name(header_fields(*headers)).dom().len(),
{
    headers.keys_len()
}

/// Writes one field by `HeaderInjector::set`, which parses the name and the
/// value and, where both are accepted, calls `HeaderMap::insert`: the name
/// then holds the new value alone and all it held before is gone, while
/// every other name keeps its values byte for byte. A plain name is accepted
/// and kept as it stands, and so is a value of visible text, as the bytes
/// that encode it.
#[verifier::external_body]
pub(crate) fn store_header(headers: &mut HeaderMap<HeaderValue>, name: &str, value: &str)
    requires
        by_name(header_fields(*old(headers))).dom().len() < NAME_LIMIT,
    ensures
        by_name(header_fields(*final(headers))) == (match injected_field(name@, value@) {
            Some((kept_name, bytes)) => by_name(header_fields(*old(headers))).insert(
                kept_name,
                seq![bytes],
            ),
            None => by_name(header_fields(*old(headers))),
        }),
        plain_name(name@) && visible_text(value@) ==> by_name(header_fields(*final(headers)))
            == by_name(header_fields(*old(headers))).insert(name@, seq![encode_utf8(value@)]),
{
    let mut injector = HeaderInjector(headers);
    opentelemetry::propagation::Injector::set(&mut injector, name, value.to_owned());
}

/// The first value held under `name`, by `HeaderMap::get`, with
/// `HeaderValue::to_str` for its text. For a name of lower-case letters,
/// digits and hyphens, which is the form in which the collection keeps
/// names, `get` looks for exactly that name and returns the value that a
/// walk yields first under it.
#[verifier::external_body]
pub(crate) fn header_value(headers: &HeaderMap<HeaderValue>, name: &str) -> (found: Option<Option<String>>)
    requires
        plain_name(name@),
    ensures
        lookup_view(found) == first_value(header_texts(*headers), name@),
{
    headers.get(name).map(|value| value.to_str().ok().map(|text| text.to_owned()))
}

} // verus!
