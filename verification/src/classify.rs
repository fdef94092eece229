//! Header classification: which header values are logged, under which
//! attribute key, and how the credential header is redacted.

use crate::attributes::as_mapping;
use crate::attributes::has_key;
use crate::attributes::key_at;
use crate::attributes::lemma_mapping_at;
use crate::attributes::Attributes;
use crate::headers::field_view;
use crate::headers::fields_view;
use crate::headers::header_texts;
use crate::headers::header_pairs;
use crate::span::Span;
use crate::span::SpanView;
use crate::text::combine;
use crate::text::find_last;
use crate::text::optional_text;
use crate::text::same_text;
use crate::text::slice;
use http::HeaderMap;
use http::HeaderValue;
use vstd::prelude::*;

verus! {

/// A credential as it is logged: all of it up to and including its last
/// `.`, then the marker `REDACTED`. A credential without a `.` is not
/// logged at all.
pub open spec fn redacted(value: Seq<char>) -> Option<Seq<char>> {
    match value.index_of_last('.') {
        Some(dot) => Some(value.subrange(0, dot + 1) + "REDACTED"@),
        None => None,
    }
}

/// What is logged of one header value: nothing where it is not text, the
/// redacted form under the credential header, the text itself otherwise.
pub open spec fn logged_text(name: Seq<char>, text: Option<Seq<char>>) -> Option<Seq<char>> {
    match text {
        Some(text) => if name == "authorization"@ {
            redacted(text)
        } else {
            Some(text)
        },
        None => None,
    }
}

/// The logged values of the header `name`, in order.
pub open spec fn logged_values(fields: Seq<(Seq<char>, Option<Seq<char>>)>, name: Seq<char>) -> Seq<Seq<char>>
    decreases fields.len(),
{
    if fields.len() == 0 {
        Seq::empty()
    } else if fields.last().0 == name {
        match logged_text(name, fields.last().1) {
            Some(text) => logged_values(fields.drop_last(), name).push(text),
            None => logged_values(fields.drop_last(), name),
        }
    } else {
        logged_values(fields.drop_last(), name)
    }
}

/// Several values as one text, with a comma between neighbours.
pub open spec fn joined(values: Seq<Seq<char>>) -> Seq<char>
    decreases values.len(),
{
    if values.len() == 0 {
        Seq::empty()
    } else if values.len() == 1 {
        values.last()
    } else {
        joined(values.drop_last()) + ","@ + values.last()
    }
}

/// The logged headers by name: each name with at least one logged value,
/// mapped to those values joined.
pub open spec fn logged_by_name(fields: Seq<(Seq<char>, Option<Seq<char>>)>) -> Map<Seq<char>, Seq<char>> {
    Map::new(
        |name: Seq<char>| logged_values(fields, name).len() > 0,
        |name: Seq<char>| joined(logged_values(fields, name)),
    )
}

/// The attribute key of a header: the prefix, a dot, the header's name.
pub open spec fn attribute_key(prefix: Seq<char>, name: Seq<char>) -> Seq<char> {
    prefix + "."@ + name
}

/// The attributes that a header collection is logged as: one for each name
/// with at least one logged value, holding those values joined.
pub open spec fn header_attributes(fields: Seq<(Seq<char>, Option<Seq<char>>)>, prefix: Seq<char>) -> Map<Seq<char>, Seq<char>> {
    Map::new(
        |key: Seq<char>|
            exists|name: Seq<char>|
                key == attribute_key(prefix, name) && (#[trigger] logged_values(fields, name)).len()
                    > 0,
        |key: Seq<char>| joined(logged_values(fields, key.skip(prefix.len() as int + 1))),
    )
}

/// A key gives its header name back.
pub proof fn lemma_key_names(prefix: Seq<char>, name: Seq<char>)
    ensures
        attribute_key(prefix, name).skip(prefix.len() as int + 1) == name,
{
    reveal_strlit(".");
    assert(attribute_key(prefix, name).skip(prefix.len() as int + 1) =~= name);
}

/// What one more field adds to the logged values of a name.
proof fn lemma_logged_next(fields: Seq<(Seq<char>, Option<Seq<char>>)>, upto: int, name: Seq<char>)
    requires
        0 <= upto < fields.len(),
    ensures
        logged_values(fields.take(upto + 1), name) == (if fields[upto].0 == name {
            match logged_text(name, fields[upto].1) {
                Some(text) => logged_values(fields.take(upto), name).push(text),
                None => logged_values(fields.take(upto), name),
            }
        } else {
            logged_values(fields.take(upto), name)
        }),
{
    assert(fields.take(upto + 1).drop_last() =~= fields.take(upto));
    assert(fields.take(upto + 1).last() == fields[upto]);
}

/// A credential without a `.` is never logged: where no text held under the
/// credential header has a `.`, the logged attributes have no entry for it.
pub proof fn lemma_plain_credential_dropped(fields: Seq<(Seq<char>, Option<Seq<char>>)>, prefix: Seq<char>)
    requires
        forall|i: int|
            0 <= i < fields.len() && (#[trigger] fields[i]).0 == "authorization"@ ==> (
            match fields[i].1 {
                Some(text) => !text.contains('.'),
                None => true,
            }),
    ensures
        logged_values(fields, "authorization"@).len() == 0,
        !header_attributes(fields, prefix).contains_key(attribute_key(prefix, "authorization"@)),
    decreases fields.len(),
{
    if fields.len() > 0 {
        let earlier = fields.drop_last();
        assert forall|i: int|
            0 <= i < earlier.len() && (#[trigger] earlier[i]).0 == "authorization"@ implies (
        match earlier[i].1 {
            Some(text) => !text.contains('.'),
            None => true,
        }) by {
            assert(earlier[i] == fields[i]);
        }
        lemma_plain_credential_dropped(earlier, prefix);
        let last = fields[fields.len() - 1];
        if last.0 == "authorization"@ {
            match last.1 {
                Some(text) => {
                    text.index_of_last_ensures('.');
                },
                None => {},
            }
        }
    }
    let key = attribute_key(prefix, "authorization"@);
    if header_attributes(fields, prefix).contains_key(key) {
        let name = choose|name: Seq<char>|
            key == attribute_key(prefix, name) && (#[trigger] logged_values(fields, name)).len()
                > 0;
        lemma_key_names(prefix, name);
        lemma_key_names(prefix, "authorization"@);
    }
}

/// Two values of one header are logged as the first, a comma, the second.
pub proof fn lemma_joined_pair(first: Seq<char>, second: Seq<char>)
    ensures
        joined(seq![first, second]) == first + ","@ + second,
{
    let both = seq![first, second];
    assert(both.drop_last() =~= seq![first]);
    assert(joined(seq![first]) == first);
}

/// Redacts a credential, if it has a `.` to cut after.
fn redact(value: &str) -> (shown: Option<String>)
    ensures
        optional_text(shown) == redacted(value@),
{
    match find_last(value, '.') {
        Some(dot) => {
            let end = value.unicode_len();
            let mut shown = slice(value, 0, dot + 1);
            shown.append("REDACTED");
            Some(shown)
        },
        None => None,
    }
}

/// What is logged of one value of the header `name`.
fn logged(name: &str, text: &Option<String>) -> (shown: Option<String>)
    ensures
        optional_text(shown) == logged_text(name@, optional_text(*text)),
{
    match text {
        Some(text) => {
            if same_text(name, "authorization") {
                redact(text.as_str())
            } else {
                Some(text.clone())
            }
        },
        None => None,
    }
}

/// Joins the logged values of each header name, first to last.
fn group_fields(fields: &Vec<(String, Option<String>)>) -> (groups: Attributes)
    ensures
        groups@ == logged_by_name(fields_view(fields@)),
{
    let ghost all = fields_view(fields@);
    let mut groups = Attributes::new();
    let mut at: usize = 0;
    proof {
        assert(all.take(0) =~= Seq::empty());
        assert(groups@ =~= logged_by_name(all.take(0)));
    }
    while at < fields.len()
        invariant
            at <= fields@.len(),
            all == fields_view(fields@),
            groups@ == logged_by_name(all.take(at as int)),
        decreases fields@.len() - at,
    {
        let ghost seen = all.take(at as int);
        let ghost next = all.take(at as int + 1);
        let name = fields[at].0.as_str();
        proof {
            assert(all[at as int] == field_view(fields@[at as int]));
            assert forall|other: Seq<char>| true implies #[trigger] logged_values(next, other) == (
            if all[at as int].0 == other {
                match logged_text(other, all[at as int].1) {
                    Some(text) => logged_values(seen, other).push(text),
                    None => logged_values(seen, other),
                }
            } else {
                logged_values(seen, other)
            }) by {
                lemma_logged_next(all, at as int, other);
            }
        }
        match logged(name, &fields[at].1) {
            Some(shown) => {
                let value = match groups.get(name) {
                    Some(earlier) => {
                        let mut value = earlier;
                        value.append(",");
                        value.append(shown.as_str());
                        value
                    },
                    None => shown,
                };
                proof {
                    let values = logged_values(next, name@);
                    assert(values.drop_last() =~= logged_values(seen, name@));
                    assert(value@ == joined(values));
                }
                groups.set(name.to_owned(), value);
            },
            None => {},
        }
        proof {
            assert(groups@ =~= logged_by_name(next));
        }
        at = at + 1;
    }
    proof {
        assert(all.take(at as int) =~= all);
    }
    groups
}

/// The logged attributes of a header collection, one for each header name
/// that has a logged value, keyed by `prefix`, a dot and the name.
pub fn logged_headers(headers: &HeaderMap<HeaderValue>, prefix: &str) -> (logged: Attributes)
    ensures
        logged@ == header_attributes(header_texts(*headers), prefix@),
{
    let fields = header_pairs(headers);
    let groups = group_fields(&fields);
    let names = groups.entries();
    let ghost all = header_texts(*headers);
    let ghost wanted = header_attributes(all, prefix@);
    proof {
        assert forall|j: int| 0 <= j < names@.len() implies logged_values(
            all,
            #[trigger] key_at(names@, j),
        ).len() > 0 && names@[j].value@ == joined(logged_values(all, key_at(names@, j))) by {
            lemma_mapping_at(names@, j);
        }
    }
    let mut logged = Attributes::new();
    let mut at: usize = 0;
    while at < names.len()
        invariant
            at <= names@.len(),
            forall|key: Seq<char>|
                logged@.contains_key(key) <==> exists|j: int|
                    0 <= j < at && key == attribute_key(prefix@, #[trigger] key_at(names@, j)),
            forall|j: int|
                0 <= j < at ==> logged@[attribute_key(prefix@, #[trigger] key_at(names@, j))]
                    == names@[j].value@,
            forall|i: int, j: int|
                0 <= i < names@.len() && 0 <= j < names@.len() && i != j ==> key_at(names@, i)
                    != key_at(names@, j),
        decreases names@.len() - at,
    {
        let ghost before = logged@;
        let mut key = combine(prefix, ".");
        key.append(names[at].key.as_str());
        logged.set(key, names[at].value.clone());
        proof {
            let new_key = attribute_key(prefix@, key_at(names@, at as int));
            assert(key@ =~= new_key);
            assert forall|j: int| 0 <= j < at implies attribute_key(
                prefix@,
                #[trigger] key_at(names@, j),
            ) != new_key by {
                lemma_key_names(prefix@, key_at(names@, j));
                lemma_key_names(prefix@, key_at(names@, at as int));
            }
            assert forall|other: Seq<char>|
                logged@.contains_key(other) <==> exists|j: int|
                    0 <= j < at + 1 && other == attribute_key(
                        prefix@,
                        #[trigger] key_at(names@, j),
                    ) by {
                if before.contains_key(other) {
                    let j = choose|j: int|
                        0 <= j < at && other == attribute_key(
                            prefix@,
                            #[trigger] key_at(names@, j),
                        );
                    assert(0 <= j < at + 1 && other == attribute_key(prefix@, key_at(names@, j)));
                }
                if other == new_key {
                    assert(0 <= at < at + 1 && other == attribute_key(
                        prefix@,
                        key_at(names@, at as int),
                    ));
                }
            }
        }
        at = at + 1;
    }
    proof {
        assert forall|key: Seq<char>| logged@.contains_key(key) <==> wanted.contains_key(key) by {
            if logged@.contains_key(key) {
                let j = choose|j: int|
                    0 <= j < at && key == attribute_key(prefix@, #[trigger] key_at(names@, j));
                assert(logged_values(all, key_at(names@, j)).len() > 0);
            }
            if wanted.contains_key(key) {
                let name = choose|name: Seq<char>|
                    key == attribute_key(prefix@, name) && (#[trigger] logged_values(
                        all,
                        name,
                    )).len() > 0;
                assert(as_mapping(names@).contains_key(name));
                assert(has_key(names@, name));
                let j = choose|j: int| 0 <= j < names@.len() && key_at(names@, j) == name;
                assert(key == attribute_key(prefix@, key_at(names@, j)));
            }
        }
        assert forall|key: Seq<char>| logged@.contains_key(key) implies #[trigger] logged@[key]
            == wanted[key] by {
            let j = choose|j: int|
                0 <= j < at && key == attribute_key(prefix@, #[trigger] key_at(names@, j));
            lemma_key_names(prefix@, key_at(names@, j));
        }
        assert(logged@ =~= wanted);
    }
    logged
}

/// Logs a header collection onto a span: each logged attribute of the
/// collection is set on the span, in place of a value that the span had
/// under the same key. Nothing else of the span changes.
pub fn map_and_log_headers(span: &mut Span, headers: &HeaderMap<HeaderValue>, header_name_prefix: &str)
    ensures
        final(span)@ == (SpanView {
            attributes: old(span)@.attributes.union_prefer_right(
                header_attributes(header_texts(*headers), header_name_prefix@),
            ),
            ..old(span)@
        }),
{
    let logged = logged_headers(headers, header_name_prefix);
    span.attributes.merge(&logged);
}

} // verus!
