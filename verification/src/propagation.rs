//! Writing the propagation fields of a trace context into response headers.
//!
//! The propagator itself is a capability of the caller: it turns a trace
//! context into fields, each a header name and a value. This module writes
//! such fields into a header collection so that a field replaces what the
//! collection held under its name.

use crate::headers::by_name;
use crate::headers::header_fields;
use crate::headers::kept_field;
use crate::headers::lemma_names_finite;
use crate::headers::lemma_visible_text_read_back;
use crate::headers::name_count;
use crate::headers::plain_name;
use crate::headers::store_header;
use crate::headers::value_text;
use crate::headers::visible_text;
use crate::headers::written;
use crate::headers::NAME_LIMIT;
use http::HeaderMap;
use http::HeaderValue;
use vstd::prelude::*;
use vstd::utf8::encode_utf8;

verus! {

/// The mathematical value of a list of propagation fields.
pub open spec fn texts_view(fields: Seq<(String, String)>) -> Seq<(Seq<char>, Seq<char>)> {
    Seq::new(fields.len(), |i: int| (fields[i].0@, fields[i].1@))
}

/// Whether a collection can take one more write: it holds fewer distinct
/// names than the number from which it may refuse to grow.
pub open spec fn has_room(held: Map<Seq<char>, Seq<Seq<u8>>>) -> bool {
    held.dom().len() < NAME_LIMIT
}

/// The mapping after an injection: the fields are written first to last,
/// each one if the collection has room at that moment.
pub open spec fn written_within(before: Map<Seq<char>, Seq<Seq<u8>>>, fields: Seq<(Seq<char>, Seq<char>)>) -> Map<
    Seq<char>,
    Seq<Seq<u8>>,
>
    decreases fields.len(),
{
    if fields.len() == 0 {
        before
    } else {
        let earlier = written_within(before, fields.drop_last());
        if has_room(earlier) {
            written(earlier, fields.last().0, fields.last().1)
        } else {
            earlier
        }
    }
}

/// Whether every one of the fields finds room when its turn comes.
pub open spec fn all_within(before: Map<Seq<char>, Seq<Seq<u8>>>, fields: Seq<(Seq<char>, Seq<char>)>) -> bool
    decreases fields.len(),
{
    if fields.len() == 0 {
        true
    } else {
        all_within(before, fields.drop_last()) && has_room(
            written_within(before, fields.drop_last()),
        )
    }
}

/// The mapping after all of `fields` were written, first to last.
pub open spec fn written_all(before: Map<Seq<char>, Seq<Seq<u8>>>, fields: Seq<(Seq<char>, Seq<char>)>) -> Map<
    Seq<char>,
    Seq<Seq<u8>>,
>
    decreases fields.len(),
{
    if fields.len() == 0 {
        before
    } else {
        written(written_all(before, fields.drop_last()), fields.last().0, fields.last().1)
    }
}

/// The value last written under `name` by `fields`, if any of them is kept
/// under that name.
pub open spec fn last_written(fields: Seq<(Seq<char>, Seq<char>)>, name: Seq<char>) -> Option<Seq<u8>>
    decreases fields.len(),
{
    if fields.len() == 0 {
        None
    } else {
        match kept_field(fields.last().0, fields.last().1) {
            Some((kept_name, bytes)) => if kept_name == name {
                Some(bytes)
            } else {
                last_written(fields.drop_last(), name)
            },
            None => last_written(fields.drop_last(), name),
        }
    }
}

/// Whether the field at position `at` is kept under `name`.
pub open spec fn kept_under(fields: Seq<(Seq<char>, Seq<char>)>, at: int, name: Seq<char>) -> bool {
    match kept_field(fields[at].0, fields[at].1) {
        Some((kept_name, _)) => kept_name == name,
        None => false,
    }
}

/// After the fields were written, a name that one of them is kept under
/// holds the last such value alone, and every other name is as before.
pub proof fn lemma_written_all(
    before: Map<Seq<char>, Seq<Seq<u8>>>,
    fields: Seq<(Seq<char>, Seq<char>)>,
    name: Seq<char>,
)
    ensures
        written_all(before, fields).contains_key(name) <==> before.contains_key(name)
            || last_written(fields, name) is Some,
        written_all(before, fields).contains_key(name) ==> written_all(before, fields)[name] == (
        match last_written(fields, name) {
            Some(bytes) => seq![bytes],
            None => before[name],
        }),
    decreases fields.len(),
{
    if fields.len() > 0 {
        lemma_written_all(before, fields.drop_last(), name);
    }
}

/// Writing the same fields a second time changes nothing.
pub proof fn lemma_written_twice(before: Map<Seq<char>, Seq<Seq<u8>>>, fields: Seq<(Seq<char>, Seq<char>)>)
    ensures
        written_all(written_all(before, fields), fields) == written_all(before, fields),
{
    let once = written_all(before, fields);
    let twice = written_all(once, fields);
    assert forall|name: Seq<char>| twice.contains_key(name) == once.contains_key(name) by {
        lemma_written_all(before, fields, name);
        lemma_written_all(once, fields, name);
    }
    assert forall|name: Seq<char>| once.contains_key(name) implies #[trigger] twice[name]
        == once[name] by {
        lemma_written_all(before, fields, name);
        lemma_written_all(once, fields, name);
    }
    assert(twice =~= once);
}

/// A name that some field is kept under has a last written value.
proof fn lemma_kept_is_written(fields: Seq<(Seq<char>, Seq<char>)>, at: int, name: Seq<char>)
    requires
        0 <= at < fields.len(),
        kept_under(fields, at, name),
    ensures
        last_written(fields, name) is Some,
    decreases fields.len(),
{
    if at < fields.len() - 1 {
        lemma_kept_is_written(fields.drop_last(), at, name);
    }
}

/// A collection without room is left as it is.
pub proof fn lemma_without_room(held: Map<Seq<char>, Seq<Seq<u8>>>, fields: Seq<(Seq<char>, Seq<char>)>)
    requires
        !has_room(held),
    ensures
        written_within(held, fields) == held,
    decreases fields.len(),
{
    if fields.len() > 0 {
        lemma_without_room(held, fields.drop_last());
    }
}

/// An injection adds at most one name for each field, and takes none away.
proof fn lemma_names_grow(before: Map<Seq<char>, Seq<Seq<u8>>>, fields: Seq<(Seq<char>, Seq<char>)>)
    requires
        before.dom().finite(),
    ensures
        written_within(before, fields).dom().finite(),
        before.dom().len() <= written_within(before, fields).dom().len(),
        written_within(before, fields).dom().len() <= before.dom().len() + fields.len(),
    decreases fields.len(),
{
    if fields.len() > 0 {
        lemma_names_grow(before, fields.drop_last());
    }
}

/// Where the collection still has room after an injection, every field was
/// written.
proof fn lemma_room_left(before: Map<Seq<char>, Seq<Seq<u8>>>, fields: Seq<(Seq<char>, Seq<char>)>)
    requires
        has_room(written_within(before, fields)),
    ensures
        all_within(before, fields),
        written_within(before, fields) == written_all(before, fields),
    decreases fields.len(),
{
    if fields.len() > 0 {
        lemma_room_left(before, fields.drop_last());
    }
}

/// Writing again the first `upto` of the fields that a collection with room
/// to spare already took adds no name, so each of them is written.
proof fn lemma_written_again(before: Map<Seq<char>, Seq<Seq<u8>>>, fields: Seq<(Seq<char>, Seq<char>)>, upto: int)
    requires
        0 <= upto <= fields.len(),
        has_room(written_all(before, fields)),
    ensures
        written_within(written_all(before, fields), fields.take(upto)) == written_all(
            written_all(before, fields),
            fields.take(upto),
        ),
        written_all(written_all(before, fields), fields.take(upto)).dom() == written_all(
            before,
            fields,
        ).dom(),
    decreases upto,
{
    let once = written_all(before, fields);
    if upto > 0 {
        lemma_written_again(before, fields, upto - 1);
        let part = fields.take(upto);
        assert(part.drop_last() =~= fields.take(upto - 1));
        assert(part.last() == fields[upto - 1]);
        match kept_field(part.last().0, part.last().1) {
            Some((kept_name, bytes)) => {
                assert(kept_under(fields, upto - 1, kept_name));
                lemma_kept_is_written(fields, upto - 1, kept_name);
                lemma_written_all(before, fields, kept_name);
                assert(once.dom().insert(kept_name) =~= once.dom());
            },
            None => {},
        }
        assert(written_all(once, part).dom() =~= once.dom());
    } else {
        assert(fields.take(0) =~= Seq::empty());
    }
}

/// Running the injection twice on the same response headers gives what
/// running it once gives: the second run leaves every header as the first
/// run left it.
pub proof fn lemma_injection_idempotent(before: Seq<(Seq<char>, Seq<u8>)>, fields: Seq<(Seq<char>, Seq<char>)>)
    ensures
        written_within(written_within(by_name(before), fields), fields) == written_within(
            by_name(before),
            fields,
        ),
{
    let once = written_within(by_name(before), fields);
    if has_room(once) {
        lemma_room_left(by_name(before), fields);
        lemma_written_again(by_name(before), fields, fields.len() as int);
        assert(fields.take(fields.len() as int) =~= fields);
        lemma_written_twice(by_name(before), fields);
    } else {
        lemma_without_room(once, fields);
    }
}

/// Injection never duplicates a header: a name under which a field was
/// written holds exactly one value afterwards, however many it held before
/// and however many fields follow.
pub proof fn lemma_injected_once(
    before: Map<Seq<char>, Seq<Seq<u8>>>,
    fields: Seq<(Seq<char>, Seq<char>)>,
    at: int,
    name: Seq<char>,
)
    requires
        0 <= at < fields.len(),
        kept_under(fields, at, name),
        has_room(written_within(before, fields.take(at))),
    ensures
        written_within(before, fields).contains_key(name),
        written_within(before, fields)[name].len() == 1,
    decreases fields.len(),
{
    let earlier = fields.drop_last();
    if at < fields.len() - 1 {
        assert(earlier.take(at) =~= fields.take(at));
        lemma_injected_once(before, earlier, at, name);
    } else {
        assert(earlier =~= fields.take(at));
    }
}

/// Injection touches nothing else: a name that none of the fields is kept
/// under holds, byte for byte, the values it held before.
pub proof fn lemma_other_names_kept(
    before: Map<Seq<char>, Seq<Seq<u8>>>,
    fields: Seq<(Seq<char>, Seq<char>)>,
    name: Seq<char>,
)
    requires
        forall|at: int| 0 <= at < fields.len() ==> !kept_under(fields, at, name),
    ensures
        written_within(before, fields).contains_key(name) == before.contains_key(name),
        before.contains_key(name) ==> written_within(before, fields)[name] == before[name],
    decreases fields.len(),
{
    if fields.len() > 0 {
        let earlier = fields.drop_last();
        assert forall|at: int| 0 <= at < earlier.len() implies !kept_under(earlier, at, name) by {
            assert(!kept_under(fields, at, name));
        }
        lemma_other_names_kept(before, earlier, name);
        assert(!kept_under(fields, fields.len() - 1, name));
    }
}

/// Injection overwrites: a plain name with a value of visible text, written
/// while the collection has room and not followed by another field for the
/// same name, holds that value alone afterwards, and reads back as that
/// text. Whatever the name held before is gone.
pub proof fn lemma_stale_value_replaced(
    before: Map<Seq<char>, Seq<Seq<u8>>>,
    fields: Seq<(Seq<char>, Seq<char>)>,
    at: int,
)
    requires
        0 <= at < fields.len(),
        plain_name(fields[at].0),
        visible_text(fields[at].1),
        has_room(written_within(before, fields.take(at))),
        forall|later: int| at < later < fields.len() ==> !kept_under(fields, later, fields[at].0),
    ensures
        written_within(before, fields).contains_key(fields[at].0),
        written_within(before, fields)[fields[at].0] == seq![encode_utf8(fields[at].1)],
        value_text(encode_utf8(fields[at].1)) == Some(fields[at].1),
    decreases fields.len(),
{
    lemma_visible_text_read_back(fields[at].1);
    let earlier = fields.drop_last();
    if at < fields.len() - 1 {
        assert(earlier.take(at) =~= fields.take(at));
        assert forall|later: int| at < later < earlier.len() implies !kept_under(
            earlier,
            later,
            earlier[at].0,
        ) by {
            assert(!kept_under(fields, later, fields[at].0));
        }
        lemma_stale_value_replaced(before, earlier, at);
        assert(!kept_under(fields, fields.len() - 1, fields[at].0));
    } else {
        assert(earlier =~= fields.take(at));
    }
}

/// A collection with room for as many names as there are fields takes every
/// field.
pub proof fn lemma_room_for_all(before: Seq<(Seq<char>, Seq<u8>)>, fields: Seq<(Seq<char>, Seq<char>)>)
    requires
        by_name(before).dom().len() + fields.len() <= NAME_LIMIT,
    ensures
        all_within(by_name(before), fields),
        written_within(by_name(before), fields) == written_all(by_name(before), fields),
    decreases fields.len(),
{
    lemma_names_finite(before);
    if fields.len() > 0 {
        lemma_room_for_all(before, fields.drop_last());
        lemma_names_grow(by_name(before), fields.drop_last());
    }
}

/// Writes the propagation fields into the headers, first to last. A field
/// replaces every value that the headers held under its name; a field whose
/// name or value the collection rejects is passed over, and so is one that
/// finds the collection at the number of names from which it may refuse to
/// grow. Every other name keeps its values. Returns whether every field found
/// room.
pub fn inject_context(fields: &Vec<(String, String)>, headers: &mut HeaderMap<HeaderValue>) -> (done: bool)
    ensures
        by_name(header_fields(*final(headers))) == written_within(
            by_name(header_fields(*old(headers))),
            texts_view(fields@),
        ),
        done == all_within(by_name(header_fields(*old(headers))), texts_view(fields@)),
{
    let ghost before = by_name(header_fields(*headers));
    let ghost all = texts_view(fields@);
    let mut done = true;
    let mut at: usize = 0;
    proof {
        assert(all.take(0) =~= Seq::empty());
    }
    while at < fields.len()
        invariant
            at <= fields@.len(),
            all == texts_view(fields@),
            by_name(header_fields(*headers)) == written_within(before, all.take(at as int)),
            done == all_within(before, all.take(at as int)),
        decreases fields@.len() - at,
    {
        proof {
            assert(all.take(at as int + 1).drop_last() =~= all.take(at as int));
            assert(all.take(at as int + 1).last() == all[at as int]);
        }
        if name_count(headers) < NAME_LIMIT {
            store_header(headers, fields[at].0.as_str(), fields[at].1.as_str());
        } else {
            done = false;
        }
        at = at + 1;
    }
    proof {
        assert(all.take(at as int) =~= all);
    }
    done
}

} // verus!
