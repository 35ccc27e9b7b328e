//! What holds of documents: what each kind of document means, and what is read
//! from it.
use crate::json::{self, Json, JsonView};
use vstd::prelude::*;

verus! {

/// A document means the value that it is written as.
pub proof fn law_documents_mean_what_they_hold(b: bool, n: i64, m: u64, text: String)
    ensures
        Json::Null@ == JsonView::Null,
        Json::Bool(b)@ == JsonView::Bool(b),
        Json::Int(n)@ == JsonView::Int(n as int),
        Json::Big(m)@ == JsonView::Int(m as int),
        Json::Text(text)@ == JsonView::Text(text@),
{
}

/// A list means its items, each in its place.
pub proof fn law_list_means_its_items(items: Vec<Json>)
    ensures
        Json::List(items)@ matches JsonView::List(means) && means.len() == items@.len() && forall|
            i: int,
        |
            0 <= i < items@.len() ==> #[trigger] means[i] == items@[i]@,
{
    json::lemma_list_view(items@);
}

/// Whether member `i` is the last one with a key.
pub open spec fn last_with_key(members: Seq<(String, Json)>, key: Seq<char>, i: int) -> bool {
    &&& 0 <= i < members.len()
    &&& members[i].0@ == key
    &&& forall|j: int| i < j < members.len() ==> (#[trigger] members[j]).0@ != key
}

/// An object means, under each key, its last member with that key, and nothing
/// under any other key.
pub proof fn law_object_means_its_last_members(members: Vec<(String, Json)>, key: Seq<char>)
    ensures
        forall|i: int| #[trigger]
            last_with_key(members@, key, i) ==> Json::Object(members)@.get(key) == Some(
                members@[i].1@,
            ),
        (forall|i: int| 0 <= i < members@.len() ==> (#[trigger] members@[i]).0@ != key)
            ==> Json::Object(members)@.get(key) is None,
{
    lemma_object(members@, key);
}

proof fn lemma_object(members: Seq<(String, Json)>, key: Seq<char>)
    ensures
        forall|i: int| #[trigger]
            last_with_key(members, key, i) ==> JsonView::Object(json::object_view(members)).get(
                key,
            ) == Some(members[i].1@),
        (forall|i: int| 0 <= i < members.len() ==> (#[trigger] members[i]).0@ != key)
            ==> JsonView::Object(json::object_view(members)).get(key) is None,
    decreases members.len(),
{
    json::lemma_empty_views();
    if members.len() > 0 {
        let rest = members.drop_last();
        let last = members.last();
        assert(members =~= rest.push((last.0, last.1)));
        json::lemma_object_push(rest, last.0, last.1);
        lemma_object(rest, key);
        let doc = JsonView::Object(json::object_view(members));
        assert forall|i: int| #[trigger] last_with_key(members, key, i) implies doc.get(key)
            == Some(members[i].1@) by {
            if i < rest.len() {
                assert(members[members.len() - 1].0@ != key);
                assert forall|j: int| i < j < rest.len() implies (#[trigger] rest[j]).0@ != key by {
                    assert(rest[j] == members[j]);
                }
                assert(rest[i] == members[i]);
                assert(last_with_key(rest, key, i));
            }
        }
        if forall|i: int| 0 <= i < members.len() ==> (#[trigger] members[i]).0@ != key {
            assert forall|i: int| 0 <= i < rest.len() implies (#[trigger] rest[i]).0@ != key by {
                assert(rest[i] == members[i]);
            }
            assert(members[members.len() - 1].0@ != key);
        }
    } else {
        assert(members =~= Seq::<(String, Json)>::empty());
    }
}

/// Nothing but an object has members.
pub proof fn law_only_objects_have_members(doc: JsonView, key: Seq<char>)
    ensures
        !(doc is Object) ==> doc.get(key) is None,
        doc.get(key) is Some <==> doc is Object && doc->Object_0.dom().contains(key),
        doc.get(key) is Some ==> doc.get(key) == Some(doc->Object_0[key]),
{
}

/// What is read under a key is the last member with that key.
pub proof fn law_get_reads_the_last_member(
    members: Vec<(String, Json)>,
    key: &str,
    member: Option<&Json>,
    i: int,
)
    requires
        call_ensures(Json::get, (&Json::Object(members), key), member),
        last_with_key(members@, key@, i),
    ensures
        member matches Some(found) && found@ == members@[i].1@,
{
    lemma_object(members@, key@);
}

/// Where a document has nothing under a key, nothing is read; and what is read
/// is what it has.
pub proof fn law_get_reads_what_is_there(doc: Json, key: &str, member: Option<&Json>)
    requires
        call_ensures(Json::get, (&doc, key), member),
    ensures
        member is Some <==> doc@ is Object && doc@->Object_0.dom().contains(key@),
        member matches Some(found) ==> found@ == doc@->Object_0[key@],
{
}

/// An integer is read as an `i64` or as a `u64` exactly where that type holds
/// it; nothing else is read as an integer.
pub proof fn law_integers_are_read_where_they_fit(
    doc: Json,
    signed: Option<i64>,
    unsigned: Option<u64>,
)
    requires
        call_ensures(Json::as_i64, (&doc,), signed),
        call_ensures(Json::as_u64, (&doc,), unsigned),
    ensures
        doc matches Json::Int(n) ==> signed == Some(n) && (n >= 0 ==> unsigned == Some(n as u64))
            && (n < 0 ==> unsigned is None),
        doc matches Json::Big(n) ==> unsigned == Some(n) && (n <= i64::MAX ==> signed == Some(
            n as i64,
        )) && (n > i64::MAX ==> signed is None),
        !(doc is Int) && !(doc is Big) ==> signed is None && unsigned is None,
{
}

/// A text is read as its characters; nothing else is read as a text.
pub proof fn law_text_is_read_as_it_stands(doc: Json, text: Option<&String>)
    requires
        call_ensures(Json::as_text, (&doc,), text),
    ensures
        doc matches Json::Text(held) ==> text matches Some(read) && read@ == held@,
        !(doc is Text) ==> text is None,
{
}

/// The integer under a key is read where the document has one there that an
/// `i64` holds, and the text where it has one there.
pub proof fn law_typed_members(
    doc: Json,
    key: &str,
    number: Option<i64>,
    text: Option<&String>,
)
    requires
        call_ensures(Json::get_i64, (&doc, key), number),
        call_ensures(Json::get_text, (&doc, key), text),
    ensures
        ({
            let there = doc@ is Object && doc@->Object_0.dom().contains(key@);
            let member = doc@->Object_0[key@];
            &&& number is Some <==> there && member is Int && i64::MIN <= member->Int_0 <= i64::MAX
            &&& number matches Some(n) ==> member == JsonView::Int(n as int)
            &&& text is Some <==> there && member is Text
            &&& text matches Some(t) ==> member == JsonView::Text(t@)
        }),
{
}

/// A document goes to `serde_json` and comes back the same, and a copy of it
/// means the same.
pub proof fn law_documents_round_trip(
    doc: Json,
    value: serde_json::Value,
    back: Json,
    copy: Json,
)
    requires
        call_ensures(Json::to_value, (&doc,), value),
        call_ensures(Json::from_value, (value,), back),
        call_ensures(Json::clone, (&doc,), copy),
    ensures
        json::json_of(value) == doc@,
        back@ == doc@,
        copy@ == doc@,
{
}

/// A member that is put into an object is its last, and a copied list means the
/// same, item by item.
pub proof fn law_members_are_put_last(
    members: &mut Vec<(String, Json)>,
    key: &str,
    value: Json,
    other: Seq<char>,
    items: Vec<Json>,
    copies: Vec<Json>,
)
    requires
        call_ensures(json::put, (members, key, value), ()),
        call_ensures(json::clone_list, (&items,), copies),
    ensures
        JsonView::Object(json::object_view(final(members)@)).get(key@) == Some(value@),
        other != key@ ==> JsonView::Object(json::object_view(final(members)@)).get(other)
            == JsonView::Object(json::object_view(old(members)@)).get(other),
        copies@.len() == items@.len(),
        forall|i: int| 0 <= i < items@.len() ==> (#[trigger] copies@[i])@ == items@[i]@,
{
    json::lemma_list_view(items@);
    json::lemma_list_view(copies@);
    assert(forall|i: int|
        0 <= i < items@.len() ==> (#[trigger] copies@[i])@ == json::list_view(copies@)[i]);
}

/// A text is a document exactly where `serde_json` reads one from it, and that
/// one.
pub proof fn law_parsing_gives_the_document(text: &[u8], doc: Option<Json>)
    requires
        call_ensures(Json::parse, (text,), doc),
    ensures
        doc is Some <==> json::json_text(text@) is Some,
        doc matches Some(read) ==> json::json_text(text@) == Some(read@),
{
}

} // verus!
