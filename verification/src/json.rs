//! JSON documents as plain data.
//!
//! [`Json`] is the document type that every reader and builder of the crate
//! works on; [`JsonView`] is what it means. Text is read by `serde_json`, and
//! [`Json::from_value`] and [`Json::to_value`] move documents between the two
//! representations without losing anything.
use vstd::prelude::*;

verus! {

/// The declaration of `serde_json::Value`.
#[verifier::external_type_specification]
#[verifier::external_body]
pub struct ExValue(serde_json::Value);

/// The declaration of `serde_json::Number`.
#[verifier::external_type_specification]
#[verifier::external_body]
pub struct ExNumber(serde_json::Number);

/// A JSON number that is no integer, carried as `serde_json` holds it.
#[derive(Debug)]
pub struct Real {
    number: serde_json::Number,
}

impl Real {
    /// The number is no integer.
    #[verifier::type_invariant]
    spec fn is_real(self) -> bool {
        integer_of(self.number) is None
    }
}

impl View for Real {
    type V = serde_json::Number;

    closed spec fn view(&self) -> serde_json::Number {
        self.number
    }
}

/// The integer that a `serde_json::Number` holds, where it holds one.
pub uninterp spec fn integer_of(number: serde_json::Number) -> Option<int>;

/// What a number means: an integer or, as it stands, any other number.
pub open spec fn number_view(number: serde_json::Number) -> JsonView {
    match integer_of(number) {
        Some(n) => JsonView::Int(n),
        None => JsonView::Real(number),
    }
}

/// A JSON document.
///
/// An object lists its members in the order in which they were written; where
/// a key occurs twice, the later member is the one that counts.
#[derive(Debug)]
pub enum Json {
    Null,
    Bool(bool),
    /// An integer that an `i64` holds.
    Int(i64),
    /// An integer that a `u64` holds.
    Big(u64),
    /// A number that is no integer.
    Real(Real),
    Text(String),
    List(Vec<Json>),
    Object(Vec<(String, Json)>),
}

/// What a [`Json`] document means.
pub enum JsonView {
    Null,
    Bool(bool),
    Int(int),
    Real(serde_json::Number),
    Text(Seq<char>),
    List(Seq<JsonView>),
    Object(Map<Seq<char>, JsonView>),
}

impl View for Json {
    type V = JsonView;

    open spec fn view(&self) -> JsonView
        decreases self,
    {
        match self {
            Json::Null => JsonView::Null,
            Json::Bool(b) => JsonView::Bool(*b),
            Json::Int(n) => JsonView::Int(*n as int),
            Json::Big(n) => JsonView::Int(*n as int),
            Json::Real(n) => JsonView::Real(n@),
            Json::Text(s) => JsonView::Text(s@),
            Json::List(items) => JsonView::List(list_view(items@)),
            Json::Object(members) => JsonView::Object(object_view(members@)),
        }
    }
}

/// What each item of a list means.
pub open spec fn list_view(items: Seq<Json>) -> Seq<JsonView>
    decreases items,
{
    if items.len() == 0 {
        Seq::empty()
    } else {
        list_view(items.drop_last()).push(items.last().view())
    }
}

/// What the members of an object mean: the last member with a key gives its value.
pub open spec fn object_view(members: Seq<(String, Json)>) -> Map<Seq<char>, JsonView>
    decreases members,
{
    if members.len() == 0 {
        Map::empty()
    } else {
        object_view(members.drop_last()).insert(members.last().0@, members.last().1.view())
    }
}

/// A list means as many items as it holds, each in its place.
pub proof fn lemma_list_view(items: Seq<Json>)
    ensures
        list_view(items).len() == items.len(),
        forall|i: int| 0 <= i < items.len() ==> #[trigger] list_view(items)[i] == items[i]@,
    decreases items.len(),
{
    reveal_with_fuel(list_view, 2);
    if items.len() > 0 {
        lemma_list_view(items.drop_last());
    }
}

/// An item added at the end of a list adds its meaning at the end.
pub proof fn lemma_list_push(items: Seq<Json>, item: Json)
    ensures
        list_view(items.push(item)) == list_view(items).push(item@),
{
    reveal_with_fuel(list_view, 2);
    assert(items.push(item).drop_last() =~= items);
}

/// A member added at the end of an object gives its key the member's value.
pub proof fn lemma_object_push(members: Seq<(String, Json)>, key: String, value: Json)
    ensures
        object_view(members.push((key, value))) == object_view(members).insert(key@, value@),
{
    reveal_with_fuel(object_view, 2);
    assert(members.push((key, value)).drop_last() =~= members);
}

/// The empty list and the empty object mean nothing but themselves.
pub proof fn lemma_empty_views()
    ensures
        list_view(Seq::<Json>::empty()) == Seq::<JsonView>::empty(),
        object_view(Seq::<(String, Json)>::empty()) == Map::<Seq<char>, JsonView>::empty(),
{
    reveal_with_fuel(list_view, 2);
    reveal_with_fuel(object_view, 2);
}

impl JsonView {
    /// The member of an object under `key`; nothing has members but an object.
    pub open spec fn get(self, key: Seq<char>) -> Option<JsonView> {
        match self {
            JsonView::Object(members) if members.contains_key(key) => Some(members[key]),
            _ => None,
        }
    }

    /// The number, where it is an integer that an `i64` holds.
    pub open spec fn as_i64(self) -> Option<i64> {
        match self {
            JsonView::Int(n) if i64::MIN <= n <= i64::MAX => Some(n as i64),
            _ => None,
        }
    }

    /// The number, where it is an integer that a `u64` holds.
    pub open spec fn as_u64(self) -> Option<u64> {
        match self {
            JsonView::Int(n) if 0 <= n <= u64::MAX => Some(n as u64),
            _ => None,
        }
    }

    /// The characters of a text.
    pub open spec fn as_text(self) -> Option<Seq<char>> {
        match self {
            JsonView::Text(s) => Some(s),
            _ => None,
        }
    }

    /// The integer member under `key`, where the document has one.
    pub open spec fn get_i64(self, key: Seq<char>) -> Option<i64> {
        match self.get(key) {
            Some(member) => member.as_i64(),
            None => None,
        }
    }

    /// The text member under `key`, where the document has one.
    pub open spec fn get_text(self, key: Seq<char>) -> Option<Seq<char>> {
        match self.get(key) {
            Some(member) => member.as_text(),
            None => None,
        }
    }
}

/// What an optional document means.
pub open spec fn opt_json(doc: Option<Json>) -> Option<JsonView> {
    match doc {
        Some(doc) => Some(doc@),
        None => None,
    }
}

/// What an optional borrowed document means.
pub open spec fn opt_json_ref(doc: Option<&Json>) -> Option<JsonView> {
    match doc {
        Some(doc) => Some(doc@),
        None => None,
    }
}

/// `serde_json::Number::clone` gives back the same number.
pub assume_specification[ <serde_json::Number as Clone>::clone ](
    number: &serde_json::Number,
) -> (copy: serde_json::Number)
    ensures
        copy == *number,
;

/// `serde_json::Number::as_i64` gives the integer, unless it is too large; no
/// number holds an integer below those of an `i64`.
pub assume_specification[ serde_json::Number::as_i64 ](number: &serde_json::Number) -> (n: Option<
    i64,
>)
    ensures
        match n {
            Some(n) => integer_of(*number) == Some(n as int),
            None => integer_of(*number) matches Some(m) ==> m > i64::MAX,
        },
;

/// `serde_json::Number::as_u64` gives the integer, unless it is negative; no
/// number holds an integer above those of a `u64`.
pub assume_specification[ serde_json::Number::as_u64 ](number: &serde_json::Number) -> (n: Option<
    u64,
>)
    ensures
        match n {
            Some(n) => integer_of(*number) == Some(n as int),
            None => integer_of(*number) matches Some(m) ==> m < 0,
        },
;

/// `serde_json::Number::from` makes a number that holds an `i64`.
#[verifier::external_body]
fn signed_number(n: i64) -> (number: serde_json::Number)
    ensures
        integer_of(number) == Some(n as int),
{
    serde_json::Number::from(n)
}

/// `serde_json::Number::from` makes a number that holds a `u64`.
#[verifier::external_body]
fn unsigned_number(n: u64) -> (number: serde_json::Number)
    ensures
        integer_of(number) == Some(n as int),
{
    serde_json::Number::from(n)
}

impl Clone for Json {
    fn clone(&self) -> (copy: Self)
        ensures
            copy@ == self@,
        decreases self,
    {
        match self {
            Json::Null => Json::Null,
            Json::Bool(b) => Json::Bool(*b),
            Json::Int(n) => Json::Int(*n),
            Json::Big(n) => Json::Big(*n),
            Json::Real(n) => {
                proof {
                    use_type_invariant(n);
                }
                Json::Real(Real { number: n.number.clone() })
            },
            Json::Text(s) => Json::Text(s.clone()),
            Json::List(items) => Json::List(clone_list(items)),
            Json::Object(members) => {
                let mut copies: Vec<(String, Json)> = Vec::new();
                let mut i: usize = 0;
                proof {
                    lemma_empty_views();
                    assert(members@.take(0) =~= Seq::<(String, Json)>::empty());
                }
                while i < members.len()
                    invariant
                        i <= members.len(),
                        object_view(copies@) == object_view(members@.take(i as int)),
                        decreases_to!(self => members@),
                    decreases members.len() - i,
                {
                    let key = members[i].0.clone();
                    assert(decreases_to!(members@ => members@[i as int]));
                    let value = members[i].1.clone();
                    proof {
                        lemma_object_push(copies@, key, value);
                        lemma_object_push(
                            members@.take(i as int),
                            members@[i as int].0,
                            members@[i as int].1,
                        );
                        assert(members@.take(i + 1) =~= members@.take(i as int).push(
                            members@[i as int],
                        ));
                    }
                    copies.push((key, value));
                    i = i + 1;
                }
                assert(members@.take(i as int) =~= members@);
                Json::Object(copies)
            },
        }
    }
}

/// A copy of every item of a list, in order.
pub fn clone_list(items: &Vec<Json>) -> (copies: Vec<Json>)
    ensures
        list_view(copies@) == list_view(items@),
    decreases items,
{
    let mut copies: Vec<Json> = Vec::new();
    let mut i: usize = 0;
    proof {
        lemma_empty_views();
        assert(items@.take(0) =~= Seq::<Json>::empty());
    }
    while i < items.len()
        invariant
            i <= items.len(),
            list_view(copies@) == list_view(items@.take(i as int)),
        decreases items.len() - i,
    {
        let item = items[i].clone();
        proof {
            lemma_list_push(copies@, item);
            lemma_list_push(items@.take(i as int), items@[i as int]);
            assert(items@.take(i + 1) =~= items@.take(i as int).push(items@[i as int]));
        }
        copies.push(item);
        i = i + 1;
    }
    assert(items@.take(i as int) =~= items@);
    copies
}

/// Adds a member to the members of an object.
pub fn put(members: &mut Vec<(String, Json)>, key: &str, value: Json)
    ensures
        object_view(final(members)@) == object_view(old(members)@).insert(key@, value@),
{
    let key = key.to_string();
    proof {
        lemma_object_push(members@, key, value);
    }
    members.push((key, value));
}

impl Json {
    /// The member of an object under `key`.
    pub fn get(&self, key: &str) -> (member: Option<&Json>)
        ensures
            opt_json_ref(member) == self@.get(key@),
    {
        let members = match self {
            Json::Object(members) => members,
            _ => {
                return None;
            },
        };
        let wanted = key.to_string();
        let mut i: usize = members.len();
        assert(members@.take(i as int) =~= members@);
        while i > 0
            invariant
                i <= members.len(),
                wanted@ == key@,
                self@ == JsonView::Object(object_view(members@)),
                self@.get(key@) == JsonView::Object(object_view(members@.take(i as int))).get(key@),
            decreases i,
        {
            i = i - 1;
            proof {
                lemma_object_push(
                    members@.take(i as int),
                    members@[i as int].0,
                    members@[i as int].1,
                );
                assert(members@.take(i + 1) =~= members@.take(i as int).push(members@[i as int]));
            }
            if members[i].0 == wanted {
                return Some(&members[i].1);
            }
        }
        proof {
            lemma_empty_views();
            assert(members@.take(0) =~= Seq::<(String, Json)>::empty());
        }
        None
    }

    /// The number, where it is an integer that an `i64` holds.
    pub fn as_i64(&self) -> (number: Option<i64>)
        ensures
            number == self@.as_i64(),
    {
        match self {
            Json::Int(n) => Some(*n),
            Json::Big(n) => if *n <= i64::MAX as u64 {
                Some(*n as i64)
            } else {
                None
            },
            _ => None,
        }
    }

    /// The number, where it is an integer that a `u64` holds.
    pub fn as_u64(&self) -> (number: Option<u64>)
        ensures
            number == self@.as_u64(),
    {
        match self {
            Json::Int(n) => if *n >= 0 {
                Some(*n as u64)
            } else {
                None
            },
            Json::Big(n) => Some(*n),
            _ => None,
        }
    }

    /// The characters of a text.
    pub fn as_text(&self) -> (text: Option<&String>)
        ensures
            match text {
                Some(text) => self@.as_text() == Some(text@),
                None => self@.as_text() is None,
            },
    {
        match self {
            Json::Text(text) => Some(text),
            _ => None,
        }
    }

    /// The integer member under `key`, where the document has one.
    pub fn get_i64(&self, key: &str) -> (number: Option<i64>)
        ensures
            number == self@.get_i64(key@),
    {
        match self.get(key) {
            Some(member) => member.as_i64(),
            None => None,
        }
    }

    /// The text member under `key`, where the document has one.
    pub fn get_text(&self, key: &str) -> (text: Option<&String>)
        ensures
            match text {
                Some(text) => self@.get_text(key@) == Some(text@),
                None => self@.get_text(key@) is None,
            },
    {
        match self.get(key) {
            Some(member) => member.as_text(),
            None => None,
        }
    }
}

/// The declaration of `serde_json::Map`.
#[verifier::external_type_specification]
#[verifier::external_body]
#[verifier::reject_recursive_types(K)]
#[verifier::reject_recursive_types(V)]
pub struct ExMap<K, V>(serde_json::Map<K, V>);

/// The declaration of `serde_json::Error`.
#[verifier::external_type_specification]
#[verifier::external_body]
pub struct ExError(serde_json::Error);

/// The document that a `serde_json::Value` holds.
pub uninterp spec fn json_of(value: serde_json::Value) -> JsonView;

/// The members that a `serde_json::Map` holds.
pub uninterp spec fn members_of(map: serde_json::Map<String, serde_json::Value>) -> Map<
    Seq<char>,
    JsonView,
>;

/// The document that `serde_json::from_slice` reads from a text, where it reads one.
pub uninterp spec fn json_text(text: Seq<u8>) -> Option<JsonView>;

/// The outermost layer of a `serde_json::Value`.
pub enum Layer {
    Null,
    Bool(bool),
    Number(serde_json::Number),
    Text(String),
    List(Vec<serde_json::Value>),
    Object(serde_json::Map<String, serde_json::Value>),
}

/// What the layer and the values under it mean.
pub open spec fn layer_view(layer: Layer) -> JsonView {
    match layer {
        Layer::Null => JsonView::Null,
        Layer::Bool(b) => JsonView::Bool(b),
        Layer::Number(n) => number_view(n),
        Layer::Text(s) => JsonView::Text(s@),
        Layer::List(values) => JsonView::List(values@.map_values(|v: serde_json::Value| json_of(v))),
        Layer::Object(map) => JsonView::Object(members_of(map)),
    }
}

/// What the entries of an object mean, the last one with a key giving its value.
pub open spec fn entries_view(entries: Seq<(String, serde_json::Value)>) -> Map<
    Seq<char>,
    JsonView,
>
    decreases entries.len(),
{
    if entries.len() == 0 {
        Map::empty()
    } else {
        entries_view(entries.drop_last()).insert(entries.last().0@, json_of(entries.last().1))
    }
}

/// Takes a `serde_json::Value` apart by its variant. The document stays the
/// same.
#[verifier::external_body]
fn open_value(value: serde_json::Value) -> (layer: Layer)
    ensures
        layer_view(layer) == json_of(value),
{
    match value {
        serde_json::Value::Null => Layer::Null,
        serde_json::Value::Bool(b) => Layer::Bool(b),
        serde_json::Value::Number(n) => Layer::Number(n),
        serde_json::Value::String(s) => Layer::Text(s),
        serde_json::Value::Array(values) => Layer::List(values),
        serde_json::Value::Object(map) => Layer::Object(map),
    }
}

/// Makes a `serde_json::Value` of the variant that the layer names. The
/// document stays the same.
#[verifier::external_body]
fn close_value(layer: Layer) -> (value: serde_json::Value)
    ensures
        json_of(value) == layer_view(layer),
{
    match layer {
        Layer::Null => serde_json::Value::Null,
        Layer::Bool(b) => serde_json::Value::Bool(b),
        Layer::Number(n) => serde_json::Value::Number(n),
        Layer::Text(s) => serde_json::Value::String(s),
        Layer::List(values) => serde_json::Value::Array(values),
        Layer::Object(map) => serde_json::Value::Object(map),
    }
}

/// `serde_json::Map::new` makes a map without members.
#[verifier::external_body]
fn new_map() -> (map: serde_json::Map<String, serde_json::Value>)
    ensures
        (members_of(map) == Map::<Seq<char>, JsonView>::empty()),
{
    serde_json::Map::new()
}

/// `serde_json::Map::insert` gives the key the value, whether or not it had one.
#[verifier::external_body]
fn map_insert(
    map: &mut serde_json::Map<String, serde_json::Value>,
    key: String,
    value: serde_json::Value,
)
    ensures
        members_of(*final(map)) == members_of(*old(map)).insert(key@, json_of(value)),
{
    map.insert(key, value);
}

/// `serde_json::Map::into_iter` hands every member out, each key once.
#[verifier::external_body]
fn map_entries(map: serde_json::Map<String, serde_json::Value>) -> (entries: Vec<
    (String, serde_json::Value),
>)
    ensures
        entries_view(entries@) == members_of(map),
        forall|i: int, j: int|
            0 <= i < j < entries@.len() ==> #[trigger] entries@[i].0@ != #[trigger] entries@[j].0@,
{
    map.into_iter().collect()
}

/// `serde_json::from_slice` reads a text as a `serde_json::Value`: it depends
/// on the text alone whether there is a document and which one.
#[verifier::external_body]
fn read_value(text: &[u8]) -> (value: Result<serde_json::Value, serde_json::Error>)
    ensures
        match value {
            Ok(value) => json_text(text@) == Some(json_of(value)),
            Err(_) => json_text(text@) is None,
        },
{
    serde_json::from_slice(text)
}

/// Where keys occur once, every entry keeps its place in what the entries mean.
proof fn lemma_entries_view(entries: Seq<(String, serde_json::Value)>, i: int)
    requires
        0 <= i < entries.len(),
        forall|i: int, j: int|
            0 <= i < j < entries.len() ==> #[trigger] entries[i].0@ != #[trigger] entries[j].0@,
    ensures
        entries_view(entries).contains_key(entries[i].0@),
        entries_view(entries)[entries[i].0@] == json_of(entries[i].1),
    decreases entries.len(),
{
    if i < entries.len() - 1 {
        let rest = entries.drop_last();
        assert forall|i: int, j: int| 0 <= i < j < rest.len() implies #[trigger] rest[i].0@
            != #[trigger] rest[j].0@ by {
            assert(rest[i] == entries[i] && rest[j] == entries[j]);
        }
        lemma_entries_view(rest, i);
        assert(rest[i] == entries[i]);
        assert(entries[i].0@ != entries[entries.len() - 1].0@);
    }
}

/// Entries mean finitely many members.
proof fn lemma_entries_finite(entries: Seq<(String, serde_json::Value)>)
    ensures
        entries_view(entries).dom().finite(),
    decreases entries.len(),
{
    if entries.len() > 0 {
        lemma_entries_finite(entries.drop_last());
    }
}

impl Json {
    /// The document that a `serde_json::Value` holds.
    pub fn from_value(value: serde_json::Value) -> (doc: Json)
        ensures
            doc@ == json_of(value),
        decreases json_of(value),
    {
        let ghost whole = json_of(value);
        match open_value(value) {
            Layer::Null => Json::Null,
            Layer::Bool(b) => Json::Bool(b),
            Layer::Number(number) => match number.as_i64() {
                Some(n) => Json::Int(n),
                None => match number.as_u64() {
                    Some(n) => Json::Big(n),
                    None => Json::Real(Real { number }),
                },
            },
            Layer::Text(s) => Json::Text(s),
            Layer::List(values) => {
                let mut items: Vec<Json> = Vec::new();
                let ghost all = values@;
                let ghost means = all.map_values(|v: serde_json::Value| json_of(v));
                proof {
                    lemma_empty_views();
                }
                for v in it: values
                    invariant
                        whole == json_of(value),
                        whole == JsonView::List(means),
                        means.len() == all.len(),
                        forall|i: int| 0 <= i < all.len() ==> means[i] == json_of(#[trigger] all[i]),
                        it.seq() == all,
                        list_view(items@) == means.take(it.index() as int),
                {
                    assert(v == all[it.index() as int]);
                    assert(decreases_to!(whole => whole->List_0));
                    assert(decreases_to!(whole->List_0 => whole->List_0[it.index() as int]));
                    let item = Json::from_value(v);
                    proof {
                        lemma_list_push(items@, item);
                        assert(means.take(it.index() + 1) =~= means.take(it.index() as int).push(
                            means[it.index() as int],
                        ));
                    }
                    items.push(item);
                }
                assert(means.take(means.len() as int) =~= means);
                Json::List(items)
            },
            Layer::Object(map) => {
                let ghost means = members_of(map);
                let entries = map_entries(map);
                let mut members: Vec<(String, Json)> = Vec::new();
                let ghost all = entries@;
                proof {
                    lemma_empty_views();
                    lemma_entries_finite(all);
                }
                for entry in it: entries
                    invariant
                        whole == json_of(value),
                        whole == JsonView::Object(means),
                        means.dom().finite(),
                        means == entries_view(all),
                        forall|i: int, j: int|
                            0 <= i < j < all.len() ==> #[trigger] all[i].0@ != #[trigger] all[j].0@,
                        it.seq() == all,
                        object_view(members@) == entries_view(all.take(it.index() as int)),
                {
                    let ghost k = it.index() as int;
                    assert(entry == all[k]);
                    proof {
                        lemma_entries_view(all, k);
                    }
                    assert(decreases_to!(whole => whole->Object_0));
                    assert(decreases_to!(whole->Object_0 => whole->Object_0[all[k].0@]));
                    let key = entry.0;
                    let value = Json::from_value(entry.1);
                    proof {
                        lemma_object_push(members@, key, value);
                        assert(all.take(k + 1).drop_last() =~= all.take(k));
                    }
                    members.push((key, value));
                }
                assert(all.take(all.len() as int) =~= all);
                Json::Object(members)
            },
        }
    }

    /// A `serde_json::Value` that holds the document.
    pub fn to_value(&self) -> (value: serde_json::Value)
        ensures
            json_of(value) == self@,
        decreases self,
    {
        match self {
            Json::Null => close_value(Layer::Null),
            Json::Bool(b) => close_value(Layer::Bool(*b)),
            Json::Int(n) => close_value(Layer::Number(signed_number(*n))),
            Json::Big(n) => close_value(Layer::Number(unsigned_number(*n))),
            Json::Real(n) => {
                proof {
                    use_type_invariant(n);
                }
                close_value(Layer::Number(n.number.clone()))
            },
            Json::Text(s) => close_value(Layer::Text(s.clone())),
            Json::List(items) => {
                let mut values: Vec<serde_json::Value> = Vec::new();
                let mut i: usize = 0;
                while i < items.len()
                    invariant
                        i <= items.len(),
                        values.len() == i,
                        forall|j: int| 0 <= j < i ==> json_of(#[trigger] values@[j]) == items@[j]@,
                        decreases_to!(self => items@),
                    decreases items.len() - i,
                {
                    assert(decreases_to!(items@ => items@[i as int]));
                    values.push(items[i].to_value());
                    i = i + 1;
                }
                proof {
                    lemma_list_view(items@);
                    assert(values@.map_values(|v: serde_json::Value| json_of(v)) =~= list_view(items@));
                }
                close_value(Layer::List(values))
            },
            Json::Object(members) => {
                let mut map = new_map();
                let mut i: usize = 0;
                proof {
                    lemma_empty_views();
                    assert(members@.take(0) =~= Seq::<(String, Json)>::empty());
                }
                while i < members.len()
                    invariant
                        i <= members.len(),
                        members_of(map) == object_view(members@.take(i as int)),
                        decreases_to!(self => members@),
                    decreases members.len() - i,
                {
                    assert(decreases_to!(members@ => members@[i as int]));
                    let value = members[i].1.to_value();
                    proof {
                        lemma_object_push(
                            members@.take(i as int),
                            members@[i as int].0,
                            members@[i as int].1,
                        );
                        assert(members@.take(i + 1) =~= members@.take(i as int).push(
                            members@[i as int],
                        ));
                    }
                    map_insert(&mut map, members[i].0.clone(), value);
                    i = i + 1;
                }
                assert(members@.take(i as int) =~= members@);
                close_value(Layer::Object(map))
            },
        }
    }

    /// The document that a text holds; nothing where the text is no JSON.
    pub fn parse(text: &[u8]) -> (doc: Option<Json>)
        ensures
            opt_json(doc) == json_text(text@),
    {
        match read_value(text) {
            Ok(value) => Some(Json::from_value(value)),
            Err(_) => None,
        }
    }
}

} // verus!
