//! JSON values as the library reads and builds them, and the bridge to `serde_json`.
use crate::text::same_text;
use vstd::prelude::*;

verus! {

/// What a JSON value is: an object is a finite map from keys to values, an array a
/// sequence of values.
#[verifier::ext_equal]
pub enum JsonView {
    Null,
    Bool(bool),
    Integer(int),
    /// A floating-point number: carried along, never read.
    Float(serde_json::Number),
    Text(Seq<char>),
    Array(Seq<JsonView>),
    Object(Map<Seq<char>, JsonView>),
}

/// A JSON value.
#[derive(Debug)]
pub enum Json {
    Null,
    Bool(bool),
    Number(serde_json::Number),
    Text(String),
    Array(Vec<Json>),
    Object(JsonObject),
}

/// A JSON object: entries with distinct keys.
#[derive(Debug)]
pub struct JsonObject {
    entries: Vec<(String, Json)>,
}

/// `serde_json::Number`, carried as a whole.
#[verifier::external_type_specification]
#[verifier::external_body]
pub struct ExNumber(serde_json::Number);

/// `serde_json::Value`, opened and built one level at a time.
#[verifier::external_type_specification]
#[verifier::external_body]
pub struct ExValue(serde_json::Value);

/// The integer that a `serde_json::Number` holds, `None` for a floating-point one.
pub uninterp spec fn integer_value(n: serde_json::Number) -> Option<int>;

/// The contents of a `serde_json::Value`.
pub uninterp spec fn value_view(v: serde_json::Value) -> JsonView;

/// What a JSON number is.
pub open spec fn number_view(n: serde_json::Number) -> JsonView {
    match integer_value(n) {
        Some(i) => JsonView::Integer(i),
        None => JsonView::Float(n),
    }
}

/// No key stands in two pairs.
pub open spec fn distinct_keys<V>(pairs: Seq<(Seq<char>, V)>) -> bool {
    forall|i: int, j: int|
        0 <= i < pairs.len() && 0 <= j < pairs.len() && #[trigger] pairs[i].0
            == #[trigger] pairs[j].0 ==> i == j
}

/// The map that key-value pairs with distinct keys stand for.
pub open spec fn map_of<V>(pairs: Seq<(Seq<char>, V)>) -> Map<Seq<char>, V> {
    Map::new(
        |k: Seq<char>| exists|i: int| 0 <= i < pairs.len() && #[trigger] pairs[i].0 == k,
        |k: Seq<char>| pairs[choose|i: int| 0 <= i < pairs.len() && #[trigger] pairs[i].0 == k].1,
    )
}

impl JsonView {
    /// All numbers in the value are integers, and arrays and objects lie at most this deep inside
    /// each other.
    pub open spec fn is_exact(self, depth: nat) -> bool
        decreases depth,
    {
        match self {
            JsonView::Float(_) => false,
            JsonView::Array(items) => depth > 0 && forall|i: int|
                0 <= i < items.len() ==> (#[trigger] items[i]).is_exact((depth - 1) as nat),
            JsonView::Object(fields) => depth > 0 && forall|key: Seq<char>|
                fields.contains_key(key) ==> (#[trigger] fields[key]).is_exact((depth - 1) as nat),
            _ => true,
        }
    }

    /// The value under a key of an object.
    pub open spec fn get(self, key: Seq<char>) -> Option<JsonView> {
        match self {
            JsonView::Object(fields) => if fields.contains_key(key) {
                Some(fields[key])
            } else {
                None
            },
            _ => None,
        }
    }

    /// The items of an array.
    pub open spec fn items(self) -> Option<Seq<JsonView>> {
        match self {
            JsonView::Array(items) => Some(items),
            _ => None,
        }
    }

    /// The characters of a string.
    pub open spec fn text(self) -> Option<Seq<char>> {
        match self {
            JsonView::Text(text) => Some(text),
            _ => None,
        }
    }

    /// The value under a key, null where there is none.
    pub open spec fn child(self, key: Seq<char>) -> JsonView {
        match self.get(key) {
            Some(value) => value,
            None => JsonView::Null,
        }
    }

    /// The value under a key, an object without entries where there is none.
    pub open spec fn get_or_empty(self, key: Seq<char>) -> JsonView {
        match self.get(key) {
            Some(value) => value,
            None => JsonView::Object(Map::empty()),
        }
    }

    /// The items of the array under a key.
    pub open spec fn items_at(self, key: Seq<char>) -> Option<Seq<JsonView>> {
        match self.get(key) {
            Some(value) => value.items(),
            None => None,
        }
    }

    /// The characters of the string under a key.
    pub open spec fn text_at(self, key: Seq<char>) -> Option<Seq<char>> {
        match self.get(key) {
            Some(value) => value.text(),
            None => None,
        }
    }

    /// The characters of the string under a key, or a default where there is no such string.
    pub open spec fn text_or(self, key: Seq<char>, default: Seq<char>) -> Seq<char> {
        match self.text_at(key) {
            Some(text) => text,
            None => default,
        }
    }
}

/// What each of some values is.
pub open spec fn models(items: Seq<Json>) -> Seq<JsonView> {
    items.map_values(|item: Json| item@)
}

/// What an optional value is.
pub open spec fn optional_model(value: Option<&Json>) -> Option<JsonView> {
    match value {
        Some(value) => Some(value@),
        None => None,
    }
}

/// The text of an optional string.
pub open spec fn optional_text(text: Option<&str>) -> Option<Seq<char>> {
    match text {
        Some(text) => Some(text@),
        None => None,
    }
}

impl Json {
    /// What the value is.
    pub open spec fn model(self) -> JsonView
        decreases self,
    {
        match self {
            Json::Null => JsonView::Null,
            Json::Bool(b) => JsonView::Bool(b),
            Json::Number(n) => number_view(n),
            Json::Text(s) => JsonView::Text(s@),
            Json::Array(items) => JsonView::Array(
                Seq::new(
                    items@.len(),
                    |i: int| if 0 <= i < items@.len() { items@[i].model() } else { JsonView::Null },
                ),
            ),
            Json::Object(object) => JsonView::Object(map_of(object.pairs())),
        }
    }
}

impl JsonObject {
    /// The entries, in their order.
    pub closed spec fn pairs(self) -> Seq<(Seq<char>, JsonView)>
        decreases self,
    {
        Seq::new(
            self.entries@.len(),
            |i: int|
                if 0 <= i < self.entries@.len() {
                    (self.entries@[i].0@, self.entries@[i].1.model())
                } else {
                    (Seq::empty(), JsonView::Null)
                },
        )
    }

    #[verifier::type_invariant]
    spec fn keys_are_distinct(self) -> bool {
        distinct_keys(self.pairs())
    }
}

impl View for Json {
    type V = JsonView;

    open spec fn view(&self) -> JsonView {
        self.model()
    }
}

impl View for JsonObject {
    type V = Map<Seq<char>, JsonView>;

    open spec fn view(&self) -> Map<Seq<char>, JsonView> {
        map_of(self.pairs())
    }
}

/// One level of a `serde_json::Value`.
enum Node {
    Null,
    Bool(bool),
    Number(serde_json::Number),
    Text(String),
    Array(Vec<serde_json::Value>),
    Object(Vec<(String, serde_json::Value)>),
}

impl Node {
    spec fn pairs(entries: Seq<(String, serde_json::Value)>) -> Seq<(Seq<char>, JsonView)> {
        entries.map_values(|e: (String, serde_json::Value)| (e.0@, value_view(e.1)))
    }

    spec fn model(self) -> JsonView {
        match self {
            Node::Null => JsonView::Null,
            Node::Bool(b) => JsonView::Bool(b),
            Node::Number(n) => number_view(n),
            Node::Text(s) => JsonView::Text(s@),
            Node::Array(items) => JsonView::Array(
                items@.map_values(|v: serde_json::Value| value_view(v)),
            ),
            Node::Object(entries) => JsonView::Object(map_of(Node::pairs(entries@))),
        }
    }
}

/// Takes a `serde_json::Value` apart: which variant it is, with its payload; the entries of
/// its map come out in the map's order, each key once (`serde_json::Map::into_iter`).
#[verifier::external_body]
fn open_value(value: serde_json::Value) -> (node: Node)
    ensures
        node.model() == value_view(value),
        node matches Node::Object(entries) ==> distinct_keys(Node::pairs(entries@)),
{
    match value {
        serde_json::Value::Null => Node::Null,
        serde_json::Value::Bool(b) => Node::Bool(b),
        serde_json::Value::Number(n) => Node::Number(n),
        serde_json::Value::String(s) => Node::Text(s),
        serde_json::Value::Array(items) => Node::Array(items),
        serde_json::Value::Object(fields) => Node::Object(fields.into_iter().collect()),
    }
}

/// Puts a `serde_json::Value` together: the variant with this payload; the map is collected
/// from entries with distinct keys (`serde_json::Map::from_iter`).
#[verifier::external_body]
fn close_value(node: Node) -> (value: serde_json::Value)
    requires
        node matches Node::Object(entries) ==> distinct_keys(Node::pairs(entries@)),
    ensures
        value_view(value) == node.model(),
{
    match node {
        Node::Null => serde_json::Value::Null,
        Node::Bool(b) => serde_json::Value::Bool(b),
        Node::Number(n) => serde_json::Value::Number(n),
        Node::Text(s) => serde_json::Value::String(s),
        Node::Array(items) => serde_json::Value::Array(items),
        Node::Object(entries) => serde_json::Value::Object(entries.into_iter().collect()),
    }
}

/// `serde_json::Number::from` on a `u32`: the number holds that integer.
#[verifier::external_body]
fn number_from_u32(n: u32) -> (r: serde_json::Number)
    ensures
        integer_value(r) == Some(n as int),
{
    serde_json::Number::from(n)
}

/// The value under a key is the one in the pair that holds the key.
proof fn lemma_map_of_at<V>(pairs: Seq<(Seq<char>, V)>, i: int)
    requires
        distinct_keys(pairs),
        0 <= i < pairs.len(),
    ensures
        map_of(pairs).contains_key(pairs[i].0),
        map_of(pairs)[pairs[i].0] == pairs[i].1,
{
    let k = pairs[i].0;
    let j = choose|j: int| 0 <= j < pairs.len() && #[trigger] pairs[j].0 == k;
    assert(0 <= j < pairs.len() && pairs[j].0 == k);
}

/// An added pair with a fresh key adds that key.
proof fn lemma_map_of_push<V>(pairs: Seq<(Seq<char>, V)>, key: Seq<char>, value: V)
    requires
        distinct_keys(pairs),
        forall|i: int| 0 <= i < pairs.len() ==> #[trigger] pairs[i].0 != key,
    ensures
        distinct_keys(pairs.push((key, value))),
        map_of(pairs.push((key, value))) == map_of(pairs).insert(key, value),
{
    let more = pairs.push((key, value));
    assert(distinct_keys(more));
    let a = map_of(more);
    let b = map_of(pairs).insert(key, value);
    assert forall|k: Seq<char>| a.contains_key(k) == b.contains_key(k) by {
        if b.contains_key(k) {
            if k == key {
                assert(more[pairs.len() as int].0 == k);
            } else {
                let i = choose|i: int| 0 <= i < pairs.len() && #[trigger] pairs[i].0 == k;
                assert(more[i].0 == k);
            }
        }
        if a.contains_key(k) {
            let i = choose|i: int| 0 <= i < more.len() && #[trigger] more[i].0 == k;
            if i < pairs.len() {
                assert(pairs[i].0 == k);
            }
        }
    }
    assert forall|k: Seq<char>| a.contains_key(k) implies a[k] == b[k] by {
        let i = choose|i: int| 0 <= i < more.len() && #[trigger] more[i].0 == k;
        lemma_map_of_at(more, i);
        if i < pairs.len() {
            assert(pairs[i].0 == k);
            lemma_map_of_at(pairs, i);
        }
    }
    assert(a =~= b);
}

/// A pair written over another with the same key replaces the value under that key.
proof fn lemma_map_of_update<V>(pairs: Seq<(Seq<char>, V)>, at: int, value: V)
    requires
        distinct_keys(pairs),
        0 <= at < pairs.len(),
    ensures
        distinct_keys(pairs.update(at, (pairs[at].0, value))),
        map_of(pairs.update(at, (pairs[at].0, value))) == map_of(pairs).insert(
            pairs[at].0,
            value,
        ),
{
    let key = pairs[at].0;
    let other = pairs.update(at, (key, value));
    assert forall|i: int| 0 <= i < pairs.len() implies #[trigger] other[i].0 == pairs[i].0 by {}
    assert(distinct_keys(other));
    let a = map_of(other);
    let b = map_of(pairs).insert(key, value);
    assert forall|k: Seq<char>| a.contains_key(k) == b.contains_key(k) by {
        if b.contains_key(k) {
            if k == key {
                assert(other[at].0 == k);
            } else {
                let i = choose|i: int| 0 <= i < pairs.len() && #[trigger] pairs[i].0 == k;
                assert(other[i].0 == k);
            }
        }
        if a.contains_key(k) {
            let i = choose|i: int| 0 <= i < other.len() && #[trigger] other[i].0 == k;
            assert(pairs[i].0 == k);
        }
    }
    assert forall|k: Seq<char>| a.contains_key(k) implies a[k] == b[k] by {
        let i = choose|i: int| 0 <= i < other.len() && #[trigger] other[i].0 == k;
        lemma_map_of_at(other, i);
        lemma_map_of_at(pairs, i);
    }
    assert(a =~= b);
}

impl JsonObject {
    /// The object without entries.
    pub fn new() -> (r: JsonObject)
        ensures
            r@ == Map::<Seq<char>, JsonView>::empty(),
    {
        let r = JsonObject { entries: Vec::new() };
        assert(r@ =~= Map::<Seq<char>, JsonView>::empty());
        r
    }

    /// Where the entry with a key stands.
    fn position(&self, key: &str) -> (r: Option<usize>)
        ensures
            match r {
                Some(i) => i < self.pairs().len() && self.pairs()[i as int].0 == key@,
                None => forall|i: int|
                    0 <= i < self.pairs().len() ==> #[trigger] self.pairs()[i].0 != key@,
            },
    {
        let mut i: usize = 0;
        while i < self.entries.len()
            invariant
                i <= self.entries@.len(),
                forall|j: int| 0 <= j < i ==> #[trigger] self.pairs()[j].0 != key@,
            decreases self.entries@.len() - i,
        {
            if same_text(self.entries[i].0.as_str(), key) {
                return Some(i);
            }
            i += 1;
        }
        None
    }

    /// The value under a key.
    pub fn get(&self, key: &str) -> (r: Option<&Json>)
        ensures
            match r {
                Some(value) => self@.contains_key(key@) && self@[key@] == value@,
                None => !self@.contains_key(key@),
            },
    {
        proof {
            use_type_invariant(&*self);
        }
        match self.position(key) {
            Some(i) => {
                proof {
                    lemma_map_of_at(self.pairs(), i as int);
                }
                Some(&self.entries[i].1)
            },
            None => None,
        }
    }

    /// The object with a value under a key, in place of what stood there.
    pub fn with(self, key: &str, value: Json) -> (r: JsonObject)
        ensures
            r@ == self@.insert(key@, value@),
    {
        proof {
            use_type_invariant(&self);
        }
        let found = self.position(key);
        let ghost before = self.pairs();
        let ghost model = value@;
        let mut entries = self.entries;
        match found {
            Some(i) => {
                entries.set(i, (key.to_owned(), value));
                proof {
                    lemma_map_of_update(before, i as int, model);
                    assert(JsonObject { entries }.pairs() =~= before.update(
                        i as int,
                        (key@, model),
                    ));
                }
            },
            None => {
                entries.push((key.to_owned(), value));
                proof {
                    lemma_map_of_push(before, key@, model);
                    assert(JsonObject { entries }.pairs() =~= before.push((key@, model)));
                }
            },
        }
        JsonObject { entries }
    }
}

/// The keys of the map are those of the pairs, so they are finitely many.
proof fn lemma_map_of_finite<V>(pairs: Seq<(Seq<char>, V)>)
    ensures
        map_of(pairs).dom().finite(),
{
    let keys = pairs.map_values(|p: (Seq<char>, V)| p.0);
    assert forall|k: Seq<char>| map_of(pairs).contains_key(k) implies keys.to_set().contains(k) by {
        let i = choose|i: int| 0 <= i < pairs.len() && #[trigger] pairs[i].0 == k;
        assert(keys[i] == k);
    }
    vstd::seq_lib::seq_to_set_is_finite(keys);
    vstd::set_lib::lemma_set_subset_finite(keys.to_set(), map_of(pairs).dom());
}

/// The text of a JSON value, where there is one.
pub uninterp spec fn parsed_text(text: Seq<char>) -> Option<JsonView>;

/// The JSON value that bytes hold, where there is one.
pub uninterp spec fn parsed_bytes(bytes: Seq<u8>) -> Option<JsonView>;

/// The compact text of a JSON value.
pub uninterp spec fn rendered(value: JsonView) -> Seq<char>;

/// `serde_json::from_str` into a `serde_json::Value`.
#[verifier::external_body]
fn value_from_str(text: &str) -> (r: Option<serde_json::Value>)
    ensures
        parsed_text(text@) == match r {
            Some(value) => Some(value_view(value)),
            None => None,
        },
{
    serde_json::from_str::<serde_json::Value>(text).ok()
}

/// `serde_json::from_slice` into a `serde_json::Value`.
#[verifier::external_body]
fn value_from_slice(bytes: &[u8]) -> (r: Option<serde_json::Value>)
    ensures
        parsed_bytes(bytes@) == match r {
            Some(value) => Some(value_view(value)),
            None => None,
        },
{
    serde_json::from_slice::<serde_json::Value>(bytes).ok()
}

/// How deep arrays and objects may lie inside each other for a text of them to be parsed.
pub const PARSED_DEPTH: u32 = 127;

/// `to_string` of a `serde_json::Value`: its compact text, which `serde_json::from_str` reads as
/// the same value. Two kinds of values are left out of the latter: those with a floating-point
/// number, which may be rounded, and those nested deeper than the parser goes.
#[verifier::external_body]
fn value_to_string(value: &serde_json::Value) -> (r: String)
    ensures
        r@ == rendered(value_view(*value)),
        value_view(*value).is_exact(PARSED_DEPTH as nat) ==> parsed_text(r@) == Some(
            value_view(*value),
        ),
{
    value.to_string()
}

/// `Clone` of a `serde_json::Number`: the same number.
pub assume_specification[ <serde_json::Number as Clone>::clone ](n: &serde_json::Number) -> (r:
    serde_json::Number)
    ensures
        r == *n,
;

impl Json {
    /// The same value as a `serde_json::Value` holds.
    pub fn from_value(value: serde_json::Value) -> (r: Json)
        ensures
            r@ == value_view(value),
        decreases value_view(value),
    {
        match open_value(value) {
            Node::Null => Json::Null,
            Node::Bool(b) => Json::Bool(b),
            Node::Number(n) => Json::Number(n),
            Node::Text(s) => Json::Text(s),
            Node::Array(items) => {
                let ghost views = items@.map_values(|v: serde_json::Value| value_view(v));
                let mut out: Vec<Json> = Vec::new();
                for item in it: items
                    invariant
                        it.seq() == items@,
                        views == items@.map_values(|v: serde_json::Value| value_view(v)),
                        value_view(value) == JsonView::Array(views),
                        out@.len() == it.index(),
                        forall|i: int| 0 <= i < out@.len() ==> (#[trigger] out@[i])@ == views[i],
                {
                    assert(decreases_to!(value_view(value) => value_view(value)->Array_0));
                    assert(decreases_to!(views => views[it.index()]));
                    assert(value_view(item) == views[it.index()]);
                    out.push(Json::from_value(item));
                }
                let r = Json::Array(out);
                assert(r@->Array_0 =~= views);
                r
            },
            Node::Object(fields) => {
                let ghost pairs = Node::pairs(fields@);
                let mut entries: Vec<(String, Json)> = Vec::new();
                proof {
                    lemma_map_of_finite(pairs);
                }
                for field in it: fields
                    invariant
                        it.seq() == fields@,
                        pairs == Node::pairs(fields@),
                        distinct_keys(pairs),
                        map_of(pairs).dom().finite(),
                        value_view(value) == JsonView::Object(map_of(pairs)),
                        entries@.len() == it.index(),
                        forall|i: int|
                            #![trigger entries@[i]]
                            0 <= i < entries@.len() ==> entries@[i].0@ == pairs[i].0
                                && entries@[i].1@ == pairs[i].1,
                {
                    proof {
                        lemma_map_of_at(pairs, it.index());
                        assert(decreases_to!(value_view(value) => value_view(value)->Object_0));
                        assert(decreases_to!(map_of(pairs) => map_of(pairs)[pairs[it.index()].0]));
                        assert(value_view(field.1) == map_of(pairs)[pairs[it.index()].0]);
                    }
                    entries.push((field.0, Json::from_value(field.1)));
                }
                assert(JsonObject { entries }.pairs() =~= pairs);
                Json::Object(JsonObject { entries })
            },
        }
    }

    /// The same value as a `serde_json::Value`.
    pub fn to_value(&self) -> (r: serde_json::Value)
        ensures
            value_view(r) == self@,
        decreases self,
    {
        match self {
            Json::Null => close_value(Node::Null),
            Json::Bool(b) => close_value(Node::Bool(*b)),
            Json::Number(n) => close_value(Node::Number(n.clone())),
            Json::Text(s) => close_value(Node::Text(s.clone())),
            Json::Array(items) => {
                let mut out: Vec<serde_json::Value> = Vec::new();
                let mut i: usize = 0;
                while i < items.len()
                    invariant
                        *self == Json::Array(*items),
                        i <= items@.len(),
                        out@.len() == i,
                        forall|j: int|
                            0 <= j < out@.len() ==> value_view(#[trigger] out@[j]) == items@[j]@,
                    decreases items@.len() - i,
                {
                    assert(decreases_to!(self => self->Array_0));
                    assert(decreases_to!(items => items[i as int]));
                    out.push(items[i].to_value());
                    i += 1;
                }
                let node = Node::Array(out);
                assert(node.model()->Array_0 =~= self@->Array_0);
                close_value(node)
            },
            Json::Object(object) => {
                proof {
                    use_type_invariant(object);
                }
                let mut out: Vec<(String, serde_json::Value)> = Vec::new();
                let mut i: usize = 0;
                while i < object.entries.len()
                    invariant
                        *self == Json::Object(*object),
                        i <= object.entries@.len(),
                        out@.len() == i,
                        forall|j: int|
                            #![trigger out@[j]]
                            0 <= j < out@.len() ==> out@[j].0@ == object.pairs()[j].0
                                && value_view(out@[j].1) == object.pairs()[j].1,
                    decreases object.entries@.len() - i,
                {
                    assert(decreases_to!(self => self->Object_0));
                    assert(decreases_to!(object => object.entries));
                    assert(decreases_to!(object.entries => object.entries[i as int]));
                    assert(decreases_to!(object.entries[i as int] => object.entries[i as int].1));
                    out.push((object.entries[i].0.clone(), object.entries[i].1.to_value()));
                    i += 1;
                }
                assert(Node::pairs(out@) =~= object.pairs());
                close_value(Node::Object(out))
            },
        }
    }
}

impl Json {
    /// The string with these characters.
    pub fn text(text: &str) -> (r: Json)
        ensures
            r@ == JsonView::Text(text@),
    {
        Json::Text(text.to_owned())
    }

    /// The number that an integer is.
    pub fn integer(n: u32) -> (r: Json)
        ensures
            r@ == JsonView::Integer(n as int),
    {
        Json::Number(number_from_u32(n))
    }

    /// The array of these items.
    pub fn array(items: Vec<Json>) -> (r: Json)
        ensures
            r@ == JsonView::Array(models(items@)),
    {
        let r = Json::Array(items);
        assert(r@->Array_0 =~= models(items@));
        r
    }

    /// The object without entries.
    pub fn empty_object() -> (r: Json)
        ensures
            r@ == JsonView::Object(Map::empty()),
    {
        Json::Object(JsonObject::new())
    }

    /// The value that a JSON text holds.
    pub fn parse(text: &str) -> (r: Option<Json>)
        ensures
            parsed_text(text@) == match r {
                Some(value) => Some(value@),
                None => None,
            },
    {
        match value_from_str(text) {
            Some(value) => Some(Json::from_value(value)),
            None => None,
        }
    }

    /// The value that the bytes of a JSON text hold.
    pub fn parse_bytes(bytes: &[u8]) -> (r: Option<Json>)
        ensures
            parsed_bytes(bytes@) == match r {
                Some(value) => Some(value@),
                None => None,
            },
    {
        match value_from_slice(bytes) {
            Some(value) => Some(Json::from_value(value)),
            None => None,
        }
    }

    /// The compact text of the value. Reading it gives the value back, unless it holds a
    /// floating-point number or is nested too deep.
    pub fn render(&self) -> (r: String)
        ensures
            r@ == rendered(self@),
            self@.is_exact(PARSED_DEPTH as nat) ==> parsed_text(r@) == Some(self@),
    {
        value_to_string(&self.to_value())
    }

    /// The value under a key, where this is an object that has it.
    pub fn get(&self, key: &str) -> (r: Option<&Json>)
        ensures
            optional_model(r) == self@.get(key@),
    {
        match self {
            Json::Object(object) => object.get(key),
            _ => None,
        }
    }

    /// The items, where this is an array.
    pub fn as_array(&self) -> (r: Option<&Vec<Json>>)
        ensures
            match r {
                Some(items) => self@.items() == Some(models(items@)),
                None => self@.items() is None,
            },
    {
        match self {
            Json::Array(items) => {
                assert(self@->Array_0 =~= models(items@));
                Some(items)
            },
            _ => None,
        }
    }

    /// The characters, where this is a string.
    pub fn as_str(&self) -> (r: Option<&str>)
        ensures
            optional_text(r) == self@.text(),
    {
        match self {
            Json::Text(text) => Some(text.as_str()),
            _ => None,
        }
    }

    /// The value under a key, an object without entries where there is none.
    pub fn get_or_empty(&self, key: &str) -> (r: Json)
        ensures
            r@ == self@.get_or_empty(key@),
    {
        match self.get(key) {
            Some(value) => value.clone(),
            None => Json::empty_object(),
        }
    }

    /// The items of the array under a key.
    pub fn array_at(&self, key: &str) -> (r: Option<&Vec<Json>>)
        ensures
            match r {
                Some(items) => self@.items_at(key@) == Some(models(items@)),
                None => self@.items_at(key@) is None,
            },
    {
        match self.get(key) {
            Some(value) => value.as_array(),
            None => None,
        }
    }

    /// The characters of the string under a key.
    pub fn str_at(&self, key: &str) -> (r: Option<&str>)
        ensures
            optional_text(r) == self@.text_at(key@),
    {
        match self.get(key) {
            Some(value) => value.as_str(),
            None => None,
        }
    }

    /// The characters of the string under a key, or a default where there is no such string.
    pub fn text_or(&self, key: &str, default: &str) -> (r: String)
        ensures
            r@ == self@.text_or(key@, default@),
    {
        match self.str_at(key) {
            Some(text) => text.to_owned(),
            None => default.to_owned(),
        }
    }
}

impl Clone for Json {
    fn clone(&self) -> (r: Json)
        ensures
            r@ == self@,
        decreases self,
    {
        match self {
            Json::Null => Json::Null,
            Json::Bool(b) => Json::Bool(*b),
            Json::Number(n) => Json::Number(n.clone()),
            Json::Text(s) => Json::Text(s.clone()),
            Json::Array(items) => {
                let mut out: Vec<Json> = Vec::new();
                let mut i: usize = 0;
                while i < items.len()
                    invariant
                        *self == Json::Array(*items),
                        i <= items@.len(),
                        out@.len() == i,
                        forall|j: int| 0 <= j < out@.len() ==> (#[trigger] out@[j])@ == items@[j]@,
                    decreases items@.len() - i,
                {
                    assert(decreases_to!(self => self->Array_0));
                    assert(decreases_to!(items => items[i as int]));
                    out.push(items[i].clone());
                    i += 1;
                }
                let r = Json::Array(out);
                assert(r@->Array_0 =~= self@->Array_0);
                r
            },
            Json::Object(object) => {
                proof {
                    use_type_invariant(object);
                }
                let mut entries: Vec<(String, Json)> = Vec::new();
                let mut i: usize = 0;
                while i < object.entries.len()
                    invariant
                        *self == Json::Object(*object),
                        i <= object.entries@.len(),
                        entries@.len() == i,
                        forall|j: int|
                            #![trigger entries@[j]]
                            0 <= j < entries@.len() ==> entries@[j].0@ == object.pairs()[j].0
                                && entries@[j].1@ == object.pairs()[j].1,
                    decreases object.entries@.len() - i,
                {
                    assert(decreases_to!(self => self->Object_0));
                    assert(decreases_to!(object => object.entries));
                    assert(decreases_to!(object.entries => object.entries[i as int]));
                    assert(decreases_to!(object.entries[i as int] => object.entries[i as int].1));
                    entries.push((object.entries[i].0.clone(), object.entries[i].1.clone()));
                    i += 1;
                }
                assert(JsonObject { entries }.pairs() =~= object.pairs());
                Json::Object(JsonObject { entries })
            },
        }
    }
}

} // verus!
