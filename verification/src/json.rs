//! The JSON values that travel through the pipeline.
//!
//! The pipeline reads a payload one level deep: whether it is an object, and
//! if so its members by key. What lies below a member is carried as text.

use vstd::prelude::*;

verus! {

/// One member value of a payload.
#[derive(Debug, PartialEq, Eq)]
pub enum JsonValue {
    /// A JSON string, unescaped.
    Text(String),
    /// Any other JSON value, as compact JSON text.
    Raw(String),
}

/// What a `JsonValue` stands for.
pub enum JsonValueView {
    Text(Seq<char>),
    Raw(Seq<char>),
}

impl View for JsonValue {
    type V = JsonValueView;

    open spec fn view(&self) -> JsonValueView {
        match self {
            JsonValue::Text(s) => JsonValueView::Text(s@),
            JsonValue::Raw(s) => JsonValueView::Raw(s@),
        }
    }
}

impl DeepView for JsonValue {
    type V = JsonValueView;

    open spec fn deep_view(&self) -> JsonValueView {
        self.view()
    }
}

impl Clone for JsonValue {
    fn clone(&self) -> (r: Self)
        ensures
            r@ == self@,
    {
        match self {
            JsonValue::Text(s) => JsonValue::Text(s.clone()),
            JsonValue::Raw(s) => JsonValue::Raw(s.clone()),
        }
    }
}

/// A key with its value.
#[derive(Debug, PartialEq, Eq)]
pub struct Member {
    pub key: String,
    pub value: JsonValue,
}

/// What a `Member` stands for.
pub struct MemberView {
    pub key: Seq<char>,
    pub value: JsonValueView,
}

impl View for Member {
    type V = MemberView;

    open spec fn view(&self) -> MemberView {
        MemberView { key: self.key@, value: self.value@ }
    }
}

impl DeepView for Member {
    type V = MemberView;

    open spec fn deep_view(&self) -> MemberView {
        self.view()
    }
}

impl Clone for Member {
    fn clone(&self) -> (r: Self)
        ensures
            r@ == self@,
    {
        Member { key: self.key.clone(), value: self.value.clone() }
    }
}

/// Copies a list of members.
pub fn clone_members(v: &Vec<Member>) -> (r: Vec<Member>)
    ensures
        r.deep_view() == v.deep_view(),
{
    let mut r: Vec<Member> = Vec::new();
    let mut i: usize = 0;
    while i < v.len()
        invariant
            i <= v.len(),
            r.len() == i,
            forall|k: int| 0 <= k < i ==> r@[k]@ == v@[k]@,
        decreases v.len() - i,
    {
        r.push(v[i].clone());
        i += 1;
    }
    r
}

/// The object that a list of members spells out: each key with the value of
/// its last member.
pub open spec fn object_map(members: Seq<MemberView>) -> Map<Seq<char>, JsonValueView>
    decreases members.len(),
{
    if members.len() == 0 {
        Map::empty()
    } else {
        object_map(members.drop_last()).insert(members.last().key, members.last().value)
    }
}

/// No two members share a key.
pub open spec fn distinct_keys(members: Seq<MemberView>) -> bool {
    forall|i: int, j: int| 0 <= i < j < members.len() ==> members[i].key != members[j].key
}

/// The first index at or after `from` whose member has the key, or the
/// length when there is none.
pub open spec fn key_index(members: Seq<MemberView>, key: Seq<char>, from: int) -> int
    decreases members.len() - from,
{
    if from < 0 || from >= members.len() {
        members.len() as int
    } else if members[from].key == key {
        from
    } else {
        key_index(members, key, from + 1)
    }
}

/// The members after one more: it takes the place of the first member with
/// its key, or comes last where no member has its key.
pub open spec fn with_member(members: Seq<MemberView>, member: MemberView) -> Seq<MemberView> {
    let i = key_index(members, member.key, 0);
    if i < members.len() {
        members.update(i, member)
    } else {
        members.push(member)
    }
}

/// The members after each member of a payload in turn.
pub open spec fn with_members(members: Seq<MemberView>, payload: Seq<MemberView>) -> Seq<
    MemberView,
>
    decreases payload.len(),
{
    if payload.len() == 0 {
        members
    } else {
        with_member(with_members(members, payload.drop_last()), payload.last())
    }
}

/// A key is in the object exactly when some member has it.
pub proof fn lemma_object_keys(members: Seq<MemberView>, key: Seq<char>)
    ensures
        object_map(members).contains_key(key) <==> exists|i: int|
            0 <= i < members.len() && #[trigger] members[i].key == key,
    decreases members.len(),
{
    if members.len() > 0 {
        let rest = members.drop_last();
        lemma_object_keys(rest, key);
        if object_map(members).contains_key(key) {
            if members.last().key == key {
                assert(members[members.len() - 1].key == key);
            } else {
                let i = choose|i: int| 0 <= i < rest.len() && #[trigger] rest[i].key == key;
                assert(members[i].key == key);
            }
        }
        if exists|i: int| 0 <= i < members.len() && #[trigger] members[i].key == key {
            let i = choose|i: int| 0 <= i < members.len() && #[trigger] members[i].key == key;
            if i < rest.len() {
                assert(rest[i].key == key);
            }
        }
    }
}

/// Where keys are distinct, each member's key maps to that member's value.
pub proof fn lemma_object_value(members: Seq<MemberView>, i: int)
    requires
        distinct_keys(members),
        0 <= i < members.len(),
    ensures
        object_map(members).contains_key(members[i].key),
        object_map(members)[members[i].key] == members[i].value,
    decreases members.len(),
{
    let rest = members.drop_last();
    if i < members.len() - 1 {
        assert(distinct_keys(rest)) by {
            assert forall|a: int, b: int| 0 <= a < b < rest.len() implies rest[a].key
                != rest[b].key by {
                assert(members[a].key != members[b].key);
            }
        }
        lemma_object_value(rest, i);
        assert(rest[i] == members[i]);
        assert(members[i].key != members[members.len() - 1].key);
    }
}

/// Replacing the value of a member leaves the keys distinct and replaces the
/// value under its key.
pub proof fn lemma_object_update(members: Seq<MemberView>, i: int, m: MemberView)
    requires
        distinct_keys(members),
        0 <= i < members.len(),
        members[i].key == m.key,
    ensures
        distinct_keys(members.update(i, m)),
        object_map(members.update(i, m)) == object_map(members).insert(m.key, m.value),
    decreases members.len(),
{
    let after = members.update(i, m);
    assert(distinct_keys(after)) by {
        assert forall|a: int, b: int| 0 <= a < b < after.len() implies after[a].key
            != after[b].key by {
            assert(members[a].key != members[b].key);
        }
    }
    let rest = members.drop_last();
    if i == members.len() - 1 {
        assert(after.drop_last() == rest);
        assert(object_map(after) =~= object_map(members).insert(m.key, m.value));
    } else {
        assert(distinct_keys(rest)) by {
            assert forall|a: int, b: int| 0 <= a < b < rest.len() implies rest[a].key
                != rest[b].key by {
                assert(members[a].key != members[b].key);
            }
        }
        lemma_object_update(rest, i, m);
        assert(after.drop_last() == rest.update(i, m));
        assert(after.last() == members.last());
        assert(members[i].key != members[members.len() - 1].key);
        assert(object_map(after) =~= object_map(members).insert(m.key, m.value));
    }
}

/// A JSON object: members with distinct keys. It stands for the map from
/// each key to its value.
#[derive(Debug)]
pub struct JsonObject {
    members: Vec<Member>,
}

impl View for JsonObject {
    type V = Map<Seq<char>, JsonValueView>;

    closed spec fn view(&self) -> Map<Seq<char>, JsonValueView> {
        object_map(self.members.deep_view())
    }
}

impl JsonObject {
    /// No key comes twice. Every constructor establishes this and every
    /// method keeps it.
    pub open spec fn wf(self) -> bool {
        distinct_keys(self.entries())
    }

    /// The members in the order in which their keys first came.
    pub closed spec fn entries(self) -> Seq<MemberView> {
        self.members.deep_view()
    }

    /// The empty object.
    pub fn new() -> (r: Self)
        ensures
            r.wf(),
            r@ == Map::<Seq<char>, JsonValueView>::empty(),
            r.entries().len() == 0,
    {
        let members: Vec<Member> = Vec::new();
        JsonObject { members }
    }

    /// The number of members.
    pub fn len(&self) -> (n: usize)
        ensures
            n == self.entries().len(),
    {
        self.members.len()
    }

    /// The members, in the order in which their keys first came.
    pub fn members(&self) -> (r: &Vec<Member>)
        ensures
            r.deep_view() == self.entries(),
            self.wf() ==> distinct_keys(self.entries()),
            self@ == object_map(self.entries()),
    {
        &self.members
    }

    fn position(&self, key: &String) -> (r: usize)
        ensures
            r <= self.members.len(),
            r == key_index(self.members.deep_view(), key@, 0),
            r < self.members.len() ==> self.members[r as int].key@ == key@,
            r == self.members.len() ==> forall|i: int|
                0 <= i < self.members.len() ==> self.members[i].key@ != key@,
    {
        let mut i: usize = 0;
        while i < self.members.len()
            invariant
                i <= self.members.len(),
                forall|k: int| 0 <= k < i ==> self.members[k].key@ != key@,
                key_index(self.members.deep_view(), key@, 0) == key_index(
                    self.members.deep_view(),
                    key@,
                    i as int,
                ),
            decreases self.members.len() - i,
        {
            if self.members[i].key == *key {
                return i;
            }
            i += 1;
        }
        i
    }

    /// The value under `key`, if the object has that key.
    pub fn get(&self, key: &String) -> (r: Option<&JsonValue>)
        requires
            self.wf(),
        ensures
            r.deep_view() == (if self@.contains_key(key@) {
                Some(self@[key@])
            } else {
                None
            }),
    {
        let i: usize = self.position(key);
        proof {
            lemma_object_keys(self.members.deep_view(), key@);
            if i < self.members.len() {
                lemma_object_value(self.members.deep_view(), i as int);
            }
        }
        if i < self.members.len() {
            Some(&self.members[i].value)
        } else {
            None
        }
    }

    /// Tells whether the object has `key`.
    pub fn contains_key(&self, key: &String) -> (b: bool)
        requires
            self.wf(),
        ensures
            b == self@.contains_key(key@),
    {
        let i: usize = self.position(key);
        proof {
            lemma_object_keys(self.members.deep_view(), key@);
            if i < self.members.len() {
                lemma_object_value(self.members.deep_view(), i as int);
            }
        }
        i < self.members.len()
    }

    /// Sets the value under `key`, replacing the one that was there.
    pub fn insert(&mut self, key: String, value: JsonValue)
        requires
            old(self).wf(),
        ensures
            final(self).wf(),
            final(self)@ == old(self)@.insert(key@, value@),
            final(self).entries() == with_member(
                old(self).entries(),
                MemberView { key: key@, value: value@ },
            ),
    {
        let i: usize = self.position(&key);
        let ghost before = self.members.deep_view();
        let ghost added = MemberView { key: key@, value: value@ };
        if i < self.members.len() {
            proof {
                lemma_object_update(before, i as int, added);
            }
            self.members[i] = Member { key, value };
            assert(self.members.deep_view() =~= before.update(i as int, added));
        } else {
            self.members.push(Member { key, value });
            assert(self.members.deep_view() =~= before.push(added));
            assert(before.push(added).drop_last() == before);
        }
    }

    /// Merges `payload` into the object, member by member: a key that the
    /// object has takes the payload's value, a new key is added.
    pub fn merge(&mut self, payload: &Vec<Member>)
        requires
            old(self).wf(),
        ensures
            final(self).wf(),
            final(self)@ == old(self)@.union_prefer_right(object_map(payload.deep_view())),
            final(self).entries() == with_members(old(self).entries(), payload.deep_view()),
    {
        let mut i: usize = 0;
        while i < payload.len()
            invariant
                i <= payload.len(),
                self.wf(),
                self@ == old(self)@.union_prefer_right(
                    object_map(payload.deep_view().take(i as int)),
                ),
                self.entries() == with_members(
                    old(self).entries(),
                    payload.deep_view().take(i as int),
                ),
            decreases payload.len() - i,
        {
            let ghost seen = payload.deep_view().take(i as int);
            let ghost next = payload.deep_view().take(i as int + 1);
            assert(next.drop_last() == seen);
            self.insert(payload[i].key.clone(), payload[i].value.clone());
            i += 1;
        }
        assert(payload.deep_view().take(payload.len() as int) == payload.deep_view());
    }
}

impl Clone for JsonObject {
    fn clone(&self) -> (r: Self)
        ensures
            r@ == self@,
            r.entries() == self.entries(),
            r.wf() == self.wf(),
    {
        JsonObject { members: clone_members(&self.members) }
    }
}

/// The value that `members` gives to `key`: that of the last member with it.
pub fn lookup<'a>(members: &'a Vec<Member>, key: &str) -> (r: Option<&'a JsonValue>)
    ensures
        r.deep_view() == (if object_map(members.deep_view()).contains_key(key@) {
            Some(object_map(members.deep_view())[key@])
        } else {
            None
        }),
{
    let wanted: String = key.to_owned();
    let mut i: usize = members.len();
    assert(members.deep_view().take(i as int) == members.deep_view());
    while i > 0
        invariant
            i <= members.len(),
            wanted@ == key@,
            object_map(members.deep_view()).contains_key(key@) == object_map(
                members.deep_view().take(i as int),
            ).contains_key(key@),
            object_map(members.deep_view()).contains_key(key@) ==> object_map(
                members.deep_view(),
            )[key@] == object_map(members.deep_view().take(i as int))[key@],
        decreases i,
    {
        let ghost upto = members.deep_view().take(i as int);
        assert(upto.drop_last() == members.deep_view().take(i as int - 1));
        if members[i - 1].key == wanted {
            return Some(&members[i - 1].value);
        }
        i -= 1;
    }
    None
}

/// A parsed JSON text: its compact rendering and, where the text is an
/// object, its members.
#[derive(Debug, PartialEq, Eq)]
pub struct JsonDocument {
    /// The value as compact JSON text.
    pub rendered: String,
    /// The members of an object; `None` for any other value.
    pub members: Option<Vec<Member>>,
}

/// What a `JsonDocument` stands for.
pub struct JsonDocumentView {
    pub rendered: Seq<char>,
    pub members: Option<Seq<MemberView>>,
}

impl View for JsonDocument {
    type V = JsonDocumentView;

    open spec fn view(&self) -> JsonDocumentView {
        JsonDocumentView { rendered: self.rendered@, members: self.members.deep_view() }
    }
}

impl DeepView for JsonDocument {
    type V = JsonDocumentView;

    open spec fn deep_view(&self) -> JsonDocumentView {
        self.view()
    }
}

impl Clone for JsonDocument {
    fn clone(&self) -> (r: Self)
        ensures
            r@ == self@,
    {
        let members: Option<Vec<Member>> = match &self.members {
            Some(list) => Some(clone_members(list)),
            None => None,
        };
        JsonDocument { rendered: self.rendered.clone(), members }
    }
}

/// What `serde_json` makes of a text: nothing where the text is not JSON,
/// else the parsed value's compact rendering and top-level members.
pub uninterp spec fn parsed_json(text: Seq<char>) -> Option<JsonDocumentView>;

/// The compact JSON text of the object whose members are the given keys,
/// each with its text as a JSON string.
pub uninterp spec fn text_object_json(pairs: Seq<(Seq<char>, Seq<char>)>) -> Seq<char>;

/// `serde_json::from_str` into a `serde_json::Value`, then `to_string` of the
/// value and of each member that is not a string. The contract claims only
/// that the outcome is a function of the text: `None` where parsing fails.
#[verifier::external_body]
pub(crate) fn parse_json(text: &str) -> (doc: Option<JsonDocument>)
    ensures
        doc.deep_view() == parsed_json(text@),
{
    let value: serde_json::Value = serde_json::from_str(text).ok()?;
    let rendered = value.to_string();
    let members = match value {
        serde_json::Value::Object(map) => Some(map.into_iter().map(|(key, v)| Member {
            key,
            value: match v {
                serde_json::Value::String(s) => JsonValue::Text(s),
                other => JsonValue::Raw(other.to_string()),
            },
        }).collect()),
        _ => None,
    };
    Some(JsonDocument { rendered, members })
}

/// `to_string` of the `serde_json::Value` object built from the pairs, each
/// value a JSON string. The contract claims only that the text is a function
/// of the pairs.
#[verifier::external_body]
pub(crate) fn render_text_object(pairs: &Vec<(String, String)>) -> (text: String)
    ensures
        text@ == text_object_json(pairs.deep_view()),
{
    let map: serde_json::Map<String, serde_json::Value> = pairs.iter().map(
        |p| (p.0.clone(), serde_json::Value::String(p.1.clone())),
    ).collect();
    serde_json::Value::Object(map).to_string()
}

/// Parses a JSON text. A text that is not JSON gives nothing.
pub fn parse_document(text: &str) -> (doc: Option<JsonDocument>)
    ensures
        doc.deep_view() == parsed_json(text@),
{
    parse_json(text)
}

/// The members that text pairs spell out.
pub open spec fn text_members(pairs: Seq<(Seq<char>, Seq<char>)>) -> Seq<MemberView> {
    Seq::new(
        pairs.len(),
        |i: int| MemberView { key: pairs[i].0, value: JsonValueView::Text(pairs[i].1) },
    )
}

/// The document of an object whose values are all strings.
pub open spec fn text_document_view(pairs: Seq<(Seq<char>, Seq<char>)>) -> JsonDocumentView {
    JsonDocumentView {
        rendered: text_object_json(pairs),
        members: Some(text_members(pairs)),
    }
}

/// Builds the document of the object with the given keys and string values.
pub fn text_document(pairs: Vec<(String, String)>) -> (doc: JsonDocument)
    ensures
        doc@ == text_document_view(pairs.deep_view()),
{
    let rendered: String = render_text_object(&pairs);
    let mut members: Vec<Member> = Vec::new();
    let mut i: usize = 0;
    while i < pairs.len()
        invariant
            i <= pairs.len(),
            members.len() == i,
            forall|k: int|
                0 <= k < i ==> members@[k]@ == (MemberView {
                    key: pairs@[k].0@,
                    value: JsonValueView::Text(pairs@[k].1@),
                }),
        decreases pairs.len() - i,
    {
        members.push(
            Member { key: pairs[i].0.clone(), value: JsonValue::Text(pairs[i].1.clone()) },
        );
        i += 1;
    }
    assert(members.deep_view() =~= text_members(pairs.deep_view()));
    JsonDocument { rendered, members: Some(members) }
}

} // verus!
