//! JSON documents: what a `serde_json::Value` holds, and the few ways in which
//! the library takes one apart, puts one together, reads one and writes one.
use crate::text::same_text;
use vstd::prelude::*;
use vstd::utf8::encode_utf8;

verus! {

/// `serde_json::Value`, opaque but for what [`json_of`] says of it.
#[verifier::external_type_specification]
#[verifier::external_body]
pub struct ExValue(serde_json::Value);

/// `serde_json::Number`, opaque but for what [`number_of`] says of it.
#[verifier::external_type_specification]
#[verifier::external_body]
pub struct ExNumber(serde_json::Number);

/// A JSON number: an integer, or the numeral of one that is not held as an
/// integer.
pub enum NumberView {
    Integer(int),
    Real(Seq<char>),
}

/// A JSON document as a mathematical value.
pub enum JsonView {
    Null,
    Bool(bool),
    Number(NumberView),
    Text(Seq<char>),
    List(Seq<JsonView>),
    Fields(Members),
}

/// The members of a JSON object, in their order.
pub struct Members {
    pub pairs: Seq<(Seq<char>, JsonView)>,
}

/// `pairs` with `member` under `name`: in place of the member of that name where
/// there is one, else behind all others.
pub open spec fn with_pair(
    pairs: Seq<(Seq<char>, JsonView)>,
    name: Seq<char>,
    member: JsonView,
) -> Seq<(Seq<char>, JsonView)>
    decreases pairs.len(),
{
    if pairs.len() == 0 {
        seq![(name, member)]
    } else if pairs[0].0 == name {
        seq![(name, member)] + pairs.skip(1)
    } else {
        seq![pairs[0]] + with_pair(pairs.skip(1), name, member)
    }
}

/// The member under `name`, where there is one.
pub open spec fn find_pair(pairs: Seq<(Seq<char>, JsonView)>, name: Seq<char>) -> Option<JsonView>
    decreases pairs.len(),
{
    if pairs.len() == 0 {
        None
    } else if pairs[0].0 == name {
        Some(pairs[0].1)
    } else {
        find_pair(pairs.skip(1), name)
    }
}

impl Members {
    /// No members.
    pub open spec fn none() -> Members {
        Members { pairs: Seq::empty() }
    }

    /// These members with `member` under `name`: in place of the member of that name
    /// where there is one, else behind all others.
    pub open spec fn with(self, name: Seq<char>, member: JsonView) -> Members {
        Members { pairs: with_pair(self.pairs, name, member) }
    }

    /// The member under `name`, where there is one.
    pub open spec fn get(self, name: Seq<char>) -> Option<JsonView> {
        find_pair(self.pairs, name)
    }

    /// Whether there is a member under `name`.
    pub open spec fn has(self, name: Seq<char>) -> bool {
        self.get(name) is Some
    }
}

/// A member is found under the name that it was put under, and putting it there
/// changes nothing under other names.
pub broadcast proof fn law_member_is_found(
    members: Members,
    name: Seq<char>,
    member: JsonView,
    other: Seq<char>,
)
    ensures
        #[trigger] members.with(name, member).get(other) == (if other == name {
            Some(member)
        } else {
            members.get(other)
        }),
{
    lemma_find_pair(members.pairs, name, member, other);
}

proof fn lemma_find_pair(
    pairs: Seq<(Seq<char>, JsonView)>,
    name: Seq<char>,
    member: JsonView,
    other: Seq<char>,
)
    ensures
        find_pair(with_pair(pairs, name, member), other) == (if other == name {
            Some(member)
        } else {
            find_pair(pairs, other)
        }),
    decreases pairs.len(),
{
    let now = with_pair(pairs, name, member);
    if pairs.len() == 0 {
        assert(now.skip(1) =~= pairs);
    } else if pairs[0].0 == name {
        assert(now.skip(1) =~= pairs.skip(1));
    } else {
        assert(now.skip(1) =~= with_pair(pairs.skip(1), name, member));
        lemma_find_pair(pairs.skip(1), name, member, other);
    }
}

/// What a `serde_json::Value` holds.
pub uninterp spec fn json_of(value: serde_json::Value) -> JsonView;

/// What a `serde_json::Number` holds.
pub uninterp spec fn number_of(number: serde_json::Number) -> NumberView;

/// What `serde_json::from_str` makes of a text: the document, or the text of
/// its error.
pub uninterp spec fn json_parse(source: Seq<char>) -> Result<JsonView, Seq<char>>;

/// What `serde_json::from_slice` makes of bytes: the document, or the text of
/// its error.
pub uninterp spec fn json_parse_bytes(source: Seq<u8>) -> Result<JsonView, Seq<char>>;

/// The compact text of a document, as `serde_json::Value` displays itself.
pub uninterp spec fn compact_json(document: JsonView) -> Seq<char>;

/// Names and members put together one after the other.
pub open spec fn collected(pairs: Seq<(Seq<char>, JsonView)>) -> Members
    decreases pairs.len(),
{
    if pairs.len() == 0 {
        Members::none()
    } else {
        collected(pairs.drop_last()).with(pairs.last().0, pairs.last().1)
    }
}

/// The first of the names of a document, where it is an object that has any.
pub open spec fn first_name(document: JsonView) -> Option<Seq<char>> {
    match document {
        JsonView::Fields(members) => if members.pairs.len() > 0 {
            Some(members.pairs[0].0)
        } else {
            None
        },
        _ => None,
    }
}

/// The number `n`.
pub open spec fn json_count(n: nat) -> JsonView {
    JsonView::Number(NumberView::Integer(n as int))
}

/// The object without members.
pub open spec fn json_empty_object() -> JsonView {
    JsonView::Fields(Members::none())
}

/// The member under `name`, where the document is an object that has one.
pub open spec fn under(document: JsonView, name: Seq<char>) -> Option<JsonView> {
    match document {
        JsonView::Fields(members) => members.get(name),
        _ => None,
    }
}

/// The text under `name`, where the document is an object that holds one there.
pub open spec fn text_under(document: JsonView, name: Seq<char>) -> Option<Seq<char>> {
    match under(document, name) {
        Some(JsonView::Text(found)) => Some(found),
        _ => None,
    }
}

/// A document as plain text: a string bare, null not at all, anything else as its
/// compact JSON text.
pub open spec fn plain_text(document: JsonView) -> Option<Seq<char>> {
    match document {
        JsonView::Text(s) => Some(s),
        JsonView::Null => None,
        other => Some(compact_json(other)),
    }
}

/// The members of an object, as they are borrowed from it.
pub open spec fn borrowed_pairs(members: Seq<(&String, &serde_json::Value)>) -> Seq<
    (Seq<char>, JsonView),
> {
    members.map_values(|m: (&String, &serde_json::Value)| (m.0@, json_of(*m.1)))
}

/// The members that an object is made of.
pub open spec fn owned_pairs(members: Seq<(String, serde_json::Value)>) -> Seq<
    (Seq<char>, JsonView),
> {
    members.map_values(|m: (String, serde_json::Value)| (m.0@, json_of(m.1)))
}

/// What each of a sequence of values holds.
pub open spec fn json_each(values: Seq<serde_json::Value>) -> Seq<JsonView> {
    values.map_values(|v: serde_json::Value| json_of(v))
}

/// A document taken apart by one level.
pub enum Shape<'a> {
    Null,
    Bool(bool),
    Number(&'a serde_json::Number),
    Text(&'a String),
    List(&'a Vec<serde_json::Value>),
    Fields(Vec<(&'a String, &'a serde_json::Value)>),
}

/// The document that a shape was taken from.
pub open spec fn shape_view(shape: Shape<'_>) -> JsonView {
    match shape {
        Shape::Null => JsonView::Null,
        Shape::Bool(b) => JsonView::Bool(b),
        Shape::Number(n) => JsonView::Number(number_of(*n)),
        Shape::Text(s) => JsonView::Text(s@),
        Shape::List(items) => JsonView::List(json_each(items@)),
        Shape::Fields(members) => JsonView::Fields(Members { pairs: borrowed_pairs(members@) }),
    }
}

/// Tells the variants of `serde_json::Value` apart. The members of an object come in
/// the order of `serde_json::Map::iter`, which under the feature `preserve_order` is
/// that in which they were inserted.
#[verifier::external_body]
pub(crate) fn inspect(value: &serde_json::Value) -> (r: Shape<'_>)
    ensures
        shape_view(r) == json_of(*value),
{
    match value {
        serde_json::Value::Null => Shape::Null,
        serde_json::Value::Bool(b) => Shape::Bool(*b),
        serde_json::Value::Number(n) => Shape::Number(n),
        serde_json::Value::String(s) => Shape::Text(s),
        serde_json::Value::Array(items) => Shape::List(items),
        serde_json::Value::Object(members) => Shape::Fields(members.iter().collect()),
    }
}

/// What one level of a document is put together from.
pub enum Draft {
    Null,
    Bool(bool),
    Count(u64),
    Text(String),
    List(Vec<serde_json::Value>),
    Fields(Vec<(String, serde_json::Value)>),
}

/// The document that a draft describes.
pub open spec fn draft_view(draft: Draft) -> JsonView {
    match draft {
        Draft::Null => JsonView::Null,
        Draft::Bool(b) => JsonView::Bool(b),
        Draft::Count(n) => JsonView::Number(NumberView::Integer(n as int)),
        Draft::Text(s) => JsonView::Text(s@),
        Draft::List(items) => JsonView::List(json_each(items@)),
        Draft::Fields(members) => JsonView::Fields(collected(owned_pairs(members@))),
    }
}

/// Makes the variant of `serde_json::Value` that the draft names. An object is
/// collected into a `serde_json::Map`, under the feature `preserve_order` an
/// `IndexMap`: each member is inserted behind the earlier ones, or in place of the
/// one of its name.
#[verifier::external_body]
pub(crate) fn assemble(draft: Draft) -> (r: serde_json::Value)
    ensures
        json_of(r) == draft_view(draft),
{
    match draft {
        Draft::Null => serde_json::Value::Null,
        Draft::Bool(b) => serde_json::Value::Bool(b),
        Draft::Count(n) => serde_json::Value::Number(serde_json::Number::from(n)),
        Draft::Text(s) => serde_json::Value::String(s),
        Draft::List(items) => serde_json::Value::Array(items),
        Draft::Fields(members) => serde_json::Value::Object(members.into_iter().collect()),
    }
}

/// `serde_json::Value::clone`: the copy holds what the original holds.
pub assume_specification[ <serde_json::Value as Clone>::clone ](value: &serde_json::Value) -> (r:
    serde_json::Value)
    ensures
        json_of(r) == json_of(*value),
;

/// `serde_json::Number::clone`: the copy holds what the original holds.
pub assume_specification[ <serde_json::Number as Clone>::clone ](
    number: &serde_json::Number,
) -> (r: serde_json::Number)
    ensures
        number_of(r) == number_of(*number),
;

/// `serde_json::Number::as_i64`: the integer, where the number is one that fits.
pub assume_specification[ serde_json::Number::as_i64 ](number: &serde_json::Number) -> (r: Option<
    i64,
>)
    ensures
        r == (match number_of(*number) {
            NumberView::Integer(n) => if i64::MIN <= n <= i64::MAX {
                Some(n as i64)
            } else {
                None
            },
            NumberView::Real(_) => None,
        }),
;

/// Calls `serde_json::from_str`; an error is handed on as its text.
#[verifier::external_body]
pub(crate) fn parse_text(source: &str) -> (r: Result<serde_json::Value, String>)
    ensures
        match r {
            Ok(value) => json_parse(source@) == Ok::<JsonView, Seq<char>>(json_of(value)),
            Err(message) => json_parse(source@) == Err::<JsonView, Seq<char>>(message@),
        },
{
    serde_json::from_str(source).map_err(|e| e.to_string())
}

/// Calls `serde_json::from_slice`; an error is handed on as its text.
#[verifier::external_body]
pub(crate) fn parse_bytes(source: &[u8]) -> (r: Result<serde_json::Value, String>)
    ensures
        match r {
            Ok(value) => json_parse_bytes(source@) == Ok::<JsonView, Seq<char>>(json_of(value)),
            Err(message) => json_parse_bytes(source@) == Err::<JsonView, Seq<char>>(message@),
        },
{
    serde_json::from_slice(source).map_err(|e| e.to_string())
}

/// Calls `to_string` on a `serde_json::Value`, which writes it compactly.
#[verifier::external_body]
pub(crate) fn write_compact(value: &serde_json::Value) -> (r: String)
    ensures
        r@ == compact_json(json_of(*value)),
{
    value.to_string()
}

/// Calls `serde_json::to_vec`; an error would be handed on as its text. Writing a
/// `serde_json::Value`, whose names are strings, into a vector does not fail. The
/// bytes are those of the compact text.
#[verifier::external_body]
pub(crate) fn write_bytes(value: &serde_json::Value) -> (r: Result<Vec<u8>, String>)
    ensures
        r is Ok,
        r->Ok_0@ == encode_utf8(compact_json(json_of(*value))),
{
    serde_json::to_vec(value).map_err(|e| e.to_string())
}

/// Whether the document is an object.
pub fn is_object(value: &serde_json::Value) -> (r: bool)
    ensures
        r == (json_of(*value) is Fields),
{
    match inspect(value) {
        Shape::Fields(_) => true,
        _ => false,
    }
}

/// The member under `name`, where the document is an object that has one.
pub fn member<'a>(value: &'a serde_json::Value, name: &str) -> (r: Option<&'a serde_json::Value>)
    ensures
        match r {
            Some(found) => under(json_of(*value), name@) == Some(json_of(*found)),
            None => under(json_of(*value), name@) is None,
        },
{
    match inspect(value) {
        Shape::Fields(members) => {
            let ghost pairs = borrowed_pairs(members@);
            let n: usize = members.len();
            assert(pairs.skip(0) =~= pairs);
            for i in 0..n
                invariant
                    n == members@.len(),
                    pairs == borrowed_pairs(members@),
                    json_of(*value) == JsonView::Fields(Members { pairs }),
                    find_pair(pairs.skip(i as int), name@) == find_pair(pairs, name@),
            {
                assert(pairs.skip(i as int)[0] == (members@[i as int].0@, json_of(
                    *members@[i as int].1,
                )));
                assert(pairs.skip(i as int).skip(1) =~= pairs.skip(i + 1));
                if same_text(members[i].0.as_str(), name) {
                    return Some(members[i].1);
                }
            }
            assert(pairs.skip(n as int).len() == 0);
            None
        },
        _ => None,
    }
}

/// The text under `name`, where the document is an object that holds one there.
pub fn member_text<'a>(value: &'a serde_json::Value, name: &str) -> (r: Option<&'a String>)
    ensures
        match r {
            Some(found) => text_under(json_of(*value), name@) == Some(found@),
            None => text_under(json_of(*value), name@) is None,
        },
{
    match member(value, name) {
        Some(found) => match inspect(found) {
            Shape::Text(s) => Some(s),
            _ => None,
        },
        None => None,
    }
}

/// A document as plain text: a string bare, null not at all, anything else as its
/// compact JSON text.
pub fn as_plain_text(value: &serde_json::Value) -> (r: Option<String>)
    ensures
        match r {
            Some(s) => plain_text(json_of(*value)) == Some(s@),
            None => plain_text(json_of(*value)) is None,
        },
{
    match inspect(value) {
        Shape::Text(s) => Some(s.clone()),
        Shape::Null => None,
        _ => Some(write_compact(value)),
    }
}

/// The first member of an object.
pub fn first_member(value: &serde_json::Value) -> (r: Option<(&String, &serde_json::Value)>)
    ensures
        match r {
            Some((name, member)) => {
                &&& first_name(json_of(*value)) == Some(name@)
                &&& under(json_of(*value), name@) == Some(json_of(*member))
            },
            None => first_name(json_of(*value)) is None,
        },
{
    match inspect(value) {
        Shape::Fields(members) => {
            if members.len() == 0 {
                return None;
            }
            assert(borrowed_pairs(members@)[0] == (members@[0].0@, json_of(*members@[0].1)));
            Some((members[0].0, members[0].1))
        },
        _ => None,
    }
}

/// Adds one member to the members of an object.
pub(crate) fn put(members: &mut Vec<(String, serde_json::Value)>, name: &str, member: serde_json::Value)
    ensures
        collected(owned_pairs(final(members)@)) == collected(owned_pairs(old(members)@)).with(
            name@,
            json_of(member),
        ),
{
    members.push((name.to_owned(), member));
    proof {
        let now = owned_pairs(members@);
        assert(now.drop_last() =~= owned_pairs(old(members)@));
    }
}

/// No members.
pub(crate) fn no_members() -> (r: Vec<(String, serde_json::Value)>)
    ensures
        collected(owned_pairs(r@)) == Members::none(),
{
    Vec::new()
}

/// The object made of `members`.
pub(crate) fn object(members: Vec<(String, serde_json::Value)>) -> (r: serde_json::Value)
    ensures
        json_of(r) == JsonView::Fields(collected(owned_pairs(members@))),
{
    assemble(Draft::Fields(members))
}

/// The JSON string that holds `s`.
pub(crate) fn string(s: &str) -> (r: serde_json::Value)
    ensures
        json_of(r) == JsonView::Text(s@),
{
    assemble(Draft::Text(s.to_owned()))
}

/// The JSON truth value of `b`.
pub(crate) fn boolean(b: bool) -> (r: serde_json::Value)
    ensures
        json_of(r) == JsonView::Bool(b),
{
    assemble(Draft::Bool(b))
}

/// The JSON number `n`.
pub(crate) fn count(n: u64) -> (r: serde_json::Value)
    ensures
        json_of(r) == json_count(n as nat),
{
    assemble(Draft::Count(n))
}

/// The JSON null.
pub(crate) fn null() -> (r: serde_json::Value)
    ensures
        json_of(r) == JsonView::Null,
{
    assemble(Draft::Null)
}

/// The JSON array of `items`.
pub(crate) fn list(items: Vec<serde_json::Value>) -> (r: serde_json::Value)
    ensures
        json_of(r) == JsonView::List(json_each(items@)),
{
    assemble(Draft::List(items))
}

/// The JSON object without members.
pub(crate) fn empty_object() -> (r: serde_json::Value)
    ensures
        json_of(r) == json_empty_object(),
{
    object(no_members())
}

/// A copy of each value.
pub(crate) fn copies(values: &[serde_json::Value]) -> (r: Vec<serde_json::Value>)
    ensures
        json_each(r@) == json_each(values@),
{
    let mut out: Vec<serde_json::Value> = Vec::new();
    let n: usize = values.len();
    for i in 0..n
        invariant
            n == values@.len(),
            json_each(out@) == json_each(values@.take(i as int)),
    {
        out.push(values[i].clone());
        assert(json_each(out@) =~= json_each(values@.take(i + 1))) by {
            assert(values@.take(i + 1) =~= values@.take(i as int).push(values@[i as int]));
            assert(json_each(values@.take(i + 1)) =~= json_each(values@.take(i as int)).push(
                json_of(values@[i as int]),
            ));
            assert(json_each(out@) =~= json_each(out@.drop_last()).push(json_of(out@.last())));
        }
    }
    assert(values@.take(n as int) =~= values@);
    out
}

/// A new member stands behind all others; a member under a name that is there takes
/// its place and leaves every name where it was.
pub proof fn law_member_order(members: Members, name: Seq<char>, member: JsonView)
    ensures
        !members.has(name) ==> members.with(name, member).pairs == members.pairs.push(
            (name, member),
        ),
        members.has(name) ==> members.with(name, member).pairs.len() == members.pairs.len(),
        members.has(name) ==> forall|i: int|
            0 <= i < members.pairs.len() ==> (#[trigger] members.with(name, member).pairs[i]).0
                == members.pairs[i].0,
{
    lemma_pair_order(members.pairs, name, member);
}

proof fn lemma_pair_order(pairs: Seq<(Seq<char>, JsonView)>, name: Seq<char>, member: JsonView)
    ensures
        find_pair(pairs, name) is None ==> with_pair(pairs, name, member) == pairs.push(
            (name, member),
        ),
        find_pair(pairs, name) is Some ==> with_pair(pairs, name, member).len() == pairs.len(),
        find_pair(pairs, name) is Some ==> forall|i: int|
            0 <= i < pairs.len() ==> (#[trigger] with_pair(pairs, name, member)[i]).0
                == pairs[i].0,
    decreases pairs.len(),
{
    let now = with_pair(pairs, name, member);
    if pairs.len() == 0 {
        assert(now =~= pairs.push((name, member)));
    } else if pairs[0].0 != name {
        let rest = pairs.skip(1);
        lemma_pair_order(rest, name, member);
        if find_pair(pairs, name) is None {
            assert(now =~= pairs.push((name, member)));
        } else {
            assert forall|i: int| 0 <= i < pairs.len() implies (#[trigger] now[i]).0
                == pairs[i].0 by {
                if i > 0 {
                    assert(now[i] == with_pair(rest, name, member)[i - 1]);
                    assert(rest[i - 1] == pairs[i]);
                }
            }
        }
    }
}

/// What is found in a document: the members of an object under their names, of which
/// the first is the first; nothing in any other document, and text only where a text
/// stands.
pub proof fn law_finding_in_documents(document: JsonView, name: Seq<char>)
    ensures
        !(document is Fields) ==> under(document, name) is None && first_name(document) is None,
        json_empty_object() == JsonView::Fields(Members { pairs: Seq::empty() }),
        under(json_empty_object(), name) is None,
        first_name(json_empty_object()) is None,
        document matches JsonView::Fields(members) ==> members.pairs.len() > 0 ==> first_name(
            document,
        ) == Some(members.pairs[0].0) && under(document, members.pairs[0].0) == Some(
            members.pairs[0].1,
        ),
        forall|t: Seq<char>| #[trigger]
            text_under(document, name) == Some(t) <==> under(document, name) == Some(
                JsonView::Text(t),
            ),
{
}

/// Plain text: a string as it is, null not at all, and everything else, numbers and
/// truth values among them, as its compact JSON text.
pub proof fn law_plain_text(document: JsonView)
    ensures
        forall|t: Seq<char>| #[trigger] plain_text(JsonView::Text(t)) == Some(t),
        plain_text(document) is None <==> document is Null,
        !(document is Text) && !(document is Null) ==> plain_text(document) == Some(
            compact_json(document),
        ),
{
}

/// A count is the number that it says.
pub proof fn law_count_is_the_number(n: nat)
    ensures
        json_count(n) == JsonView::Number(NumberView::Integer(n as int)),
{
}

/// Putting a member under a new name adds one; under a name that is there, none.
pub broadcast proof fn law_new_member_adds_one(
    members: Members,
    name: Seq<char>,
    member: JsonView,
)
    ensures
        #[trigger] members.with(name, member).pairs.len() == members.pairs.len() + (if members.has(
            name,
        ) {
            0nat
        } else {
            1nat
        }),
{
    law_member_order(members, name, member);
}

/// The member under a name is the first of the pairs that bears it, wherever that
/// stands, and there is none where none does.
pub proof fn law_member_is_the_first_of_its_name(
    head: Seq<(Seq<char>, JsonView)>,
    name: Seq<char>,
    member: JsonView,
    tail: Seq<(Seq<char>, JsonView)>,
)
    requires
        forall|i: int| 0 <= i < head.len() ==> (#[trigger] head[i]).0 != name,
    ensures
        under(JsonView::Fields(Members { pairs: head }), name) is None,
        under(
            JsonView::Fields(Members { pairs: head + seq![(name, member)] + tail }),
            name,
        ) == Some(member),
    decreases head.len(),
{
    let pairs = head + seq![(name, member)] + tail;
    if head.len() == 0 {
        assert(pairs[0] == (name, member));
    } else {
        let rest = head.skip(1);
        assert(head[0].0 != name);
        assert(pairs[0] == head[0]);
        assert(pairs.skip(1) =~= rest + seq![(name, member)] + tail);
        assert forall|i: int| 0 <= i < rest.len() implies (#[trigger] rest[i]).0 != name by {
            assert(head[i + 1].0 != name);
        }
        law_member_is_the_first_of_its_name(rest, name, member, tail);
    }
}

/// Values are seen as their documents, one by one, in order.
pub proof fn law_documents_of_values(values: Seq<serde_json::Value>, i: int)
    ensures
        json_each(values).len() == values.len(),
        0 <= i < values.len() ==> json_each(values)[i] == json_of(values[i]),
{
}

} // verus!
