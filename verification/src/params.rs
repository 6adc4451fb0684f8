//! The values that are bound to the `?` of a statement, and the call arguments
//! that a binding's parameter expressions refer to.
use crate::json::{
    boolean, collected, empty_object, inspect, json_empty_object, json_of, law_member_is_found,
    law_member_order, law_new_member_adds_one,
    no_members, number_of, object, owned_pairs, put, string, under, JsonView, Members, NumberView,
    Shape,
};
use crate::text::{chars_of, is_word_char, occurs, occurs_at, stands_at};
use vstd::prelude::*;
use vstd::string::*;

verus! {

/// A scalar that is bound to one `?`.
#[derive(Debug, Clone, PartialEq)]
pub enum ChBind {
    /// SQL `NULL`.
    Null,
    Int(i64),
    /// A number that is no `i64`, bound as a floating-point literal.
    Float(serde_json::Number),
    Bool(bool),
    Str(String),
}

/// A bound scalar as a mathematical value.
pub enum BindView {
    Null,
    Int(int),
    Float(NumberView),
    Bool(bool),
    Text(Seq<char>),
}

impl View for ChBind {
    type V = BindView;

    open spec fn view(&self) -> BindView {
        match self {
            ChBind::Null => BindView::Null,
            ChBind::Int(n) => BindView::Int(*n as int),
            ChBind::Float(number) => BindView::Float(number_of(*number)),
            ChBind::Bool(b) => BindView::Bool(*b),
            ChBind::Str(s) => BindView::Text(s@),
        }
    }
}

/// Each of a sequence of scalars as a mathematical value.
pub open spec fn bind_views(binds: Seq<ChBind>) -> Seq<BindView> {
    binds.map_values(|b: ChBind| b@)
}

/// The scalar that a document is bound as; none for an array or an object, which
/// a single `?` cannot carry.
pub open spec fn scalar_bind(document: JsonView) -> Option<BindView> {
    match document {
        JsonView::Null => Some(BindView::Null),
        JsonView::Bool(b) => Some(BindView::Bool(b)),
        JsonView::Number(NumberView::Integer(n)) => if i64::MIN <= n <= i64::MAX {
            Some(BindView::Int(n))
        } else {
            Some(BindView::Float(NumberView::Integer(n)))
        },
        JsonView::Number(number) => Some(BindView::Float(number)),
        JsonView::Text(s) => Some(BindView::Text(s)),
        JsonView::List(_) => None,
        JsonView::Fields(_) => None,
    }
}

/// What is said of a value that cannot be bound.
pub open spec fn not_scalar_message() -> Seq<char> {
    "only scalar values can be bound to a `?` placeholder, not an array or an object"@
}

/// Makes the scalar to bind of an evaluated parameter.
pub fn json_to_ch_bind(value: serde_json::Value) -> (r: Result<ChBind, String>)
    ensures
        match r {
            Ok(bind) => scalar_bind(json_of(value)) == Some(bind@),
            Err(message) => scalar_bind(json_of(value)) is None && message@ == not_scalar_message(),
        },
{
    match inspect(&value) {
        Shape::Null => Ok(ChBind::Null),
        Shape::Bool(b) => Ok(ChBind::Bool(b)),
        Shape::Number(number) => match number.as_i64() {
            Some(n) => Ok(ChBind::Int(n)),
            None => Ok(ChBind::Float(number.clone())),
        },
        Shape::Text(s) => Ok(ChBind::Str(s.clone())),
        Shape::List(_) | Shape::Fields(_) => Err(
            "only scalar values can be bound to a `?` placeholder, not an array or an object".to_owned(),
        ),
    }
}

/// A parameter expression that was accepted.
#[derive(Debug, Clone)]
pub struct CompiledParam {
    /// The text of the CEL expression.
    pub source: String,
}

/// What stands before the name of a call argument in an expression.
pub open spec fn argument_marker() -> Seq<char> {
    "arguments."@
}

/// The first position from `from` on at which `part` stands in `s`, if any.
pub open spec fn next_occurrence(s: Seq<char>, part: Seq<char>, from: int) -> Option<int>
    decreases s.len() + 1 - from,
{
    if from > s.len() {
        None
    } else if occurs_at(s, part, from) {
        Some(from)
    } else {
        next_occurrence(s, part, from + 1)
    }
}

/// The end of the word that begins at `from`.
pub open spec fn word_end(s: Seq<char>, from: int) -> int
    decreases s.len() - from,
{
    if 0 <= from < s.len() && is_word_char(s[from]) {
        word_end(s, from + 1)
    } else {
        from
    }
}

/// The words that follow the marker in `s`, read from `from` on: after each
/// marker the word behind it, and then on behind that word.
pub open spec fn argument_words(s: Seq<char>, from: int) -> Seq<Seq<char>>
    decreases s.len() - from,
    via argument_words_decreases
{
    match next_occurrence(s, argument_marker(), from) {
        None => Seq::empty(),
        Some(at) => {
            let start = at + argument_marker().len();
            let end = word_end(s, start);
            if end > start {
                seq![s.subrange(start, end)] + argument_words(s, end)
            } else {
                argument_words(s, end)
            }
        },
    }
}

#[via_fn]
proof fn argument_words_decreases(s: Seq<char>, from: int) {
    reveal_strlit("arguments.");
    lemma_next_occurrence(s, argument_marker(), from);
    if let Some(at) = next_occurrence(s, argument_marker(), from) {
        lemma_word_end(s, at + argument_marker().len());
    }
}

proof fn lemma_next_occurrence(s: Seq<char>, part: Seq<char>, from: int)
    ensures
        next_occurrence(s, part, from) matches Some(at) ==> from <= at && occurs_at(s, part, at),
    decreases s.len() + 1 - from,
{
    if from <= s.len() && !occurs_at(s, part, from) {
        lemma_next_occurrence(s, part, from + 1);
    }
}

proof fn lemma_word_end(s: Seq<char>, from: int)
    ensures
        from <= word_end(s, from),
        0 <= from <= s.len() ==> word_end(s, from) <= s.len(),
    decreases s.len() - from,
{
    if 0 <= from < s.len() && is_word_char(s[from]) {
        lemma_word_end(s, from + 1);
    }
}

/// The texts of a sequence of strings.
pub open spec fn texts(strings: Seq<String>) -> Seq<Seq<char>> {
    strings.map_values(|s: String| s@)
}

/// Finds the names of the call arguments that an expression refers to, in order,
/// as often as they stand there.
pub fn extract_argument_idents(source: &str) -> (r: Vec<String>)
    ensures
        texts(r@) == argument_words(source@, 0),
{
    let chars = chars_of(source);
    let marker = chars_of("arguments.");
    let n: usize = chars.len();
    let mut out: Vec<String> = Vec::new();
    let mut at: usize = 0;
    proof {
        reveal_strlit("arguments.");
    }
    while at < n
        invariant
            at <= n,
            n == chars@.len(),
            chars@ == source@,
            marker@ == argument_marker(),
            marker@.len() == 10,
            texts(out@) + argument_words(source@, at as int) == argument_words(source@, 0),
        decreases n - at,
    {
        if stands_at(&chars, &marker, at) {
            let start: usize = at + marker.len();
            let mut end: usize = start;
            while end < n && is_word(chars[end])
                invariant
                    start <= end <= n,
                    n == chars@.len(),
                    chars@ == source@,
                    word_end(source@, start as int) == word_end(source@, end as int),
                decreases n - end,
            {
                end += 1;
            }
            assert(word_end(source@, start as int) == end);
            let ghost before = texts(out@);
            if end > start {
                let word: String = source.substring_char(start, end).to_owned();
                out.push(word);
                assert(texts(out@) =~= before.push(source@.subrange(start as int, end as int)));
                assert(texts(out@) + argument_words(source@, end as int) =~= before + (seq![
                    source@.subrange(start as int, end as int),
                ] + argument_words(source@, end as int)));
            }
            at = end;
        } else {
            assert(argument_words(source@, at as int) == argument_words(source@, at + 1));
            at += 1;
        }
    }
    proof {
        lemma_next_occurrence(source@, argument_marker(), n as int);
        assert(argument_words(source@, n as int) =~= Seq::empty());
        assert(texts(out@) + Seq::empty() =~= texts(out@));
    }
    out
}

/// Whether `c` is an ASCII letter, an ASCII digit or an underscore.
fn is_word(c: char) -> (r: bool)
    ensures
        r == is_word_char(c),
{
    ('a' <= c && c <= 'z') || ('A' <= c && c <= 'Z') || ('0' <= c && c <= '9') || c == '_'
}

/// The distinct members of a sequence of names, in the order in which each is
/// first seen.
pub open spec fn first_seen(names: Seq<Seq<char>>) -> Seq<Seq<char>>
    decreases names.len(),
{
    if names.len() == 0 {
        Seq::empty()
    } else {
        let earlier = first_seen(names.drop_last());
        if earlier.contains(names.last()) {
            earlier
        } else {
            earlier.push(names.last())
        }
    }
}

/// The names that the expressions refer to, one expression after the other.
pub open spec fn referenced_words(params: Seq<CompiledParam>) -> Seq<Seq<char>>
    decreases params.len(),
{
    if params.len() == 0 {
        Seq::empty()
    } else {
        referenced_words(params.drop_last()) + argument_words(params.last().source@, 0)
    }
}

/// Adds a name that is not there yet.
pub(crate) fn push_new(names: &mut Vec<String>, name: String)
    ensures
        texts(final(names)@) == (if texts(old(names)@).contains(name@) {
            texts(old(names)@)
        } else {
            texts(old(names)@).push(name@)
        }),
{
    let n: usize = names.len();
    for i in 0..n
        invariant
            n == names@.len(),
            names@ == old(names)@,
            forall|j: int| 0 <= j < i ==> #[trigger] texts(names@)[j] != name@,
    {
        if names[i] == name {
            assert(texts(names@)[i as int] == name@);
            return;
        }
    }
    names.push(name);
    assert(texts(names@) =~= texts(old(names)@).push(name@));
}

/// Collects the distinct call arguments that a binding's expressions refer to, in
/// the order in which each is first seen.
pub fn arguments_referenced_by_params(params: &[CompiledParam]) -> (r: Vec<String>)
    ensures
        texts(r@) == first_seen(referenced_words(params@)),
{
    let mut names: Vec<String> = Vec::new();
    assert(texts(names@) =~= Seq::empty());
    let n: usize = params.len();
    for p in 0..n
        invariant
            n == params@.len(),
            texts(names@) == first_seen(referenced_words(params@.take(p as int))),
    {
        let words = extract_argument_idents(params[p].source.as_str());
        let ghost sofar = referenced_words(params@.take(p as int));
        let ghost more = texts(words@);
        let m: usize = words.len();
        assert(sofar + more.take(0) =~= sofar);
        for w in 0..m
            invariant
                m == words@.len(),
                more == texts(words@),
                texts(names@) == first_seen(sofar + more.take(w as int)),
        {
            let word: String = words[w].clone();
            proof {
                let now = sofar + more.take(w + 1);
                assert(now.drop_last() =~= sofar + more.take(w as int));
                assert(now.last() == word@);
            }
            push_new(&mut names, word);
        }
        proof {
            assert(more.take(m as int) =~= more);
            assert(params@.take(p + 1).drop_last() =~= params@.take(p as int));
        }
    }
    assert(params@.take(n as int) =~= params@);
    names
}

/// One untyped property for each of `names`.
pub open spec fn untyped_properties(names: Seq<Seq<char>>) -> Members
    decreases names.len(),
{
    if names.len() == 0 {
        Members::none()
    } else {
        untyped_properties(names.drop_last()).with(names.last(), json_empty_object())
    }
}

/// An open JSON Schema for objects that may hold `names`.
pub open spec fn open_object_schema(names: Seq<Seq<char>>) -> JsonView {
    JsonView::Fields(
        Members::none()
            .with("type"@, JsonView::Text("object"@))
            .with("properties"@, JsonView::Fields(untyped_properties(names)))
            .with("additionalProperties"@, JsonView::Bool(true)),
    )
}

/// Builds the open JSON Schema for call arguments of the given names.
pub fn params_input_schema(names: &[String]) -> (r: serde_json::Value)
    ensures
        json_of(r) == open_object_schema(texts(names@)),
{
    let mut properties = no_members();
    let n: usize = names.len();
    for i in 0..n
        invariant
            n == names@.len(),
            collected(owned_pairs(properties@)) == untyped_properties(texts(names@).take(i as int)),
    {
        put(&mut properties, names[i].as_str(), empty_object());
        proof {
            let earlier = texts(names@).take(i as int);
            let now = texts(names@).take(i + 1);
            assert(now =~= earlier.push(names@[i as int]@));
            assert(now.drop_last() =~= earlier);
        }
    }
    assert(texts(names@).take(n as int) =~= texts(names@));
    let mut members = no_members();
    put(&mut members, "type", string("object"));
    put(&mut members, "properties", object(properties));
    put(&mut members, "additionalProperties", boolean(true));
    object(members)
}

/// Whether `word` is a word, not empty, that stands in `s` behind the marker.
pub open spec fn is_argument_word(s: Seq<char>, word: Seq<char>) -> bool {
    &&& word.len() > 0
    &&& forall|k: int| 0 <= k < word.len() ==> is_word_char(#[trigger] word[k])
    &&& exists|at: int| occurs_at(s, #[trigger] (argument_marker() + word), at)
}

proof fn lemma_word_chars(s: Seq<char>, from: int)
    requires
        0 <= from,
    ensures
        forall|k: int| from <= k < word_end(s, from) ==> is_word_char(#[trigger] s[k]),
    decreases s.len() - from,
{
    if from < s.len() && is_word_char(s[from]) {
        lemma_word_chars(s, from + 1);
    }
}

/// Every name that is found in an expression is a word that stands there behind the
/// marker.
pub proof fn law_found_names_stand_behind_the_marker(s: Seq<char>, from: int, i: int)
    requires
        0 <= from,
        0 <= i < argument_words(s, from).len(),
    ensures
        is_argument_word(s, argument_words(s, from)[i]),
    decreases s.len() - from,
{
    let marker = argument_marker();
    reveal_strlit("arguments.");
    lemma_next_occurrence(s, marker, from);
    let at = next_occurrence(s, marker, from)->Some_0;
    let start = at + marker.len();
    let end = word_end(s, start);
    lemma_word_end(s, start);
    lemma_word_chars(s, start);
    let word = s.subrange(start, end);
    if end > start && i == 0 {
        assert forall|k: int| 0 <= k < word.len() implies is_word_char(#[trigger] word[k]) by {
            assert(word[k] == s[start + k]);
        }
        assert(s.subrange(at, end) =~= s.subrange(at, start) + word);
        assert(occurs_at(s, marker + word, at));
    } else if end > start {
        assert(argument_words(s, from)[i] == argument_words(s, end)[i - 1]);
        law_found_names_stand_behind_the_marker(s, end, i - 1);
    } else {
        law_found_names_stand_behind_the_marker(s, end, i);
    }
}

/// The schema of the arguments is open and asks for nothing: it names each argument
/// that is read, and no other, without a type.
pub proof fn law_schema_names_each_argument(names: Seq<Seq<char>>, name: Seq<char>)
    ensures
        under(open_object_schema(names), "type"@) == Some(JsonView::Text("object"@)),
        under(open_object_schema(names), "additionalProperties"@) == Some(JsonView::Bool(true)),
        under(open_object_schema(names), "properties"@) == Some(
            JsonView::Fields(untyped_properties(names)),
        ),
        untyped_properties(names).get(name) == (if names.contains(name) {
            Some(json_empty_object())
        } else {
            None
        }),
        under(open_object_schema(names), "required"@) is None,
{
    reveal_strlit("type");
    reveal_strlit("properties");
    reveal_strlit("additionalProperties");
    reveal_strlit("required");
    assert("type"@.len() == 4);
    assert("properties"@.len() == 10);
    assert("additionalProperties"@.len() == 20);
    assert("required"@.len() == 8);
    broadcast use law_member_is_found;

    lemma_untyped_properties(names, name);
}

proof fn lemma_untyped_properties(names: Seq<Seq<char>>, name: Seq<char>)
    ensures
        untyped_properties(names).get(name) == (if names.contains(name) {
            Some(json_empty_object())
        } else {
            None
        }),
    decreases names.len(),
{
    broadcast use law_member_is_found;

    if names.len() > 0 {
        let earlier = names.drop_last();
        lemma_untyped_properties(earlier, name);
        if names.contains(name) && name != names.last() {
            let k = choose|k: int| 0 <= k < names.len() && names[k] == name;
            assert(earlier[k] == name);
        }
        if earlier.contains(name) {
            let k = choose|k: int| 0 <= k < earlier.len() && earlier[k] == name;
            assert(names[k] == name);
        }
        assert(names[names.len() - 1] == names.last());
    }
}

/// Listing names once each neither adds a name nor loses one nor repeats one.
pub proof fn law_first_seen_keeps_each_name_once(names: Seq<Seq<char>>)
    ensures
        forall|name: Seq<char>| first_seen(names).contains(name) <==> names.contains(name),
        first_seen(names).no_duplicates(),
    decreases names.len(),
{
    if names.len() > 0 {
        let earlier = names.drop_last();
        law_first_seen_keeps_each_name_once(earlier);
        assert(names =~= earlier.push(names.last()));
        assert forall|name: Seq<char>| names.contains(name) <==> earlier.contains(name) || name
            == names.last() by {
            if earlier.contains(name) {
                let k = choose|k: int| 0 <= k < earlier.len() && earlier[k] == name;
                assert(names[k] == name);
            }
            assert(names[names.len() - 1] == names.last());
        }
        let seen = first_seen(earlier);
        if !seen.contains(names.last()) {
            let now = seen.push(names.last());
            assert forall|name: Seq<char>| now.contains(name) <==> seen.contains(name) || name
                == names.last() by {
                if seen.contains(name) {
                    let k = choose|k: int| 0 <= k < seen.len() && seen[k] == name;
                    assert(now[k] == name);
                }
                assert(now[now.len() - 1] == names.last());
            }
            assert forall|i: int, j: int| 0 <= i < j < now.len() implies now[i] != now[j] by {
                assert(seen.contains(seen[i]));
            }
        }
    }
}

/// Every scalar is bound as the value that it holds, and nothing but a scalar is
/// bound.
pub proof fn law_scalars_are_bound_as_they_are(document: JsonView)
    ensures
        scalar_bind(JsonView::Null) == Some(BindView::Null),
        forall|b: bool| #[trigger] scalar_bind(JsonView::Bool(b)) == Some(BindView::Bool(b)),
        forall|n: int| #[trigger]
            scalar_bind(JsonView::Number(NumberView::Integer(n))) == Some(
                if -0x8000_0000_0000_0000 <= n <= 0x7fff_ffff_ffff_ffff {
                    BindView::Int(n)
                } else {
                    BindView::Float(NumberView::Integer(n))
                },
            ),
        forall|numeral: Seq<char>| #[trigger]
            scalar_bind(JsonView::Number(NumberView::Real(numeral))) == Some(
                BindView::Float(NumberView::Real(numeral)),
            ),
        forall|t: Seq<char>| #[trigger] scalar_bind(JsonView::Text(t)) == Some(BindView::Text(t)),
        scalar_bind(document) is None <==> document is List || document is Fields,
{
}

/// Two different scalars are never bound as the same value.
pub proof fn law_different_scalars_are_bound_differently(a: JsonView, b: JsonView)
    requires
        a != b,
        scalar_bind(a) is Some,
        scalar_bind(b) is Some,
    ensures
        scalar_bind(a) != scalar_bind(b),
{
}

/// A bound scalar is seen as what it holds, and a row of them one by one, in order.
pub proof fn law_bound_scalars_are_seen_as_they_are(
    binds: Seq<ChBind>,
    number: serde_json::Number,
    s: String,
    n: i64,
    b: bool,
    i: int,
)
    ensures
        ChBind::Null@ == BindView::Null,
        ChBind::Int(n)@ == BindView::Int(n as int),
        ChBind::Bool(b)@ == BindView::Bool(b),
        ChBind::Float(number)@ == BindView::Float(number_of(number)),
        ChBind::Str(s)@ == BindView::Text(s@),
        bind_views(binds).len() == binds.len(),
        0 <= i < binds.len() ==> bind_views(binds)[i] == binds[i]@,
{
}

/// Strings are seen as their texts, one by one, in order.
pub proof fn law_texts_of_strings(strings: Seq<String>, i: int)
    ensures
        texts(strings).len() == strings.len(),
        0 <= i < strings.len() ==> texts(strings)[i] == strings[i]@,
{
}

proof fn lemma_next_occurrence_is_first(s: Seq<char>, part: Seq<char>, from: int, at: int)
    requires
        0 <= from <= at,
        occurs_at(s, part, at),
        forall|i: int| from <= i < at ==> !#[trigger] occurs_at(s, part, i),
    ensures
        next_occurrence(s, part, from) == Some(at),
    decreases at - from,
{
    if from < at {
        assert(!occurs_at(s, part, from));
        lemma_next_occurrence_is_first(s, part, from + 1, at);
    }
}

proof fn lemma_no_next_occurrence(s: Seq<char>, part: Seq<char>, from: int)
    requires
        0 <= from,
        forall|i: int| from <= i ==> !#[trigger] occurs_at(s, part, i),
    ensures
        next_occurrence(s, part, from) is None,
    decreases s.len() + 1 - from,
{
    if from <= s.len() {
        assert(!occurs_at(s, part, from));
        lemma_no_next_occurrence(s, part, from + 1);
    }
}

proof fn lemma_word_ends(s: Seq<char>, from: int, end: int)
    requires
        0 <= from <= end <= s.len(),
        forall|k: int| from <= k < end ==> is_word_char(#[trigger] s[k]),
        end < s.len() ==> !is_word_char(s[end]),
    ensures
        word_end(s, from) == end,
    decreases end - from,
{
    if from < end {
        assert(is_word_char(s[from]));
        lemma_word_ends(s, from + 1, end);
    }
}

proof fn lemma_next_occurrence_behind(head: Seq<char>, s: Seq<char>, part: Seq<char>, from: int)
    requires
        0 <= from,
    ensures
        next_occurrence(head + s, part, head.len() + from) == (match next_occurrence(
            s,
            part,
            from,
        ) {
            Some(at) => Some(head.len() + at),
            None => None,
        }),
    decreases s.len() + 1 - from,
{
    let whole = head + s;
    if from <= s.len() {
        if from + part.len() <= s.len() {
            assert(whole.subrange(head.len() + from, head.len() + from + part.len())
                =~= s.subrange(from, from + part.len()));
        }
        assert(occurs_at(whole, part, head.len() + from) == occurs_at(s, part, from));
        if !occurs_at(s, part, from) {
            lemma_next_occurrence_behind(head, s, part, from + 1);
        }
    }
}

proof fn lemma_word_end_behind(head: Seq<char>, s: Seq<char>, from: int)
    requires
        0 <= from,
    ensures
        word_end(head + s, head.len() + from) == head.len() + word_end(s, from),
    decreases s.len() - from,
{
    if from < s.len() {
        assert((head + s)[head.len() + from] == s[from]);
        if is_word_char(s[from]) {
            lemma_word_end_behind(head, s, from + 1);
        }
    }
}

proof fn lemma_words_behind(head: Seq<char>, s: Seq<char>, from: int)
    requires
        0 <= from,
    ensures
        argument_words(head + s, head.len() + from) == argument_words(s, from),
    decreases s.len() + 1 - from,
{
    let marker = argument_marker();
    reveal_strlit("arguments.");
    lemma_next_occurrence_behind(head, s, marker, from);
    lemma_next_occurrence(s, marker, from);
    if let Some(at) = next_occurrence(s, marker, from) {
        let start = at + marker.len();
        let end = word_end(s, start);
        lemma_word_end(s, start);
        lemma_word_end_behind(head, s, start);
        assert((head + s).subrange(head.len() + start, head.len() + end) =~= s.subrange(
            start,
            end,
        ));
        lemma_words_behind(head, s, end);
    }
}

/// An expression that holds `arguments.` nowhere refers to no argument.
pub proof fn law_no_marker_no_name(s: Seq<char>)
    requires
        !occurs(s, "arguments."@),
    ensures
        argument_words(s, 0).len() == 0,
{
    assert forall|i: int| 0 <= i implies !#[trigger] occurs_at(s, "arguments."@, i) by {}
    lemma_no_next_occurrence(s, argument_marker(), 0);
}

/// An expression is read from the left: behind the first `arguments.` stands a name,
/// as far as the word goes, and the rest is read in the same way. A marker without a
/// word behind it names nothing.
pub proof fn law_names_are_read_from_the_left(head: Seq<char>, word: Seq<char>, rest: Seq<char>)
    requires
        forall|i: int|
            0 <= i < head.len() ==> !#[trigger] occurs_at(
                head + "arguments."@ + word + rest,
                "arguments."@,
                i,
            ),
        forall|k: int| 0 <= k < word.len() ==> is_word_char(#[trigger] word[k]),
        rest.len() > 0 ==> !is_word_char(rest[0]),
    ensures
        argument_words(head + "arguments."@ + word + rest, 0) == (if word.len() > 0 {
            seq![word]
        } else {
            Seq::empty()
        }) + argument_words(rest, 0),
{
    let marker = "arguments."@;
    let s = head + marker + word + rest;
    let at = head.len() as int;
    let start = at + marker.len();
    let end = start + word.len();
    reveal_strlit("arguments.");
    assert(s.subrange(at, start) =~= marker);
    assert(occurs_at(s, marker, at));
    lemma_next_occurrence_is_first(s, marker, 0, at);
    assert forall|k: int| start <= k < end implies is_word_char(#[trigger] s[k]) by {
        assert(s[k] == word[k - start]);
    }
    if end < s.len() {
        assert(s[end] == rest[0]);
    }
    lemma_word_ends(s, start, end);
    assert(s.subrange(start, end) =~= word);
    let front = head + marker + word;
    lemma_words_behind(front, rest, 0);
    assert(front.len() == end);
    assert(Seq::<Seq<char>>::empty() + argument_words(rest, 0) =~= argument_words(rest, 0));
}

/// The names of several expressions are those of each, one after the other.
pub proof fn law_expressions_are_read_one_by_one(
    params: Seq<CompiledParam>,
    param: CompiledParam,
)
    ensures
        referenced_words(Seq::<CompiledParam>::empty()).len() == 0,
        referenced_words(params.push(param)) == referenced_words(params) + argument_words(
            param.source@,
            0,
        ),
{
    assert(params.push(param).drop_last() =~= params);
}

/// Names are kept in the order in which they are first seen: a name that is there
/// adds nothing, and a new one goes behind the others.
pub proof fn law_names_are_kept_as_first_seen(names: Seq<Seq<char>>, name: Seq<char>)
    ensures
        first_seen(Seq::<Seq<char>>::empty()).len() == 0,
        names.contains(name) ==> first_seen(names.push(name)) == first_seen(names),
        !names.contains(name) ==> first_seen(names.push(name)) == first_seen(names).push(name),
{
    law_first_seen_keeps_each_name_once(names);
    assert(names.push(name).drop_last() =~= names);
}

/// The schema names the arguments in the order in which they are read.
pub proof fn law_schema_names_arguments_in_order(names: Seq<Seq<char>>, name: Seq<char>)
    ensures
        untyped_properties(Seq::empty()).pairs.len() == 0,
        !names.contains(name) ==> untyped_properties(names.push(name)).pairs == untyped_properties(
            names,
        ).pairs.push((name, JsonView::Fields(Members { pairs: Seq::empty() }))),
        names.contains(name) ==> untyped_properties(names.push(name)).pairs.len()
            == untyped_properties(names).pairs.len(),
        open_object_schema(names) matches JsonView::Fields(members) && members.pairs.len() == 3,
{
    assert(names.push(name).drop_last() =~= names);
    lemma_untyped_properties(names, name);
    law_member_order(untyped_properties(names), name, json_empty_object());
    reveal_strlit("type");
    reveal_strlit("properties");
    reveal_strlit("additionalProperties");
    assert("type"@.len() == 4);
    assert("properties"@.len() == 10);
    assert("additionalProperties"@.len() == 20);
    broadcast use {law_member_is_found, law_new_member_adds_one};

}

/// What is said of a value that cannot be bound tells why.
pub proof fn law_what_is_said_of_an_unbindable_value()
    ensures
        not_scalar_message()
            == "only scalar values can be bound to a `?` placeholder, not an array or an object"@,
{
}

} // verus!
