//! The MCP surfaces that a binding can serve, and the bodies they take.
use crate::engine::filter_text;
use crate::json::{
    compact_json, copies, json_each, json_of, law_member_is_found, law_new_member_adds_one,
    list, member_text, no_members, object, put, string,
    text_under, under, write_compact, JsonView, Members,
};
use vstd::prelude::*;
use vstd::string::*;

verus! {

/// The MCP surface that a binding serves.
#[derive(Debug, Clone, Copy, PartialEq, Eq, Structural)]
pub enum Surface {
    /// A tool: the result envelope.
    Tool,
    /// A resource: a `resources/read` body.
    Resource,
    /// A prompt: a `prompts/get` body.
    Prompt,
}

impl Default for Surface {
    /// A binding serves a tool unless it says otherwise.
    fn default() -> (r: Self)
        ensures
            r == Surface::Tool,
    {
        Surface::Tool
    }
}

/// The word for a surface in a configuration.
pub open spec fn surface_word(surface: Surface) -> Seq<char> {
    match surface {
        Surface::Tool => "tool"@,
        Surface::Resource => "resource"@,
        Surface::Prompt => "prompt"@,
    }
}

impl Surface {
    /// The word for the surface in a configuration.
    pub fn as_str(self) -> (r: &'static str)
        ensures
            r@ == surface_word(self),
    {
        match self {
            Surface::Tool => "tool",
            Surface::Resource => "resource",
            Surface::Prompt => "prompt",
        }
    }
}

/// The URI under which a resource is read: the fixed one, else the one that the
/// call asks for.
pub open spec fn resource_uri(fixed: Option<Seq<char>>, arguments: JsonView) -> Option<Seq<char>> {
    match fixed {
        Some(uri) => Some(uri),
        None => text_under(arguments, "uri"@),
    }
}

/// Finds the URI under which a resource is read: the fixed one, else the one that
/// the call asks for in its `uri` argument.
pub fn resolve_resource_uri<'a>(fixed: Option<&'a str>, arguments: &'a serde_json::Value) -> (r:
    Option<&'a str>)
    ensures
        filter_text(r) == resource_uri(filter_text(fixed), json_of(*arguments)),
{
    match fixed {
        Some(uri) => Some(uri),
        None => match member_text(arguments, "uri") {
            Some(uri) => Some(uri.as_str()),
            None => None,
        },
    }
}

/// The `resources/read` body for the rows read under `uri`.
pub open spec fn contents_body(uri: Seq<char>, rows: Seq<JsonView>) -> JsonView {
    JsonView::Fields(
        Members::none().with(
            "contents"@,
            JsonView::List(
                seq![
                    JsonView::Fields(
                        Members::none()
                            .with("uri"@, JsonView::Text(uri))
                            .with("mimeType"@, JsonView::Text("application/json"@))
                            .with("text"@, JsonView::Text(compact_json(JsonView::List(rows)))),
                    ),
                ],
            ),
        ),
    )
}

/// Builds the `resources/read` body: one content whose text is the JSON array of
/// the rows.
pub fn resource_contents_body(uri: &str, rows: &[serde_json::Value]) -> (r: serde_json::Value)
    ensures
        json_of(r) == contents_body(uri@, json_each(rows@)),
{
    let written: String = write_compact(&list(copies(rows)));
    let mut content = no_members();
    put(&mut content, "uri", string(uri));
    put(&mut content, "mimeType", string("application/json"));
    put(&mut content, "text", string(written.as_str()));
    let mut contents: Vec<serde_json::Value> = Vec::new();
    contents.push(object(content));
    assert(json_each(contents@) =~= seq![json_of(contents@[0])]);
    let mut members = no_members();
    put(&mut members, "contents", list(contents));
    object(members)
}

/// The `prompts/get` body for rows.
pub open spec fn messages_body(rows: Seq<JsonView>) -> JsonView {
    JsonView::Fields(
        Members::none().with(
            "messages"@,
            JsonView::List(
                seq![
                    JsonView::Fields(
                        Members::none()
                            .with("role"@, JsonView::Text("user"@))
                            .with("content"@, JsonView::Fields(
                                Members::none()
                                    .with("type"@, JsonView::Text("text"@))
                                    .with("text"@, JsonView::Text(
                                        compact_json(JsonView::List(rows)),
                                    )),
                            )),
                    ),
                ],
            ),
        ),
    )
}

/// Builds the `prompts/get` body: one message of the user whose text is the JSON
/// array of the rows.
pub fn prompt_messages_body(rows: &[serde_json::Value]) -> (r: serde_json::Value)
    ensures
        json_of(r) == messages_body(json_each(rows@)),
{
    let written: String = write_compact(&list(copies(rows)));
    let mut content = no_members();
    put(&mut content, "type", string("text"));
    put(&mut content, "text", string(written.as_str()));
    let mut message = no_members();
    put(&mut message, "role", string("user"));
    put(&mut message, "content", object(content));
    let mut messages: Vec<serde_json::Value> = Vec::new();
    messages.push(object(message));
    assert(json_each(messages@) =~= seq![json_of(messages@[0])]);
    let mut members = no_members();
    put(&mut members, "messages", list(messages));
    object(members)
}

/// A resource is read under the fixed URI where there is one, and else under the text
/// that the call gives as its `uri`.
pub proof fn law_fixed_uri_comes_first(fixed: Seq<char>, arguments: JsonView)
    ensures
        resource_uri(Some(fixed), arguments) == Some(fixed),
        forall|uri: Seq<char>| #[trigger]
            resource_uri(None, arguments) == Some(uri) <==> under(arguments, "uri"@) == Some(
                JsonView::Text(uri),
            ),
{
}

/// The word for each surface.
pub proof fn law_surface_words()
    ensures
        surface_word(Surface::Tool) == "tool"@,
        surface_word(Surface::Resource) == "resource"@,
        surface_word(Surface::Prompt) == "prompt"@,
{
}

/// A resource is answered with one content: the URI, the JSON type, and the array of
/// all rows, in order, as compact text.
pub proof fn law_contents_hold_every_row(uri: Seq<char>, rows: Seq<JsonView>)
    ensures
        under(contents_body(uri, rows), "contents"@) matches Some(JsonView::List(contents))
            && contents.len() == 1 && under(contents[0], "uri"@) == Some(JsonView::Text(uri))
            && under(contents[0], "mimeType"@) == Some(JsonView::Text("application/json"@))
            && under(contents[0], "text"@) == Some(
            JsonView::Text(compact_json(JsonView::List(rows))),
        ),
{
    broadcast use law_member_is_found;

    reveal_strlit("uri");
    reveal_strlit("mimeType");
    reveal_strlit("text");
    assert("uri"@.len() == 3);
    assert("mimeType"@.len() == 8);
    assert("text"@.len() == 4);
}

/// A prompt is answered with one message of the user: the array of all rows, in order,
/// as compact text.
pub proof fn law_messages_hold_every_row(rows: Seq<JsonView>)
    ensures
        under(messages_body(rows), "messages"@) matches Some(JsonView::List(messages))
            && messages.len() == 1 && under(messages[0], "role"@) == Some(
            JsonView::Text("user"@),
        ) && (under(messages[0], "content"@) matches Some(content) && under(content, "type"@)
            == Some(JsonView::Text("text"@)) && under(content, "text"@) == Some(
            JsonView::Text(compact_json(JsonView::List(rows))),
        )),
{
    broadcast use law_member_is_found;

    reveal_strlit("role");
    reveal_strlit("content");
    reveal_strlit("type");
    reveal_strlit("text");
    assert("role"@.len() == 4);
    assert("content"@.len() == 7);
    assert("type"@[1] == 'y');
    assert("text"@[1] == 'e');
}

/// The bodies for a resource and a prompt hold nothing but what they must.
pub proof fn law_bodies_hold_nothing_else(uri: Seq<char>, rows: Seq<JsonView>)
    ensures
        contents_body(uri, rows) matches JsonView::Fields(body) && body.pairs.len() == 1,
        under(contents_body(uri, rows), "contents"@) matches Some(JsonView::List(contents))
            && contents[0] matches JsonView::Fields(content) && content.pairs.len() == 3,
        messages_body(rows) matches JsonView::Fields(body) && body.pairs.len() == 1,
        under(messages_body(rows), "messages"@) matches Some(JsonView::List(messages))
            && messages[0] matches JsonView::Fields(message) && message.pairs.len() == 2,
{
    broadcast use {law_member_is_found, law_new_member_adds_one};

    reveal_strlit("uri");
    reveal_strlit("mimeType");
    reveal_strlit("text");
    reveal_strlit("role");
    reveal_strlit("content");
    assert("uri"@.len() == 3);
    assert("mimeType"@.len() == 8);
    assert("text"@.len() == 4);
    assert("role"@.len() == 4);
    assert("content"@.len() == 7);
}

} // verus!
