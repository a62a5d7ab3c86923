//! JSON documents, one level at a time.
use serde_json::Value;
use vstd::prelude::*;

use crate::text::result_view;

verus! {

/// One JSON value; the values inside an array or an object stand as JSON text.
#[derive(Debug, PartialEq, Eq)]
pub enum JsonNode {
    Null,
    Bool(bool),
    Number(String),
    Text(String),
    Array(Vec<String>),
    Object(Vec<(String, String)>),
}

/// The model of a [`JsonNode`].
pub enum JsonNodeView {
    Null,
    Bool(bool),
    Number(Seq<char>),
    Text(Seq<char>),
    Array(Seq<Seq<char>>),
    Object(Seq<(Seq<char>, Seq<char>)>),
}

/// The model of a list of named texts.
pub open spec fn pair_views(list: Seq<(String, String)>) -> Seq<(Seq<char>, Seq<char>)> {
    Seq::new(list.len(), |i: int| (list[i].0@, list[i].1@))
}

impl View for JsonNode {
    type V = JsonNodeView;

    open spec fn view(&self) -> JsonNodeView {
        match self {
            JsonNode::Null => JsonNodeView::Null,
            JsonNode::Bool(b) => JsonNodeView::Bool(*b),
            JsonNode::Number(n) => JsonNodeView::Number(n@),
            JsonNode::Text(s) => JsonNodeView::Text(s@),
            JsonNode::Array(items) => JsonNodeView::Array(crate::text::views(items@)),
            JsonNode::Object(members) => JsonNodeView::Object(pair_views(members@)),
        }
    }
}

/// What JSON parsing makes of a text: the outermost value, or the message of
/// the error.
pub uninterp spec fn json_parse(text: Seq<char>) -> Result<JsonNodeView, Seq<char>>;

/// Calls `serde_json::from_str` and takes the outermost value apart; the values
/// inside it are written out again as JSON text, and an error becomes its
/// message. The contract says that all of this is a function of the text.
#[verifier::external_body]
pub(crate) fn parse_json(text: &str) -> (r: Result<JsonNode, String>)
    ensures
        result_view(r) == json_parse(text@),
{
    Ok(match serde_json::from_str::<Value>(text).map_err(|e| e.to_string())? {
        Value::Null => JsonNode::Null,
        Value::Bool(b) => JsonNode::Bool(b),
        Value::Number(n) => JsonNode::Number(n.to_string()),
        Value::String(s) => JsonNode::Text(s),
        Value::Array(a) => JsonNode::Array(a.iter().map(|v| v.to_string()).collect()),
        Value::Object(m) => JsonNode::Object(
            m.iter().map(|(k, v)| (k.to_string(), v.to_string())).collect(),
        ),
    })
}

impl JsonNode {
    /// Parses a JSON document.
    pub fn parse(text: &str) -> (r: Result<JsonNode, String>)
        ensures
            result_view(r) == json_parse(text@),
    {
        parse_json(text)
    }
}

/// The model of a JSON value has its kind and what it holds.
pub proof fn law_models_of_nodes(
    b: bool,
    s: String,
    items: Vec<String>,
    members: Vec<(String, String)>,
    i: int,
)
    requires
        0 <= i < members@.len(),
    ensures
        JsonNode::Null@ == JsonNodeView::Null,
        JsonNode::Bool(b)@ == JsonNodeView::Bool(b),
        JsonNode::Number(s)@ == JsonNodeView::Number(s@),
        JsonNode::Text(s)@ == JsonNodeView::Text(s@),
        JsonNode::Array(items)@ == JsonNodeView::Array(crate::text::views(items@)),
        JsonNode::Object(members)@ == JsonNodeView::Object(pair_views(members@)),
        pair_views(members@).len() == members@.len(),
        pair_views(members@)[i] == (members@[i].0@, members@[i].1@),
{
}

} // verus!
