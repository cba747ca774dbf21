use vstd::prelude::*;
use std::sync::Arc;
use crate::config::Config;
use crate::error::{message_of, AppError};
use crate::ripgrep::RipgrepSearcher;

verus! {

/// One property of a tool's input schema.
#[derive(Debug, Clone)]
pub struct ToolProperty {
    pub name: String,
    /// The JSON type of the property.
    pub kind: String,
    pub description: String,
}

/// A tool as it is advertised: its name, description and input schema.
#[derive(Debug, Clone)]
pub struct ToolSpec {
    pub name: String,
    pub description: String,
    /// The properties that a call must supply.
    pub required: Vec<String>,
    pub properties: Vec<ToolProperty>,
}

/// The ways a tool call fails, as the caller sees them.
#[derive(Debug)]
pub enum ToolCallError {
    /// The named tool does not exist.
    UnknownTool(String),
    /// The call carries no arguments.
    MissingArguments,
    /// The arguments do not decode into a search request; holds the reason.
    InvalidParameters(String),
    /// The search itself failed; holds the reason.
    SearchFailed(String),
    /// The result could not be rendered; holds the reason.
    Serialization(String),
}

/// The name of the one tool.
pub open spec fn tool_name() -> Seq<char> {
    "search"@
}

/// The property names of the search tool's input schema, in order.
pub open spec fn property_names() -> Seq<Seq<char>> {
    seq![
        "pattern"@,
        "path"@,
        "fixed_strings"@,
        "case_sensitive"@,
        "line_numbers"@,
        "context_lines"@,
        "file_types"@,
        "max_depth"@,
    ]
}

/// The JSON types of those properties, in the same order.
pub open spec fn property_kinds() -> Seq<Seq<char>> {
    seq![
        "string"@,
        "string"@,
        "boolean"@,
        "boolean"@,
        "boolean"@,
        "integer"@,
        "array"@,
        "integer"@,
    ]
}

/// The descriptions of those properties, in the same order.
pub open spec fn property_descriptions() -> Seq<Seq<char>> {
    seq![
        "Search pattern"@,
        "Relative path within root directory"@,
        "Use fixed strings instead of regex"@,
        "Case-sensitive search"@,
        "Include line numbers in output"@,
        "Number of context lines to show"@,
        "File types to include (e.g., \"rust\", \"js\")"@,
        "Maximum depth to search"@,
    ]
}

/// The advertised search tool: its name and description, its one required property, and
/// the name, type and description of every property.
pub open spec fn is_search_tool(t: ToolSpec) -> bool {
    &&& t.name@ == tool_name()
    &&& t.description@ == "Search code using ripgrep"@
    &&& t.required@.len() == 1
    &&& t.required@[0]@ == "pattern"@
    &&& t.properties@.len() == property_names().len()
    &&& forall|i: int|
        0 <= i < t.properties@.len() ==> (#[trigger] t.properties@[i]).name@ == property_names()[i]
            && t.properties@[i].kind@ == property_kinds()[i] && t.properties@[i].description@
            == property_descriptions()[i]
}

/// The views of a tool descriptor's properties: name, type and description of each.
pub open spec fn property_views(t: ToolSpec) -> Seq<(Seq<char>, Seq<char>, Seq<char>)> {
    t.properties@.map_values(|p: ToolProperty| (p.name@, p.kind@, p.description@))
}

/// The advertised descriptor is fixed: any two that `list_tools` can return agree in name,
/// description, required properties and every property.
pub proof fn lemma_search_tool_fixed(a: ToolSpec, b: ToolSpec)
    requires
        is_search_tool(a),
        is_search_tool(b),
    ensures
        a.name@ == b.name@,
        a.description@ == b.description@,
        a.required@.map_values(|s: String| s@) == b.required@.map_values(|s: String| s@),
        property_views(a) == property_views(b),
{
    assert(a.required@.map_values(|s: String| s@) =~= b.required@.map_values(|s: String| s@));
    assert(property_views(a) =~= property_views(b));
}

fn property(name: &str, kind: &str, description: &str) -> (r: ToolProperty)
    ensures
        r.name@ == name@,
        r.kind@ == kind@,
        r.description@ == description@,
{
    ToolProperty {
        name: String::from_str(name),
        kind: String::from_str(kind),
        description: String::from_str(description),
    }
}

/// The search tool as it is advertised.
pub fn search_tool() -> (r: ToolSpec)
    ensures
        is_search_tool(r),
{
    let mut properties: Vec<ToolProperty> = Vec::new();
    properties.push(property("pattern", "string", "Search pattern"));
    properties.push(property("path", "string", "Relative path within root directory"));
    properties.push(property("fixed_strings", "boolean", "Use fixed strings instead of regex"));
    properties.push(property("case_sensitive", "boolean", "Case-sensitive search"));
    properties.push(property("line_numbers", "boolean", "Include line numbers in output"));
    properties.push(property("context_lines", "integer", "Number of context lines to show"));
    properties.push(property("file_types", "array", "File types to include (e.g., \"rust\", \"js\")"));
    properties.push(property("max_depth", "integer", "Maximum depth to search"));
    let mut required: Vec<String> = Vec::new();
    required.push(String::from_str("pattern"));
    let r = ToolSpec {
        name: String::from_str("search"),
        description: String::from_str("Search code using ripgrep"),
        required,
        properties,
    };
    assert(r.properties@.len() == 8);
    r
}

impl ToolCallError {
    /// The human-readable message of this error.
    pub fn message(&self) -> (r: String)
        ensures
            self matches ToolCallError::UnknownTool(name) ==> r@ == "Unknown tool: "@ + name@,
            self is MissingArguments ==> r@ == "Missing required arguments for search"@,
            self matches ToolCallError::InvalidParameters(s) ==> r@ == "Invalid parameters: "@
                + s@,
            self matches ToolCallError::SearchFailed(s) ==> r@ == "Search failed: "@ + s@,
            self matches ToolCallError::Serialization(s) ==> r@ == "JSON serialization error: "@
                + s@,
    {
        match self {
            ToolCallError::UnknownTool(name) => String::from_str("Unknown tool: ").concat(
                name.as_str(),
            ),
            ToolCallError::MissingArguments => String::from_str(
                "Missing required arguments for search",
            ),
            ToolCallError::InvalidParameters(s) => String::from_str("Invalid parameters: ").concat(
                s.as_str(),
            ),
            ToolCallError::SearchFailed(s) => String::from_str("Search failed: ").concat(
                s.as_str(),
            ),
            ToolCallError::Serialization(s) => String::from_str(
                "JSON serialization error: ",
            ).concat(s.as_str()),
        }
    }
}

/// The protocol handler: advertises the search tool and dispatches calls to one searcher.
pub struct MCPServer {
    searcher: Arc<RipgrepSearcher>,
}

impl MCPServer {
    pub fn new(config: Config) -> (r: Self)
        ensures
            r.searcher_spec().root_view() == config.files_root@,
    {
        let searcher = Arc::new(RipgrepSearcher::new(config.files_root));
        Self { searcher }
    }

    /// The searcher that all calls share.
    pub closed spec fn searcher_spec(&self) -> RipgrepSearcher {
        *self.searcher
    }

    /// A shared handle on the searcher.
    pub fn searcher(&self) -> (r: Arc<RipgrepSearcher>)
        ensures
            *r == self.searcher_spec(),
    {
        Arc::clone(&self.searcher)
    }

    /// The tools on offer: the search tool alone.
    pub fn list_tools(&self) -> (r: Vec<ToolSpec>)
        ensures
            r@.len() == 1,
            is_search_tool(r@[0]),
    {
        let mut tools: Vec<ToolSpec> = Vec::new();
        tools.push(search_tool());
        tools
    }

    /// Decides whether a call goes on to decode its arguments: only a call of the search
    /// tool that carries arguments does.
    pub fn check_call(&self, name: &str, has_arguments: bool) -> (r: Result<(), ToolCallError>)
        ensures
            name@ != tool_name() ==> (r matches Err(ToolCallError::UnknownTool(n)) && n@ == name@),
            name@ == tool_name() && !has_arguments ==> r matches Err(
                ToolCallError::MissingArguments,
            ),
            name@ == tool_name() && has_arguments ==> r is Ok,
    {
        if name.to_owned() != String::from_str("search") {
            return Err(ToolCallError::UnknownTool(name.to_owned()));
        }
        if !has_arguments {
            return Err(ToolCallError::MissingArguments);
        }
        Ok(())
    }

    /// The caller's view of a failed search: the search error's message.
    pub fn search_failed(&self, e: &AppError) -> (r: ToolCallError)
        ensures
            r matches ToolCallError::SearchFailed(m) && (!(e is IoError) ==> m@ == message_of(*e)),
    {
        ToolCallError::SearchFailed(e.message())
    }
}

} // verus!
