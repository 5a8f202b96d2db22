//! The tools that the agent's model may call, and what a call asks for.

use crate::deepseek::{FunctionDefinition, ToolDefinition};
use crate::json::{
    empty_object, json_parse, number_as_u64, number_of, text_list, Json, JsonTree,
};
use crate::scan::{
    contains_text, join_with, joined_with, law_joined_texts_are_found, law_parts_are_found,
};
use crate::split::{texts, trim, trimmed};
use crate::text::str_eq;
use crate::version::sentence;
use vstd::prelude::*;
use vstd::string::*;

verus! {

/// The content of a `ToolDefinition`.
pub ghost struct Tool {
    pub type_: Seq<char>,
    pub name: Seq<char>,
    pub description: Seq<char>,
    pub parameters: JsonTree,
}

impl View for ToolDefinition {
    type V = Tool;

    open spec fn view(&self) -> Tool {
        Tool {
            type_: self.type_@,
            name: self.function.name@,
            description: self.function.description@,
            parameters: self.function.parameters.tree(),
        }
    }
}

/// The contents of a list of tools.
pub open spec fn tool_views(v: Seq<ToolDefinition>) -> Seq<Tool> {
    Seq::new(v.len(), |i: int| v[i]@)
}

/// The description of parameters, before any are described.
pub open spec fn no_params() -> JsonTree {
    empty_object()
}

impl JsonTree {
    /// The parameters with a string among them.
    pub open spec fn string(self, name: Seq<char>, description: Seq<char>) -> JsonTree {
        self.set(
            name,
            empty_object().set("type"@, JsonTree::Text("string"@)).set(
                "description"@,
                JsonTree::Text(description),
            ),
        )
    }

    /// The parameters with a whole number from 1 among them.
    pub open spec fn whole(self, name: Seq<char>, description: Seq<char>) -> JsonTree {
        self.set(
            name,
            empty_object().set("type"@, JsonTree::Text("integer"@)).set(
                "minimum"@,
                JsonTree::Number(number_of(1)),
            ).set("description"@, JsonTree::Text(description)),
        )
    }
}

/// A tool with its parameters and those that are required.
pub open spec fn tool(
    name: Seq<char>,
    description: Seq<char>,
    properties: JsonTree,
    required: Seq<Seq<char>>,
) -> Tool {
    Tool {
        type_: "function"@,
        name,
        description,
        parameters: empty_object().set("type"@, JsonTree::Text("object"@)).set(
            "properties"@,
            properties,
        ).set("required"@, text_list(required)),
    }
}

/// All tools.
pub open spec fn all_tools() -> Seq<Tool> {
    seq![
        tool(
            "read_source_file"@,
            "Read a file from the agent's source code. Supports optional 1-based line ranges. Path is relative to the peripheral crate root (e.g. 'src/main.rs', 'Cargo.toml')"@,
            no_params().string("path"@, "Relative file path within the peripheral crate"@).whole("start_line"@, "Optional start line (1-based, inclusive). Use with end_line to read a slice."@).whole("end_line"@, "Optional end line (1-based, inclusive). Defaults to start_line when provided."@),
            seq!["path"@],
        ),
        tool(
            "list_source_files"@,
            "List all files in a directory of the agent's source code. Path is relative to the peripheral crate root (e.g. 'src/', '.')"@,
            no_params().string("path"@, "Relative directory path within the peripheral crate"@),
            seq!["path"@],
        ),
        tool(
            "write_source_file"@,
            "Write content to a file in the agent's source code working directory. Supports optional 1-based line ranges for precise edits. Path is relative to crates/peripheral/ (e.g. 'src/main.rs'). Provide the full replacement text for the targeted range or entire file."@,
            no_params().string("path"@, "Relative file path within the peripheral crate"@).string("content"@, "Full file content to write"@).whole("start_line"@, "Optional start line (1-based, inclusive). Provide to replace a specific slice."@).whole("end_line"@, "Optional end line (1-based, inclusive). Defaults to start_line when provided."@),
            seq!["path"@, "content"@],
        ),
        tool(
            "search_source_files"@,
            "Search source files for a query, respecting .gitignore. Paths are relative to the peripheral crate root."@,
            no_params().string("query"@, "Search term to look for in source files"@).string("path"@, "Optional directory or file path to scope the search. Defaults to '.'."@).whole("max_results"@, "Maximum number of matches to return (default 40, capped at 200)."@),
            seq!["query"@],
        ),
        tool(
            "submit_update"@,
            "Submit the current working directory for compilation and deployment. Returns the compilation/test result. If compilation fails, read the errors and fix the code, then submit again."@,
            no_params(),
            seq![],
        ),
        tool(
            "memory_search"@,
            "Search across all memory files (MEMORY.md and daily logs) for relevant content. Returns the top matching snippets ranked by relevance."@,
            no_params().string("query"@, "Keywords or phrase to search for in memory"@),
            seq!["query"@],
        ),
        tool(
            "memory_get"@,
            "Get a memory file by date. Use \"today\", \"yesterday\", or a date in YYYY-MM-DD format. Omit or pass \"today\" for today's daily log."@,
            no_params().string("date"@, "\"today\", \"yesterday\", or \"YYYY-MM-DD\". Defaults to \"today\"."@),
            seq![],
        ),
        tool(
            "memory_get_long_term"@,
            "Read the full contents of MEMORY.md. Call this before memory_write so you can merge new facts with the existing content."@,
            no_params(),
            seq![],
        ),
        tool(
            "memory_write"@,
            "Overwrite MEMORY.md with new long-term facts. Use this to update curated, persistent knowledge that should survive across sessions."@,
            no_params().string("content"@, "Full Markdown content to write to MEMORY.md"@),
            seq!["content"@],
        ),
        tool(
            "memory_append"@,
            "Append a timestamped entry to today's daily log. Use this for short-term notes, task progress, and session context."@,
            no_params().string("content"@, "Markdown content to append to today's daily log"@),
            seq!["content"@],
        ),
    ]
}

fn add_string(p: &mut Json, name: &str, description: &str)
    requires
        old(p).wf(),
    ensures
        final(p).wf(),
        final(p).tree() == old(p).tree().string(name@, description@),
{
    let mut j = Json::object();
    j.set("type", Json::text("string"));
    j.set("description", Json::text(description));
    p.set(name, j);
}

fn add_whole(p: &mut Json, name: &str, description: &str)
    requires
        old(p).wf(),
    ensures
        final(p).wf(),
        final(p).tree() == old(p).tree().whole(name@, description@),
{
    let mut j = Json::object();
    j.set("type", Json::text("integer"));
    j.set("minimum", Json::number(1));
    j.set("description", Json::text(description));
    p.set(name, j);
}

fn push_tool(
    v: &mut Vec<ToolDefinition>,
    name: &str,
    description: &str,
    properties: Json,
    required: &Vec<String>,
)
    requires
        properties.wf(),
        forall|i: int|
            0 <= i < old(v)@.len() ==> (#[trigger] old(v)@[i]).function.parameters.wf(),
    ensures
        tool_views(final(v)@) == tool_views(old(v)@).push(
            tool(name@, description@, properties.tree(), texts(required@)),
        ),
        forall|i: int|
            0 <= i < final(v)@.len() ==> (#[trigger] final(v)@[i]).function.parameters.wf(),
{
    let mut parameters = Json::object();
    parameters.set("type", Json::text("object"));
    parameters.set("properties", properties);
    parameters.set("required", Json::strings(required));
    let d = ToolDefinition {
        type_: "function".to_owned(),
        function: FunctionDefinition {
            name: name.to_owned(),
            description: description.to_owned(),
            parameters,
        },
    };
    v.push(d);
    assert(tool_views(v@) =~= tool_views(old(v)@).push(d@));
}

/// The tools that the model may call.
pub fn tool_definitions() -> (v: Vec<ToolDefinition>)
    ensures
        tool_views(v@) == all_tools(),
        forall|i: int| 0 <= i < v@.len() ==> (#[trigger] v@[i]).function.parameters.wf(),
{
    let mut v: Vec<ToolDefinition> = Vec::new();
    let mut p = Json::object();
    add_string(&mut p, "path", "Relative file path within the peripheral crate");
    add_whole(&mut p, "start_line", "Optional start line (1-based, inclusive). Use with end_line to read a slice.");
    add_whole(&mut p, "end_line", "Optional end line (1-based, inclusive). Defaults to start_line when provided.");
    let mut required: Vec<String> = Vec::new();
    required.push("path".to_owned());
    assert(texts(required@) =~= seq!["path"@]);
    push_tool(
        &mut v,
        "read_source_file",
        "Read a file from the agent's source code. Supports optional 1-based line ranges. Path is relative to the peripheral crate root (e.g. 'src/main.rs', 'Cargo.toml')",
        p,
        &required,
    );
    let mut p = Json::object();
    add_string(&mut p, "path", "Relative directory path within the peripheral crate");
    let mut required: Vec<String> = Vec::new();
    required.push("path".to_owned());
    assert(texts(required@) =~= seq!["path"@]);
    push_tool(
        &mut v,
        "list_source_files",
        "List all files in a directory of the agent's source code. Path is relative to the peripheral crate root (e.g. 'src/', '.')",
        p,
        &required,
    );
    let mut p = Json::object();
    add_string(&mut p, "path", "Relative file path within the peripheral crate");
    add_string(&mut p, "content", "Full file content to write");
    add_whole(&mut p, "start_line", "Optional start line (1-based, inclusive). Provide to replace a specific slice.");
    add_whole(&mut p, "end_line", "Optional end line (1-based, inclusive). Defaults to start_line when provided.");
    let mut required: Vec<String> = Vec::new();
    required.push("path".to_owned());
    required.push("content".to_owned());
    assert(texts(required@) =~= seq!["path"@, "content"@]);
    push_tool(
        &mut v,
        "write_source_file",
        "Write content to a file in the agent's source code working directory. Supports optional 1-based line ranges for precise edits. Path is relative to crates/peripheral/ (e.g. 'src/main.rs'). Provide the full replacement text for the targeted range or entire file.",
        p,
        &required,
    );
    let mut p = Json::object();
    add_string(&mut p, "query", "Search term to look for in source files");
    add_string(&mut p, "path", "Optional directory or file path to scope the search. Defaults to '.'.");
    add_whole(&mut p, "max_results", "Maximum number of matches to return (default 40, capped at 200).");
    let mut required: Vec<String> = Vec::new();
    required.push("query".to_owned());
    assert(texts(required@) =~= seq!["query"@]);
    push_tool(
        &mut v,
        "search_source_files",
        "Search source files for a query, respecting .gitignore. Paths are relative to the peripheral crate root.",
        p,
        &required,
    );
    let mut p = Json::object();
    let mut required: Vec<String> = Vec::new();
    assert(texts(required@) =~= seq![]);
    push_tool(
        &mut v,
        "submit_update",
        "Submit the current working directory for compilation and deployment. Returns the compilation/test result. If compilation fails, read the errors and fix the code, then submit again.",
        p,
        &required,
    );
    let mut p = Json::object();
    add_string(&mut p, "query", "Keywords or phrase to search for in memory");
    let mut required: Vec<String> = Vec::new();
    required.push("query".to_owned());
    assert(texts(required@) =~= seq!["query"@]);
    push_tool(
        &mut v,
        "memory_search",
        "Search across all memory files (MEMORY.md and daily logs) for relevant content. Returns the top matching snippets ranked by relevance.",
        p,
        &required,
    );
    let mut p = Json::object();
    add_string(&mut p, "date", "\"today\", \"yesterday\", or \"YYYY-MM-DD\". Defaults to \"today\".");
    let mut required: Vec<String> = Vec::new();
    assert(texts(required@) =~= seq![]);
    push_tool(
        &mut v,
        "memory_get",
        "Get a memory file by date. Use \"today\", \"yesterday\", or a date in YYYY-MM-DD format. Omit or pass \"today\" for today's daily log.",
        p,
        &required,
    );
    let mut p = Json::object();
    let mut required: Vec<String> = Vec::new();
    assert(texts(required@) =~= seq![]);
    push_tool(
        &mut v,
        "memory_get_long_term",
        "Read the full contents of MEMORY.md. Call this before memory_write so you can merge new facts with the existing content.",
        p,
        &required,
    );
    let mut p = Json::object();
    add_string(&mut p, "content", "Full Markdown content to write to MEMORY.md");
    let mut required: Vec<String> = Vec::new();
    required.push("content".to_owned());
    assert(texts(required@) =~= seq!["content"@]);
    push_tool(
        &mut v,
        "memory_write",
        "Overwrite MEMORY.md with new long-term facts. Use this to update curated, persistent knowledge that should survive across sessions.",
        p,
        &required,
    );
    let mut p = Json::object();
    add_string(&mut p, "content", "Markdown content to append to today's daily log");
    let mut required: Vec<String> = Vec::new();
    required.push("content".to_owned());
    assert(texts(required@) =~= seq!["content"@]);
    push_tool(
        &mut v,
        "memory_append",
        "Append a timestamped entry to today's daily log. Use this for short-term notes, task progress, and session context.",
        p,
        &required,
    );
    assert(tool_views(v@) =~= all_tools());
    v
}

/// The results that a search shows where it is not told.
pub const DEFAULT_MAX_RESULTS: usize = 40;

/// The most results that a search shows.
pub const ABSOLUTE_MAX_RESULTS: usize = 200;

/// What a tool call has led to.
#[derive(Debug, PartialEq)]
pub enum ToolResult {
    Output(String),
    SubmitUpdate(String),
}

/// What a tool call asks for. Ranges are of lines, counted from 1 and with
/// their end.
pub enum ToolRequest<T> {
    /// Nothing can be done; this is the answer.
    Refused(T),
    ReadSource { path: T, range: Option<(usize, usize)> },
    ListSource { path: T },
    WriteSource { path: T, content: T, range: Option<(usize, usize)> },
    SearchSource { query: T, path: T, max_results: usize },
    SubmitUpdate,
    MemorySearch { query: T },
    MemoryGet { date: T },
    MemoryGetLongTerm,
    MemoryWrite { content: T },
    MemoryAppend { content: T },
}

impl View for ToolRequest<String> {
    type V = ToolRequest<Seq<char>>;

    open spec fn view(&self) -> ToolRequest<Seq<char>> {
        match self {
            ToolRequest::Refused(m) => ToolRequest::Refused(m@),
            ToolRequest::ReadSource { path, range } => ToolRequest::ReadSource {
                path: path@,
                range: *range,
            },
            ToolRequest::ListSource { path } => ToolRequest::ListSource { path: path@ },
            ToolRequest::WriteSource { path, content, range } => ToolRequest::WriteSource {
                path: path@,
                content: content@,
                range: *range,
            },
            ToolRequest::SearchSource { query, path, max_results } => ToolRequest::SearchSource {
                query: query@,
                path: path@,
                max_results: *max_results,
            },
            ToolRequest::SubmitUpdate => ToolRequest::SubmitUpdate,
            ToolRequest::MemorySearch { query } => ToolRequest::MemorySearch { query: query@ },
            ToolRequest::MemoryGet { date } => ToolRequest::MemoryGet { date: date@ },
            ToolRequest::MemoryGetLongTerm => ToolRequest::MemoryGetLongTerm,
            ToolRequest::MemoryWrite { content } => ToolRequest::MemoryWrite { content: content@ },
            ToolRequest::MemoryAppend { content } => ToolRequest::MemoryAppend {
                content: content@,
            },
        }
    }
}

/// The string argument under a name, or a default.
pub open spec fn arg_text(args: JsonTree, name: Seq<char>, default: Seq<char>) -> Seq<char> {
    match args.get_text(name) {
        Some(s) => s,
        None => default,
    }
}

/// The whole number under a name.
pub open spec fn arg_number(args: JsonTree, name: Seq<char>) -> Option<u64> {
    match args.get(name) {
        Some(JsonTree::Number(n)) => number_as_u64(n),
        _ => None,
    }
}

/// The line range that arguments ask for. A start alone is one line; an end
/// alone is refused.
pub open spec fn arg_range(args: JsonTree) -> Result<Option<(usize, usize)>, Seq<char>> {
    match (arg_number(args, "start_line"@), arg_number(args, "end_line"@)) {
        (None, None) => Ok(None),
        (Some(s), None) => Ok(Some((s as usize, s as usize))),
        (Some(s), Some(e)) => Ok(Some((s as usize, e as usize))),
        (None, Some(_)) => Err("Provide start_line when end_line is set."@),
    }
}

/// The number of results that a search shows: at least one, at most the limit.
pub open spec fn result_limit(asked: Option<u64>) -> usize {
    match asked {
        None => DEFAULT_MAX_RESULTS,
        Some(n) => if (n as usize) < 1 {
            1
        } else if (n as usize) > ABSOLUTE_MAX_RESULTS {
            ABSOLUTE_MAX_RESULTS
        } else {
            n as usize
        },
    }
}

/// The answer to a call without a path.
pub open spec fn path_missing() -> Seq<char> {
    "Error: 'path' parameter is required but was empty or missing. Please provide a relative file path like 'src/main.rs'."@
}

/// What a call of a tool with the given arguments asks for.
pub open spec fn requested(name: Seq<char>, args: JsonTree) -> ToolRequest<Seq<char>> {
    let empty = Seq::<char>::empty();
    let path = arg_text(args, "path"@, empty);
    if name == "read_source_file"@ {
        if path.len() == 0 {
            ToolRequest::Refused(path_missing())
        } else {
            match arg_range(args) {
                Ok(range) => ToolRequest::ReadSource { path, range },
                Err(e) => ToolRequest::Refused("Error: "@ + e),
            }
        }
    } else if name == "list_source_files"@ {
        ToolRequest::ListSource { path: arg_text(args, "path"@, "."@) }
    } else if name == "write_source_file"@ {
        if path.len() == 0 {
            ToolRequest::Refused(path_missing())
        } else {
            match arg_range(args) {
                Ok(range) => ToolRequest::WriteSource {
                    path,
                    content: arg_text(args, "content"@, empty),
                    range,
                },
                Err(e) => ToolRequest::Refused("Error: "@ + e),
            }
        }
    } else if name == "search_source_files"@ {
        let query = arg_text(args, "query"@, empty);
        if trimmed(query).len() == 0 {
            ToolRequest::Refused(
                "Error: 'query' parameter is required but was empty or missing."@,
            )
        } else {
            ToolRequest::SearchSource {
                query,
                path: arg_text(args, "path"@, "."@),
                max_results: result_limit(arg_number(args, "max_results"@)),
            }
        }
    } else if name == "submit_update"@ {
        ToolRequest::SubmitUpdate
    } else if name == "memory_search"@ {
        ToolRequest::MemorySearch { query: arg_text(args, "query"@, empty) }
    } else if name == "memory_get"@ {
        ToolRequest::MemoryGet { date: arg_text(args, "date"@, "today"@) }
    } else if name == "memory_get_long_term"@ {
        ToolRequest::MemoryGetLongTerm
    } else if name == "memory_write"@ {
        ToolRequest::MemoryWrite { content: arg_text(args, "content"@, empty) }
    } else if name == "memory_append"@ {
        ToolRequest::MemoryAppend { content: arg_text(args, "content"@, empty) }
    } else {
        ToolRequest::Refused("Unknown tool: "@ + name)
    }
}

/// What a call of a tool with the given argument text asks for.
pub open spec fn requested_text(name: Seq<char>, arguments: Seq<char>) -> ToolRequest<Seq<char>> {
    match json_parse(arguments) {
        Ok(args) => requested(name, args),
        Err(e) => ToolRequest::Refused(
            "Error: Failed to parse arguments as JSON: "@ + e + ". Raw arguments: "@ + arguments,
        ),
    }
}

fn text_arg(args: &Json, name: &str, default: &str) -> (s: String)
    requires
        args.wf(),
    ensures
        s@ == arg_text(args.tree(), name@, default@),
{
    match args.get_str(name) {
        Some(s) => s.to_owned(),
        None => default.to_owned(),
    }
}

fn number_arg(args: &Json, name: &str) -> (n: Option<u64>)
    requires
        args.wf(),
    ensures
        n == arg_number(args.tree(), name@),
{
    match args.get(name) {
        Some(v) => v.as_u64(),
        None => None,
    }
}

fn range_arg(args: &Json) -> (r: Result<Option<(usize, usize)>, String>)
    requires
        args.wf(),
    ensures
        (match arg_range(args.tree()) {
            Ok(range) => r == Ok::<Option<(usize, usize)>, String>(range),
            Err(e) => r is Err && r->Err_0@ == e,
        }),
{
    match (number_arg(args, "start_line"), number_arg(args, "end_line")) {
        (None, None) => Ok(None),
        (Some(s), None) => Ok(Some((s as usize, s as usize))),
        (Some(s), Some(e)) => Ok(Some((s as usize, e as usize))),
        (None, Some(_)) => Err("Provide start_line when end_line is set.".to_owned()),
    }
}

/// What a call of a tool with the given arguments asks for.
pub fn read_request(name: &str, args: &Json) -> (r: ToolRequest<String>)
    requires
        args.wf(),
    ensures
        r@ == requested(name@, args.tree()),
{
    let none = String::new();
    let empty = none.as_str();
    let reads = str_eq(name, "read_source_file");
    if reads || str_eq(name, "write_source_file") {
        proof {
            reveal_strlit("read_source_file");
            reveal_strlit("write_source_file");
            reveal_strlit("list_source_files");
            assert("read_source_file"@.len() == 16);
            assert("write_source_file"@.len() == 17);
            assert("list_source_files"@[0] == 'l');
            assert("write_source_file"@[0] == 'w');
        }
        let path = text_arg(args, "path", empty);
        if path.as_str().unicode_len() == 0 {
            return ToolRequest::Refused(
                "Error: 'path' parameter is required but was empty or missing. Please provide a relative file path like 'src/main.rs'.".to_owned(),
            );
        }
        let range = match range_arg(args) {
            Ok(r) => r,
            Err(e) => {
                return ToolRequest::Refused(sentence("Error: ", e.as_str()));
            },
        };
        if reads {
            return ToolRequest::ReadSource { path, range };
        }
        return ToolRequest::WriteSource { path, content: text_arg(args, "content", empty), range };
    }
    if str_eq(name, "list_source_files") {
        return ToolRequest::ListSource { path: text_arg(args, "path", ".") };
    }
    if str_eq(name, "search_source_files") {
        let query = text_arg(args, "query", empty);
        if trim(query.as_str()).as_str().unicode_len() == 0 {
            return ToolRequest::Refused(
                "Error: 'query' parameter is required but was empty or missing.".to_owned(),
            );
        }
        let max_results: usize = match number_arg(args, "max_results") {
            None => DEFAULT_MAX_RESULTS,
            Some(n) => {
                let n: usize = n as usize;
                if n < 1 {
                    1
                } else if n > ABSOLUTE_MAX_RESULTS {
                    ABSOLUTE_MAX_RESULTS
                } else {
                    n
                }
            },
        };
        return ToolRequest::SearchSource {
            query,
            path: text_arg(args, "path", "."),
            max_results,
        };
    }
    if str_eq(name, "submit_update") {
        return ToolRequest::SubmitUpdate;
    }
    if str_eq(name, "memory_search") {
        return ToolRequest::MemorySearch { query: text_arg(args, "query", empty) };
    }
    if str_eq(name, "memory_get") {
        return ToolRequest::MemoryGet { date: text_arg(args, "date", "today") };
    }
    if str_eq(name, "memory_get_long_term") {
        return ToolRequest::MemoryGetLongTerm;
    }
    if str_eq(name, "memory_write") {
        return ToolRequest::MemoryWrite { content: text_arg(args, "content", empty) };
    }
    if str_eq(name, "memory_append") {
        return ToolRequest::MemoryAppend { content: text_arg(args, "content", empty) };
    }
    ToolRequest::Refused(sentence("Unknown tool: ", name))
}

/// What a call of a tool with the given argument text asks for.
pub fn execute_tool(name: &str, arguments: &str) -> (r: ToolRequest<String>)
    ensures
        r@ == requested_text(name@, arguments@),
{
    match Json::parse(arguments) {
        Ok(args) => read_request(name, &args),
        Err(e) => {
            let mut m = sentence("Error: Failed to parse arguments as JSON: ", e.as_str());
            m.append(". Raw arguments: ");
            m.append(arguments);
            ToolRequest::Refused(m)
        },
    }
}

/// What the model is told of an outcome.
pub open spec fn told(outcome: Result<String, String>) -> Seq<char> {
    match outcome {
        Ok(s) => s@,
        Err(e) => "Error: "@ + e@,
    }
}

/// The result of a tool whose outcome is shown as it is.
pub fn tool_output(outcome: Result<String, String>) -> (r: ToolResult)
    ensures
        r is Output,
        r->Output_0@ == told(outcome),
{
    match outcome {
        Ok(s) => ToolResult::Output(s),
        Err(e) => ToolResult::Output(sentence("Error: ", e.as_str())),
    }
}

/// The result of listing files.
pub fn list_output(outcome: Result<Vec<String>, String>) -> (r: ToolResult)
    ensures
        r is Output,
        r->Output_0@ == (match outcome {
            Ok(files) => joined_with(texts(files@), "\n"@),
            Err(e) => "Error: "@ + e@,
        }),
{
    match outcome {
        Ok(files) => ToolResult::Output(join_with(&files, "\n")),
        Err(e) => ToolResult::Output(sentence("Error: ", e.as_str())),
    }
}

/// The result of reading the long-term memory.
pub fn long_term_output(outcome: Result<String, String>) -> (r: ToolResult)
    ensures
        r is Output,
        r->Output_0@ == (if outcome is Ok && outcome->Ok_0@.len() == 0 {
            "MEMORY.md is empty."@
        } else {
            told(outcome)
        }),
{
    match outcome {
        Ok(s) => {
            if s.as_str().unicode_len() == 0 {
                ToolResult::Output("MEMORY.md is empty.".to_owned())
            } else {
                ToolResult::Output(s)
            }
        },
        Err(e) => ToolResult::Output(sentence("Error: ", e.as_str())),
    }
}

/// The result of writing the long-term memory.
pub fn memory_write_output(outcome: Result<(), String>) -> (r: ToolResult)
    ensures
        r is Output,
        r->Output_0@ == (match outcome {
            Ok(_) => "MEMORY.md updated."@,
            Err(e) => "Error: "@ + e@,
        }),
{
    match outcome {
        Ok(()) => ToolResult::Output("MEMORY.md updated.".to_owned()),
        Err(e) => ToolResult::Output(sentence("Error: ", e.as_str())),
    }
}

/// The result of appending to the log of a day.
pub fn memory_append_output(outcome: Result<(), String>, today: &str) -> (r: ToolResult)
    ensures
        r is Output,
        r->Output_0@ == (match outcome {
            Ok(_) => "Appended to today's log ("@ + today@ + ")."@,
            Err(e) => "Error: "@ + e@,
        }),
{
    match outcome {
        Ok(()) => {
            let mut m = sentence("Appended to today's log (", today);
            m.append(").");
            ToolResult::Output(m)
        },
        Err(e) => ToolResult::Output(sentence("Error: ", e.as_str())),
    }
}

/// A search never asks for fewer results than one or more than the limit.
pub proof fn law_result_limit_is_bounded(asked: Option<u64>)
    ensures
        1 <= result_limit(asked) <= ABSOLUTE_MAX_RESULTS,
{
}

/// Every tool on offer is known: a call with the arguments of an object is not
/// answered as unknown.
pub proof fn law_offered_tools_are_known(i: int, args: JsonTree)
    requires
        0 <= i < all_tools().len(),
    ensures
        requested(all_tools()[i].name, args) != ToolRequest::Refused(
            "Unknown tool: "@ + all_tools()[i].name,
        ),
{
    reveal_strlit("Unknown tool: ");
    reveal_strlit("Error: ");
    reveal_strlit("Error: 'query' parameter is required but was empty or missing.");
    reveal_strlit(
        "Error: 'path' parameter is required but was empty or missing. Please provide a relative file path like 'src/main.rs'.",
    );
    let n = all_tools()[i].name;
    let u = "Unknown tool: "@ + n;
    assert(u[0] == 'U');
    assert(path_missing()[0] == 'E');
    assert(("Error: "@ + "Provide start_line when end_line is set."@)[0] == 'E');
    assert("Error: 'query' parameter is required but was empty or missing."@[0] == 'E');
}

proof fn lemma_tool_names()
    ensures
        "read_source_file"@ != "list_source_files"@,
        "read_source_file"@ != "write_source_file"@,
        "read_source_file"@ != "search_source_files"@,
        "read_source_file"@ != "submit_update"@,
        "read_source_file"@ != "memory_search"@,
        "read_source_file"@ != "memory_get"@,
        "read_source_file"@ != "memory_get_long_term"@,
        "read_source_file"@ != "memory_write"@,
        "read_source_file"@ != "memory_append"@,
        "list_source_files"@ != "write_source_file"@,
        "list_source_files"@ != "search_source_files"@,
        "list_source_files"@ != "submit_update"@,
        "list_source_files"@ != "memory_search"@,
        "list_source_files"@ != "memory_get"@,
        "list_source_files"@ != "memory_get_long_term"@,
        "list_source_files"@ != "memory_write"@,
        "list_source_files"@ != "memory_append"@,
        "write_source_file"@ != "search_source_files"@,
        "write_source_file"@ != "submit_update"@,
        "write_source_file"@ != "memory_search"@,
        "write_source_file"@ != "memory_get"@,
        "write_source_file"@ != "memory_get_long_term"@,
        "write_source_file"@ != "memory_write"@,
        "write_source_file"@ != "memory_append"@,
        "search_source_files"@ != "submit_update"@,
        "search_source_files"@ != "memory_search"@,
        "search_source_files"@ != "memory_get"@,
        "search_source_files"@ != "memory_get_long_term"@,
        "search_source_files"@ != "memory_write"@,
        "search_source_files"@ != "memory_append"@,
        "submit_update"@ != "memory_search"@,
        "submit_update"@ != "memory_get"@,
        "submit_update"@ != "memory_get_long_term"@,
        "submit_update"@ != "memory_write"@,
        "submit_update"@ != "memory_append"@,
        "memory_search"@ != "memory_get"@,
        "memory_search"@ != "memory_get_long_term"@,
        "memory_search"@ != "memory_write"@,
        "memory_search"@ != "memory_append"@,
        "memory_get"@ != "memory_get_long_term"@,
        "memory_get"@ != "memory_write"@,
        "memory_get"@ != "memory_append"@,
        "memory_get_long_term"@ != "memory_write"@,
        "memory_get_long_term"@ != "memory_append"@,
        "memory_write"@ != "memory_append"@,
{
    reveal_strlit("read_source_file");
    reveal_strlit("list_source_files");
    reveal_strlit("write_source_file");
    reveal_strlit("search_source_files");
    reveal_strlit("submit_update");
    reveal_strlit("memory_search");
    reveal_strlit("memory_get");
    reveal_strlit("memory_get_long_term");
    reveal_strlit("memory_write");
    reveal_strlit("memory_append");
    assert("read_source_file"@.len() == 16);
    assert("list_source_files"@.len() == 17);
    assert("write_source_file"@.len() == 17);
    assert("search_source_files"@.len() == 19);
    assert("submit_update"@.len() == 13);
    assert("memory_search"@.len() == 13);
    assert("memory_get"@.len() == 10);
    assert("memory_get_long_term"@.len() == 20);
    assert("memory_write"@.len() == 12);
    assert("memory_append"@.len() == 13);
    assert("list_source_files"@[0] == 'l');
    assert("write_source_file"@[0] == 'w');
    assert("submit_update"@[0] == 's');
    assert("memory_search"@[0] == 'm');
    assert("memory_search"@[7] == 's');
    assert("memory_append"@[0] == 'm');
    assert("memory_append"@[7] == 'a');
}

/// What is to be written to the memory, appended to it or looked for in it is
/// what the call gives, and the log that is asked for is that of the given day,
/// or today's where none is given.
pub proof fn law_memory_requests_carry_their_arguments(args: JsonTree, c: Seq<char>)
    ensures
        args.get("content"@) == Some(JsonTree::Text(c)) ==> {
            &&& requested("memory_write"@, args) == (ToolRequest::MemoryWrite { content: c })
            &&& requested("memory_append"@, args) == (ToolRequest::MemoryAppend { content: c })
        },
        args.get("query"@) == Some(JsonTree::Text(c)) ==> requested("memory_search"@, args)
            == (ToolRequest::MemorySearch { query: c }),
        args.get("date"@) == Some(JsonTree::Text(c)) ==> requested("memory_get"@, args)
            == (ToolRequest::MemoryGet { date: c }),
        args.get("date"@) is None ==> requested("memory_get"@, args) == (ToolRequest::MemoryGet {
            date: "today"@,
        }),
        requested("memory_get_long_term"@, args) is MemoryGetLongTerm,
        requested("memory_write"@, args) is MemoryWrite,
        requested("memory_append"@, args) is MemoryAppend,
        requested("memory_search"@, args) is MemorySearch,
        requested("submit_update"@, args) is SubmitUpdate,
{
    lemma_tool_names();
}

/// A file is read or written under the given path, with the given content and
/// in the given lines: a start alone stands for one line, none for the whole
/// file. Without a path, or with an end alone, nothing is done.
pub proof fn law_file_requests_carry_their_arguments(
    args: JsonTree,
    path: Seq<char>,
    content: Seq<char>,
    start: serde_json::Number,
    end: serde_json::Number,
    s: u64,
    e: u64,
)
    requires
        args.get("path"@) == Some(JsonTree::Text(path)),
        args.get("content"@) == Some(JsonTree::Text(content)),
        number_as_u64(start) == Some(s),
        number_as_u64(end) == Some(e),
        s <= usize::MAX,
        e <= usize::MAX,
    ensures
        requested("list_source_files"@, args) == (ToolRequest::ListSource { path }),
        path.len() == 0 ==> requested("read_source_file"@, args) is Refused && requested(
            "write_source_file"@,
            args,
        ) is Refused,
        path.len() > 0 && args.get("start_line"@) is None && args.get("end_line"@) is None ==> {
            &&& requested("read_source_file"@, args) == (ToolRequest::ReadSource { path, range: None })
            &&& requested("write_source_file"@, args) == (ToolRequest::WriteSource {
                path,
                content,
                range: None,
            })
        },
        path.len() > 0 && args.get("start_line"@) == Some(JsonTree::Number(start)) && args.get(
            "end_line"@,
        ) is None ==> {
            &&& requested("read_source_file"@, args) == (ToolRequest::ReadSource {
                path,
                range: Some((s as usize, s as usize)),
            })
            &&& requested("write_source_file"@, args) == (ToolRequest::WriteSource {
                path,
                content,
                range: Some((s as usize, s as usize)),
            })
        },
        path.len() > 0 && args.get("start_line"@) == Some(JsonTree::Number(start)) && args.get(
            "end_line"@,
        ) == Some(JsonTree::Number(end)) ==> {
            &&& requested("read_source_file"@, args) == (ToolRequest::ReadSource {
                path,
                range: Some((s as usize, e as usize)),
            })
            &&& requested("write_source_file"@, args) == (ToolRequest::WriteSource {
                path,
                content,
                range: Some((s as usize, e as usize)),
            })
        },
        args.get("start_line"@) is None && args.get("end_line"@) == Some(JsonTree::Number(end))
            ==> requested("read_source_file"@, args) is Refused && requested(
            "write_source_file"@,
            args,
        ) is Refused,
{
    lemma_tool_names();
}

/// A search looks for the given text under the given path, or everywhere, and
/// shows as many results as it is asked for, within the limits. Nothing is
/// searched for a text that is blank.
pub proof fn law_search_requests_carry_their_arguments(
    args: JsonTree,
    query: Seq<char>,
    path: Seq<char>,
    number: serde_json::Number,
    n: u64,
)
    requires
        args.get("query"@) == Some(JsonTree::Text(query)),
        number_as_u64(number) == Some(n),
        n <= usize::MAX,
    ensures
        trimmed(query).len() == 0 <==> requested("search_source_files"@, args) is Refused,
        trimmed(query).len() > 0 ==> {
            &&& requested("search_source_files"@, args) is SearchSource
            &&& requested("search_source_files"@, args)->SearchSource_query == query
            &&& args.get("path"@) == Some(JsonTree::Text(path)) ==> requested(
                "search_source_files"@,
                args,
            )->SearchSource_path == path
            &&& args.get("path"@) is None ==> requested(
                "search_source_files"@,
                args,
            )->SearchSource_path == "."@
            &&& args.get("max_results"@) is None ==> requested(
                "search_source_files"@,
                args,
            )->SearchSource_max_results == 40
            &&& args.get("max_results"@) == Some(JsonTree::Number(number)) ==> requested(
                "search_source_files"@,
                args,
            )->SearchSource_max_results == (if n == 0 {
                1
            } else if n > 200 {
                200
            } else {
                n as int
            })
        },
{
    lemma_tool_names();
}

/// Arguments that are missing: a listing is of the whole source, and neither is
/// a file read or written nor anything searched.
pub proof fn law_missing_arguments(args: JsonTree)
    ensures
        args.get("path"@) is None ==> {
            &&& requested("list_source_files"@, args) == (ToolRequest::ListSource { path: "."@ })
            &&& requested("read_source_file"@, args) is Refused
            &&& requested("write_source_file"@, args) is Refused
        },
        args.get("query"@) is None ==> requested("search_source_files"@, args) is Refused,
{
    lemma_tool_names();
    crate::split::law_trimming_cuts_white_space(Seq::empty());
}

/// A tool that does not exist is named in the refusal.
pub proof fn law_unknown_tools_are_refused(name: Seq<char>, args: JsonTree)
    requires
        name != "read_source_file"@,
        name != "list_source_files"@,
        name != "write_source_file"@,
        name != "search_source_files"@,
        name != "submit_update"@,
        name != "memory_search"@,
        name != "memory_get"@,
        name != "memory_get_long_term"@,
        name != "memory_write"@,
        name != "memory_append"@,
    ensures
        requested(name, args) == ToolRequest::Refused("Unknown tool: "@ + name),
{
}

/// Arguments are read from their text; where they cannot be, the answer holds
/// the reason and the text.
pub proof fn law_arguments_are_read_from_their_text(name: Seq<char>, arguments: Seq<char>)
    ensures
        json_parse(arguments) is Ok ==> requested_text(name, arguments) == requested(
            name,
            json_parse(arguments)->Ok_0,
        ),
        json_parse(arguments) is Err ==> {
            &&& requested_text(name, arguments) is Refused
            &&& contains_text(
                requested_text(name, arguments)->Refused_0,
                json_parse(arguments)->Err_0,
            )
            &&& contains_text(requested_text(name, arguments)->Refused_0, arguments)
        },
{
    if json_parse(arguments) is Err {
        let r = requested_text(name, arguments)->Refused_0;
        let e = json_parse(arguments)->Err_0;
        let head = "Error: Failed to parse arguments as JSON: "@;
        let tail = ". Raw arguments: "@ + arguments;
        assert(r =~= head + e + tail);
        law_parts_are_found(head, e, tail, r);
        let front = head + e + ". Raw arguments: "@;
        assert(r =~= front + arguments + Seq::<char>::empty());
        law_parts_are_found(front, arguments, Seq::empty(), r);
    }
}

/// The parameters that a tool describes.
pub open spec fn described(t: Tool) -> Option<JsonTree> {
    t.parameters.get("properties"@)
}

/// What a call asks for rests on the parameters that the tool describes, and
/// on no others.
pub proof fn law_tools_read_what_they_describe(i: int, a: JsonTree, b: JsonTree)
    requires
        0 <= i < all_tools().len(),
        forall|k: Seq<char>|
            described(all_tools()[i]) is Some && (#[trigger] described(all_tools()[i])->0.get(k))
                is Some ==> a.get(k) == b.get(k),
    ensures
        requested(all_tools()[i].name, a) == requested(all_tools()[i].name, b),
{
    lemma_tool_names();
    reveal_strlit("type");
    reveal_strlit("properties");
    reveal_strlit("required");
    assert("type"@.len() == 4);
    assert("properties"@.len() == 10);
    assert("required"@.len() == 8);
    let p = described(all_tools()[i])->0;
    let parts = seq![
        "path"@,
        "content"@,
        "start_line"@,
        "end_line"@,
        "query"@,
        "max_results"@,
        "date"@,
    ];
    assert forall|j: int| 0 <= j < parts.len() && p.get(#[trigger] parts[j]) is Some implies a.get(
        parts[j],
    ) == b.get(parts[j]) by {}
    assert(p.get(parts[0]) is Some ==> a.get("path"@) == b.get("path"@));
    assert(p.get(parts[1]) is Some ==> a.get("content"@) == b.get("content"@));
    assert(p.get(parts[2]) is Some ==> a.get("start_line"@) == b.get("start_line"@));
    assert(p.get(parts[3]) is Some ==> a.get("end_line"@) == b.get("end_line"@));
    assert(p.get(parts[4]) is Some ==> a.get("query"@) == b.get("query"@));
    assert(p.get(parts[5]) is Some ==> a.get("max_results"@) == b.get("max_results"@));
    assert(p.get(parts[6]) is Some ==> a.get("date"@) == b.get("date"@));
}

/// Every parameter that a tool requires is one that it describes, as a string.
pub proof fn law_required_parameters_are_described(i: int, j: int)
    requires
        0 <= i < all_tools().len(),
        all_tools()[i].parameters.get_list("required"@) is Some ==> 0 <= j
            < all_tools()[i].parameters.get_list("required"@)->0.len(),
    ensures
        all_tools()[i].type_ == "function"@,
        all_tools()[i].parameters.get_text("type"@) == Some("object"@),
        all_tools()[i].parameters.get_list("required"@) is Some,
        described(all_tools()[i]) is Some,
        match all_tools()[i].parameters.get_list("required"@)->0[j] {
            JsonTree::Text(k) => {
                &&& described(all_tools()[i])->0.get(k) is Some
                &&& described(all_tools()[i])->0.get(k)->0.get_text("type"@) == Some("string"@)
            },
            _ => false,
        },
{
    reveal_strlit("type");
    reveal_strlit("properties");
    reveal_strlit("required");
    assert("type"@.len() == 4);
    assert("properties"@.len() == 10);
    assert("required"@.len() == 8);
    reveal_strlit("path");
    reveal_strlit("content");
    reveal_strlit("start_line");
    reveal_strlit("end_line");
    reveal_strlit("query");
    reveal_strlit("max_results");
    reveal_strlit("date");
    reveal_strlit("description");
    assert("path"@.len() == 4);
    assert("content"@.len() == 7);
    assert("start_line"@.len() == 10);
    assert("end_line"@.len() == 8);
    assert("query"@.len() == 5);
    assert("max_results"@.len() == 11);
    assert("date"@.len() == 4);
    assert("description"@.len() == 11);
    assert("path"@[0] == 'p');
    assert("max_results"@[0] == 'm');
    assert("date"@[0] == 'd');
    assert("description"@[0] == 'd');
}

/// A good outcome is told as it is, a bad one with its reason behind a mark.
pub proof fn law_outcomes_are_told(outcome: Result<String, String>)
    ensures
        outcome is Ok ==> told(outcome) == outcome->Ok_0@,
        outcome is Err ==> told(outcome) == "Error: "@ + outcome->Err_0@,
{
}

/// Requests carry their parts as they are.
pub proof fn law_requests_are_what_they_say(r: ToolRequest<String>)
    ensures
        r is Refused ==> r@ == ToolRequest::Refused(r->Refused_0@),
        r is ReadSource ==> r@ == (ToolRequest::ReadSource {
            path: r->ReadSource_path@,
            range: r->ReadSource_range,
        }),
        r is ListSource ==> r@ == (ToolRequest::ListSource { path: r->ListSource_path@ }),
        r is WriteSource ==> r@ == (ToolRequest::WriteSource {
            path: r->WriteSource_path@,
            content: r->WriteSource_content@,
            range: r->WriteSource_range,
        }),
        r is SearchSource ==> r@ == (ToolRequest::SearchSource {
            query: r->SearchSource_query@,
            path: r->SearchSource_path@,
            max_results: r->SearchSource_max_results,
        }),
        r is SubmitUpdate <==> r@ is SubmitUpdate,
        r is MemorySearch ==> r@ == (ToolRequest::MemorySearch { query: r->MemorySearch_query@ }),
        r is MemoryGet ==> r@ == (ToolRequest::MemoryGet { date: r->MemoryGet_date@ }),
        r is MemoryGetLongTerm <==> r@ is MemoryGetLongTerm,
        r is MemoryWrite ==> r@ == (ToolRequest::MemoryWrite { content: r->MemoryWrite_content@ }),
        r is MemoryAppend ==> r@ == (ToolRequest::MemoryAppend {
            content: r->MemoryAppend_content@,
        }),
{
}

/// The outcomes of tools are shown: lists line by line, an empty memory and a
/// stored entry by what is said of them, and failures with their reasons.
pub proof fn law_outcomes_of_tools_are_shown(
    files: Result<Vec<String>, String>,
    memory: Result<String, String>,
    stored: Result<(), String>,
    today: &str,
    a: ToolResult,
    b: ToolResult,
    c: ToolResult,
    d: ToolResult,
    i: int,
)
    requires
        call_ensures(list_output, (files,), a),
        call_ensures(long_term_output, (memory,), b),
        call_ensures(memory_write_output, (stored,), c),
        call_ensures(memory_append_output, (stored, today), d),
    ensures
        a is Output && b is Output && c is Output && d is Output,
        files is Ok && 0 <= i < files->Ok_0@.len() ==> contains_text(
            a->Output_0@,
            files->Ok_0@[i]@,
        ),
        files is Err ==> a->Output_0@ == "Error: "@ + files->Err_0@,
        memory is Ok && memory->Ok_0@.len() > 0 ==> b->Output_0@ == memory->Ok_0@,
        memory is Err ==> b->Output_0@ == "Error: "@ + memory->Err_0@,
        stored is Err ==> c->Output_0@ == "Error: "@ + stored->Err_0@ && d->Output_0@ == "Error: "@
            + stored->Err_0@,
        stored is Ok ==> contains_text(d->Output_0@, today@),
{
    if files is Ok && 0 <= i < files->Ok_0@.len() {
        law_joined_texts_are_found(texts(files->Ok_0@), "\n"@, i);
    }
    if stored is Ok {
        law_parts_are_found("Appended to today's log ("@, today@, ")."@, d->Output_0@);
    }
}

/// A call without a path is told what is missing.
pub proof fn law_missing_path_is_named()
    ensures
        contains_text(path_missing(), "'path'"@),
        "Error: "@.is_prefix_of(path_missing()),
{
    reveal_strlit("'path'");
    reveal_strlit("Error: ");
    reveal_strlit(
        "Error: 'path' parameter is required but was empty or missing. Please provide a relative file path like 'src/main.rs'.",
    );
    let s = path_missing();
    assert("Error: "@ =~= s.subrange(0, 7));
    assert(s =~= s.take(7) + "'path'"@ + s.skip(13));
    law_parts_are_found(s.take(7), "'path'"@, s.skip(13), s);
}

} // verus!
