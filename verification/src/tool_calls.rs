//! The answer to a `tools/call` request: the tool's value, or its failure shown as an error.
use crate::json::{field, member, text_of, Json};
use crate::mcp::keys_of;
use crate::mcp_tools::{tool_name, tool_of, unknown_tool_error, McpTool};
use vstd::prelude::*;

verus! {

/// What `tools/call` answers: a JSON value shown to the client as text, and whether it
/// reports a failure (`isError`).
pub struct CallToolResult {
    pub content: Json,
    pub is_error: bool,
}

/// `j` is the object `{"error": message}`.
pub open spec fn error_object(j: Json, message: Seq<char>) -> bool {
    keys_of(j) == seq!["error"@] && text_of(field(j, "error"@)) == Some(message)
}

/// The answer to a call of the tool `name` that ended with `outcome`: a tool's value is shown
/// as it is; a failure is shown as `{"error": message}` and marked as an error; a name that is
/// no tool is such a failure with the message "unknown tool: " and the name, whatever the
/// outcome.
pub fn tool_call_result(name: &str, outcome: Result<Json, String>) -> (r: CallToolResult)
    ensures
        (forall|t: McpTool| tool_name(t) != name@) ==> r.is_error && error_object(r.content, "unknown tool: "@ + name@),
        (exists|t: McpTool| tool_name(t) == name@) ==> match outcome {
            Ok(v) => !r.is_error && r.content == v,
            Err(m) => r.is_error && error_object(r.content, m@),
        },
{
    let message = match tool_of(name) {
        None => unknown_tool_error(name).message,
        Some(_) => match outcome {
            Ok(v) => {
                return CallToolResult { content: v, is_error: false };
            },
            Err(m) => m,
        },
    };
    let ghost text = message@;
    let mut members: Vec<(String, Json)> = Vec::new();
    members.push(("error".to_owned(), Json::Str(message)));
    proof {
        reveal_strlit("error");
        assert(members@.map_values(|m: (String, Json)| m.0@) =~= seq!["error"@]);
        assert(member(members@, "error"@) == Some(members@[0].1));
    }
    CallToolResult { content: Json::Object(members), is_error: true }
}

} // verus!
