//! The tool calls the server answers: which tool a name selects, and the checks and messages
//! of a `search_context` call.
use vstd::prelude::*;

use crate::text::{append_chars, decimal, lit, spec_decimal, string_from_chars, to_chars};

verus! {

/// A tool the server offers.
#[derive(Clone, Copy, Debug, PartialEq, Eq, Structural)]
pub enum ToolKind {
    SearchContext,
    EnhancePrompt,
}

/// The tool a call names, or the error for a name no tool has.
pub fn select_tool(name: &str) -> (r: Result<ToolKind, String>)
    ensures
        name@ == "search_context"@ ==> r == Ok::<ToolKind, String>(ToolKind::SearchContext),
        name@ == "enhance_prompt"@ ==> r == Ok::<ToolKind, String>(ToolKind::EnhancePrompt),
        name@ != "search_context"@ && name@ != "enhance_prompt"@ ==> (r matches Err(e) && e@
            == "Unknown tool: "@ + name@),
{
    proof {
        reveal_strlit("search_context");
        reveal_strlit("enhance_prompt");
        assert("search_context"@[0] != "enhance_prompt"@[0]);
    }
    let n = to_chars(name);
    if crate::text::eq_lit(&n, "search_context") {
        Ok(ToolKind::SearchContext)
    } else if crate::text::eq_lit(&n, "enhance_prompt") {
        Ok(ToolKind::EnhancePrompt)
    } else {
        let mut m = lit("Unknown tool: ");
        append_chars(&mut m, &n);
        Err(string_from_chars(m.as_slice()))
    }
}

/// The answer to a `search_context` call that lacks its query or project root (the query is
/// checked first), or `None` when both are given.
pub fn search_arguments_error(query: &str, project_root_path: &str) -> (r: Option<String>)
    ensures
        query@.len() == 0 ==> (r matches Some(e) && e@ == "Error: query is required"@),
        query@.len() > 0 && project_root_path@.len() == 0 ==> (r matches Some(e) && e@
            == "Error: project_root_path is required."@),
        query@.len() > 0 && project_root_path@.len() > 0 ==> r is None,
{
    if to_chars(query).len() == 0 {
        Some("Error: query is required".to_string())
    } else if to_chars(project_root_path).len() == 0 {
        Some("Error: project_root_path is required.".to_string())
    } else {
        None
    }
}

/// The answer when a search runs out of its time budget.
pub open spec fn spec_search_timeout_text(timeout_sec: u64) -> Seq<char> {
    "Error: search_context timed out after "@ + spec_decimal(timeout_sec as nat)
        + " seconds. Narrow query or reduce project scope and retry."@
}

pub fn search_timeout_text(timeout_sec: u64) -> (r: String)
    ensures
        r@ == spec_search_timeout_text(timeout_sec),
{
    let mut m = lit("Error: search_context timed out after ");
    append_chars(&mut m, &decimal(timeout_sec));
    append_chars(&mut m, &lit(" seconds. Narrow query or reduce project scope and retry."));
    string_from_chars(m.as_slice())
}

} // verus!
