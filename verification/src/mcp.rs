//! Errors of the built-in MCP tool servers.

use vstd::prelude::*;

verus! {

/// A refused or failed tool call.
#[derive(Debug)]
pub enum McpError {
    /// The request was malformed (a required argument is missing).
    InvalidRequest(String),
    /// An argument has the wrong shape.
    InvalidArgument(String),
    /// The tool ran and failed, or may not run in the current mode.
    ToolExecutionError(String),
    /// No tool has the requested name.
    ToolNotFound(String),
}

/// `e` is an invalid-request error with `message`.
pub open spec fn is_invalid_request(e: McpError, message: Seq<char>) -> bool {
    e matches McpError::InvalidRequest(m) && m@ == message
}

/// `e` is an invalid-argument error with `message`.
pub open spec fn is_invalid_argument(e: McpError, message: Seq<char>) -> bool {
    e matches McpError::InvalidArgument(m) && m@ == message
}

/// `e` is a tool-execution error with `message`.
pub open spec fn is_execution_error(e: McpError, message: Seq<char>) -> bool {
    e matches McpError::ToolExecutionError(m) && m@ == message
}

/// `e` reports that no tool is called `name`.
pub open spec fn is_tool_not_found(e: McpError, name: Seq<char>) -> bool {
    e matches McpError::ToolNotFound(m) && m@ == name
}

} // verus!
