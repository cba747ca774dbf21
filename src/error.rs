use vstd::prelude::*;

verus! {

#[verifier::external_type_specification]
#[verifier::external_body]
pub struct ExIoError(std::io::Error);

/// The ways a search request can fail.
#[derive(Debug)]
pub enum AppError {
    /// The underlying filesystem or process I/O failed (the engine could not be started).
    IoError(std::io::Error),
    /// The search engine reported an error or produced output that is not text.
    RipgrepError(String),
    /// The requested path resolves outside the root directory.
    PathTraversal(String),
    /// The requested path does not resolve at all.
    InvalidPath(String),
    /// The root directory itself cannot be resolved.
    ConfigError(String),
    /// The protocol runtime failed.
    MCPError(String),
}

/// The message shown for an error that carries a text: its label, then the text.
pub open spec fn labelled(label: Seq<char>, text: Seq<char>) -> Seq<char> {
    label + text
}

/// The message of an error other than an I/O failure.
pub open spec fn message_of(e: AppError) -> Seq<char> {
    match e {
        AppError::IoError(_) => "I/O error: "@,
        AppError::RipgrepError(s) => labelled("Ripgrep error: "@, s@),
        AppError::PathTraversal(s) => labelled("Path traversal attempt: "@, s@),
        AppError::InvalidPath(s) => labelled("Invalid path: "@, s@),
        AppError::ConfigError(s) => labelled("Configuration error: "@, s@),
        AppError::MCPError(s) => labelled("MCP error: "@, s@),
    }
}

impl AppError {
    /// The human-readable message of this error.
    pub fn message(&self) -> (r: String)
        ensures
            self matches AppError::RipgrepError(s) ==> r@ == labelled("Ripgrep error: "@, s@),
            self matches AppError::PathTraversal(s) ==> r@ == labelled(
                "Path traversal attempt: "@,
                s@,
            ),
            self matches AppError::InvalidPath(s) ==> r@ == labelled("Invalid path: "@, s@),
            self matches AppError::ConfigError(s) ==> r@ == labelled("Configuration error: "@, s@),
            self matches AppError::MCPError(s) ==> r@ == labelled("MCP error: "@, s@),
            !(self is IoError) ==> r@ == message_of(*self),
    {
        match self {
            AppError::IoError(e) => {
                let text = e.to_string();
                String::from_str("I/O error: ").concat(text.as_str())
            },
            AppError::RipgrepError(s) => String::from_str("Ripgrep error: ").concat(s.as_str()),
            AppError::PathTraversal(s) => String::from_str("Path traversal attempt: ").concat(
                s.as_str(),
            ),
            AppError::InvalidPath(s) => String::from_str("Invalid path: ").concat(s.as_str()),
            AppError::ConfigError(s) => String::from_str("Configuration error: ").concat(
                s.as_str(),
            ),
            AppError::MCPError(s) => String::from_str("MCP error: ").concat(s.as_str()),
        }
    }
}

} // verus!
