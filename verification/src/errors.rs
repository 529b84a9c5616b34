//! Error types shared across the library.
use vstd::prelude::*;
use crate::text::{decimal, push_decimal, push_str};

verus! {

/// Errors from parsing plans.
#[derive(Debug, Clone)]
pub enum ParseError {
    /// Invalid syntax.
    SyntaxError { line: u32, message: String },
    /// Duplicate identifier.
    DuplicateId { line: u32, id: String },
    /// Missing required field.
    MissingField { line: u32, field: String },
    /// Invalid field value.
    InvalidFieldValue { line: u32, field: String, value: String },
    /// Invalid plan structure.
    InvalidStructure { line: u32, message: String },
}

/// The mathematical value of a `ParseError`.
pub enum ParseErrorView {
    SyntaxError { line: u32, message: Seq<char> },
    DuplicateId { line: u32, id: Seq<char> },
    MissingField { line: u32, field: Seq<char> },
    InvalidFieldValue { line: u32, field: Seq<char>, value: Seq<char> },
    InvalidStructure { line: u32, message: Seq<char> },
}

impl View for ParseError {
    type V = ParseErrorView;

    open spec fn view(&self) -> ParseErrorView {
        match self {
            ParseError::SyntaxError { line, message } => ParseErrorView::SyntaxError {
                line: *line,
                message: message@,
            },
            ParseError::DuplicateId { line, id } => ParseErrorView::DuplicateId {
                line: *line,
                id: id@,
            },
            ParseError::MissingField { line, field } => ParseErrorView::MissingField {
                line: *line,
                field: field@,
            },
            ParseError::InvalidFieldValue { line, field, value } =>
                ParseErrorView::InvalidFieldValue { line: *line, field: field@, value: value@ },
            ParseError::InvalidStructure { line, message } => ParseErrorView::InvalidStructure {
                line: *line,
                message: message@,
            },
        }
    }
}

/// The text of a parse error, as its `Display` form writes it.
pub open spec fn parse_error_text(e: ParseErrorView) -> Seq<char> {
    match e {
        ParseErrorView::SyntaxError { line, message } => "Invalid syntax at line "@ + decimal(
            line as nat,
        ) + ": "@ + message,
        ParseErrorView::DuplicateId { line, id } => "Duplicate identifier at line "@ + decimal(
            line as nat,
        ) + ": "@ + id,
        ParseErrorView::MissingField { line, field } => "Missing required field at line "@
            + decimal(line as nat) + ": "@ + field,
        ParseErrorView::InvalidFieldValue { line, field, value } =>
            "Invalid field value at line "@ + decimal(line as nat) + ": "@ + field + " = "@ + value,
        ParseErrorView::InvalidStructure { line, message } => "Invalid plan structure at line "@
            + decimal(line as nat) + ": "@ + message,
    }
}

impl ParseError {
    /// A syntax error at `line` with `message`.
    pub fn syntax(line: u32, message: String) -> (r: Self)
        ensures
            r@ == (ParseErrorView::SyntaxError { line, message: message@ }),
    {
        ParseError::SyntaxError { line, message }
    }

    /// The text of this error.
    pub fn message(&self) -> (r: String)
        ensures
            r@ == parse_error_text(self@),
    {
        let mut s = String::new();
        match self {
            ParseError::SyntaxError { line, message } => {
                push_str(&mut s, "Invalid syntax at line ");
                push_decimal(&mut s, *line as u64);
                push_str(&mut s, ": ");
                push_str(&mut s, message.as_str());
            },
            ParseError::DuplicateId { line, id } => {
                push_str(&mut s, "Duplicate identifier at line ");
                push_decimal(&mut s, *line as u64);
                push_str(&mut s, ": ");
                push_str(&mut s, id.as_str());
            },
            ParseError::MissingField { line, field } => {
                push_str(&mut s, "Missing required field at line ");
                push_decimal(&mut s, *line as u64);
                push_str(&mut s, ": ");
                push_str(&mut s, field.as_str());
            },
            ParseError::InvalidFieldValue { line, field, value } => {
                push_str(&mut s, "Invalid field value at line ");
                push_decimal(&mut s, *line as u64);
                push_str(&mut s, ": ");
                push_str(&mut s, field.as_str());
                push_str(&mut s, " = ");
                push_str(&mut s, value.as_str());
            },
            ParseError::InvalidStructure { line, message } => {
                push_str(&mut s, "Invalid plan structure at line ");
                push_decimal(&mut s, *line as u64);
                push_str(&mut s, ": ");
                push_str(&mut s, message.as_str());
            },
        }
        assert(s@ =~= parse_error_text(self@));
        s
    }
}

/// Errors from LLM interaction.
#[derive(Debug, Clone)]
pub enum LlmError {
    /// Failed to connect to the LLM API.
    ConnectionError(String),
    /// Failed to parse the LLM response.
    ParseError(String),
    /// The LLM returned an error.
    ApiError(String),
    /// Rate limit exceeded.
    RateLimit,
    /// Invalid API key.
    InvalidApiKey,
}

/// Errors from MCP server interaction.
#[derive(Debug, Clone)]
pub enum McpError {
    /// Failed to connect to the MCP server.
    ConnectionError(String),
    /// Failed to parse the MCP response.
    ParseError(String),
    /// The MCP server returned an error.
    ApiError(String),
    /// Method not found.
    MethodNotFound(String),
    /// Invalid parameters.
    InvalidParams(String),
}

/// Errors from configuration.
#[derive(Debug, Clone)]
pub enum ConfigError {
    /// Failed to load the config file.
    LoadError(String),
    /// Failed to parse the config file.
    ParseError(String),
    /// Invalid config value.
    InvalidValue { key: String, value: String },
    /// Missing required config field.
    MissingField(String),
}

/// Errors from session management.
#[derive(Debug, Clone)]
pub enum SessionError {
    /// Failed to create the session.
    CreateError(String),
    /// Failed to load the session.
    LoadError(String),
    /// Failed to save the session.
    SaveError(String),
    /// Session not found.
    NotFound(String),
    /// Session is invalid.
    Invalid(String),
}

/// Errors from the file guard.
#[derive(Debug, Clone)]
pub enum FileGuardError {
    /// File is already modified.
    AlreadyModified(String),
    /// Failed to lock the file.
    LockError(String),
    /// Failed to unlock the file.
    UnlockError(String),
}

/// Errors that can occur in Telisq.
#[derive(Debug, Clone)]
pub enum TelisqError {
    /// Error from LLM interaction.
    Llm(LlmError),
    /// Error from MCP server interaction.
    Mcp(McpError),
    /// Error from parsing.
    Parse(ParseError),
    /// Error from configuration.
    Config(ConfigError),
    /// Error from session management.
    Session(SessionError),
    /// Error from the file guard.
    FileGuard(FileGuardError),
    /// Error from other sources, by its message.
    Other(String),
}

} // verus!
