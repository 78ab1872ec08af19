//! Errors of a render pass.

use vstd::prelude::*;
use crate::text::{push_str, string_of};

verus! {

/// Errors that can occur during the build process.
#[derive(Debug, Clone)]
pub enum BuildError {
    /// Invalid frontmatter in a chapter file
    InvalidFrontmatter {
        /// Path of the chapter's source
        path: String,
        /// What the decoder of the metadata block reported
        source: String,
    },
    /// Template rendering error
    TemplateError {
        /// Name of the template that failed
        template: String,
        /// What the renderer reported
        source: String,
    },
    /// Configuration error
    ConfigError(String),
    /// I/O error
    IoError(String),
    /// JSON parsing error
    JsonError(String),
}

impl BuildError {
    /// The exit code that stands for this kind of error: 1 for content and
    /// template errors, 2 for configuration errors, 3 for I/O errors.
    pub open spec fn spec_exit_code(&self) -> int {
        match self {
            BuildError::InvalidFrontmatter { .. } => 1,
            BuildError::TemplateError { .. } => 1,
            BuildError::ConfigError(_) => 2,
            BuildError::IoError(_) => 3,
            BuildError::JsonError(_) => 1,
        }
    }

    /// Get the exit code for this error type.
    pub fn exit_code(&self) -> (r: i32)
        ensures
            r == self.spec_exit_code(),
    {
        match self {
            BuildError::InvalidFrontmatter { .. } => 1,
            BuildError::TemplateError { .. } => 1,
            BuildError::ConfigError(_) => 2,
            BuildError::IoError(_) => 3,
            BuildError::JsonError(_) => 1,
        }
    }

    /// The message that describes this error.
    pub open spec fn message(&self) -> Seq<char> {
        match self {
            BuildError::InvalidFrontmatter { path, source } => "Invalid frontmatter in "@ + path@
                + ": "@ + source@,
            BuildError::TemplateError { template, source } => "Template error in "@ + template@
                + ": "@ + source@,
            BuildError::ConfigError(text) => "Configuration error: "@ + text@,
            BuildError::IoError(text) => "I/O error: "@ + text@,
            BuildError::JsonError(text) => "JSON error: "@ + text@,
        }
    }

    /// The message that describes this error.
    pub fn to_string(&self) -> (r: String)
        ensures
            r@ == self.message(),
    {
        let mut text: Vec<char> = Vec::new();
        match self {
            BuildError::InvalidFrontmatter { path, source } => {
                push_str(&mut text, "Invalid frontmatter in ");
                push_str(&mut text, path.as_str());
                push_str(&mut text, ": ");
                push_str(&mut text, source.as_str());
            },
            BuildError::TemplateError { template, source } => {
                push_str(&mut text, "Template error in ");
                push_str(&mut text, template.as_str());
                push_str(&mut text, ": ");
                push_str(&mut text, source.as_str());
            },
            BuildError::ConfigError(detail) => {
                push_str(&mut text, "Configuration error: ");
                push_str(&mut text, detail.as_str());
            },
            BuildError::IoError(detail) => {
                push_str(&mut text, "I/O error: ");
                push_str(&mut text, detail.as_str());
            },
            BuildError::JsonError(detail) => {
                push_str(&mut text, "JSON error: ");
                push_str(&mut text, detail.as_str());
            },
        }
        string_of(&text)
    }
}

} // verus!
