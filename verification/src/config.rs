//! The run configuration: a pattern query and a file path, validated when
//! it is built. An invalid pattern is a construction-time error, never a
//! per-line error.

use vstd::prelude::*;
use crate::matcher::{contains_query, contains};
use crate::pattern::{pattern_valid, is_valid_pattern};

verus! {

/// A validated, immutable search configuration.
pub struct Config {
    pub pattern: String,
    pub file_path: String,
}

/// A configuration under construction, with a validated pattern.
pub struct ConfigBuilder {
    pub pattern: String,
    pub file_path: String,
    pub case_insensitive: Option<bool>,
}

impl ConfigBuilder {
    /// When asked for a case-insensitive search, prepends the inline
    /// case-insensitive flag `(?i)` to the pattern, unless the pattern
    /// already contains it.
    pub fn case_insensitive(&mut self, is_case_insensitive: bool)
        ensures
            final(self).file_path == old(self).file_path,
            final(self).case_insensitive == old(self).case_insensitive,
            if is_case_insensitive && !contains_query(old(self).pattern@, "(?i)"@) {
                final(self).pattern@ == "(?i)"@ + old(self).pattern@
            } else {
                final(self).pattern == old(self).pattern
            },
    {
        if is_case_insensitive && !contains(self.pattern.as_str(), "(?i)") {
            let prefixed = "(?i)".to_owned().concat(self.pattern.as_str());
            self.pattern = prefixed;
        }
    }

    /// Builds the immutable configuration from the builder's fields.
    pub fn build(&self) -> (r: Config)
        ensures
            r.pattern == self.pattern,
            r.file_path == self.file_path,
    {
        Config { pattern: self.pattern.clone(), file_path: self.file_path.clone() }
    }
}

impl Config {
    /// Validates the pattern and starts building a configuration: `Ok`
    /// exactly when the pattern compiles as a regular expression, and
    /// otherwise `Err` with a message naming the pattern. Whether the file
    /// path can be read is the caller's check, made when the file is
    /// opened.
    pub fn new(pattern: String, file_path: String) -> (r: Result<ConfigBuilder, String>)
        ensures
            r is Ok <==> pattern_valid(pattern@),
            r matches Ok(b) ==> b.pattern == pattern && b.file_path == file_path
                && b.case_insensitive is None,
            r matches Err(e) ==> e@ == "invalid regex pattern: "@ + pattern@,
    {
        if !is_valid_pattern(pattern.as_str()) {
            let msg = "invalid regex pattern: ".to_owned().concat(pattern.as_str());
            return Err(msg);
        }
        Ok(ConfigBuilder { case_insensitive: None, file_path, pattern })
    }
}

} // verus!
