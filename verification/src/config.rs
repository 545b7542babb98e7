//! The filter configuration: a path matches when its extension is allowed
//! and its base name fits at least one configured format.

use vstd::prelude::*;

use crate::file_source::Predicate;
use crate::paths::{
    extension_spec, extension_of, file_name_spec, file_name, lower_seq,
    eq_lowercase,
};
use crate::pattern::Format;

verus! {

/// A file filter configuration.
///
/// This type describes how to filter files based on their names and
/// extensions.
#[derive(Debug)]
pub struct ConfigFile {
    /// The name of the filter configuration; diagnostic only.
    pub name: Option<String>,
    /// The list of file extensions to match; an empty list matches any
    /// extension.
    pub extensions: Vec<String>,
    /// The list of file name formats to match.
    pub formats: Vec<Format>,
}

impl ConfigFile {
    /// A path passes the extension test when its extension, lowercased, is
    /// one of the configured extensions, or the configured list is empty.
    pub open spec fn has_extension_spec(&self, path: Seq<char>) -> bool {
        if self.extensions@.len() == 0 {
            true
        } else {
            match extension_spec(file_name_spec(path)) {
                Some(ext) => exists|i: int|
                    0 <= i < self.extensions@.len() && lower_seq(ext)
                        == (#[trigger] self.extensions@[i])@,
                None => false,
            }
        }
    }

    /// A path passes the format test when some configured format matches its
    /// base name; a path without a base name passes none.
    pub open spec fn has_format_spec(&self, path: Seq<char>) -> bool {
        exists|i: int|
            0 <= i < self.formats@.len() && (#[trigger] self.formats@[i])
                .matches_spec(path) == Some(true)
    }

    /// A path matches when both tests pass.
    pub open spec fn matches_spec(&self, path: Seq<char>) -> bool {
        self.has_extension_spec(path) && self.has_format_spec(path)
    }

    /// Check if a file name has one of the configured extensions.
    pub fn has_extension(&self, path: &str) -> (r: bool)
        ensures
            r == self.has_extension_spec(path@),
    {
        if self.extensions.len() == 0 {
            return true;
        }
        let ext = match file_name(path) {
            Some(name) => extension_of(name),
            None => {
                assert(extension_spec(file_name_spec(path@)) is None);
                None
            },
        };
        match ext {
            None => false,
            Some(e) => {
                let n = self.extensions.len();
                let mut i: usize = 0;
                while i < n
                    invariant
                        i <= n,
                        n == self.extensions@.len(),
                        extension_spec(file_name_spec(path@)) == Some(e@),
                        forall|k: int|
                            0 <= k < i ==> lower_seq(e@)
                                != (#[trigger] self.extensions@[k])@,
                    decreases n - i,
                {
                    if eq_lowercase(e, self.extensions[i].as_str()) {
                        return true;
                    }
                    i = i + 1;
                }
                false
            },
        }
    }

    /// Check if a file name has one of the configured formats.
    pub fn has_format(&self, path: &str) -> (r: bool)
        ensures
            r == self.has_format_spec(path@),
    {
        let n = self.formats.len();
        let mut i: usize = 0;
        while i < n
            invariant
                i <= n,
                n == self.formats@.len(),
                forall|k: int|
                    0 <= k < i ==> (#[trigger] self.formats@[k]).matches_spec(
                        path@,
                    ) != Some(true),
            decreases n - i,
        {
            if let Some(true) = self.formats[i].matches(path) {
                return true;
            }
            i = i + 1;
        }
        false
    }

    /// Check if a file name matches one of the configured formats and has
    /// one of the configured extensions: the conjunction of the two tests.
    pub fn matches(&self, path: &str) -> (r: bool)
        ensures
            r == self.matches_spec(path@),
            r == (self.has_extension_spec(path@) && self.has_format_spec(path@)),
    {
        self.has_extension(path) && self.has_format(path)
    }

    /// Convert the configuration into a filter predicate.
    ///
    /// Files are filtered based on the configured extensions and formats.
    pub fn into_filter(self) -> (r: Predicate)
        ensures
            r == Predicate::Config(self),
    {
        Predicate::Config(self)
    }
}

/// An error from loading a filter configuration, carried as the failing
/// step's message.
#[derive(Debug)]
pub enum ConfigFileError {
    /// An I/O error occurred while reading the configuration file.
    Io(String),
    /// The configuration document could not be parsed.
    Yaml(String),
}

} // verus!
