//! The search configuration: an immutable bundle of query, file path and
//! match mode, built once per invocation from the positional arguments and an
//! environment toggle, plus the error taxonomies of configuration building
//! and of the surrounding file read.

use vstd::prelude::*;

verus! {

/// Why a configuration could not be built from the arguments.
#[derive(Clone, Copy, Debug, PartialEq, Eq, Structural)]
pub enum ConfigError {
    /// No query argument was given.
    MissingQuery,
    /// A query was given but no file path followed it.
    MissingFilePath,
}

impl ConfigError {
    /// The diagnostic text of this error.
    pub open spec fn spec_message(self) -> Seq<char> {
        match self {
            ConfigError::MissingQuery => "Didn't get a query string"@,
            ConfigError::MissingFilePath => "Didn't get a file path"@,
        }
    }

    /// A static, descriptive message for this error.
    pub fn message(&self) -> (r: &'static str)
        ensures
            r@ == self.spec_message(),
    {
        match self {
            ConfigError::MissingQuery => "Didn't get a query string",
            ConfigError::MissingFilePath => "Didn't get a file path",
        }
    }
}

/// Why the configured file could not be read as text. The read itself happens
/// outside this library; its caller classifies the failure into one of these.
#[derive(Clone, Copy, Debug, PartialEq, Eq, Structural)]
pub enum IOError {
    /// The file does not exist.
    NotFound,
    /// The file exists but could not be read.
    NotReadable,
    /// The file was read but is not valid text.
    DecodeFailure,
}

impl IOError {
    /// The diagnostic text of this error.
    pub open spec fn spec_message(self) -> Seq<char> {
        match self {
            IOError::NotFound => "file not found"@,
            IOError::NotReadable => "file could not be read"@,
            IOError::DecodeFailure => "file is not valid text"@,
        }
    }

    /// A static, descriptive message for this error.
    pub fn message(&self) -> (r: &'static str)
        ensures
            r@ == self.spec_message(),
    {
        match self {
            IOError::NotFound => "file not found",
            IOError::NotReadable => "file could not be read",
            IOError::DecodeFailure => "file is not valid text",
        }
    }
}

/// One search invocation's parameters, immutable once built.
pub struct Config {
    /// The substring to search for; an empty query matches every line.
    pub query: String,
    /// The path of the file whose contents are searched.
    pub file_path: String,
    /// Whether to match case-insensitively.
    pub ignore_case: bool,
}

impl Config {
    /// Builds a configuration from the positional arguments (the element at
    /// index 0 is the program name and is skipped) and the environment
    /// toggle. The query must be at the second position and the file path at
    /// the third; each absence is its own error. Case is ignored when the
    /// environment toggle is set or when any extra argument follows the file
    /// path.
    pub fn build(args: &Vec<String>, env_ignore_case: bool) -> (r: Result<Config, ConfigError>)
        ensures
            args@.len() < 2 ==> r == Result::<Config, ConfigError>::Err(ConfigError::MissingQuery),
            args@.len() == 2 ==> r == Result::<Config, ConfigError>::Err(
                ConfigError::MissingFilePath,
            ),
            args@.len() >= 3 ==> match r {
                Result::Ok(config) => {
                    &&& config.query@ == args@[1]@
                    &&& config.file_path@ == args@[2]@
                    &&& config.ignore_case == (env_ignore_case || args@.len() >= 4)
                },
                Result::Err(_) => false,
            },
    {
        if args.len() < 2 {
            return Result::Err(ConfigError::MissingQuery);
        }
        if args.len() < 3 {
            return Result::Err(ConfigError::MissingFilePath);
        }
        let query: String = args[1].clone();
        let file_path: String = args[2].clone();
        let ignore_case: bool = env_ignore_case || args.len() >= 4;
        Result::Ok(Config { query, file_path, ignore_case })
    }
}

} // verus!
