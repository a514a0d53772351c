//! The settings of one run, and where its text comes from.

use vstd::prelude::*;
use crate::matcher::{search, search_case_insensitive, search_ci_spec, search_spec, views_of};
use crate::text::same_text;

verus! {

/// A positional argument of the command line.
#[derive(Clone, Copy, Debug, PartialEq, Eq, Structural)]
pub enum Argument {
    Query,
    FilePath,
}

impl Argument {
    /// How a message names the argument.
    pub fn name(&self) -> (r: &'static str)
        ensures
            *self == Argument::Query ==> r@ == "query string"@,
            *self == Argument::FilePath ==> r@ == "file path"@,
    {
        match self {
            Argument::Query => "query string",
            Argument::FilePath => "file path",
        }
    }
}

/// Why the settings of a run could not be built.
#[derive(Clone, Copy, Debug, PartialEq, Eq, Structural)]
pub enum ConfigError {
    /// The command line ended before this argument.
    MissingArgument(Argument),
}

/// The settings of one run.
pub struct Config {
    /// The text searched for, or the name of a command to run.
    pub query: String,
    /// The file to search in, or, for a command, the text searched for in
    /// its output.
    pub file_path: String,
    /// Whether the file search compares lowercased text.
    pub ignore_case: bool,
}

/// `name` is one of the commands whose output can be searched.
pub open spec fn is_command_name(name: Seq<char>) -> bool {
    name == "ls"@ || name == "pwd"@
}

impl Config {
    /// Builds the settings from the command line `args`, whose first element
    /// is the program's name, and from whether case is to be ignored.
    pub fn build(args: &Vec<String>, ignore_case: bool) -> (r: Result<Config, ConfigError>)
        ensures
            args@.len() < 2 <==> r == Err::<Config, ConfigError>(
                ConfigError::MissingArgument(Argument::Query),
            ),
            args@.len() == 2 <==> r == Err::<Config, ConfigError>(
                ConfigError::MissingArgument(Argument::FilePath),
            ),
            args@.len() > 2 <==> r is Ok,
            r matches Ok(c) ==> {
                &&& c.query@ == args@[1]@
                &&& c.file_path@ == args@[2]@
                &&& c.ignore_case == ignore_case
            },
    {
        if args.len() < 2 {
            return Err(ConfigError::MissingArgument(Argument::Query));
        }
        if args.len() < 3 {
            return Err(ConfigError::MissingArgument(Argument::FilePath));
        }
        let query = args[1].clone();
        let file_path = args[2].clone();
        Ok(Config { query, file_path, ignore_case })
    }
}

/// Whether `name` is one of the commands whose output can be searched.
pub fn is_listed_command(name: &str) -> (r: bool)
    ensures
        r == is_command_name(name@),
{
    same_text(name, "ls") || same_text(name, "pwd")
}

/// The lines of a file's `contents` that contain the query, lowercased or not
/// as the settings say.
pub fn search_contents<'a>(config: &Config, contents: &'a str) -> (r: Vec<&'a str>)
    ensures
        config.ignore_case ==> views_of(r@) == search_ci_spec(config.query@, contents@),
        !config.ignore_case ==> views_of(r@) == search_spec(config.query@, contents@),
{
    if config.ignore_case {
        search_case_insensitive(config.query.as_str(), contents)
    } else {
        search(config.query.as_str(), contents)
    }
}

/// The lines of a command's `output` that contain the second argument of
/// the settings, compared exactly whatever the settings say of case.
pub fn search_command_output<'a>(config: &Config, output: &'a str) -> (r: Vec<&'a str>)
    ensures
        views_of(r@) == search_spec(config.file_path@, output@),
{
    search(config.file_path.as_str(), output)
}

} // verus!
