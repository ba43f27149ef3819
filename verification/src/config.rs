//! Resolving a raw argument list into a search configuration.

use vstd::prelude::*;

verus! {

/// The output file name used when the argument list does not name one.
pub open spec fn default_output_name() -> Seq<char> {
    "results.txt"@
}

/// The message carried by the error for a too-short argument list.
pub open spec fn usage_message() -> Seq<char> {
    "Not enough arguments. Usage: log_filter <search_query> <file_path> [output_file]"@
}

/// Represents the configuration for the log filter application.
pub struct Config {
    pub search_query: String,
    pub file_path: String,
    pub output_file: String,
    pub ignore_case: bool,
}

impl Config {
    /// Parses command line arguments and returns a Config instance.
    ///
    /// The argument list starts with the program name; the query and the
    /// input path must follow, and an output file name may follow those.
    /// Case-insensitive matching is a fixed policy of this version.
    pub fn new(args: &[String]) -> (result: Result<Config, &'static str>)
        ensures
            result is Ok <==> args@.len() >= 3,
            result matches Ok(config) ==> {
                &&& config.search_query@ == args@[1]@
                &&& config.file_path@ == args@[2]@
                &&& config.output_file@ == (if args@.len() > 3 {
                    args@[3]@
                } else {
                    default_output_name()
                })
                &&& config.ignore_case
            },
            result matches Err(message) ==> message@ == usage_message(),
    {
        if args.len() < 3 {
            return Err(
                "Not enough arguments. Usage: log_filter <search_query> <file_path> [output_file]",
            );
        }
        let search_query = args[1].clone();
        let file_path = args[2].clone();
        let output_file = if args.len() > 3 {
            args[3].clone()
        } else {
            String::from_str("results.txt")
        };
        let ignore_case = true;
        Ok(Config { search_query, file_path, output_file, ignore_case })
    }
}

} // verus!
