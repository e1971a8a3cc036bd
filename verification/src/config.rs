//! The tool's configuration and the configuration of one problem directory.

use vstd::prelude::*;
use vstd::string::*;

verus! {

/// The user's settings.
pub struct OJTConfig {
    /// The template that new code files are generated from.
    pub template_path: Option<String>,
    pub script_path: Option<String>,
    /// Extra compiler options when judging tests.
    pub test_option: Option<String>,
    /// The compiler; `g++` when unset.
    pub cc: Option<String>,
    /// Extra compiler options when running code.
    pub run_option: Option<String>,
    /// The name that `$author$` stands for in templates.
    pub author_name: Option<String>,
}

/// The configuration of one problem directory: its sample tests as pairs
/// of (input file, expected output file) and its code file.
pub struct ProblemConfig {
    pub test_data: Vec<(String, String)>,
    pub code_path: String,
}

/// The code file of a problem directory when nothing else is said.
pub open spec fn default_code_path() -> Seq<char> {
    "code.cpp"@
}

impl ProblemConfig {
    /// A configuration with the given tests and the code file `code.cpp`.
    pub fn new(test_data: Vec<(String, String)>) -> (res: Self)
        ensures
            res.test_data@ == test_data@,
            res.code_path@ == default_code_path(),
    {
        ProblemConfig { test_data, code_path: String::from_str("code.cpp") }
    }

    /// Appends the test with input file `a` and expected output file `b`.
    pub fn add(&mut self, a: String, b: String)
        ensures
            final(self).test_data@ == old(self).test_data@.push((a, b)),
            final(self).code_path == old(self).code_path,
    {
        self.test_data.push((a, b));
    }
}

} // verus!
