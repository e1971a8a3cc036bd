//! Compiling and running one code file.

use vstd::prelude::*;
use vstd::string::*;

use crate::oj_tools::OJTools;
use crate::path::{file_stem, path_file_stem};

verus! {

/// The command that compiles `fullname` into the executable `stem`.
pub open spec fn compile_command_spec(
    compiler: Seq<char>,
    fullname: Seq<char>,
    stem: Seq<char>,
    option: Seq<char>,
) -> Seq<char> {
    compiler + " "@ + fullname + " -o "@ + stem + " "@ + option
}

/// The command that compiles `fullname` into the executable `stem`.
pub fn compile_command(compiler: &str, fullname: &str, stem: &str, option: &str) -> (s: String)
    ensures
        s@ == compile_command_spec(compiler@, fullname@, stem@, option@),
{
    let mut s = String::from_str(compiler);
    s.append(" ");
    s.append(fullname);
    s.append(" -o ");
    s.append(stem);
    s.append(" ");
    s.append(option);
    s
}

/// The compiler that the configuration names, `g++` when it names none.
pub open spec fn compiler_spec(cc: Option<String>) -> Seq<char> {
    match cc {
        Some(c) => c@,
        None => "g++"@,
    }
}

/// How a code file is compiled and then run.
pub struct CompilePlan {
    /// The shell command that compiles the file.
    pub command: String,
    /// The program to run afterwards: `./` and the file's stem.
    pub executable: String,
}

impl OJTools {
    /// How to compile and run the code file `filepath` with the extra
    /// compiler options `option`; `None` when the path has no file name.
    pub fn compile_plan(&self, filepath: &str, option: &str) -> (res: Option<CompilePlan>)
        ensures
            res is Some <==> path_file_stem(filepath@) is Some,
            res matches Some(p) ==> {
                &&& p.command@ == compile_command_spec(
                    compiler_spec(self.config.cc),
                    filepath@,
                    path_file_stem(filepath@)->0,
                    option@,
                )
                &&& p.executable@ == "./"@ + path_file_stem(filepath@)->0
            },
    {
        let compiler = match &self.config.cc {
            Some(cc) => cc.clone(),
            None => String::from_str("g++"),
        };
        match file_stem(filepath) {
            Some(stem) => {
                let command = compile_command(compiler.as_str(), filepath, stem.as_str(), option);
                let executable = String::from_str("./").concat(stem.as_str());
                Some(CompilePlan { command, executable })
            },
            None => None,
        }
    }
}

} // verus!
