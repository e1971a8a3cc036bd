//! The commands of the tool and what each one asks to be done.

pub mod actions;
pub mod oj_spider;

use vstd::prelude::*;
use vstd::string::*;

use crate::config::OJTConfig;
use crate::oj_tools::actions::test::{test_compile_script, test_compile_script_spec};

verus! {

/// A command given on the command line.
pub enum Action {
    /// Judge the solution of the problem in the current directory.
    Test,
    /// Compile and run a code file (empty: the problem's code file).
    Run { filename: String },
    /// Generate a code file from the template.
    Gen { filename: String },
    /// Pull the sample tests of a problem.
    Pull { pid: String },
    /// Reserved for configuring the tool; asks for nothing to be done.
    Config,
    /// Copy a code file to the clipboard (empty: the problem's code file).
    Copy { filename: String },
}

/// The parsed command line.
pub struct HelperCli {
    pub action: Action,
    /// A configuration file other than the default one.
    pub config_file: Option<String>,
}

/// The tool: the command line and the user's settings.
pub struct OJTools {
    pub args: HelperCli,
    pub config: OJTConfig,
}

/// The text of an optional setting, empty when it is unset.
pub open spec fn opt_text(o: Option<String>) -> Seq<char> {
    match o {
        Some(s) => s@,
        None => Seq::empty(),
    }
}

/// The text of an optional setting, empty when it is unset.
pub fn opt_string(o: &Option<String>) -> (s: String)
    ensures
        s@ == opt_text(*o),
{
    match o {
        Some(s) => s.clone(),
        None => String::new(),
    }
}

/// What `str::to_uppercase` returns for `s`.
pub uninterp spec fn str_to_uppercase(s: Seq<char>) -> Seq<char>;

/// An ASCII character.
pub open spec fn is_ascii_char(c: char) -> bool {
    (c as u32) < 128
}

/// The upper case of an ASCII character: `a`..`z` become `A`..`Z`, every
/// other character stays.
pub open spec fn ascii_upper(c: char) -> char {
    if 'a' <= c && c <= 'z' {
        ((c as u32) - 32) as char
    } else {
        c
    }
}

/// `s` in upper case (`str::to_uppercase`). Claimed: the result is the one
/// named by `str_to_uppercase`; on an all-ASCII text it is the text with
/// each lower-case letter `a`..`z` upper-cased, character by character (the
/// Unicode upper case of an ASCII character is its ASCII upper case, and
/// `to_uppercase` maps each character on its own).
#[verifier::external_body]
fn to_uppercase(s: &str) -> (res: String)
    ensures
        res@ == str_to_uppercase(s@),
        (forall|i: int| 0 <= i < s@.len() ==> is_ascii_char(#[trigger] s@[i])) ==> res@.len()
            == s@.len(),
        (forall|i: int| 0 <= i < s@.len() ==> is_ascii_char(#[trigger] s@[i])) ==> forall|i: int|
            0 <= i < s@.len() ==> #[trigger] res@[i] == ascii_upper(s@[i]),
{
    s.to_uppercase()
}

/// What a command asks to be done.
#[allow(inconsistent_fields)]
pub enum Step {
    /// Compile the solution with `script`, then judge every sample test.
    Test { script: String },
    /// Compile and run `filename` (`None`: the problem's code file) with the
    /// extra compiler options `option`.
    Run { filename: Option<String>, option: String },
    /// Generate `filename` from the template at `template_path`.
    Gen { template_path: String, filename: String },
    /// Generating was asked for, but no template is configured.
    MissingTemplate,
    /// Pull the sample tests of problem `pid`.
    Pull { pid: String },
    /// Nothing to do.
    Config,
    /// Copy `filename` (`None`: the problem's code file) to the clipboard.
    Copy { filename: Option<String> },
}

/// `name` as a file choice: `None` when it is empty.
pub open spec fn file_choice(name: Seq<char>, chosen: Option<String>) -> bool {
    if name.len() == 0 {
        chosen is None
    } else {
        chosen matches Some(f) && f@ == name
    }
}

/// The step that `action` asks for under `config`.
pub open spec fn plan_spec(action: Action, config: OJTConfig, step: Step) -> bool {
    match action {
        Action::Test => step matches Step::Test { script } && script@ == test_compile_script_spec(
            opt_text(config.test_option),
        ),
        Action::Run { filename } => step matches Step::Run { filename: f, option }
            && file_choice(filename@, f) && option@ == opt_text(config.run_option),
        Action::Gen { filename } => match config.template_path {
            Some(t) => step matches Step::Gen { template_path, filename: f } && template_path@
                == t@ && f@ == filename@,
            None => step is MissingTemplate,
        },
        Action::Pull { pid } => step matches Step::Pull { pid: p } && p@ == str_to_uppercase(pid@),
        Action::Config => step is Config,
        Action::Copy { filename } => step matches Step::Copy { filename: f } && file_choice(
            filename@,
            f,
        ),
    }
}

/// `name` as a file choice: `None` when it is empty.
fn choose_file(name: &String) -> (res: Option<String>)
    ensures
        file_choice(name@, res),
{
    if name.as_str().is_empty() {
        None
    } else {
        Some(name.clone())
    }
}

/// Copying with an empty file name copies the problem's code file (no file
/// is chosen); with a name, exactly that file.
pub proof fn lemma_copy_chooses_named_file(filename: String, config: OJTConfig, step: Step)
    requires
        plan_spec(Action::Copy { filename }, config, step),
    ensures
        step matches Step::Copy { filename: f } && (f is None <==> filename@.len() == 0) && (
        f matches Some(g) ==> g@ == filename@),
{
}

/// Running with an empty file name runs the problem's code file; with a
/// name, exactly that file. The compiler options are the configured run
/// options (empty when unset), whichever file is run: two runs under the
/// same settings get the same options.
pub proof fn lemma_run_options_are_configured(
    f1: String,
    f2: String,
    config: OJTConfig,
    s1: Step,
    s2: Step,
)
    requires
        plan_spec(Action::Run { filename: f1 }, config, s1),
        plan_spec(Action::Run { filename: f2 }, config, s2),
    ensures
        s1 matches Step::Run { filename: c1, option: o1 } && (c1 is None <==> f1@.len() == 0) && (
        c1 matches Some(g) ==> g@ == f1@) && o1@ == (match config.run_option {
            Some(o) => o@,
            None => Seq::<char>::empty(),
        }),
        s1 matches Step::Run { option: o1, .. } && s2 matches Step::Run { option: o2, .. } && o1@
            == o2@,
{
}

impl OJTools {
    /// The tool for the given command line and settings.
    pub fn new(args: HelperCli, config: OJTConfig) -> (res: Self)
        ensures
            res.args == args,
            res.config == config,
    {
        OJTools { args, config }
    }

    /// What the command asks to be done (see `plan_spec`). Pulling an
    /// ASCII problem id pulls the whole id upper-cased: same length, each
    /// character upper-cased in place, no lower-case letter left.
    pub fn plan(&self) -> (step: Step)
        ensures
            plan_spec(self.args.action, self.config, step),
            self.args.action matches Action::Pull { pid } ==> ((forall|i: int|
                0 <= i < pid@.len() ==> is_ascii_char(#[trigger] pid@[i])) ==> {
                &&& step matches Step::Pull { pid: p }
                &&& p@.len() == pid@.len()
                &&& forall|i: int| 0 <= i < pid@.len() ==> #[trigger] p@[i] == ascii_upper(pid@[i])
                &&& forall|i: int| 0 <= i < p@.len() ==> !('a' <= #[trigger] p@[i] && p@[i] <= 'z')
            }),
    {
        match &self.args.action {
            Action::Test => {
                let option = opt_string(&self.config.test_option);
                Step::Test { script: test_compile_script(option.as_str()) }
            },
            Action::Run { filename } => Step::Run {
                filename: choose_file(filename),
                option: opt_string(&self.config.run_option),
            },
            Action::Gen { filename } => match &self.config.template_path {
                Some(t) => Step::Gen { template_path: t.clone(), filename: filename.clone() },
                None => Step::MissingTemplate,
            },
            Action::Pull { pid } => {
                let p = to_uppercase(pid.as_str());
                proof {
                    if forall|i: int| 0 <= i < pid@.len() ==> is_ascii_char(#[trigger] pid@[i]) {
                        assert forall|i: int| 0 <= i < p@.len() implies !('a' <= #[trigger] p@[i]
                            && p@[i] <= 'z') by {
                            assert(p@[i] == ascii_upper(pid@[i]));
                        }
                    }
                }
                Step::Pull { pid: p }
            },
            Action::Config => Step::Config,
            Action::Copy { filename } => Step::Copy { filename: choose_file(filename) },
        }
    }
}

} // verus!
