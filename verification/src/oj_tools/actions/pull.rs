//! The files that pulling a problem's sample tests creates.

use vstd::prelude::*;
use vstd::string::*;

use crate::config::{default_code_path, ProblemConfig};
use crate::oj_tools::OJTools;
use crate::text::{decimal, lemma_decimal_injective, push_decimal};

verus! {

/// The name of the input file of the `k`-th sample test (numbered from one).
pub open spec fn input_file_name_spec(k: nat) -> Seq<char> {
    "in"@ + decimal(k) + ".txt"@
}

/// The name of the expected-output file of the `k`-th sample test.
pub open spec fn output_file_name_spec(k: nat) -> Seq<char> {
    "out"@ + decimal(k) + ".txt"@
}

/// The name of the input file of the `k`-th sample test.
pub fn input_file_name(k: u64) -> (s: String)
    ensures
        s@ == input_file_name_spec(k as nat),
{
    let mut s = String::from_str("in");
    push_decimal(&mut s, k);
    s.append(".txt");
    s
}

/// The name of the expected-output file of the `k`-th sample test.
pub fn output_file_name(k: u64) -> (s: String)
    ensures
        s@ == output_file_name_spec(k as nat),
{
    let mut s = String::from_str("out");
    push_decimal(&mut s, k);
    s.append(".txt");
    s
}

/// The text between a fixed prefix and suffix determines the number.
proof fn lemma_framed_decimal_injective(pre: Seq<char>, post: Seq<char>, i: nat, j: nat)
    requires
        pre + decimal(i) + post == pre + decimal(j) + post,
    ensures
        i == j,
{
    let a = pre + decimal(i) + post;
    let b = pre + decimal(j) + post;
    assert(a.len() == b.len());
    assert(decimal(i).len() == decimal(j).len());
    assert(a.subrange(pre.len() as int, (pre.len() + decimal(i).len()) as int) =~= decimal(i));
    assert(b.subrange(pre.len() as int, (pre.len() + decimal(j).len()) as int) =~= decimal(j));
    lemma_decimal_injective(i, j);
}

/// Different sample tests get different file names, so pulling never
/// writes two tests into one file.
pub proof fn lemma_test_file_names_distinct(i: nat, j: nat)
    requires
        i != j,
    ensures
        input_file_name_spec(i) != input_file_name_spec(j),
        output_file_name_spec(i) != output_file_name_spec(j),
        input_file_name_spec(i) != output_file_name_spec(j),
{
    reveal_strlit("in");
    reveal_strlit("out");
    if input_file_name_spec(i) == input_file_name_spec(j) {
        lemma_framed_decimal_injective("in"@, ".txt"@, i, j);
    }
    if output_file_name_spec(i) == output_file_name_spec(j) {
        lemma_framed_decimal_injective("out"@, ".txt"@, i, j);
    }
    assert(input_file_name_spec(i)[1] == 'n');
    assert(output_file_name_spec(j)[1] == 'u');
}

/// The configuration of a directory that holds `count` pulled sample
/// tests: the `i`-th entry (from zero) names `in{i+1}.txt` and
/// `out{i+1}.txt`, and the code file is `code.cpp`.
pub fn pull_problem_config(count: usize) -> (c: ProblemConfig)
    ensures
        c.test_data@.len() == count,
        forall|i: int|
            0 <= i < count ==> (#[trigger] c.test_data@[i]).0@ == input_file_name_spec((i + 1) as nat)
                && c.test_data@[i].1@ == output_file_name_spec((i + 1) as nat),
        c.code_path@ == default_code_path(),
{
    let mut config = ProblemConfig::new(Vec::new());
    let mut i: usize = 0;
    while i < count
        invariant
            i <= count,
            config.test_data@.len() == i,
            forall|j: int|
                0 <= j < i ==> (#[trigger] config.test_data@[j]).0@ == input_file_name_spec(
                    (j + 1) as nat,
                ) && config.test_data@[j].1@ == output_file_name_spec((j + 1) as nat),
            config.code_path@ == default_code_path(),
        decreases count - i,
    {
        let input = input_file_name((i + 1) as u64);
        let output = output_file_name((i + 1) as u64);
        config.add(input, output);
        i = i + 1;
    }
    config
}

/// Where the code file of a pulled problem is generated: `{pid}/code.cpp`.
pub open spec fn code_file_path_spec(pid: Seq<char>) -> Seq<char> {
    pid + "/code.cpp"@
}

/// Where the code file of a pulled problem is generated.
pub fn code_file_path(pid: &str) -> (s: String)
    ensures
        s@ == code_file_path_spec(pid@),
{
    String::from_str(pid).concat("/code.cpp")
}

/// What pulling the samples of a problem asks to be done.
pub enum PullPlan {
    /// The page held no sample tests: report it and stop.
    NoSamples,
    /// Write the samples into the files that `config` names. Then, when
    /// `generate` holds (template path, code file), generate the code file
    /// from the template and save `config`; otherwise report that no
    /// template is configured.
    Write { config: ProblemConfig, generate: Option<(String, String)> },
}

impl OJTools {
    /// What pulling `sample_count` samples of problem `pid` asks to be done.
    pub fn pull_plan(&self, pid: &str, sample_count: usize) -> (res: PullPlan)
        ensures
            res is NoSamples <==> sample_count == 0,
            res matches PullPlan::Write { config, generate } ==> {
                &&& config.test_data@.len() == sample_count
                &&& forall|i: int|
                    0 <= i < sample_count ==> (#[trigger] config.test_data@[i]).0@
                        == input_file_name_spec((i + 1) as nat) && config.test_data@[i].1@
                        == output_file_name_spec((i + 1) as nat)
                &&& config.code_path@ == default_code_path()
                &&& match self.config.template_path {
                    Some(t) => generate matches Some(g) && g.0@ == t@ && g.1@
                        == code_file_path_spec(pid@),
                    None => generate is None,
                }
            },
    {
        if sample_count == 0 {
            return PullPlan::NoSamples;
        }
        let config = pull_problem_config(sample_count);
        let generate = match &self.config.template_path {
            Some(t) => Some((t.clone(), code_file_path(pid))),
            None => None,
        };
        PullPlan::Write { config, generate }
    }
}

} // verus!
