//! Judging a compiled solution against the sample tests.

use vstd::prelude::*;
use vstd::string::*;

use crate::text::{chars_of, decimal, lemma_trim_idempotent, push_decimal, trim, trim_chars};

verus! {

/// How many times a running test is polled before it is given up as too slow.
pub const POLL_LIMIT: u32 = 50000;

/// The outcome of one test, or of compiling the solution.
#[derive(Debug, PartialEq, Eq, Structural, Clone, Copy)]
pub enum Verdict {
    /// The trimmed output equals the trimmed expected output.
    Accepted,
    /// The trimmed output differs from the trimmed expected output.
    WrongAnswer,
    /// The program exited unsuccessfully.
    RuntimeError,
    /// The program was still running after the poll limit.
    TimeLimitExceeded,
    /// The solution did not compile.
    CompileError,
}

/// The short name under which a verdict is shown.
pub open spec fn verdict_name_spec(v: Verdict) -> Seq<char> {
    match v {
        Verdict::Accepted => "AC"@,
        Verdict::WrongAnswer => "WA"@,
        Verdict::RuntimeError => "RE"@,
        Verdict::TimeLimitExceeded => "TLE"@,
        Verdict::CompileError => "CE"@,
    }
}

impl Verdict {
    /// The short name under which the verdict is shown.
    pub fn name(&self) -> (s: String)
        ensures
            s@ == verdict_name_spec(*self),
    {
        match self {
            Verdict::Accepted => String::from_str("AC"),
            Verdict::WrongAnswer => String::from_str("WA"),
            Verdict::RuntimeError => String::from_str("RE"),
            Verdict::TimeLimitExceeded => String::from_str("TLE"),
            Verdict::CompileError => String::from_str("CE"),
        }
    }
}

/// The verdict on a finished run: a run error when the program failed,
/// otherwise whether its output and the answer agree up to surrounding
/// whitespace.
pub open spec fn judge_spec(success: bool, output: Seq<char>, answer: Seq<char>) -> Verdict {
    if !success {
        Verdict::RuntimeError
    } else if trim(output) == trim(answer) {
        Verdict::Accepted
    } else {
        Verdict::WrongAnswer
    }
}

/// Judges a finished run (see `judge_spec`).
pub fn judge_output(success: bool, output: &str, answer: &str) -> (v: Verdict)
    ensures
        v == judge_spec(success, output@, answer@),
{
    if !success {
        return Verdict::RuntimeError;
    }
    let out = trim_chars(&chars_of(output));
    let ans = trim_chars(&chars_of(answer));
    if out.len() != ans.len() {
        return Verdict::WrongAnswer;
    }
    let mut k: usize = 0;
    while k < out.len()
        invariant
            success,
            out@ == trim(output@),
            ans@ == trim(answer@),
            out@.len() == ans@.len(),
            k <= out@.len(),
            forall|m: int| 0 <= m < k ==> out@[m] == ans@[m],
        decreases out.len() - k,
    {
        if out[k] != ans[k] {
            assert(out@[k as int] != ans@[k as int]);
            assert(out@ != ans@);
            return Verdict::WrongAnswer;
        }
        k = k + 1;
    }
    assert(out@ =~= ans@);
    Verdict::Accepted
}

/// Judging looks past whitespace around the output and the answer.
pub proof fn lemma_judge_ignores_surrounding_whitespace(
    success: bool,
    output: Seq<char>,
    answer: Seq<char>,
)
    ensures
        judge_spec(success, output, answer) == judge_spec(success, trim(output), trim(answer)),
{
    lemma_trim_idempotent(output);
    lemma_trim_idempotent(answer);
}

/// A successful run is accepted exactly when its trimmed output equals the
/// trimmed answer character for character; a failed run is a run error, and
/// any other successful run a wrong answer.
pub proof fn lemma_judge_accepts_exactly_matching_output(
    success: bool,
    output: Seq<char>,
    answer: Seq<char>,
)
    ensures
        !success ==> judge_spec(success, output, answer) == Verdict::RuntimeError,
        judge_spec(success, output, answer) == Verdict::Accepted ==> {
            &&& success
            &&& trim(output).len() == trim(answer).len()
            &&& forall|k: int| 0 <= k < trim(output).len() ==> trim(output)[k] == trim(answer)[k]
        },
        success && trim(output).len() == trim(answer).len() && (forall|k: int|
            0 <= k < trim(output).len() ==> trim(output)[k] == trim(answer)[k]) ==> judge_spec(
            success,
            output,
            answer,
        ) == Verdict::Accepted,
        success && judge_spec(success, output, answer) != Verdict::Accepted ==> judge_spec(
            success,
            output,
            answer,
        ) == Verdict::WrongAnswer,
{
    if success && trim(output).len() == trim(answer).len() && (forall|k: int|
        0 <= k < trim(output).len() ==> trim(output)[k] == trim(answer)[k]) {
        assert(trim(output) =~= trim(answer));
    }
}

/// Output and answer play the same part: swapping them keeps the verdict,
/// and an output judged against itself is accepted.
pub proof fn lemma_judge_symmetric(output: Seq<char>, answer: Seq<char>)
    ensures
        judge_spec(true, output, answer) == judge_spec(true, answer, output),
        judge_spec(true, output, output) == Verdict::Accepted,
{
}

/// The verdict that compiling the solution gives on its own: none when
/// the compiler exited with 0, so the tests run, otherwise a compile error.
pub fn compile_verdict(code: i32) -> (res: Option<Verdict>)
    ensures
        res is None <==> code == 0,
        res matches Some(v) ==> v == Verdict::CompileError,
{
    if code == 0 {
        None
    } else {
        Some(Verdict::CompileError)
    }
}

/// What to do after polling a test that has not finished yet.
pub enum PollOutcome {
    /// Poll again, with the new count and the largest memory use seen.
    Continue { count: u32, memory_max: u64 },
    /// Give the test up as too slow.
    TimeLimitExceeded,
}

/// One poll of a test that has not finished: past the poll limit it is too
/// slow; otherwise the count goes up by one and the memory peak takes in
/// the new sample, if one was taken.
pub fn poll_pending(count: u32, memory_max: u64, sample: Option<u64>) -> (res: PollOutcome)
    ensures
        count > POLL_LIMIT ==> res is TimeLimitExceeded,
        count <= POLL_LIMIT ==> res == (PollOutcome::Continue {
            count: (count + 1) as u32,
            memory_max: match sample {
                Some(m) => if m > memory_max { m } else { memory_max },
                None => memory_max,
            },
        }),
{
    if count > POLL_LIMIT {
        return PollOutcome::TimeLimitExceeded;
    }
    let peak = match sample {
        Some(m) => if m > memory_max { m } else { memory_max },
        None => memory_max,
    };
    PollOutcome::Continue { count: count + 1, memory_max: peak }
}

/// The shell script that compiles the solution before its tests run.
pub open spec fn test_compile_script_spec(option: Seq<char>) -> Seq<char> {
    "g++ code.cpp -o code "@ + option
}

/// The shell script that compiles the solution before its tests run.
pub fn test_compile_script(option: &str) -> (s: String)
    ensures
        s@ == test_compile_script_spec(option@),
{
    String::from_str("g++ code.cpp -o code ").concat(option)
}

/// The label printed before the verdict of the test at `index` (numbered
/// from one).
pub open spec fn test_label_spec(index: nat) -> Seq<char> {
    "Test #"@ + decimal(index + 1) + " ==> "@
}

/// The label printed before the verdict of the test at `index`.
pub fn test_label(index: usize) -> (s: String)
    requires
        index < usize::MAX,
    ensures
        s@ == test_label_spec(index as nat),
{
    let mut s = String::from_str("Test #");
    push_decimal(&mut s, (index + 1) as u64);
    s.append(" ==> ");
    s
}

} // verus!
