use chrono::Datelike;
use oj_tools::config::{OJTConfig, ProblemConfig};
use oj_tools::oj_tools::actions::gen::with_default_extension;
use oj_tools::oj_tools::actions::pull::{
    code_file_path, input_file_name, output_file_name, pull_problem_config, PullPlan,
};
use oj_tools::oj_tools::actions::run::compile_command;
use oj_tools::oj_tools::actions::test::{
    compile_verdict, judge_output, poll_pending, test_compile_script, test_label, PollOutcome,
    Verdict, POLL_LIMIT,
};
use oj_tools::oj_tools::oj_spider::luogu_oj::{
    get_luogu_test_data, problem_url, test_data_from_blocks, LuoguTestData,
};
use oj_tools::oj_tools::{Action, HelperCli, OJTools, Step};
use oj_tools::text::{
    chars_of, find_chars, push_decimal, push_decimal_int, replace_chars, string_of, trim_chars,
};
use oj_tools::{fill_template, replace_template, run_failure_message};

fn empty_config() -> OJTConfig {
    OJTConfig {
        template_path: None,
        script_path: None,
        test_option: None,
        cc: None,
        run_option: None,
        author_name: None,
    }
}

fn tools(action: Action, config: OJTConfig) -> OJTools {
    OJTools::new(HelperCli { action, config_file: None }, config)
}

fn chars(s: &str) -> Vec<char> {
    s.chars().collect()
}

#[test]
fn problem_config_new_uses_default_code_path() {
    let c = ProblemConfig::new(vec![("a".to_string(), "b".to_string())]);
    assert_eq!(c.code_path, "code.cpp");
    assert_eq!(c.test_data, vec![("a".to_string(), "b".to_string())]);
}

#[test]
fn problem_config_add_appends() {
    let mut c = ProblemConfig::new(vec![]);
    c.add("in1.txt".to_string(), "out1.txt".to_string());
    c.add("in2.txt".to_string(), "out2.txt".to_string());
    assert_eq!(
        c.test_data,
        vec![
            ("in1.txt".to_string(), "out1.txt".to_string()),
            ("in2.txt".to_string(), "out2.txt".to_string())
        ]
    );
    assert_eq!(c.code_path, "code.cpp");
}

#[test]
fn test_file_names_are_numbered() {
    assert_eq!(input_file_name(1), "in1.txt");
    assert_eq!(output_file_name(12), "out12.txt");
    assert_eq!(input_file_name(0), "in0.txt");
}

#[test]
fn test_file_names_differ_for_different_tests() {
    assert_ne!(input_file_name(1), input_file_name(11));
    assert_ne!(output_file_name(2), output_file_name(20));
    assert_ne!(input_file_name(3), output_file_name(3));
}

#[test]
fn pulled_config_lists_tests_in_order() {
    let c = pull_problem_config(3);
    assert_eq!(
        c.test_data,
        vec![
            ("in1.txt".to_string(), "out1.txt".to_string()),
            ("in2.txt".to_string(), "out2.txt".to_string()),
            ("in3.txt".to_string(), "out3.txt".to_string())
        ]
    );
    assert_eq!(c.code_path, "code.cpp");
    assert!(pull_problem_config(0).test_data.is_empty());
}

#[test]
fn code_file_of_pulled_problem() {
    assert_eq!(code_file_path("P1001"), "P1001/code.cpp");
}

#[test]
fn problem_url_of_pid() {
    assert_eq!(problem_url("P1001"), "https://www.luogu.com.cn/problem/P1001");
}

#[test]
fn samples_are_paired_in_page_order() {
    let body = "<h2>Sample</h2><pre><code>1 2\n</code></pre><pre><code>3\n</code></pre>\
                <pre><code>4\n5</code></pre><pre><code>9</code></pre><code>left over</code>";
    let data = get_luogu_test_data(body);
    assert_eq!(data.len(), 2);
    assert_eq!(data[0].test_in, "1 2\n");
    assert_eq!(data[0].test_out, "3\n");
    assert_eq!(data[1].test_in, "4\n5");
    assert_eq!(data[1].test_out, "9");
}

#[test]
fn page_without_samples_gives_none() {
    assert!(get_luogu_test_data("<html>no samples</html>").is_empty());
    assert!(get_luogu_test_data("<code>only one</code>").is_empty());
}

#[test]
fn sample_blocks_end_at_first_close_tag() {
    let data = get_luogu_test_data("<code>a</code>b</code><code></code>");
    assert_eq!(data.len(), 1);
    assert_eq!(data[0].test_in, "a");
    assert_eq!(data[0].test_out, "");
}

#[test]
fn blocks_to_test_data() {
    let blocks = vec![
        "<code>in</code>".to_string(),
        "<code>out</code>".to_string(),
        "<code>x</code>".to_string(),
    ];
    let data = test_data_from_blocks(&blocks);
    assert_eq!(data.len(), 1);
    let expected = LuoguTestData::new("in".to_string(), "out".to_string());
    assert_eq!(data[0].test_in, expected.test_in);
    assert_eq!(data[0].test_out, expected.test_out);
}

#[test]
fn fill_template_replaces_every_placeholder() {
    let t = "// $fileName$ ($fileNameWithoutExt$) in $dir$\n// $author$ $year$-$month$-$day$ $author$";
    let r = fill_template(t, "a", "src/a.cpp", "src", 2024, 3, 7, "me");
    assert_eq!(r, "// src/a.cpp (a) in src\n// me 2024-3-7 me");
}

#[test]
fn fill_template_negative_year() {
    assert_eq!(fill_template("$year$", "", "", "", -44, 1, 1, ""), "-44");
}

#[test]
fn plain_template_is_unchanged() {
    let t = "int main() { return 0; }\n";
    assert_eq!(fill_template(t, "x", "y", "z", 1, 2, 3, "w"), t);
}

#[test]
fn replace_template_uses_path_and_today() {

    let today = chrono::Local::now();
    let r = replace_template(
        "$fileNameWithoutExt$|$fileName$|$dir$|$year$|$author$".to_string(),
        "src/main.cpp",
        "bob".to_string(),
    )
    .unwrap();
    assert_eq!(r, format!("main|src/main.cpp|src|{}|bob", today.year()));
    let m = replace_template("$month$/$day$".to_string(), "a.cpp", String::new()).unwrap();
    let now = chrono::Local::now();
    assert!(m == format!("{}/{}", today.month(), today.day()) || m == format!("{}/{}", now.month(), now.day()));
}

#[test]
fn replace_template_without_file_name_is_none() {
    assert!(replace_template("x".to_string(), "", String::new()).is_none());
    assert!(replace_template("x".to_string(), "/", String::new()).is_none());
}

#[test]
fn default_extension_added_only_without_extension() {
    assert_eq!(with_default_extension("a".to_string()), "a.cpp");
    assert_eq!(with_default_extension("a.c".to_string()), "a.c");
    assert_eq!(with_default_extension("./a".to_string()), "./a.cpp");
    assert_eq!(with_default_extension("dir.v2/a".to_string()), "dir.v2/a.cpp");
    assert_eq!(with_default_extension("dir.v2/a.py".to_string()), "dir.v2/a.py");
    assert_eq!(with_default_extension(".hidden".to_string()), ".hidden.cpp");
    assert_eq!(with_default_extension("".to_string()), ".cpp");
}

#[test]
fn default_extension_twice_is_once() {
    let once = with_default_extension("sol".to_string());
    assert_eq!(with_default_extension(once.clone()), once);
}

#[test]
fn judge_accepts_up_to_surrounding_whitespace() {
    assert_eq!(judge_output(true, "3\n", "  3"), Verdict::Accepted);
    assert_eq!(judge_output(true, "\u{3000}1 2\r\n", "1 2"), Verdict::Accepted);
    assert_eq!(judge_output(true, "", " \n\t"), Verdict::Accepted);
}

#[test]
fn judge_wrong_answer_and_runtime_error() {
    assert_eq!(judge_output(true, "1 2", "1  2"), Verdict::WrongAnswer);
    assert_eq!(judge_output(true, "12", "1"), Verdict::WrongAnswer);
    assert_eq!(judge_output(false, "3", "3"), Verdict::RuntimeError);
}

#[test]
fn judge_is_symmetric() {
    assert_eq!(judge_output(true, "ab", "a"), judge_output(true, "a", "ab"));
    assert_eq!(judge_output(true, "x y", "x y"), Verdict::Accepted);
}

#[test]
fn verdict_names() {
    assert_eq!(Verdict::Accepted.name(), "AC");
    assert_eq!(Verdict::WrongAnswer.name(), "WA");
    assert_eq!(Verdict::RuntimeError.name(), "RE");
    assert_eq!(Verdict::TimeLimitExceeded.name(), "TLE");
    assert_eq!(Verdict::CompileError.name(), "CE");
}

#[test]
fn polling_counts_and_tracks_peak_memory() {
    match poll_pending(0, 10, Some(25)) {
        PollOutcome::Continue { count, memory_max } => {
            assert_eq!(count, 1);
            assert_eq!(memory_max, 25);
        }
        PollOutcome::TimeLimitExceeded => panic!("too early"),
    }
    match poll_pending(POLL_LIMIT, 30, Some(5)) {
        PollOutcome::Continue { count, memory_max } => {
            assert_eq!(count, POLL_LIMIT + 1);
            assert_eq!(memory_max, 30);
        }
        PollOutcome::TimeLimitExceeded => panic!("too early"),
    }
    match poll_pending(7, 30, None) {
        PollOutcome::Continue { memory_max, .. } => assert_eq!(memory_max, 30),
        PollOutcome::TimeLimitExceeded => panic!("too early"),
    }
}

#[test]
fn polling_past_the_limit_is_too_slow() {
    assert!(matches!(poll_pending(POLL_LIMIT + 1, 0, None), PollOutcome::TimeLimitExceeded));
    assert!(matches!(poll_pending(u32::MAX, 0, Some(1)), PollOutcome::TimeLimitExceeded));
}

#[test]
fn test_scripts_and_labels() {
    assert_eq!(test_compile_script("-O2"), "g++ code.cpp -o code -O2");
    assert_eq!(test_compile_script(""), "g++ code.cpp -o code ");
    assert_eq!(test_label(0), "Test #1 ==> ");
    assert_eq!(test_label(9), "Test #10 ==> ");
}

#[test]
fn compile_commands() {
    assert_eq!(compile_command("clang++", "a.cpp", "a", "-O2"), "clang++ a.cpp -o a -O2");
    let t = tools(Action::Config, empty_config());
    let plan = t.compile_plan("dir/main.cpp", "").unwrap();
    assert_eq!(plan.command, "g++ dir/main.cpp -o main ");
    assert_eq!(plan.executable, "./main");
    let mut config = empty_config();
    config.cc = Some("clang++".to_string());
    let t = tools(Action::Config, config);
    let plan = t.compile_plan("x.cc", "-Wall").unwrap();
    assert_eq!(plan.command, "clang++ x.cc -o x -Wall");
    assert!(t.compile_plan("", "").is_none());
}

#[test]
fn plan_of_each_command() {
    let mut config = empty_config();
    config.test_option = Some("-O2".to_string());
    config.run_option = Some("-g".to_string());
    match tools(Action::Test, config).plan() {
        Step::Test { script } => assert_eq!(script, "g++ code.cpp -o code -O2"),
        _ => panic!("wrong step"),
    }
    let mut config = empty_config();
    config.run_option = Some("-g".to_string());
    match tools(Action::Run { filename: String::new() }, config).plan() {
        Step::Run { filename, option } => {
            assert_eq!(filename, None);
            assert_eq!(option, "-g");
        }
        _ => panic!("wrong step"),
    }
    match tools(Action::Run { filename: "a.cpp".to_string() }, empty_config()).plan() {
        Step::Run { filename, option } => {
            assert_eq!(filename, Some("a.cpp".to_string()));
            assert_eq!(option, "");
        }
        _ => panic!("wrong step"),
    }
    assert!(matches!(
        tools(Action::Gen { filename: "a".to_string() }, empty_config()).plan(),
        Step::MissingTemplate
    ));
    let mut config = empty_config();
    config.template_path = Some("t.cpp".to_string());
    match tools(Action::Gen { filename: "a".to_string() }, config).plan() {
        Step::Gen { template_path, filename } => {
            assert_eq!(template_path, "t.cpp");
            assert_eq!(filename, "a");
        }
        _ => panic!("wrong step"),
    }
    match tools(Action::Pull { pid: "p1001".to_string() }, empty_config()).plan() {
        Step::Pull { pid } => assert_eq!(pid, "P1001"),
        _ => panic!("wrong step"),
    }
    assert!(matches!(tools(Action::Config, empty_config()).plan(), Step::Config));
    match tools(Action::Copy { filename: "b.cpp".to_string() }, empty_config()).plan() {
        Step::Copy { filename } => assert_eq!(filename, Some("b.cpp".to_string())),
        _ => panic!("wrong step"),
    }
}

#[test]
fn gen_content_uses_configured_author() {
    let mut config = empty_config();
    config.author_name = Some("alice".to_string());
    let t = tools(Action::Config, config);
    assert_eq!(t.gen_content("$author$".to_string(), "a.cpp").unwrap(), "alice");
    let t = tools(Action::Config, empty_config());
    assert_eq!(t.gen_content("[$author$]".to_string(), "a.cpp").unwrap(), "[]");
}

#[test]
fn run_status_messages() {
    assert_eq!(run_failure_message(0), None);
    assert_eq!(
        run_failure_message(1),
        Some("Failed to run the script! Exit code: 1".to_string())
    );
    assert_eq!(
        run_failure_message(-1),
        Some("Failed to run the script! Exit code: -1".to_string())
    );
}

#[test]
fn decimal_spelling() {
    let mut s = String::new();
    push_decimal(&mut s, 0);
    assert_eq!(s, "0");
    let mut s = String::from("n=");
    push_decimal(&mut s, u64::MAX);
    assert_eq!(s, "n=18446744073709551615");
    let mut s = String::new();
    push_decimal_int(&mut s, i64::MIN);
    assert_eq!(s, "-9223372036854775808");
}

#[test]
fn string_primitives() {
    assert_eq!(chars_of("héllo"), chars("héllo"));
    assert_eq!(string_of(&chars("日本")), "日本");
    assert_eq!(find_chars(&chars("abcabc"), &chars("ca")), Some(2));
    assert_eq!(find_chars(&chars("abc"), &chars("x")), None);
    assert_eq!(replace_chars(&chars("aaa"), &chars("aa"), &chars("b")), chars("ba"));
    assert_eq!(trim_chars(&chars("\u{3000} a b \u{85}")), chars("a b"));
    assert_eq!(trim_chars(&chars("   ")), chars(""));
}

#[test]
fn text_outside_sample_blocks_is_ignored() {
    let body = "</code>intro<code>1</code> middle <code>2</code><code>unclosed";
    let data = get_luogu_test_data(body);
    assert_eq!(data.len(), 1);
    assert_eq!(data[0].test_in, "1");
    assert_eq!(data[0].test_out, "2");
    let nested = get_luogu_test_data("<code><code>a</code></code><code>b</code>");
    assert_eq!(nested.len(), 1);
    assert_eq!(nested[0].test_in, "<code>a");
    assert_eq!(nested[0].test_out, "b");
}

#[test]
fn compile_verdicts() {
    assert_eq!(compile_verdict(0), None);
    assert_eq!(compile_verdict(1), Some(Verdict::CompileError));
}

#[test]
fn pull_plans() {
    let t = tools(Action::Config, empty_config());
    assert!(matches!(t.pull_plan("P1", 0), PullPlan::NoSamples));
    match t.pull_plan("P1", 2) {
        PullPlan::Write { config, generate } => {
            assert_eq!(config.test_data.len(), 2);
            assert_eq!(config.test_data[1], ("in2.txt".to_string(), "out2.txt".to_string()));
            assert_eq!(config.code_path, "code.cpp");
            assert!(generate.is_none());
        }
        PullPlan::NoSamples => panic!("samples were given"),
    }
    let mut config = empty_config();
    config.template_path = Some("t.cpp".to_string());
    let t = tools(Action::Config, config);
    match t.pull_plan("P1", 1) {
        PullPlan::Write { generate, .. } => {
            assert_eq!(generate, Some(("t.cpp".to_string(), "P1/code.cpp".to_string())));
        }
        PullPlan::NoSamples => panic!("samples were given"),
    }
}
