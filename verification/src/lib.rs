//! Helpers for competitive-programming practice: problem configuration,
//! code templates, sample extraction from problem pages and test judging.

pub mod config;
pub mod oj_tools;
pub mod path;
pub mod text;

use vstd::prelude::*;
use vstd::string::*;

use chrono::Datelike;

use crate::text::{
    chars_of, decimal, decimal_int, lemma_replace_all_absent, lemma_replace_all_split,
    push_decimal, push_decimal_int, replace_all, replace_chars, string_of,
};

verus! {

/// A template with its placeholders filled in, one placeholder after the
/// other: `$fileNameWithoutExt$`, `$fileName$`, `$dir$`, `$year$`,
/// `$month$`, `$day$`, `$author$`.
pub open spec fn fill_template_spec(
    template: Seq<char>,
    stem: Seq<char>,
    name: Seq<char>,
    dir: Seq<char>,
    year: int,
    month: nat,
    day: nat,
    author: Seq<char>,
) -> Seq<char> {
    let t1 = replace_all(template, "$fileNameWithoutExt$"@, stem);
    let t2 = replace_all(t1, "$fileName$"@, name);
    let t3 = replace_all(t2, "$dir$"@, dir);
    let t4 = replace_all(t3, "$year$"@, decimal_int(year));
    let t5 = replace_all(t4, "$month$"@, decimal(month));
    let t6 = replace_all(t5, "$day$"@, decimal(day));
    replace_all(t6, "$author$"@, author)
}

/// A template without any `$` has no placeholder: filling it in leaves it
/// as it is, whatever the file, date and author.
pub proof fn lemma_plain_template_unchanged(
    template: Seq<char>,
    stem: Seq<char>,
    name: Seq<char>,
    dir: Seq<char>,
    year: int,
    month: nat,
    day: nat,
    author: Seq<char>,
)
    requires
        !template.contains('$'),
    ensures
        fill_template_spec(template, stem, name, dir, year, month, day, author) == template,
{
    reveal_strlit("$fileNameWithoutExt$");
    reveal_strlit("$fileName$");
    reveal_strlit("$dir$");
    reveal_strlit("$year$");
    reveal_strlit("$month$");
    reveal_strlit("$day$");
    reveal_strlit("$author$");
    lemma_replace_all_absent(template, "$fileNameWithoutExt$"@, stem);
    lemma_replace_all_absent(template, "$fileName$"@, name);
    lemma_replace_all_absent(template, "$dir$"@, dir);
    lemma_replace_all_absent(template, "$year$"@, decimal_int(year));
    lemma_replace_all_absent(template, "$month$"@, decimal(month));
    lemma_replace_all_absent(template, "$day$"@, decimal(day));
    lemma_replace_all_absent(template, "$author$"@, author);
}

/// Filling works line by line: a template made of two parts joined by a
/// line break fills to the two parts filled on their own, joined by the
/// same line break. So every occurrence of a placeholder is filled, not
/// only the first one.
pub proof fn lemma_fill_template_by_lines(
    a: Seq<char>,
    b: Seq<char>,
    stem: Seq<char>,
    name: Seq<char>,
    dir: Seq<char>,
    year: int,
    month: nat,
    day: nat,
    author: Seq<char>,
)
    ensures
        fill_template_spec(a + seq!['\n'] + b, stem, name, dir, year, month, day, author)
            == fill_template_spec(a, stem, name, dir, year, month, day, author) + seq!['\n']
            + fill_template_spec(b, stem, name, dir, year, month, day, author),
{
    reveal_strlit("$fileNameWithoutExt$");
    reveal_strlit("$fileName$");
    reveal_strlit("$dir$");
    reveal_strlit("$year$");
    reveal_strlit("$month$");
    reveal_strlit("$day$");
    reveal_strlit("$author$");
    let c = '\n';
    let p1 = "$fileNameWithoutExt$"@;
    let p2 = "$fileName$"@;
    let p3 = "$dir$"@;
    let p4 = "$year$"@;
    let p5 = "$month$"@;
    let p6 = "$day$"@;
    let p7 = "$author$"@;
    assert(!p1.contains(c)) by {
        if p1.contains(c) {
            let k = choose|k: int| 0 <= k < p1.len() && p1[k] == c;
        }
    }
    assert(!p2.contains(c)) by {
        if p2.contains(c) {
            let k = choose|k: int| 0 <= k < p2.len() && p2[k] == c;
        }
    }
    assert(!p3.contains(c)) by {
        if p3.contains(c) {
            let k = choose|k: int| 0 <= k < p3.len() && p3[k] == c;
        }
    }
    assert(!p4.contains(c)) by {
        if p4.contains(c) {
            let k = choose|k: int| 0 <= k < p4.len() && p4[k] == c;
        }
    }
    assert(!p5.contains(c)) by {
        if p5.contains(c) {
            let k = choose|k: int| 0 <= k < p5.len() && p5[k] == c;
        }
    }
    assert(!p6.contains(c)) by {
        if p6.contains(c) {
            let k = choose|k: int| 0 <= k < p6.len() && p6[k] == c;
        }
    }
    assert(!p7.contains(c)) by {
        if p7.contains(c) {
            let k = choose|k: int| 0 <= k < p7.len() && p7[k] == c;
        }
    }
    let a1 = replace_all(a, p1, stem);
    let b1 = replace_all(b, p1, stem);
    lemma_replace_all_split(a, c, b, p1, stem);
    let a2 = replace_all(a1, p2, name);
    let b2 = replace_all(b1, p2, name);
    lemma_replace_all_split(a1, c, b1, p2, name);
    let a3 = replace_all(a2, p3, dir);
    let b3 = replace_all(b2, p3, dir);
    lemma_replace_all_split(a2, c, b2, p3, dir);
    let a4 = replace_all(a3, p4, decimal_int(year));
    let b4 = replace_all(b3, p4, decimal_int(year));
    lemma_replace_all_split(a3, c, b3, p4, decimal_int(year));
    let a5 = replace_all(a4, p5, decimal(month));
    let b5 = replace_all(b4, p5, decimal(month));
    lemma_replace_all_split(a4, c, b4, p5, decimal(month));
    let a6 = replace_all(a5, p6, decimal(day));
    let b6 = replace_all(b5, p6, decimal(day));
    lemma_replace_all_split(a5, c, b5, p6, decimal(day));
    lemma_replace_all_split(a6, c, b6, p7, author);
}

/// Fills in the placeholders of `template` (see `fill_template_spec`).
pub fn fill_template(
    template: &str,
    stem: &str,
    name: &str,
    dir: &str,
    year: i32,
    month: u32,
    day: u32,
    author: &str,
) -> (res: String)
    ensures
        res@ == fill_template_spec(
            template@,
            stem@,
            name@,
            dir@,
            year as int,
            month as nat,
            day as nat,
            author@,
        ),
{
    proof {
        reveal_strlit("$fileNameWithoutExt$");
        reveal_strlit("$fileName$");
        reveal_strlit("$dir$");
        reveal_strlit("$year$");
        reveal_strlit("$month$");
        reveal_strlit("$day$");
        reveal_strlit("$author$");
    }
    let mut year_text = String::new();
    push_decimal_int(&mut year_text, year as i64);
    let mut month_text = String::new();
    push_decimal(&mut month_text, month as u64);
    let mut day_text = String::new();
    push_decimal(&mut day_text, day as u64);
    let t0 = chars_of(template);
    let t1 = replace_chars(&t0, &chars_of("$fileNameWithoutExt$"), &chars_of(stem));
    let t2 = replace_chars(&t1, &chars_of("$fileName$"), &chars_of(name));
    let t3 = replace_chars(&t2, &chars_of("$dir$"), &chars_of(dir));
    let t4 = replace_chars(&t3, &chars_of("$year$"), &chars_of(year_text.as_str()));
    let t5 = replace_chars(&t4, &chars_of("$month$"), &chars_of(month_text.as_str()));
    let t6 = replace_chars(&t5, &chars_of("$day$"), &chars_of(day_text.as_str()));
    let t7 = replace_chars(&t6, &chars_of("$author$"), &chars_of(author));
    string_of(&t7)
}

/// Today's date in the local time zone (`chrono::Local::now`), as
/// (year, month, day). Claimed: a month is in 1..=12 and a day in 1..=31;
/// which date comes back depends on the clock and is left unsaid.
/// `chrono` panics when the clock is before 1970 or the zone data is broken.
#[verifier::external_body]
fn local_date() -> (d: (i32, u32, u32))
    ensures
        1 <= d.1 <= 12,
        1 <= d.2 <= 31,
{
    let now = chrono::Local::now();
    (now.year(), now.month(), now.day())
}

/// Fills in the placeholders of a code template for the file `filepath`,
/// dated today: `$fileNameWithoutExt$` is the file's stem, `$fileName$`
/// the path as given, `$dir$` its parent directory, `$year$`, `$month$`
/// and `$day$` today's date and `$author$` the author.
/// `None` when the path has no file name or no parent. Reading the clock
/// panics when it is set before 1970 or the time-zone data is broken.
pub fn replace_template(template: String, filepath: &str, author: String) -> (res: Option<String>)
    ensures
        res is Some <==> (crate::path::path_file_stem(filepath@) is Some
            && crate::path::path_parent(filepath@) is Some),
        res matches Some(r) ==> exists|y: int, m: nat, d: nat|
            #![trigger fill_template_spec(template@, crate::path::path_file_stem(filepath@)->0, filepath@, crate::path::path_parent(filepath@)->0, y, m, d, author@)]
            1 <= m <= 12 && 1 <= d <= 31 && r@ == fill_template_spec(
                template@,
                crate::path::path_file_stem(filepath@)->0,
                filepath@,
                crate::path::path_parent(filepath@)->0,
                y,
                m,
                d,
                author@,
            ),
{
    let stem = crate::path::file_stem(filepath);
    let dir = crate::path::parent(filepath);
    match (stem, dir) {
        (Some(stem), Some(dir)) => {
            let (year, month, day) = local_date();
            let filled = fill_template(
                template.as_str(),
                stem.as_str(),
                filepath,
                dir.as_str(),
                year,
                month,
                day,
                author.as_str(),
            );
            assert(filled@ == fill_template_spec(
                template@,
                crate::path::path_file_stem(filepath@)->0,
                filepath@,
                crate::path::path_parent(filepath@)->0,
                year as int,
                month as nat,
                day as nat,
                author@,
            ));
            Some(filled)
        },
        _ => None,
    }
}

/// The message shown when a script exits with the nonzero code `code`.
pub open spec fn failure_message_spec(code: int) -> Seq<char> {
    "Failed to run the script! Exit code: "@ + decimal_int(code)
}

/// How a script run ended: `None` when it succeeded (exit code 0),
/// otherwise the failure message to show.
pub fn run_failure_message(code: i32) -> (res: Option<String>)
    ensures
        res is None <==> code == 0,
        res matches Some(m) ==> m@ == failure_message_spec(code as int),
{
    if code == 0 {
        None
    } else {
        let mut m = String::from_str("Failed to run the script! Exit code: ");
        push_decimal_int(&mut m, code as i64);
        Some(m)
    }
}

} // verus!
