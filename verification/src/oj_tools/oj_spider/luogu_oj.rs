//! Extraction of sample tests from a Luogu problem page.

use vstd::prelude::*;
use vstd::string::*;

use crate::text::{
    chars_of, find_chars, find_first, find_from, lemma_find_from_sound, occurs_at, string_of,
};

verus! {

/// One sample test of a problem: the input and the expected output.
#[derive(Debug)]
pub struct LuoguTestData {
    pub test_in: String,
    pub test_out: String,
}

impl View for LuoguTestData {
    type V = (Seq<char>, Seq<char>);

    open spec fn view(&self) -> (Seq<char>, Seq<char>) {
        (self.test_in@, self.test_out@)
    }
}

impl LuoguTestData {
    pub fn new(test_in: String, test_out: String) -> (res: Self)
        ensures
            res.test_in == test_in,
            res.test_out == test_out,
    {
        LuoguTestData { test_in, test_out }
    }
}

/// The address of the page of problem `pid`.
pub open spec fn problem_url_spec(pid: Seq<char>) -> Seq<char> {
    "https://www.luogu.com.cn/problem/"@ + pid
}

/// The address of the page of problem `pid`.
pub fn problem_url(pid: &str) -> (url: String)
    ensures
        url@ == problem_url_spec(pid@),
{
    String::from_str("https://www.luogu.com.cn/problem/").concat(pid)
}

/// The pattern whose matches on a problem page are the sample blocks.
pub open spec fn code_block_pattern() -> Seq<char> {
    "<code>(.*?)</code>"@
}

/// The opening tag of a sample block.
pub open spec fn open_tag() -> Seq<char> {
    "<code>"@
}

/// The closing tag of a sample block.
pub open spec fn close_tag() -> Seq<char> {
    "</code>"@
}

/// What `regex::Regex::find_iter` yields, as texts, for `pattern` compiled
/// with `.` matching newlines, over `haystack`; `None` when the pattern does
/// not compile.
pub uninterp spec fn regex_dotall_matches(pattern: Seq<char>, haystack: Seq<char>) -> Option<Seq<Seq<char>>>;

/// The matches of the sample pattern over `s`, scanning from the left: from
/// the first opening tag to the first closing tag after it, then the same
/// on what follows; nothing more once an opening tag has no closing tag
/// after it.
pub open spec fn code_blocks(s: Seq<char>) -> Seq<Seq<char>>
    decreases s.len(),
{
    match find_first(s, open_tag()) {
        None => Seq::empty(),
        Some(i) => match find_from(s, close_tag(), i + 6) {
            None => Seq::empty(),
            Some(j) => if 0 <= j && j + 7 <= s.len() {
                seq![s.subrange(i, j + 7)] + code_blocks(s.subrange(j + 7, s.len() as int))
            } else {
                Seq::empty()
            },
        },
    }
}

/// A text that the sample pattern can match: the opening tag, anything,
/// then the closing tag.
pub open spec fn is_code_block(b: Seq<char>) -> bool {
    &&& b.len() >= 13
    &&& b.subrange(0, 6) == open_tag()
    &&& b.subrange(b.len() - 7, b.len() as int) == close_tag()
}

/// Compiles `pattern` with `regex::RegexBuilder`, `.` matching newlines,
/// and collects the texts of `Regex::find_iter` over `haystack`. Claimed:
/// the result is the one named by `regex_dotall_matches`; for the sample
/// pattern `<code>(.*?)</code>`, the pattern compiles and the matches are
/// `code_blocks(haystack)`: leftmost-first search, the lazy `.*?` ending
/// each match at the first closing tag, successive matches not overlapping.
#[verifier::external_body]
fn regex_find_all_dotall(pattern: &str, haystack: &str) -> (res: Option<Vec<String>>)
    ensures
        match res {
            Some(v) => regex_dotall_matches(pattern@, haystack@) == Some(v.deep_view()),
            None => regex_dotall_matches(pattern@, haystack@) is None,
        },
        pattern@ == code_block_pattern() ==> res is Some,
        pattern@ == code_block_pattern() ==> res->0.deep_view() == code_blocks(haystack@),
{
    match regex::RegexBuilder::new(pattern).dot_matches_new_line(true).build() {
        Ok(re) => Some(re.find_iter(haystack).map(|m| m.as_str().to_string()).collect()),
        Err(_) => None,
    }
}

/// A block whose closing tag first occurs after the opening tag's length.
pub open spec fn block_well_formed(b: Seq<char>) -> bool {
    find_first(b, close_tag()) matches Some(j) && j >= 6
}

/// The text of a block: what stands between the first six characters and
/// the first closing tag.
pub open spec fn block_text(b: Seq<char>) -> Seq<char> {
    b.subrange(6, find_first(b, close_tag())->0)
}

/// Consecutive blocks paired as (input, output); an unpaired last block is
/// dropped.
pub open spec fn samples_from_blocks(blocks: Seq<Seq<char>>) -> Seq<(Seq<char>, Seq<char>)> {
    Seq::new(blocks.len() / 2, |k: int| (block_text(blocks[2 * k]), block_text(blocks[2 * k + 1])))
}

/// The sample tests of a problem page.
pub open spec fn page_samples(body: Seq<char>) -> Seq<(Seq<char>, Seq<char>)> {
    samples_from_blocks(code_blocks(body))
}

/// `find_from` reaches the first occurrence at or after `i`, which is no
/// later than any occurrence `k`.
proof fn lemma_find_from_reaches(s: Seq<char>, pat: Seq<char>, i: int, k: int)
    requires
        0 <= i <= k,
        occurs_at(s, pat, k),
    ensures
        find_from(s, pat, i) matches Some(j) && i <= j <= k,
    decreases k - i,
{
    if !occurs_at(s, pat, i) {
        lemma_find_from_reaches(s, pat, i + 1, k);
    }
}

/// Every text that the sample pattern matches is a well-formed block.
proof fn lemma_code_block_well_formed(b: Seq<char>)
    requires
        is_code_block(b),
    ensures
        block_well_formed(b),
{
    reveal_strlit("<code>");
    reveal_strlit("</code>");
    let c = close_tag();
    assert(b[0] == '<' && b[1] == 'c' && b[2] == 'o' && b[3] == 'd' && b[4] == 'e' && b[5] == '>') by {
        assert(b.subrange(0, 6)[0] == b[0]);
        assert(b.subrange(0, 6)[1] == b[1]);
        assert(b.subrange(0, 6)[2] == b[2]);
        assert(b.subrange(0, 6)[3] == b[3]);
        assert(b.subrange(0, 6)[4] == b[4]);
        assert(b.subrange(0, 6)[5] == b[5]);
    }
    assert forall|i: int| 0 <= i < 6 implies !occurs_at(b, c, i) by {
        if occurs_at(b, c, i) {
            assert(b.subrange(i, i + 7)[0] == b[i]);
            assert(b.subrange(i, i + 7)[1] == b[i + 1]);
        }
    }
    let k = b.len() - 7;
    assert(occurs_at(b, c, k));
    lemma_find_from_reaches(b, c, 6, k);
    assert(find_from(b, c, 5) == find_from(b, c, 6));
    assert(find_from(b, c, 4) == find_from(b, c, 5));
    assert(find_from(b, c, 3) == find_from(b, c, 4));
    assert(find_from(b, c, 2) == find_from(b, c, 3));
    assert(find_from(b, c, 1) == find_from(b, c, 2));
    assert(find_from(b, c, 0) == find_from(b, c, 1));
}

/// Every match that `code_blocks` lists is the opening tag, some text and
/// the closing tag.
proof fn lemma_code_blocks_shape(s: Seq<char>)
    ensures
        forall|k: int| 0 <= k < code_blocks(s).len() ==> is_code_block(#[trigger] code_blocks(s)[k]),
    decreases s.len(),
{
    reveal_strlit("<code>");
    reveal_strlit("</code>");
    if let Some(i) = find_first(s, open_tag()) {
        lemma_find_from_sound(s, open_tag(), 0);
        if let Some(j) = find_from(s, close_tag(), i + 6) {
            lemma_find_from_sound(s, close_tag(), i + 6);
            if 0 <= j && j + 7 <= s.len() {
                let rest = s.subrange(j + 7, s.len() as int);
                lemma_code_blocks_shape(rest);
                let b = s.subrange(i, j + 7);
                assert(b.subrange(0, 6) =~= s.subrange(i, i + 6));
                assert(b.subrange(b.len() - 7, b.len() as int) =~= s.subrange(j, j + 7));
                assert(is_code_block(b));
                assert forall|k: int| 0 <= k < code_blocks(s).len() implies is_code_block(
                    #[trigger] code_blocks(s)[k],
                ) by {
                    if k > 0 {
                        assert(code_blocks(s)[k] == code_blocks(rest)[k - 1]);
                    }
                }
            }
        }
    }
}

/// The text of one well-formed block.
fn block_text_of(block: &String) -> (t: String)
    requires
        block_well_formed(block@),
    ensures
        t@ == block_text(block@),
{
    let chars = chars_of(block.as_str());
    let close = chars_of("</code>");
    let close_pos = find_chars(&chars, &close);
    let end: usize = close_pos.unwrap();
    proof {
        lemma_find_from_sound(chars@, close@, 0);
    }
    let mut text: Vec<char> = Vec::new();
    let mut k: usize = 6;
    assert(text@ =~= chars@.subrange(6, 6));
    while k < end
        invariant
            6 <= k <= end <= chars@.len(),
            text@ == chars@.subrange(6, k as int),
        decreases end - k,
    {
        text.push(chars[k]);
        k = k + 1;
        assert(text@ =~= chars@.subrange(6, k as int));
    }
    string_of(&text)
}

/// The sample tests held by the blocks of a problem page, in page order:
/// the text of each even-numbered block is an input, the text of the block
/// after it the matching output.
pub fn test_data_from_blocks(blocks: &Vec<String>) -> (res: Vec<LuoguTestData>)
    requires
        forall|k: int| 0 <= k < blocks@.len() ==> block_well_formed(#[trigger] blocks@[k]@),
    ensures
        res@.len() == blocks@.len() / 2,
        forall|k: int|
            0 <= k < res@.len() ==> #[trigger] res@[k]@ == samples_from_blocks(blocks.deep_view())[k],
{
    let ghost views = blocks.deep_view();
    let mut elements: Vec<LuoguTestData> = Vec::new();
    let mut pre_tmp = String::new();
    let mut i: usize = 0;
    while i < blocks.len()
        invariant
            i <= blocks@.len(),
            views == blocks.deep_view(),
            forall|k: int| 0 <= k < blocks@.len() ==> block_well_formed(#[trigger] blocks@[k]@),
            elements@.len() == i / 2,
            forall|k: int|
                0 <= k < elements@.len() ==> #[trigger] elements@[k]@ == samples_from_blocks(views)[k],
            i % 2 == 1 ==> pre_tmp@ == block_text(views[i - 1]),
        decreases blocks.len() - i,
    {
        let plain_text = block_text_of(&blocks[i]);
        if i % 2 == 0 {
            pre_tmp = plain_text;
        } else {
            let ghost k = (i / 2) as int;
            elements.push(LuoguTestData::new(pre_tmp.clone(), plain_text));
            assert(elements@[k]@ == samples_from_blocks(views)[k]);
        }
        i = i + 1;
    }
    elements
}

/// The sample tests on a problem page, in page order (see
/// `test_data_from_blocks`).
pub fn get_luogu_test_data(body: &str) -> (res: Vec<LuoguTestData>)
    ensures
        res@.len() == page_samples(body@).len(),
        forall|k: int| 0 <= k < res@.len() ==> #[trigger] res@[k]@ == page_samples(body@)[k],
{
    let found = regex_find_all_dotall("<code>(.*?)</code>", body);
    match found {
        Some(blocks) => {
            proof {
                lemma_code_blocks_shape(body@);
                assert(blocks.deep_view() == code_blocks(body@));
            }
            assert forall|k: int| 0 <= k < blocks@.len() implies block_well_formed(
                #[trigger] blocks@[k]@,
            ) by {
                assert(blocks.deep_view()[k] == blocks@[k]@);
                lemma_code_block_well_formed(blocks@[k]@);
            }
            test_data_from_blocks(&blocks)
        },
        None => Vec::new(),
    }
}

} // verus!
