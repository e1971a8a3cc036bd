//! Generating a code file from the template.

use vstd::prelude::*;
use vstd::string::*;

use crate::oj_tools::{opt_text, OJTools};
use crate::text::chars_of;

verus! {

/// Where the last component of the path `p` begins: just after its last
/// `/`, or at the start when it has none.
pub open spec fn last_component_start(p: Seq<char>) -> int
    decreases p.len(),
{
    if p.len() == 0 {
        0
    } else if p.last() == '/' {
        p.len() as int
    } else {
        last_component_start(p.drop_last())
    }
}

/// The last component of `p` has an extension: it holds a `.` that is not
/// its first character (as `Path::extension` decides).
pub open spec fn has_extension(p: Seq<char>) -> bool {
    exists|i: int| last_component_start(p) < i < p.len() && p[i] == '.'
}

/// The file name to generate: as given when its last component has an
/// extension, otherwise with `.cpp` added.
pub open spec fn with_default_extension_spec(filename: Seq<char>) -> Seq<char> {
    if has_extension(filename) {
        filename
    } else {
        filename + ".cpp"@
    }
}

/// `last_component_start` lies within the path, and nothing after it is a
/// `/`.
proof fn lemma_last_component_start(p: Seq<char>)
    ensures
        0 <= last_component_start(p) <= p.len(),
        forall|m: int| last_component_start(p) <= m < p.len() ==> p[m] != '/',
    decreases p.len(),
{
    if p.len() > 0 && p.last() != '/' {
        lemma_last_component_start(p.drop_last());
        assert forall|m: int| last_component_start(p) <= m < p.len() implies p[m] != '/' by {
            if m < p.len() - 1 {
                assert(p.drop_last()[m] == p[m]);
            }
        }
    }
}

/// Appending text without a `/` keeps where the last component begins.
proof fn lemma_last_component_start_append(p: Seq<char>, q: Seq<char>)
    requires
        forall|m: int| 0 <= m < q.len() ==> q[m] != '/',
    ensures
        last_component_start(p + q) == last_component_start(p),
    decreases q.len(),
{
    if q.len() > 0 {
        let q1 = q.drop_last();
        lemma_last_component_start_append(p, q1);
        assert((p + q).drop_last() =~= p + q1);
    } else {
        assert(p + q =~= p);
    }
}

/// The file name to generate (see `with_default_extension_spec`).
pub fn with_default_extension(filename: String) -> (res: String)
    ensures
        res@ == with_default_extension_spec(filename@),
{
    let chars = chars_of(filename.as_str());
    let n = chars.len();
    let mut j: usize = n;
    assert(chars@.subrange(0, n as int) =~= chars@);
    while j > 0 && chars[j - 1] != '/'
        invariant
            chars@ == filename@,
            n == chars@.len(),
            j <= n,
            last_component_start(chars@) == last_component_start(chars@.subrange(0, j as int)),
        decreases j,
    {
        assert(chars@.subrange(0, j as int).drop_last() =~= chars@.subrange(0, j - 1));
        j = j - 1;
    }
    assert(last_component_start(chars@) == j);
    let mut k: usize = j;
    while k < n
        invariant
            chars@ == filename@,
            n == chars@.len(),
            j <= k,
            last_component_start(chars@) == j,
            forall|m: int| j < m < k ==> chars@[m] != '.',
        decreases n - k,
    {
        if k > j && chars[k] == '.' {
            assert(has_extension(filename@)) by {
                assert(filename@[k as int] == '.');
            }
            return filename;
        }
        k = k + 1;
    }
    filename.concat(".cpp")
}

/// A generated name always holds a `.`. When the last component of the
/// name is not empty (not `""`, not ending in `/`), the generated name has
/// an extension, so generating again keeps it.
pub proof fn lemma_default_extension_idempotent(filename: Seq<char>)
    ensures
        with_default_extension_spec(filename).contains('.'),
        last_component_start(filename) < filename.len() ==> has_extension(
            with_default_extension_spec(filename),
        ),
        last_component_start(filename) < filename.len() ==> with_default_extension_spec(
            with_default_extension_spec(filename),
        ) == with_default_extension_spec(filename),
{
    reveal_strlit(".cpp");
    lemma_last_component_start(filename);
    if has_extension(filename) {
        let i = choose|i: int| last_component_start(filename) < i < filename.len() && filename[i] == '.';
        assert(filename[i] == '.');
    } else {
        let c = ".cpp"@;
        let f = filename + c;
        assert(f[filename.len() as int] == '.');
        lemma_last_component_start_append(filename, c);
        if last_component_start(filename) < filename.len() {
            assert(last_component_start(f) < filename.len() < f.len() && f[filename.len() as int] == '.');
        }
    }
}

impl OJTools {
    /// The contents of a new code file at `filepath` made from `template`
    /// (see `replace_template`), with the configured author (empty when
    /// none is configured).
    pub fn gen_content(&self, template: String, filepath: &str) -> (res: Option<String>)
        ensures
            res is Some <==> (crate::path::path_file_stem(filepath@) is Some
                && crate::path::path_parent(filepath@) is Some),
            res matches Some(r) ==> exists|y: int, m: nat, d: nat|
                #![trigger crate::fill_template_spec(template@, crate::path::path_file_stem(filepath@)->0, filepath@, crate::path::path_parent(filepath@)->0, y, m, d, opt_text(self.config.author_name))]
                1 <= m <= 12 && 1 <= d <= 31 && r@ == crate::fill_template_spec(
                    template@,
                    crate::path::path_file_stem(filepath@)->0,
                    filepath@,
                    crate::path::path_parent(filepath@)->0,
                    y,
                    m,
                    d,
                    opt_text(self.config.author_name),
                ),
    {
        let author = match &self.config.author_name {
            Some(a) => a.clone(),
            None => String::new(),
        };
        let ghost t = template@;
        let res = crate::replace_template(template, filepath, author);
        proof {
            if res is Some {
                let r = res->0;
                let (y, m, d) = choose|y: int, m: nat, d: nat|
                    1 <= m <= 12 && 1 <= d <= 31 && r@ == #[trigger] crate::fill_template_spec(
                        t,
                        crate::path::path_file_stem(filepath@)->0,
                        filepath@,
                        crate::path::path_parent(filepath@)->0,
                        y,
                        m,
                        d,
                        author@,
                    );
                assert(r@ == crate::fill_template_spec(
                    t,
                    crate::path::path_file_stem(filepath@)->0,
                    filepath@,
                    crate::path::path_parent(filepath@)->0,
                    y,
                    m,
                    d,
                    opt_text(self.config.author_name),
                ));
            }
        }
        res
    }
}

} // verus!
