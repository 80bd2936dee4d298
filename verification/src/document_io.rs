use vstd::prelude::*;

verus! {

/// The final component of `path` that std's `Path::file_name` finds, as
/// text; `None` where it finds none (a path ending in "..", or the root).
pub uninterp spec fn path_file_name(path: Seq<char>) -> Option<Seq<char>>;

/// The position of the last `.` in `name`; -1 where it has none.
pub open spec fn last_dot(name: Seq<char>) -> int
    decreases name.len(),
{
    if name.len() == 0 {
        -1
    } else if name.last() == '.' {
        name.len() - 1
    } else {
        last_dot(name.drop_last())
    }
}

/// The stem of a file name, as std's `Path::file_stem` documents it: the
/// whole name where it has no `.` but at its start (and `..`, which std keeps
/// whole), otherwise the part before the last `.`.
pub open spec fn name_stem(name: Seq<char>) -> Seq<char> {
    if name == ".."@ || last_dot(name) <= 0 {
        name
    } else {
        name.take(last_dot(name))
    }
}

/// The final component of `path` without its extension, as std's
/// `Path::file_stem` finds it: the stem of its file name; `None` where the
/// path has no file name.
pub open spec fn path_file_stem(path: Seq<char>) -> Option<Seq<char>> {
    match path_file_name(path) {
        Some(name) => Some(name_stem(name)),
        None => None,
    }
}

proof fn lemma_last_dot(s: Seq<char>, k: int)
    requires
        0 <= k <= s.len(),
        forall|i: int| k <= i < s.len() ==> s[i] != '.',
        k == 0 || s[k - 1] == '.',
    ensures
        last_dot(s) == k - 1,
    decreases s.len(),
{
    if s.len() > k {
        lemma_last_dot(s.drop_last(), k);
    }
}

/// The stem of the file name `name`.
fn stem_of(name: &str) -> (stem: String)
    ensures
        stem@ == name_stem(name@),
{
    let n = name.unicode_len();
    let mut k = n;
    while k > 0 && name.get_char(k - 1) != '.'
        invariant
            n == name@.len(),
            k <= n,
            forall|i: int| k <= i < n ==> name@[i] != '.',
        decreases k,
    {
        k = k - 1;
    }
    proof {
        lemma_last_dot(name@, k as int);
        reveal_strlit("..");
    }
    if n == 2 && name.get_char(0) == '.' && name.get_char(1) == '.' {
        assert(name@ =~= ".."@);
        return String::from_str(name);
    }
    assert(name@ != ".."@) by {
        if name@ == ".."@ {
            assert(name@[0] == '.' && name@[1] == '.');
        }
    }
    if k <= 1 {
        String::from_str(name)
    } else {
        String::from_str(name.substring_char(0, k - 1))
    }
}

/// std's `Path::file_name` on a path given as text. A component of a path
/// given as text is text again, so the conversion back cannot fail. Trusted
/// to depend on the path alone.
#[verifier::external_body]
fn final_component(path: &str) -> (name: Option<String>)
    ensures
        name matches Some(n) ==> path_file_name(path@) == Some(n@),
        name is None ==> path_file_name(path@) is None,
{
    match std::path::Path::new(path).file_name() {
        Some(name) => match name.to_str() {
            Some(text) => Some(text.to_owned()),
            None => None,
        },
        None => None,
    }
}

/// The name a document is shown under: its file name, or "PDF" for a path
/// without one.
pub fn file_name(path: &str) -> (name: String)
    ensures
        name@ == match path_file_name(path@) {
            Some(n) => n,
            None => "PDF"@,
        },
{
    match final_component(path) {
        Some(name) => name,
        None => String::from_str("PDF"),
    }
}

/// The stem a "Save As" suggestion starts from: the file name without its
/// extension, or "document" for a path without one.
pub fn file_stem(path: &str) -> (stem: String)
    ensures
        stem@ == match path_file_stem(path@) {
            Some(s) => s,
            None => "document"@,
        },
{
    match final_component(path) {
        Some(name) => stem_of(name.as_str()),
        None => String::from_str("document"),
    }
}

/// The file name suggested when saving an edited copy: the stem followed by
/// "-edited.pdf".
pub fn edited_copy_name(path: &str) -> (name: String)
    ensures
        name@ == match path_file_stem(path@) {
            Some(s) => s,
            None => "document"@,
        } + "-edited.pdf"@,
{
    let mut name = file_stem(path);
    name.append("-edited.pdf");
    name
}

} // verus!
