//! The three documents of a project, each made from a skeleton: the
//! solution, the project and the filters.

use crate::code_file::CodeFile;
use crate::fragments::{append_second_part_filter, append_second_part_vcxproj, second_part, Listing};
use crate::text::{occurs_in, replace_token, replaced};
use vstd::prelude::*;
use vstd::string::*;

verus! {

/// Stands in a skeleton for the name of the project.
pub const NAME_TOKEN: &'static str = "NAME";

/// Stands in a skeleton for the identifier of the project.
pub const PROJECT_ID_TOKEN: &'static str = "PROJECTID";

/// Stands in a skeleton for the identifier of the solution.
pub const SOLUTION_ID_TOKEN: &'static str = "SOLUTIONID";

/// The files that a project is written to.
#[derive(Clone, Copy, Debug, PartialEq, Eq, Structural)]
pub enum Document {
    /// The solution, which names the project.
    Solution,
    /// The project, which lists the files to build.
    Project,
    /// The filters, which say in which folder each file is shown.
    Filters,
    /// The settings of one user, which start out empty.
    UserSettings,
}

/// What follows the project's name in the name of a document's file.
pub open spec fn file_suffix(document: Document) -> Seq<char> {
    match document {
        Document::Solution => ".sln"@,
        Document::Project => ".vcxproj"@,
        Document::Filters => ".vcxproj.filters"@,
        Document::UserSettings => ".vcxproj.user"@,
    }
}

/// The name of the file that holds `document` for the project
/// `project_name`: the project's name as it is, then the document's suffix.
pub fn file_name(project_name: &str, document: Document) -> (r: String)
    ensures
        r@ == project_name@ + file_suffix(document),
{
    let mut r = String::from_str(project_name);
    match document {
        Document::Solution => r.append(".sln"),
        Document::Project => r.append(".vcxproj"),
        Document::Filters => r.append(".vcxproj.filters"),
        Document::UserSettings => r.append(".vcxproj.user"),
    }
    r
}

/// What `AhoCorasick::replace_all` returns for a haystack, on an automaton
/// that `AhoCorasick::new` built from `patterns`, where `replace_with` holds
/// one replacement for each pattern.
pub uninterp spec fn replace_all_result(
    patterns: Seq<Seq<char>>,
    haystack: Seq<char>,
    replace_with: Seq<Seq<char>>,
) -> Seq<char>;

/// Replaces in one pass over `haystack` each match of one of `patterns` by
/// the replacement that stands at the pattern's index.
///
/// Trusted: the body is `aho_corasick::AhoCorasick::new` on the patterns,
/// then `AhoCorasick::replace_all` on the automaton it gives. The contract
/// gives the result a name, which claims that it is determined by the
/// patterns, the haystack and the replacements. Of what the result holds it
/// claims one thing: `replace_all` copies the haystack but for its matches,
/// and a haystack in which no pattern stands has no match, so it comes back
/// as it is. `replace_all` panics where the replacements are not as many as
/// the patterns. It cuts the haystack at the ends of each match, and an
/// empty pattern matches inside a character of several bytes, where a
/// string cannot be cut: both are left out.
#[verifier::external_body]
fn replace_all(patterns: &Vec<&str>, haystack: &str, replace_with: &Vec<&str>) -> (r: String)
    requires
        patterns.len() == replace_with.len(),
        forall|i: int| 0 <= i < patterns.len() ==> (#[trigger] patterns[i])@.len() > 0,
    ensures
        r@ == replace_all_result(patterns.deep_view(), haystack@, replace_with.deep_view()),
        (forall|i: int|
            0 <= i < patterns.len() ==> !occurs_in((#[trigger] patterns[i])@, haystack@)) ==> r@
            == haystack@,
{
    aho_corasick::AhoCorasick::new(patterns).replace_all(haystack, replace_with)
}

/// The tokens of a solution document, in the order of their values.
pub open spec fn solution_tokens() -> Seq<Seq<char>> {
    seq![NAME_TOKEN@, PROJECT_ID_TOKEN@, SOLUTION_ID_TOKEN@]
}

/// The solution document: the skeleton, in which one pass has replaced
/// each `NAME` by the project's name, each `PROJECTID` by the project's
/// identifier and each `SOLUTIONID` by the solution's identifier. A token
/// that the skeleton does not hold is no error, and a skeleton that holds
/// none of them is the document.
pub fn solution_document(
    skeleton: &str,
    project_name: &str,
    project_id: &str,
    solution_id: &str,
) -> (r: String)
    ensures
        r@ == replace_all_result(
            solution_tokens(),
            skeleton@,
            seq![project_name@, project_id@, solution_id@],
        ),
        !occurs_in(NAME_TOKEN@, skeleton@) && !occurs_in(PROJECT_ID_TOKEN@, skeleton@)
            && !occurs_in(SOLUTION_ID_TOKEN@, skeleton@) ==> r@ == skeleton@,
{
    let patterns: Vec<&str> = vec![NAME_TOKEN, PROJECT_ID_TOKEN, SOLUTION_ID_TOKEN];
    let replace_with: Vec<&str> = vec![project_name, project_id, solution_id];
    proof {
        reveal_strlit("NAME");
        reveal_strlit("PROJECTID");
        reveal_strlit("SOLUTIONID");
        assert(patterns.deep_view() =~= solution_tokens());
        assert(replace_with.deep_view() =~= seq![project_name@, project_id@, solution_id@]);
    }
    replace_all(&patterns, skeleton, &replace_with)
}

/// The project document: the skeleton with each `PROJECTID` replaced by the
/// project's identifier, then the groups of `code_files`, listed flat, and
/// the closing of the document.
pub fn project_document(skeleton: &str, project_id: &str, code_files: &Vec<CodeFile>) -> (r: String)
    ensures
        r@ == replaced(skeleton@, PROJECT_ID_TOKEN@, project_id@) + second_part(
            code_files.deep_view(),
            Listing::Flat,
        ),
{
    let mut contents = replace_token(skeleton, PROJECT_ID_TOKEN, project_id);
    append_second_part_vcxproj(code_files, &mut contents);
    contents
}

/// The filters document: the skeleton as it is, then the groups of
/// `code_files`, each entry with its folder, and the closing of the
/// document.
pub fn filters_document(skeleton: &str, code_files: &Vec<CodeFile>) -> (r: String)
    ensures
        r@ == skeleton@ + second_part(code_files.deep_view(), Listing::Hierarchical),
{
    let mut contents = String::from_str(skeleton);
    append_second_part_filter(code_files, &mut contents);
    contents
}

} // verus!
