//! The files that make up a project, and the rule that decides which
//! directory entries belong to it.

use crate::text::same_text;
use vstd::prelude::*;

verus! {

/// The category of an accepted file.
#[allow(non_camel_case_types)]
#[derive(Clone, Copy, Debug, PartialEq, Eq, Structural)]
pub enum FileType {
    /// A source file handed to the compiler.
    SOURCE,
    /// A header.
    HEADER,
    /// Plain text or data, listed but not compiled.
    TEXT,
}

/// One accepted file: its base name, extension included, and its category.
#[derive(Debug, PartialEq, Eq)]
pub struct CodeFile {
    pub file_name: String,
    pub file_type: FileType,
}

/// A [`CodeFile`] as the contracts see it: the characters of its name and
/// its category.
pub struct CodeFileView {
    pub file_name: Seq<char>,
    pub file_type: FileType,
}

impl View for CodeFile {
    type V = CodeFileView;

    open spec fn view(&self) -> CodeFileView {
        CodeFileView { file_name: self.file_name@, file_type: self.file_type }
    }
}

impl DeepView for CodeFile {
    type V = CodeFileView;

    open spec fn deep_view(&self) -> CodeFileView {
        self.view()
    }
}

impl Clone for CodeFile {
    fn clone(&self) -> (r: Self)
        ensures
            r@ == self@,
    {
        CodeFile { file_name: self.file_name.clone(), file_type: self.file_type }
    }
}

/// What classification does with an extension: the four recognised
/// extensions, compared exactly, and nothing else.
pub open spec fn classify_spec(extension: Option<Seq<char>>) -> Option<FileType> {
    match extension {
        Some(e) => if e == "cpp"@ {
            Some(FileType::SOURCE)
        } else if e == "h"@ {
            Some(FileType::HEADER)
        } else if e == "dat"@ || e == "txt"@ {
            Some(FileType::TEXT)
        } else {
            None
        },
        None => None,
    }
}

/// The characters of an optional extension.
pub open spec fn extension_view(extension: Option<&str>) -> Option<Seq<char>> {
    match extension {
        Some(e) => Some(e@),
        None => None,
    }
}

/// Maps a file's extension to its category. An unrecognised or absent
/// extension gives `None`: the caller leaves the file out.
pub fn classify(extension: Option<&str>) -> (r: Option<FileType>)
    ensures
        r == classify_spec(extension_view(extension)),
{
    match extension {
        Some(e) => {
            if same_text(e, "cpp") {
                Some(FileType::SOURCE)
            } else if same_text(e, "h") {
                Some(FileType::HEADER)
            } else if same_text(e, "dat") || same_text(e, "txt") {
                Some(FileType::TEXT)
            } else {
                None
            }
        },
        None => None,
    }
}

/// Whether `c` is an ASCII lower-case letter.
pub open spec fn is_lower_case_letter(c: char) -> bool {
    'a' <= c && c <= 'z'
}

/// Classification is case-sensitive: an extension is recognised only if
/// every character of it is a lower-case letter, so spelling a recognised
/// extension with any upper-case letter leaves the file out.
pub proof fn lemma_classify_is_case_sensitive(extension: Seq<char>)
    requires
        exists|i: int| 0 <= i < extension.len() && !is_lower_case_letter(#[trigger] extension[i]),
    ensures
        classify_spec(Some(extension)) is None,
{
    reveal_strlit("cpp");
    reveal_strlit("h");
    reveal_strlit("dat");
    reveal_strlit("txt");
}

/// The recognised extensions and their categories, one by one; every other
/// extension, and an absent one, is left out.
pub proof fn lemma_classify_table(extension: Option<Seq<char>>)
    ensures
        extension == Some("cpp"@) ==> classify_spec(extension) == Some(FileType::SOURCE),
        extension == Some("h"@) ==> classify_spec(extension) == Some(FileType::HEADER),
        extension == Some("dat"@) ==> classify_spec(extension) == Some(FileType::TEXT),
        extension == Some("txt"@) ==> classify_spec(extension) == Some(FileType::TEXT),
        extension != Some("cpp"@) && extension != Some("h"@) && extension != Some("dat"@)
            && extension != Some("txt"@) ==> classify_spec(extension) is None,
{
    reveal_strlit("cpp");
    reveal_strlit("h");
    reveal_strlit("dat");
    reveal_strlit("txt");
    assert("cpp"@.len() == 3 && "h"@.len() == 1);
    assert("cpp"@[0] == 'c' && "dat"@[0] == 'd' && "txt"@[0] == 't');
}

} // verus!
