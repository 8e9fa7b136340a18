//! The part of a project or filters document that lists the files: one
//! `ItemGroup` per category that has files, in a fixed order of categories,
//! followed by the closing of the document.

use crate::code_file::{CodeFile, CodeFileView, FileType};
use crate::text::push_char;
use vstd::prelude::*;
use vstd::string::*;

verus! {

/// How a document lists a file.
#[derive(Clone, Copy, Debug, PartialEq, Eq, Structural)]
pub enum Listing {
    /// One self-closing element per file, as the project document has it.
    Flat,
    /// One element per file with the folder it is shown in, as the filters
    /// document has it.
    Hierarchical,
}

/// Opens a group of entries.
pub const GROUP_OPEN: &'static str = "\n  <ItemGroup>";

/// Closes a group of entries.
pub const GROUP_CLOSE: &'static str = "\n  </ItemGroup>";

/// What ends a project document behind its groups.
pub const PROJECT_CLOSE: &'static str =
    "\n  <Import Project=\"$(VCTargetsPath)\\Microsoft.Cpp.targets\" />\n  <ImportGroup Label=\"ExtensionTargets\">\n  </ImportGroup>\n</Project>";

/// What ends a filters document behind its groups.
pub const FILTERS_CLOSE: &'static str = "\n</Project>";

/// The element that lists a file of category `kind`.
pub open spec fn element_name(kind: FileType) -> Seq<char> {
    match kind {
        FileType::SOURCE => "ClCompile"@,
        FileType::TEXT => "Text"@,
        FileType::HEADER => "ClInclude"@,
    }
}

/// The folder under which a file of category `kind` is shown.
pub open spec fn folder_label(kind: FileType) -> Seq<char> {
    match kind {
        FileType::HEADER => "Header Files"@,
        FileType::SOURCE | FileType::TEXT => "Source Files"@,
    }
}

/// The entry of one file. The name is taken as it is.
pub open spec fn entry(file: CodeFileView, listing: Listing) -> Seq<char> {
    match listing {
        Listing::Flat => "    <"@ + element_name(file.file_type) + " Include=\""@ + file.file_name
            + "\" />"@,
        Listing::Hierarchical => "    <"@ + element_name(file.file_type) + " Include=\""@
            + file.file_name + "\">\n      <Filter>"@ + folder_label(file.file_type)
            + "</Filter>\n    </"@ + element_name(file.file_type) + ">"@,
    }
}

/// The entries of `files` one after the other, each on a line of its own.
pub open spec fn entries(files: Seq<CodeFileView>, listing: Listing) -> Seq<char>
    decreases files.len(),
{
    if files.len() == 0 {
        Seq::empty()
    } else {
        entries(files.drop_last(), listing) + seq!['\n'] + entry(files.last(), listing)
    }
}

/// The files of category `kind` among `files`, in the order of `files`.
pub open spec fn files_of(files: Seq<CodeFileView>, kind: FileType) -> Seq<CodeFileView> {
    files.filter(|file: CodeFileView| file.file_type == kind)
}

/// The group of category `kind`: nothing at all where `files` has no file of
/// that category, else the entries of those files between the two markers.
pub open spec fn group(files: Seq<CodeFileView>, kind: FileType, listing: Listing) -> Seq<char> {
    let members = files_of(files, kind);
    if members.len() == 0 {
        Seq::empty()
    } else {
        GROUP_OPEN@ + entries(members, listing) + GROUP_CLOSE@
    }
}

/// The groups of a document: sources first, then text, then headers.
pub open spec fn groups(files: Seq<CodeFileView>, listing: Listing) -> Seq<char> {
    group(files, FileType::SOURCE, listing) + group(files, FileType::TEXT, listing) + group(
        files,
        FileType::HEADER,
        listing,
    )
}

/// What ends a document behind its groups.
pub open spec fn closing(listing: Listing) -> Seq<char> {
    match listing {
        Listing::Flat => PROJECT_CLOSE@,
        Listing::Hierarchical => FILTERS_CLOSE@,
    }
}

/// Everything that follows the first part of a document.
pub open spec fn second_part(files: Seq<CodeFileView>, listing: Listing) -> Seq<char> {
    groups(files, listing) + closing(listing)
}

/// The group that holds the entry of `file` alone.
pub open spec fn group_of_one(file: CodeFileView, listing: Listing) -> Seq<char> {
    GROUP_OPEN@ + (seq!['\n'] + entry(file, listing)) + GROUP_CLOSE@
}

/// An empty list has no file of any category.
pub proof fn lemma_files_of_nothing(kind: FileType)
    ensures
        files_of(Seq::empty(), kind) == Seq::<CodeFileView>::empty(),
{
    reveal(Seq::filter);
    assert(files_of(Seq::empty(), kind) =~= Seq::<CodeFileView>::empty());
}

/// A group that has only been opened holds the opening marker and no entry.
pub proof fn lemma_no_files_no_entries(kind: FileType, listing: Listing)
    ensures
        GROUP_OPEN@ + entries(files_of(Seq::empty(), kind), listing) == GROUP_OPEN@,
{
    lemma_files_of_nothing(kind);
    assert(GROUP_OPEN@ + Seq::<char>::empty() =~= GROUP_OPEN@);
}

/// Adding a file to a list adds it to the files of its own category and to
/// no other.
pub proof fn lemma_files_of_push(files: Seq<CodeFileView>, file: CodeFileView, kind: FileType)
    ensures
        files_of(files.push(file), kind) == if file.file_type == kind {
            files_of(files, kind).push(file)
        } else {
            files_of(files, kind)
        },
{
    reveal(Seq::filter);
    assert(files.push(file).drop_last() =~= files);
}

/// The entries of a list that has grown by one file.
pub proof fn lemma_entries_push(files: Seq<CodeFileView>, file: CodeFileView, listing: Listing)
    ensures
        entries(files.push(file), listing) == entries(files, listing) + seq!['\n'] + entry(
            file,
            listing,
        ),
{
    assert(files.push(file).drop_last() =~= files);
}

/// Entries take room: there is text exactly where there are files.
pub proof fn lemma_entries_empty(files: Seq<CodeFileView>, listing: Listing)
    ensures
        entries(files, listing).len() == 0 <==> files.len() == 0,
    decreases files.len(),
{
    if files.len() > 0 {
        lemma_entries_empty(files.drop_last(), listing);
    }
}

/// A category of which `files` has no file leaves no trace in the document,
/// not even its two markers.
pub proof fn lemma_absent_category_emits_nothing(
    files: Seq<CodeFileView>,
    kind: FileType,
    listing: Listing,
)
    requires
        forall|i: int| 0 <= i < files.len() ==> (#[trigger] files[i]).file_type != kind,
    ensures
        group(files, kind, listing) == Seq::<char>::empty(),
    decreases files.len(),
{
    reveal(Seq::filter);
    if files.len() > 0 {
        lemma_absent_category_emits_nothing(files.drop_last(), kind, listing);
    }
}

/// A category of which `files` has a file is emitted with both markers.
pub proof fn lemma_present_category_is_emitted(
    files: Seq<CodeFileView>,
    kind: FileType,
    listing: Listing,
)
    requires
        exists|i: int| 0 <= i < files.len() && (#[trigger] files[i]).file_type == kind,
    ensures
        group(files, kind, listing) == GROUP_OPEN@ + entries(files_of(files, kind), listing)
            + GROUP_CLOSE@,
        files_of(files, kind).len() > 0,
    decreases files.len(),
{
    reveal(Seq::filter);
    let i = choose|i: int| 0 <= i < files.len() && (#[trigger] files[i]).file_type == kind;
    if i < files.len() - 1 {
        assert(files.drop_last()[i] == files[i]);
        lemma_present_category_is_emitted(files.drop_last(), kind, listing);
    }
}

/// Within a group the files keep the order of the list: the entries of a
/// category in a list made of two parts are those of the first part, then
/// those of the second.
pub proof fn lemma_entries_follow_list_order(
    first: Seq<CodeFileView>,
    second: Seq<CodeFileView>,
    kind: FileType,
    listing: Listing,
)
    ensures
        entries(files_of(first + second, kind), listing) == entries(files_of(first, kind), listing)
            + entries(files_of(second, kind), listing),
    decreases second.len(),
{
    if second.len() == 0 {
        lemma_files_of_nothing(kind);
        assert(first + second =~= first);
        assert(second =~= Seq::<CodeFileView>::empty());
        assert(entries(files_of(first, kind), listing) + Seq::<char>::empty() =~= entries(
            files_of(first, kind),
            listing,
        ));
    } else {
        let front = second.drop_last();
        let file = second.last();
        assert(front.push(file) =~= second);
        assert((first + front).push(file) =~= first + second);
        lemma_entries_follow_list_order(first, front, kind, listing);
        lemma_files_of_push(first + front, file, kind);
        lemma_files_of_push(front, file, kind);
        if file.file_type == kind {
            lemma_entries_push(files_of(first + front, kind), file, listing);
            lemma_entries_push(files_of(front, kind), file, listing);
            assert(entries(files_of(first + second, kind), listing) =~= entries(
                files_of(first, kind),
                listing,
            ) + entries(files_of(second, kind), listing));
        }
    }
}

/// The files of one category in a list of one file.
proof fn lemma_files_of_one(file: CodeFileView, kind: FileType)
    ensures
        files_of(seq![file], kind) == if file.file_type == kind {
            seq![file]
        } else {
            Seq::<CodeFileView>::empty()
        },
{
    lemma_files_of_push(Seq::empty(), file, kind);
    lemma_files_of_nothing(kind);
    assert(Seq::<CodeFileView>::empty().push(file) =~= seq![file]);
}

/// The entries of a list of one file.
proof fn lemma_entries_of_one(file: CodeFileView, listing: Listing)
    ensures
        entries(seq![file], listing) == seq!['\n'] + entry(file, listing),
{
    lemma_entries_push(Seq::empty(), file, listing);
    assert(Seq::<CodeFileView>::empty().push(file) =~= seq![file]);
    assert(entries(Seq::empty(), listing) + seq!['\n'] + entry(file, listing) =~= seq!['\n']
        + entry(file, listing));
}

/// In a list of three files, a file that is the only one of its category
/// is all that its category holds.
proof fn lemma_sole_member(files: Seq<CodeFileView>, at: int)
    requires
        files.len() == 3,
        0 <= at < 3,
        forall|i: int|
            0 <= i < 3 && i != at ==> (#[trigger] files[i]).file_type != files[at].file_type,
    ensures
        files_of(files, files[at].file_type) == seq![files[at]],
{
    let kind = files[at].file_type;
    let a = seq![files[0]];
    let b = a.push(files[1]);
    assert(b.push(files[2]) =~= files);
    lemma_files_of_one(files[0], kind);
    lemma_files_of_push(a, files[1], kind);
    lemma_files_of_push(b, files[2], kind);
    assert(Seq::<CodeFileView>::empty().push(files[at]) =~= seq![files[at]]);
}

/// The order of the groups is fixed. Given one file of each category, in
/// whatever order the list has them, the document holds the group of the
/// source file, then that of the text file, then that of the header.
pub proof fn lemma_group_order_is_fixed(
    files: Seq<CodeFileView>,
    source: CodeFileView,
    text: CodeFileView,
    header: CodeFileView,
    listing: Listing,
)
    requires
        files.len() == 3,
        files.contains(source),
        files.contains(text),
        files.contains(header),
        source.file_type == FileType::SOURCE,
        text.file_type == FileType::TEXT,
        header.file_type == FileType::HEADER,
    ensures
        groups(files, listing) == group_of_one(source, listing) + group_of_one(text, listing)
            + group_of_one(header, listing),
{
    let s = choose|i: int| 0 <= i < files.len() && files[i] == source;
    let t = choose|i: int| 0 <= i < files.len() && files[i] == text;
    let h = choose|i: int| 0 <= i < files.len() && files[i] == header;
    lemma_sole_member(files, s);
    lemma_sole_member(files, t);
    lemma_sole_member(files, h);
    lemma_entries_of_one(source, listing);
    lemma_entries_of_one(text, listing);
    lemma_entries_of_one(header, listing);
}

/// The name of the element that lists a file of category `kind`.
fn element_name_of(kind: FileType) -> (r: &'static str)
    ensures
        r@ == element_name(kind),
{
    match kind {
        FileType::SOURCE => "ClCompile",
        FileType::TEXT => "Text",
        FileType::HEADER => "ClInclude",
    }
}

/// The label of the folder under which a file of category `kind` is shown.
fn folder_label_of(kind: FileType) -> (r: &'static str)
    ensures
        r@ == folder_label(kind),
{
    match kind {
        FileType::HEADER => "Header Files",
        FileType::SOURCE | FileType::TEXT => "Source Files",
    }
}

/// Renders the entry of one file.
pub fn render_entry(file: &CodeFile, listing: Listing) -> (r: String)
    ensures
        r@ == entry(file@, listing),
{
    let element = element_name_of(file.file_type);
    let mut r = String::from_str("    <");
    r.append(element);
    r.append(" Include=\"");
    r.append(file.file_name.as_str());
    match listing {
        Listing::Flat => {
            r.append("\" />");
        },
        Listing::Hierarchical => {
            r.append("\">\n      <Filter>");
            r.append(folder_label_of(file.file_type));
            r.append("</Filter>\n    </");
            r.append(element);
            r.append(">");
        },
    }
    r
}

/// Closes the group that `group_text` has grown into and appends it, unless
/// no entry has been added to it: then nothing is appended.
fn append_group(
    first_part: &mut String,
    group_text: String,
    Ghost(members): Ghost<Seq<CodeFileView>>,
    listing: Listing,
)
    requires
        group_text@ == GROUP_OPEN@ + entries(members, listing),
    ensures
        final(first_part)@ == old(first_part)@ + if members.len() == 0 {
            Seq::<char>::empty()
        } else {
            GROUP_OPEN@ + entries(members, listing) + GROUP_CLOSE@
        },
{
    let mut group_text = group_text;
    let item_group = String::from_str(GROUP_OPEN);
    proof {
        lemma_entries_empty(members, listing);
        if members.len() == 0 {
            assert(group_text@ =~= GROUP_OPEN@);
        } else {
            assert(group_text@.len() > GROUP_OPEN@.len());
        }
    }
    if !(group_text == item_group) {
        group_text.append(GROUP_CLOSE);
        first_part.append(group_text.as_str());
    } else {
        assert(old(first_part)@ + Seq::<char>::empty() =~= old(first_part)@);
    }
}

/// Appends the groups of `code_files` to `first_part`: the files are parted
/// by category, each part keeps the order of the list, and a part without
/// files is left out with its markers.
pub fn append_groups(code_files: &Vec<CodeFile>, first_part: &mut String, listing: Listing)
    ensures
        final(first_part)@ == old(first_part)@ + groups(code_files.deep_view(), listing),
{
    let ghost files = code_files.deep_view();
    let item_group = String::from_str(GROUP_OPEN);
    let mut compile = item_group.clone();
    let mut text = item_group.clone();
    let mut header = item_group.clone();
    proof {
        assert(files.take(0) =~= Seq::<CodeFileView>::empty());
        lemma_no_files_no_entries(FileType::SOURCE, listing);
        lemma_no_files_no_entries(FileType::TEXT, listing);
        lemma_no_files_no_entries(FileType::HEADER, listing);
    }
    let mut i: usize = 0;
    while i < code_files.len()
        invariant
            i <= code_files.len(),
            files == code_files.deep_view(),
            compile@ == GROUP_OPEN@ + entries(
                files_of(files.take(i as int), FileType::SOURCE),
                listing,
            ),
            text@ == GROUP_OPEN@ + entries(files_of(files.take(i as int), FileType::TEXT), listing),
            header@ == GROUP_OPEN@ + entries(
                files_of(files.take(i as int), FileType::HEADER),
                listing,
            ),
        decreases code_files.len() - i,
    {
        let file = &code_files[i];
        let rendered = render_entry(file, listing);
        proof {
            let seen = files.take(i as int);
            assert(files.take(i + 1) =~= seen.push(file@));
            lemma_files_of_push(seen, file@, FileType::SOURCE);
            lemma_files_of_push(seen, file@, FileType::TEXT);
            lemma_files_of_push(seen, file@, FileType::HEADER);
            lemma_entries_push(files_of(seen, file.file_type), file@, listing);
        }
        match file.file_type {
            FileType::SOURCE => {
                push_char(&mut compile, '\n');
                compile.append(rendered.as_str());
                assert(compile@ =~= GROUP_OPEN@ + entries(
                    files_of(files.take(i + 1), FileType::SOURCE),
                    listing,
                ));
            },
            FileType::TEXT => {
                push_char(&mut text, '\n');
                text.append(rendered.as_str());
                assert(text@ =~= GROUP_OPEN@ + entries(
                    files_of(files.take(i + 1), FileType::TEXT),
                    listing,
                ));
            },
            FileType::HEADER => {
                push_char(&mut header, '\n');
                header.append(rendered.as_str());
                assert(header@ =~= GROUP_OPEN@ + entries(
                    files_of(files.take(i + 1), FileType::HEADER),
                    listing,
                ));
            },
        }
        i += 1;
    }
    assert(files.take(i as int) =~= files);
    let ghost before = first_part@;
    append_group(first_part, compile, Ghost(files_of(files, FileType::SOURCE)), listing);
    append_group(first_part, text, Ghost(files_of(files, FileType::TEXT)), listing);
    append_group(first_part, header, Ghost(files_of(files, FileType::HEADER)), listing);
    assert(first_part@ =~= before + groups(files, listing));
}

/// Appends to the first part of a project document what follows it: the
/// groups of `code_files`, listed flat, and the closing of the document.
pub fn append_second_part_vcxproj(code_files: &Vec<CodeFile>, first_part: &mut String)
    ensures
        final(first_part)@ == old(first_part)@ + second_part(
            code_files.deep_view(),
            Listing::Flat,
        ),
{
    append_groups(code_files, first_part, Listing::Flat);
    first_part.append(PROJECT_CLOSE);
    assert(first_part@ =~= old(first_part)@ + second_part(code_files.deep_view(), Listing::Flat));
}

/// Appends to the first part of a filters document what follows it: the
/// groups of `code_files`, each entry with its folder, and the closing of
/// the document.
pub fn append_second_part_filter(code_files: &Vec<CodeFile>, first_part: &mut String)
    ensures
        final(first_part)@ == old(first_part)@ + second_part(
            code_files.deep_view(),
            Listing::Hierarchical,
        ),
{
    append_groups(code_files, first_part, Listing::Hierarchical);
    first_part.append(FILTERS_CLOSE);
    assert(first_part@ =~= old(first_part)@ + second_part(
        code_files.deep_view(),
        Listing::Hierarchical,
    ));
}

} // verus!
