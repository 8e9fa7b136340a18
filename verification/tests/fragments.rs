use vs_scaffold::code_file::{CodeFile, FileType};
use vs_scaffold::fragments::{
    append_groups, render_entry, Listing, FILTERS_CLOSE, GROUP_CLOSE, GROUP_OPEN, PROJECT_CLOSE,
};
use vs_scaffold::{append_second_part_filter, append_second_part_vcxproj};

fn file(name: &str, file_type: FileType) -> CodeFile {
    CodeFile { file_name: name.to_string(), file_type }
}

fn project_part(files: &Vec<CodeFile>) -> String {
    let mut text = String::new();
    append_second_part_vcxproj(files, &mut text);
    text
}

fn filters_part(files: &Vec<CodeFile>) -> String {
    let mut text = String::new();
    append_second_part_filter(files, &mut text);
    text
}

const PROJECT_END: &str = "\n  <Import Project=\"$(VCTargetsPath)\\Microsoft.Cpp.targets\" />\n  <ImportGroup Label=\"ExtensionTargets\">\n  </ImportGroup>\n</Project>";

#[test]
fn markers_are_as_the_documents_need_them() {
    assert_eq!(GROUP_OPEN, "\n  <ItemGroup>");
    assert_eq!(GROUP_CLOSE, "\n  </ItemGroup>");
    assert_eq!(PROJECT_CLOSE, PROJECT_END);
    assert_eq!(FILTERS_CLOSE, "\n</Project>");
}

#[test]
fn flat_entries_have_their_exact_shape() {
    assert_eq!(
        render_entry(&file("a.cpp", FileType::SOURCE), Listing::Flat),
        "    <ClCompile Include=\"a.cpp\" />"
    );
    assert_eq!(
        render_entry(&file("c.dat", FileType::TEXT), Listing::Flat),
        "    <Text Include=\"c.dat\" />"
    );
    assert_eq!(
        render_entry(&file("b.h", FileType::HEADER), Listing::Flat),
        "    <ClInclude Include=\"b.h\" />"
    );
}

#[test]
fn hierarchical_entries_have_their_exact_shape() {
    assert_eq!(
        render_entry(&file("a.cpp", FileType::SOURCE), Listing::Hierarchical),
        "    <ClCompile Include=\"a.cpp\">\n      <Filter>Source Files</Filter>\n    </ClCompile>"
    );
    assert_eq!(
        render_entry(&file("c.dat", FileType::TEXT), Listing::Hierarchical),
        "    <Text Include=\"c.dat\">\n      <Filter>Source Files</Filter>\n    </Text>"
    );
    assert_eq!(
        render_entry(&file("b.h", FileType::HEADER), Listing::Hierarchical),
        "    <ClInclude Include=\"b.h\">\n      <Filter>Header Files</Filter>\n    </ClInclude>"
    );
}

#[test]
fn a_name_is_taken_as_it_is() {
    assert_eq!(
        render_entry(&file("a&b \"c\".cpp", FileType::SOURCE), Listing::Flat),
        "    <ClCompile Include=\"a&b \"c\".cpp\" />"
    );
    assert_eq!(
        render_entry(&file("", FileType::HEADER), Listing::Flat),
        "    <ClInclude Include=\"\" />"
    );
    assert_eq!(
        render_entry(&file("gr\u{fc}\u{df}e.txt", FileType::TEXT), Listing::Flat),
        "    <Text Include=\"gr\u{fc}\u{df}e.txt\" />"
    );
}

#[test]
fn no_files_give_the_closing_alone() {
    assert_eq!(project_part(&vec![]), PROJECT_END);
    assert_eq!(filters_part(&vec![]), "\n</Project>");
}

#[test]
fn a_single_header_gives_a_single_group() {
    let text = project_part(&vec![file("foo.h", FileType::HEADER)]);
    assert_eq!(
        text,
        format!(
            "\n  <ItemGroup>\n    <ClInclude Include=\"foo.h\" />\n  </ItemGroup>{PROJECT_END}"
        )
    );
    assert_eq!(text.matches("<ItemGroup>").count(), 1);
    assert_eq!(text.matches("</ItemGroup>").count(), 1);
    assert_eq!(text.matches("foo.h").count(), 1);
    assert!(!text.contains("ClCompile"));
    assert!(!text.contains("<Text"));
}

#[test]
fn a_single_header_gives_a_single_group_of_filters() {
    let text = filters_part(&vec![file("foo.h", FileType::HEADER)]);
    assert_eq!(
        text,
        "\n  <ItemGroup>\n    <ClInclude Include=\"foo.h\">\n      <Filter>Header Files</Filter>\n    </ClInclude>\n  </ItemGroup>\n</Project>"
    );
}

#[test]
fn an_empty_category_leaves_no_markers() {
    let text = project_part(&vec![file("a.cpp", FileType::SOURCE), file("b.cpp", FileType::SOURCE)]);
    assert_eq!(text.matches("<ItemGroup>").count(), 1);
    assert!(!text.contains("ClInclude"));
    assert!(!text.contains("<Text"));
    let text = project_part(&vec![file("c.txt", FileType::TEXT)]);
    assert_eq!(text.matches("<ItemGroup>").count(), 1);
    assert!(!text.contains("ClInclude"));
    assert!(!text.contains("ClCompile"));
}

fn one_of_each_in_every_order() -> Vec<Vec<CodeFile>> {
    let s = file("a.cpp", FileType::SOURCE);
    let t = file("c.dat", FileType::TEXT);
    let h = file("b.h", FileType::HEADER);
    vec![
        vec![s.clone(), t.clone(), h.clone()],
        vec![s.clone(), h.clone(), t.clone()],
        vec![t.clone(), s.clone(), h.clone()],
        vec![t.clone(), h.clone(), s.clone()],
        vec![h.clone(), s.clone(), t.clone()],
        vec![h, t, s],
    ]
}

#[test]
fn groups_come_in_the_fixed_order_whatever_the_order_of_the_list() {
    let expected = format!(
        "\n  <ItemGroup>\n    <ClCompile Include=\"a.cpp\" />\n  </ItemGroup>\n  <ItemGroup>\n    <Text Include=\"c.dat\" />\n  </ItemGroup>\n  <ItemGroup>\n    <ClInclude Include=\"b.h\" />\n  </ItemGroup>{PROJECT_END}"
    );
    for files in one_of_each_in_every_order() {
        let text = project_part(&files);
        assert_eq!(text, expected);
        let compile = text.find("ClCompile").unwrap();
        let plain = text.find("<Text").unwrap();
        let header = text.find("ClInclude").unwrap();
        assert!(compile < plain && plain < header);
    }
}

#[test]
fn groups_of_filters_come_in_the_fixed_order_whatever_the_order_of_the_list() {
    let expected = "\n  <ItemGroup>\n    <ClCompile Include=\"a.cpp\">\n      <Filter>Source Files</Filter>\n    </ClCompile>\n  </ItemGroup>\n  <ItemGroup>\n    <Text Include=\"c.dat\">\n      <Filter>Source Files</Filter>\n    </Text>\n  </ItemGroup>\n  <ItemGroup>\n    <ClInclude Include=\"b.h\">\n      <Filter>Header Files</Filter>\n    </ClInclude>\n  </ItemGroup>\n</Project>";
    for files in one_of_each_in_every_order() {
        assert_eq!(filters_part(&files), expected);
    }
}

#[test]
fn files_keep_the_order_of_the_list_within_a_group() {
    let files = vec![
        file("z.cpp", FileType::SOURCE),
        file("y.h", FileType::HEADER),
        file("a.cpp", FileType::SOURCE),
        file("n.txt", FileType::TEXT),
        file("b.h", FileType::HEADER),
        file("m.cpp", FileType::SOURCE),
        file("d.dat", FileType::TEXT),
    ];
    assert_eq!(
        project_part(&files),
        format!(
            "\n  <ItemGroup>\n    <ClCompile Include=\"z.cpp\" />\n    <ClCompile Include=\"a.cpp\" />\n    <ClCompile Include=\"m.cpp\" />\n  </ItemGroup>\n  <ItemGroup>\n    <Text Include=\"n.txt\" />\n    <Text Include=\"d.dat\" />\n  </ItemGroup>\n  <ItemGroup>\n    <ClInclude Include=\"y.h\" />\n    <ClInclude Include=\"b.h\" />\n  </ItemGroup>{PROJECT_END}"
        )
    );
}

#[test]
fn a_file_listed_twice_is_emitted_twice() {
    let files = vec![file("a.cpp", FileType::SOURCE), file("a.cpp", FileType::SOURCE)];
    assert_eq!(
        project_part(&files),
        format!(
            "\n  <ItemGroup>\n    <ClCompile Include=\"a.cpp\" />\n    <ClCompile Include=\"a.cpp\" />\n  </ItemGroup>{PROJECT_END}"
        )
    );
}

#[test]
fn the_category_decides_the_group_not_the_name() {
    let files = vec![file("odd.h", FileType::SOURCE), file("odd.cpp", FileType::HEADER)];
    assert_eq!(
        project_part(&files),
        format!(
            "\n  <ItemGroup>\n    <ClCompile Include=\"odd.h\" />\n  </ItemGroup>\n  <ItemGroup>\n    <ClInclude Include=\"odd.cpp\" />\n  </ItemGroup>{PROJECT_END}"
        )
    );
}

#[test]
fn the_first_part_stays_in_front() {
    let mut text = String::from("<Project>\n  <PropertyGroup />");
    append_second_part_vcxproj(&vec![file("a.cpp", FileType::SOURCE)], &mut text);
    assert_eq!(
        text,
        format!(
            "<Project>\n  <PropertyGroup />\n  <ItemGroup>\n    <ClCompile Include=\"a.cpp\" />\n  </ItemGroup>{PROJECT_END}"
        )
    );
    let mut text = String::from("<Project>");
    append_second_part_filter(&vec![], &mut text);
    assert_eq!(text, "<Project>\n</Project>");
}

#[test]
fn a_first_part_that_looks_like_a_marker_changes_nothing() {
    let mut text = String::from("\n  <ItemGroup>");
    append_second_part_filter(&vec![], &mut text);
    assert_eq!(text, "\n  <ItemGroup>\n</Project>");
}

#[test]
fn groups_alone_have_no_closing() {
    let mut text = String::from("x");
    append_groups(&vec![file("b.h", FileType::HEADER)], &mut text, Listing::Flat);
    assert_eq!(text, "x\n  <ItemGroup>\n    <ClInclude Include=\"b.h\" />\n  </ItemGroup>");
    let mut text = String::from("x");
    append_groups(&vec![], &mut text, Listing::Hierarchical);
    assert_eq!(text, "x");
}

#[test]
fn appending_in_two_parts_keeps_each_group_in_list_order() {
    let first = vec![file("a.cpp", FileType::SOURCE), file("b.h", FileType::HEADER)];
    let second = vec![file("c.cpp", FileType::SOURCE)];
    let mut whole = first.clone();
    whole.extend(second.iter().cloned());
    let text = project_part(&whole);
    let a = text.find("a.cpp").unwrap();
    let c = text.find("c.cpp").unwrap();
    let b = text.find("b.h").unwrap();
    assert!(a < c && c < b);
}
