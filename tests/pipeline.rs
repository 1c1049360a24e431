use rustler::cli::CommandLineArgs;
use rustler::code_patch::{todos_text, CodePatch, CodePatchType};
use rustler::comment_type::{is_comment, CommentType};
use rustler::line::Line;
use rustler::markdown::BuilderError;
use rustler::marked_section::MarkedSection;
use rustler::output_block::OutputBlock;
use rustler::output_formatter::{
    block_is_renderable, check_block, get_code_block_name_from_extension, get_header_str_for_block_type,
    get_markdown_output_str, get_output_str_for_block, marked_sections_to_markdown,
};
use rustler::parsed_data::{ParseData, ParsedDirectory, ParsedFile};
use rustler::parser::{non_empty_lines, path_should_be_skipped};
use rustler::printer::{displayed_sections, is_displayed, separator, ConsolePrinter};
use rustler::text::{join_words, split_words, trim};
use rustler::tokenized_line::TokenizedLine;

fn file(name: &str, lines: &[&str]) -> ParsedFile {
    ParsedFile {
        filename: name.to_string(),
        lines: lines.iter().map(|l| l.to_string()).collect(),
    }
}

fn sections_of(lines: &[&str], context: usize) -> Vec<MarkedSection> {
    MarkedSection::unpack_lines(ParseData::File(file("main.rs", lines)), context)
}

fn blocks_of(sections: Vec<MarkedSection>) -> Vec<OutputBlock> {
    sections.into_iter().map(OutputBlock::from_marked_section).collect()
}

#[test]
fn todo_window_with_one_line_of_context() {
    let sections = sections_of(&["a", "// TODO fix this", "b"], 1);
    assert_eq!(sections.len(), 1);
    let section = &sections[0];
    assert_eq!(section.lines.len(), 3);
    assert!(section.comment_type == CommentType::Todo);
    assert_eq!(section.title_xxx, "main.rs");
    let numbers: Vec<usize> = section.lines.iter().map(|l| l.number).collect();
    assert_eq!(numbers, vec![0, 1, 2]);
    let special: Vec<bool> = section.lines.iter().map(|l| l.is_special).collect();
    assert_eq!(special, vec![false, true, false]);
    assert_eq!(section.lines[1].content, "// TODO fix this");

    let markdown = get_markdown_output_str(blocks_of(sections), None);
    assert_eq!(
        markdown,
        "- [ ] #### // TODO fix this\n\t\n\t- ##### Context for `TODO` in `line #1`\n\t\n\t\t- ```\n\t\t\t```\n\n"
    );
}

#[test]
fn todo_window_without_context() {
    let sections = sections_of(&["a", "// TODO fix this", "b"], 0);
    assert_eq!(sections.len(), 1);
    assert_eq!(sections[0].lines.len(), 1);
    assert!(sections[0].lines[0].is_special);
    let markdown = get_markdown_output_str(blocks_of(sections), None);
    assert_eq!(markdown, "- [ ] #### // TODO fix this\n\t");
}

#[test]
fn rust_extension_tags_the_fence() {
    let sections = sections_of(&["let x = 1;", "// TODO fix this"], 1);
    let markdown = get_markdown_output_str(blocks_of(sections), Some("rs"));
    assert_eq!(
        markdown,
        "- [ ] #### // TODO fix this\n\t\n\t- ##### Context for `TODO` in `line #1`\n\t\n\t\t- ```rust\n\t\t\tlet x = 1;\n\t\t\t```\n\n"
    );
}

#[test]
fn xxx_filter_hides_todo_sections_but_export_keeps_them() {
    let sections = sections_of(&["x = 1", "# TODO one", "y = 2", "# todo two"], 1);
    assert_eq!(sections.len(), 2);
    let filter = CommentType::get_display_type("xxx");
    assert!(filter == CommentType::XXX);
    assert!(displayed_sections(&sections, filter).is_empty());
    let printer = ConsolePrinter::new(ansi_term::Colour::Purple);
    assert_eq!(printer.console_lines(&sections, filter), vec!["-".repeat(80)]);
    let markdown = marked_sections_to_markdown(sections, Some("py")).unwrap();
    assert!(markdown.contains("#### # TODO one"));
    assert!(markdown.contains("#### # todo two"));
    assert!(markdown.contains("- ```python"));
}

#[test]
fn filter_all_shows_every_section() {
    let sections = sections_of(&["// NOTE a", "// FIXME b", "// XXX c"], 0);
    let all = CommentType::get_display_type("all");
    assert_eq!(displayed_sections(&sections, all), vec![0, 1, 2]);
    assert_eq!(displayed_sections(&sections, CommentType::Fixme), vec![1]);
    assert!(is_displayed(CommentType::Other, CommentType::Note));
    assert!(!is_displayed(CommentType::Todo, CommentType::Note));
}

#[test]
fn todo_wins_over_fixme() {
    assert!(CommentType::get_special_line_type("// fixme: todo later") == CommentType::Todo);
    assert!(CommentType::get_special_line_type("// FIXME and TODO") == CommentType::Todo);
    assert!(CommentType::get_special_line_type("// Note the xxx") == CommentType::Note);
    assert!(CommentType::get_special_line_type("plain text") == CommentType::Other);
}

#[test]
fn classification_ignores_case() {
    assert!(CommentType::get_special_line_type("// ToDo: tidy") == CommentType::Todo);
    assert!(CommentType::get_special_line_type("# XxX") == CommentType::XXX);
    assert!(CommentType::from_lowercase("// todo") == CommentType::Todo);
    assert!(CommentType::from_lowercase("// TODO") == CommentType::Other);
}

#[test]
fn substring_markers_match() {
    assert!(CommentType::get_special_line_type("// see todoist") == CommentType::Todo);
    assert!(CommentType::get_special_line_type("// keynote") == CommentType::Note);
}

#[test]
fn filter_tokens_resolve_exactly() {
    assert!(CommentType::get_display_type("todo") == CommentType::Todo);
    assert!(CommentType::get_display_type("fixme") == CommentType::Fixme);
    assert!(CommentType::get_display_type("note") == CommentType::Note);
    assert!(CommentType::get_display_type("xxx") == CommentType::XXX);
    assert!(CommentType::get_display_type("TODO") == CommentType::Other);
    assert!(CommentType::get_display_type("all") == CommentType::Other);
    assert!(CommentType::get_display_type("") == CommentType::Other);
}

#[test]
fn marked_lines_must_be_comments() {
    assert!(CommentType::check_line_special("// TODO"));
    assert!(CommentType::check_line_special("/** NOTE */"));
    assert!(CommentType::check_line_special("\"\"\" xxx"));
    assert!(!CommentType::check_line_special("let todo = 1;"));
    assert!(!CommentType::check_line_special("// nothing here"));
    assert!(is_comment("x # y"));
    assert!(!is_comment("x / y"));
}

#[test]
fn comment_type_names() {
    assert_eq!(CommentType::XXX.name(), "XXX");
    assert_eq!(CommentType::Fixme.name(), "Fixme");
    assert_eq!(CommentType::Fixme.upper_name(), "FIXME");
    assert_eq!(CommentType::Other.upper_name(), "OTHER");
}

#[test]
fn words_round_trip() {
    for line in ["// TODO fix this", "a  b", " lead", "trail ", "", "one"] {
        let words = split_words(line);
        assert_eq!(join_words(&words), line);
    }
    assert_eq!(split_words("a  b"), vec!["a", "", "b"]);
    assert_eq!(split_words(""), vec![""]);
    assert_eq!(split_words("x\ty z"), vec!["x\ty", "z"]);
}

#[test]
fn tokenized_line_keeps_words_and_marks() {
    let t = TokenizedLine::from_code_line("// TODO fix".to_string(), 7);
    assert_eq!(t.line_number, 7);
    assert_eq!(t.tokenized_line, vec!["//", "TODO", "fix"]);
    assert!(t.is_special);
    let plain = TokenizedLine::from_code_line("let a = b;".to_string(), 8);
    assert!(!plain.is_special);
}

#[test]
fn window_is_clipped_at_file_edges() {
    let lines = [
        "// TODO first", "a", "b", "c", "d", "// NOTE middle", "e", "f", "g", "// XXX last",
    ];
    let sections = sections_of(&lines, 2);
    let lengths: Vec<usize> = sections.iter().map(|s| s.lines.len()).collect();
    assert_eq!(lengths, vec![3, 5, 3]);
    for s in &sections {
        assert!(s.lines.len() <= 2 * 2 + 1);
        assert_eq!(s.lines.iter().filter(|l| l.is_special).count(), 1);
    }
    let huge = sections_of(&lines, usize::MAX);
    assert_eq!(huge[1].lines.len(), lines.len());
}

#[test]
fn empty_input_gives_no_sections() {
    assert!(sections_of(&[], 3).is_empty());
}

#[test]
fn overlapping_windows_are_kept_apart() {
    let sections = sections_of(&["// TODO a", "// TODO b"], 1);
    assert_eq!(sections.len(), 2);
    assert_eq!(sections[0].lines.len(), 2);
    assert!(sections[0].lines[0].is_special && !sections[0].lines[1].is_special);
    assert!(!sections[1].lines[0].is_special && sections[1].lines[1].is_special);
}

#[test]
fn lines_are_trimmed() {
    let sections = sections_of(&["    // TODO indented  ", "\tx = 1"], 1);
    assert_eq!(sections[0].lines[0].content, "// TODO indented");
    assert_eq!(sections[0].lines[1].content, "x = 1");
    let line = Line::new("  spaced out \u{3000}", 4, false);
    assert_eq!(line.content, "spaced out");
    assert_eq!(trim(" \t\n "), "");
}

#[test]
fn directory_sections_follow_file_order() {
    let dir = ParsedDirectory {
        directory_path: "src".to_string(),
        files: vec![
            file("a.rs", &["// TODO a1", "x", "// FIXME a2"]),
            file("b.rs", &["nothing"]),
            file("c.rs", &["// NOTE c1"]),
        ],
    };
    let sections = MarkedSection::unpack_lines(ParseData::Directory(dir), 0);
    let names: Vec<&str> = sections.iter().map(|s| s.title_xxx.as_str()).collect();
    assert_eq!(names, vec!["a.rs", "a.rs", "c.rs"]);
    assert!(sections[1].comment_type == CommentType::Fixme);
    assert_eq!(sections[1].lines[0].number, 2);
    assert_eq!(sections[2].lines[0].number, 0);
}

#[test]
fn block_keeps_special_line_apart() {
    let sections = sections_of(&["fn main() {", "// TODO body", "}"], 1);
    let block = OutputBlock::from_marked_section(sections.into_iter().next().unwrap());
    assert!(block.block_type == CommentType::Todo);
    assert_eq!(block.special_line.line_number, 1);
    assert_eq!(block.special_line.tokenized_line, vec!["//", "TODO", "body"]);
    assert_eq!(block.context_lines.len(), 2);
    assert_eq!(block.context_lines[0].line_number, 0);
    assert_eq!(block.context_lines[1].line_number, 2);
}

#[test]
fn single_word_context_lines_are_skipped() {
    let sections = sections_of(&["fn main() {", "// FIXME body", "}"], 1);
    let block = OutputBlock::from_marked_section(sections.into_iter().next().unwrap());
    let markdown = get_output_str_for_block(block, Some("js"));
    assert_eq!(
        markdown,
        "- [ ] #### // FIXME body\n\t\n\t- ##### Context for `FIXME` in `line #1`\n\t\n\t\t- ```javascript\n\t\t\tfn main() {\n\t\t\t```\n\n"
    );
}

#[test]
fn line_number_is_written_in_decimal() {
    let mut lines: Vec<String> = (0..12).map(|i| format!("x = {}", i)).collect();
    lines.push("# NOTE twelve".to_string());
    let sections = MarkedSection::unpack_lines(
        ParseData::File(ParsedFile { filename: "n.py".to_string(), lines }),
        1,
    );
    let markdown = marked_sections_to_markdown(sections, None).unwrap();
    assert!(markdown.contains("Context for `NOTE` in `line #12`"));
    assert!(markdown.contains("\t\t\tx = 11\n"));
}

#[test]
fn fence_tags_by_extension() {
    assert_eq!(get_code_block_name_from_extension(Some("py")), "python");
    assert_eq!(get_code_block_name_from_extension(Some("rs")), "rust");
    assert_eq!(get_code_block_name_from_extension(Some("js")), "javascript");
    assert_eq!(get_code_block_name_from_extension(Some("ts")), "typescript");
    assert_eq!(get_code_block_name_from_extension(Some("cs")), "c#");
    assert_eq!(get_code_block_name_from_extension(Some("go")), "");
    assert_eq!(get_code_block_name_from_extension(None), "");
}

#[test]
fn tabs_inside_lines_make_a_block_unrenderable() {
    let sections = sections_of(&["x = 1;\t// TODO tab"], 0);
    let blocks = blocks_of(sections);
    assert!(!block_is_renderable(&blocks[0]));
    let sections = sections_of(&["x = 1;\t// TODO tab"], 0);
    assert_eq!(
        marked_sections_to_markdown(sections, None).unwrap_err(),
        BuilderError::TextInsertError("indentation character found in input.".to_string())
    );
    let sections = sections_of(&["x = 1; // TODO tab"], 0);
    assert!(block_is_renderable(&blocks_of(sections)[0]));
}

#[test]
fn section_with_two_marked_lines_is_refused() {
    let section = MarkedSection {
        lines: vec![Line::new("// TODO a", 0, true), Line::new("// TODO b", 1, true)],
        comment_type: CommentType::Todo,
        title_xxx: "f".to_string(),
    };
    assert!(!section.has_one_special());
    let single = MarkedSection {
        lines: vec![Line::new("// TODO a", 0, true), Line::new("x", 1, false)],
        comment_type: CommentType::Todo,
        title_xxx: "f".to_string(),
    };
    assert!(single.has_one_special());
}

#[test]
fn heading_for_block_types() {
    assert_eq!(get_header_str_for_block_type(&CommentType::Note), "## TODO's\n\n");
    assert_eq!(get_header_str_for_block_type(&CommentType::Other), "");
}

#[test]
fn console_lines_are_numbered_and_painted() {
    let printer = ConsolePrinter::new(ansi_term::Colour::Purple);
    let plain = Line::new("let a = 1;", 12, false);
    assert_eq!(printer.line_text(&plain), "12\tlet a = 1;");
    let special = Line::new("// TODO", 3, true);
    let painted = printer.line_text(&special);
    assert!(painted.starts_with("3\t"));
    assert!(painted.contains("// TODO"));
    assert_ne!(painted, "3\t// TODO");
    assert_eq!(separator(), "-".repeat(80));
}

#[test]
fn skipped_paths_and_empty_lines() {
    assert!(path_should_be_skipped("repo/.git/HEAD"));
    assert!(path_should_be_skipped("repo/target/debug"));
    assert!(path_should_be_skipped("~/notes"));
    assert!(!path_should_be_skipped("repo/src/main.rs"));
    let kept = non_empty_lines(vec!["a".to_string(), "".to_string(), " ".to_string()]);
    assert_eq!(kept, vec!["a", " "]);
}

#[test]
fn command_line_args_resolve_the_filter() {
    let args = CommandLineArgs::new("src".to_string(), 2, "note", Some("out.md".to_string()));
    assert!(args.display_type == CommentType::Note);
    assert!(args.output_file_flag);
    assert_eq!(args.context, 2);
    let args = CommandLineArgs::new("src".to_string(), 0, "all", None);
    assert!(args.display_type == CommentType::Other);
    assert!(!args.output_file_flag);
}

#[test]
fn code_patches_match_any_marker_line() {
    let lines: Vec<String> = ["  let todo = 1;", "x", "// FIXME y "]
        .iter()
        .map(|l| l.to_string())
        .collect();
    let patches = CodePatch::unpack_lines(lines, 1);
    assert_eq!(patches.len(), 2);
    assert!(patches[0].patch_type == CodePatchType::Todo);
    assert_eq!(patches[0].lines[0].content, "let todo = 1;");
    assert_eq!(patches[0].lines.len(), 2);
    assert!(patches[1].patch_type == CodePatchType::Fixme);
    assert_eq!(patches[1].lines[1].number, 2);
    assert_eq!(todos_text(&patches), "let todo = 1;x");
    assert!(CodePatchType::get_display_type(&"fixme".to_string()) == CodePatchType::Fixme);
    assert!(CodePatchType::get_display_type(&"all".to_string()) == CodePatchType::Other);
}

#[test]
fn first_unwritable_context_line_names_its_character() {
    let sections = sections_of(&["a\tb c", "// TODO ok", "d e\tf"], 1);
    let block = OutputBlock::from_marked_section(sections.into_iter().next().unwrap());
    assert_eq!(
        check_block(&block).unwrap_err(),
        BuilderError::TextInsertError("indentation character found in input.".to_string())
    );
    let sections = sections_of(&["// TODO ok", "one\ttab only"], 1);
    let block = OutputBlock::from_marked_section(sections.into_iter().next().unwrap());
    assert!(check_block(&block).is_err());
    let sections = sections_of(&["// TODO ok", "single\tword"], 1);
    let block = OutputBlock::from_marked_section(sections.into_iter().next().unwrap());
    assert!(check_block(&block).is_ok());
}

#[test]
fn console_lines_follow_the_filter() {
    let sections = sections_of(&["x = 0", "// TODO a", "// NOTE b", "y = 1"], 1);
    let printer = ConsolePrinter::new(ansi_term::Colour::Purple);
    let rule = "-".repeat(80);
    let lines = printer.console_lines(&sections, CommentType::Note);
    assert_eq!(lines.len(), 5);
    assert_eq!(lines[0], rule);
    assert_eq!(lines[1], "1\t// TODO a");
    assert!(lines[2].starts_with("2\t") && lines[2].contains("// NOTE b"));
    assert_eq!(lines[3], "3\ty = 1");
    assert_eq!(lines[4], rule);
    let all = printer.console_lines(&sections, CommentType::Other);
    assert_eq!(all.len(), 1 + 3 + 1 + 3 + 1);
    let none = printer.console_lines(&sections, CommentType::XXX);
    assert_eq!(none, vec![rule]);
}
