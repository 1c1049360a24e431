use rustler::markdown::{BuilderError, HeaderLevel, MarkdownBuilder};
use rustler::output_formatter::get_markdown_output_str;

fn get_empty_builder() -> MarkdownBuilder {
    MarkdownBuilder::new()
}

#[test]
fn single_line_text_inserted_correctly() {
    let builder = get_empty_builder();
    let text_to_insert = "test text";
    let export_string = builder
        .insert_single_line(&text_to_insert)
        .expect("valid text should not return Err")
        .to_markdown_string();

    assert_eq!(
        export_string, text_to_insert,
        "text inserted should match exported string on empty builder"
    );
}

#[test]
fn multi_line_text_returns_error() {
    let builder = get_empty_builder();
    let text_to_insert = "multiline \n text";
    let insert_result = builder.insert_single_line(&text_to_insert);

    assert!(
        insert_result.is_err(),
        "insert text with newline present should return error"
    );

    let expected_error_message = "newline character found in input.".to_string();
    assert_eq!(
        insert_result.unwrap_err(),
        BuilderError::TextInsertError(expected_error_message),
        "invalid insert error should be of type 'TextInsertError`, with correct error message"
    );
}

#[test]
fn indented_text_returns_error() {
    let builder = get_empty_builder();
    let text_to_insert = "indented \t text";
    let insert_result = builder.insert_single_line(&text_to_insert);

    assert!(
        insert_result.is_err(),
        "insert text with tab present should return error"
    );

    let expected_error_message = "indentation character found in input.".to_string();
    assert_eq!(
        insert_result.unwrap_err(),
        BuilderError::TextInsertError(expected_error_message),
        "invalid insert error should be of type 'TextInsertError`, with correct error message"
    );
}

#[test]
fn newline_appended_correctly() {
    let builder = get_empty_builder();
    let export_string = builder.newline().to_markdown_string();

    let expected_string = "\n".to_string();

    assert_eq!(
        export_string, expected_string,
        "newline should be present in empty builder export"
    );
}

#[test]
fn single_newline_appended_with_single_indent_correctly() {
    let builder = get_empty_builder();
    let export_string = builder
        .increase_indentation_level()
        .newline()
        .to_markdown_string();

    let expected_string = "\n\t".to_string();

    assert_eq!(
        export_string, expected_string,
        "newline with indent should be present in empty builder export"
    );
}

#[test]
fn mutlitple_newlines_adhere_to_single_indent_level() {
    let mut builder = get_empty_builder().increase_indentation_level();

    let newlines_to_append = 3;

    for _ in 0..newlines_to_append {
        builder = builder.newline();
    }

    let export_string = builder.to_markdown_string();

    let expected_string = "\n\t".repeat(newlines_to_append);

    assert_eq!(
        export_string, expected_string,
        "multiple newlines should adhere to the same indent level"
    );
}

#[test]
fn single_newline_adheres_to_multiple_indents() {
    let indent_level = 3;
    let mut builder = get_empty_builder();
    for _ in 0..indent_level {
        builder = builder.increase_indentation_level();
    }

    let newlines_to_append = 3;

    for _ in 0..newlines_to_append {
        builder = builder.newline();
    }

    let export_string = builder.to_markdown_string();

    let indent_string = "\t".repeat(indent_level);
    let expected_string = format!("\n{}", &indent_string).repeat(newlines_to_append);

    assert_eq!(
        export_string, expected_string,
        "multiple newlines should adhere to the same indent level"
    );
}

#[test]
fn multiple_newline_adheres_to_multiple_indents() {
    let indent_level = 5;
    let mut builder = get_empty_builder();
    for _ in 0..indent_level {
        builder = builder.increase_indentation_level();
    }

    let newlines_to_append = 6;

    for _ in 0..newlines_to_append {
        builder = builder.newline();
    }

    let export_string = builder.to_markdown_string();

    let indent_string = "\t".repeat(indent_level);
    let expected_string = format!("\n{}", &indent_string).repeat(newlines_to_append);

    assert_eq!(
        export_string, expected_string,
        "multiple newlines should adhere to the same indent level"
    );
}

#[test]
fn checkbox_created_correctly() {
    let builder = get_empty_builder();
    let export_string = builder.checkbox().to_markdown_string();

    let expected_string = "- [ ] ".to_string();

    assert_eq!(
        export_string, expected_string,
        "checkbox should be present in empty builder export"
    );
}

#[test]
fn header_builds_correctly() {
    let builder = get_empty_builder();
    let header_level = HeaderLevel::H4;

    let export_string = builder.header(HeaderLevel::H4).to_markdown_string();

    let expected_string = format!("{} ", "#".repeat(header_level.to_numeric()));
    assert_eq!(
        export_string, expected_string,
        "header should be appended if level is within bounds"
    );
}

#[test]
fn indent_level_is_added_correctly() {
    let mut builder = get_empty_builder();
    assert_eq!(
        builder.indentation_level, 0,
        "should start with 0 indentation"
    );

    let indent_level = 6;
    for _ in 0..indent_level {
        builder = builder.increase_indentation_level();
    }

    assert_eq!(
        indent_level, builder.indentation_level,
        "should match indentation level of builder"
    );
}

#[test]
fn indent_level_is_reset_correctly() {
    let mut builder = get_empty_builder();
    assert_eq!(
        builder.indentation_level, 0,
        "should start with 0 indentation"
    );

    let indent_level = 6;
    for _ in 0..indent_level {
        builder = builder.increase_indentation_level();
    }

    assert_eq!(
        indent_level, builder.indentation_level,
        "should match indentation level of builder"
    );

    builder = builder.reset_indentation();
    assert_eq!(
        builder.indentation_level, 0,
        "indent level should be 0 post-reset"
    );
}

#[test]
fn single_code_block_exported_correctly_to_string() {
    let expected_string = "";
    let exported_string = get_markdown_output_str(Vec::new(), None);
    assert_eq!(
        expected_string, exported_string,
        "exported string should match the expected string"
    );
}

#[test]
fn insert_twice_appends_text_twice() {
    let text = "same words";
    let exported = MarkdownBuilder::new()
        .insert_single_line(text)
        .unwrap()
        .insert_single_line(text)
        .unwrap()
        .to_markdown_string();
    assert_eq!(exported, "same wordssame words");
}

#[test]
fn three_newlines_after_one_indent() {
    let exported = MarkdownBuilder::new()
        .increase_indentation_level()
        .newline()
        .newline()
        .newline()
        .to_markdown_string();
    assert_eq!(exported, "\n\t\n\t\n\t");
}

#[test]
fn newline_and_tab_reports_newline() {
    let result = MarkdownBuilder::new().insert_single_line("a\tb\nc");
    assert_eq!(
        result.unwrap_err(),
        BuilderError::TextInsertError("newline character found in input.".to_string())
    );
}

#[test]
fn builder_error_message_names_reason() {
    let error = BuilderError::TextInsertError("newline character found in input.".to_string());
    assert_eq!(
        error.message(),
        "Text to be inserted contains invalid characters: newline character found in input."
    );
}

#[test]
fn every_header_level_writes_its_hashes() {
    let levels = [
        (HeaderLevel::H1, "# "),
        (HeaderLevel::H2, "## "),
        (HeaderLevel::H3, "### "),
        (HeaderLevel::H5, "##### "),
        (HeaderLevel::H6, "###### "),
    ];
    for (level, expected) in levels {
        assert_eq!(MarkdownBuilder::new().header(level).to_markdown_string(), expected);
    }
}

#[test]
fn reset_then_newline_has_no_tabs() {
    let exported = MarkdownBuilder::new()
        .increase_indentation_level()
        .increase_indentation_level()
        .reset_indentation()
        .newline()
        .to_markdown_string();
    assert_eq!(exported, "\n");
}
