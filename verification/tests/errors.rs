use kennedy::error::{CompileError, Span};

fn syntax(message: &str, start: usize, end: usize) -> CompileError {
    CompileError::SyntaxError(message.to_string(), Span { start, end })
}

#[test]
fn to_string_names_kind_span_and_message() {
    assert_eq!(syntax("bad", 1, 2).to_string(), "Syntax error at Span { start: 1, end: 2 }: bad");
    assert_eq!(
        CompileError::SemanticError("worse".to_string(), Span { start: 10, end: 25 }).to_string(),
        "Semantic error at Span { start: 10, end: 25 }: worse"
    );
    assert_eq!(CompileError::ModuleError("dup".to_string()).to_string(), "Module error: dup");
}

#[test]
fn report_on_the_first_line() {
    let source = "let a = #;";
    let report = syntax("Unexpected character: #", 8, 9).to_string_with_source(source);
    assert_eq!(report, "Syntax error at 1:9: Unexpected character: #\n\t1 | let a = #;\n\t            ^");
}

#[test]
fn report_underlines_the_whole_span() {
    let source = "return abc;";
    let report = CompileError::SemanticError("unknown name".to_string(), Span { start: 7, end: 10 })
        .to_string_with_source(source);
    assert_eq!(report, "Semantic error at 1:8: unknown name\n\t1 | return abc;\n\t           ^^^");
}

#[test]
fn report_shows_up_to_three_preceding_lines_nearest_first() {
    let source = "one\ntwo\nthree\nfour\nfive";
    let report = syntax("m", 19, 23).to_string_with_source(source);
    assert_eq!(
        report,
        "Syntax error at 5:1: m\n\t4 | four\n\t3 | three\n\t2 | two\n\t5 | five\n\t    ^^^^"
    );
}

#[test]
fn report_shows_fewer_preceding_lines_near_the_top() {
    let source = "one\ntwo\nthree";
    let report = syntax("m", 5, 6).to_string_with_source(source);
    assert_eq!(report, "Syntax error at 2:2: m\n\t1 | one\n\t2 | two\n\t     ^");
}

#[test]
fn report_underline_stops_at_the_end_of_the_line() {
    let source = "ab\ncd";
    let report = syntax("m", 1, 5).to_string_with_source(source);
    assert_eq!(report, "Syntax error at 1:2: m\n\t1 | ab\n\t     ^");
}

#[test]
fn report_of_an_empty_span_has_one_caret() {
    let source = "ab";
    let report = syntax("m", 2, 2).to_string_with_source(source);
    assert_eq!(report, "Syntax error at 1:3: m\n\t1 | ab\n\t      ^");
}

#[test]
fn report_of_a_span_beyond_the_source_points_at_its_end() {
    let source = "ab\nc";
    let report = syntax("m", 40, 50).to_string_with_source(source);
    assert_eq!(report, "Syntax error at 2:2: m\n\t1 | ab\n\t2 | c\n\t     ^");
}

#[test]
fn report_on_an_empty_source() {
    let report = syntax("m", 0, 0).to_string_with_source("");
    assert_eq!(report, "Syntax error at 1:1: m\n\t1 | \n\t    ^");
}

#[test]
fn report_widens_the_margin_for_long_line_numbers() {
    let source = "\n\n\n\n\n\n\n\n\nx y";
    let report = syntax("m", 11, 12).to_string_with_source(source);
    assert_eq!(report, "Syntax error at 10:3: m\n\t9 | \n\t8 | \n\t7 | \n\t10 | x y\n\t       ^");
}

#[test]
fn report_drops_the_carriage_return_of_a_line_ending() {
    let source = "ab\r\ncd\r\n";
    let report = syntax("m", 4, 6).to_string_with_source(source);
    assert_eq!(report, "Syntax error at 2:1: m\n\t1 | ab\n\t2 | cd\n\t    ^^");
}

#[test]
fn report_counts_characters_not_bytes() {
    let source = "\u{e9}\u{e9} x";
    let report = syntax("m", 3, 4).to_string_with_source(source);
    assert_eq!(report, "Syntax error at 1:4: m\n\t1 | \u{e9}\u{e9} x\n\t       ^");
}

#[test]
fn report_of_a_module_error_is_one_line() {
    let report = CompileError::ModuleError("duplicate function f".to_string())
        .to_string_with_source("func f(): int { return 1; }");
    assert_eq!(report, "Module error: duplicate function f");
}
