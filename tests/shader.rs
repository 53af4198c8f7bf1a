use mini_gpu::shader::{classify_line, Directive, ShaderError, ShaderParser};

fn chars(s: &str) -> Vec<char> {
    s.chars().collect()
}

#[test]
fn define_lines_produce_no_output() {
    let shader = "\n        #define TEST\n        #define TEST2\n        #define TEST3\n        ";
    let mut parser = ShaderParser::new();
    let res = parser.parse_shader(shader).unwrap();
    assert_eq!(res, "\n        ");
    assert!(parser.is_defined("TEST"));
    assert!(parser.is_defined("TEST3"));
    assert!(!parser.is_defined("TEST4"));
}

#[test]
fn nested_ifdef_blocks_keep_active_text() {
    let shader = "\n        #define TEST\n        #ifdef TEST\n        1\n        #define TEST2\n        #endif\n        #ifdef TEST2\n        2\n        #define TEST3\n        #endif\n        ";
    let mut parser = ShaderParser::new();
    let res = parser.parse_shader(shader).unwrap();
    assert_eq!(res, "\n        1\n        2\n        ");
}

#[test]
fn elseif_and_else_pick_one_branch() {
    let shader = "#define B\n#ifdef A\na\n#elseif B\nb\n#elseif B\nb2\n#else\nc\n#endif\nend";
    let mut parser = ShaderParser::new();
    assert_eq!(parser.parse_shader(shader).unwrap(), "b\nend");
    let mut other = ShaderParser::new();
    assert_eq!(other.parse_shader("#ifdef A\na\n#else\nc\n#endif").unwrap(), "c");
}

#[test]
fn include_expands_library_entry_with_current_defines() {
    let mut parser = ShaderParser::new();
    parser.add_library_entry("Camera", "#ifdef FANCY\nfancy\n#else\nplain\n#endif");
    assert_eq!(parser.parse_shader("top\n#include <Camera>\nbottom").unwrap(), "top\nplain\nbottom");
    assert_eq!(parser.parse_shader("#define FANCY\n  #include <Camera>").unwrap(), "fancy");
}

#[test]
fn unknown_or_cyclic_include_is_an_error() {
    let mut parser = ShaderParser::new();
    assert_eq!(parser.parse_shader("#include <Nope>"), Err(ShaderError::UnknownInclude(0)));
    parser.add_library_entry("Loop", "#include <Loop>");
    assert_eq!(parser.parse_shader("#include <Loop>"), Err(ShaderError::IncludeTooDeep));
    assert_eq!(parser.handle_line("#include <Nope>", 7), Err(ShaderError::UnknownInclude(7)));
}

#[test]
fn handle_line_reports_text_and_directives() {
    let mut parser = ShaderParser::new();
    assert_eq!(parser.handle_line("  x = 1;", 0), Ok(Some("  x = 1;".to_string())));
    assert_eq!(parser.handle_line("#define N 4", 1), Ok(None));
    assert!(parser.is_defined("N"));
    assert_eq!(parser.handle_line("#ifdef M", 2), Ok(None));
    assert_eq!(parser.handle_line("hidden", 3), Ok(None));
    assert_eq!(parser.handle_line("#endif", 4), Ok(None));
    assert_eq!(parser.handle_line("shown", 5), Ok(Some("shown".to_string())));
}

#[test]
fn directive_classification() {
    assert_eq!(classify_line(&chars("  #define NAME 12  ")), Directive::DefineValue(10, 14, 15, 17));
    assert_eq!(classify_line(&chars("#define NAME")), Directive::Define(8, 12));
    assert_eq!(classify_line(&chars("x #define NAME")), Directive::Text);
    assert_eq!(classify_line(&chars("// #ifdef  FOO bar")), Directive::Ifdef(11, 14));
    assert_eq!(classify_line(&chars("#elseif X")), Directive::Elseif(8, 9));
    assert_eq!(classify_line(&chars("#elseif")), Directive::Else);
    assert_eq!(classify_line(&chars("#endif // done")), Directive::Endif);
    assert_eq!(classify_line(&chars("#include <Lib_2>")), Directive::Include(10, 15));
    assert_eq!(classify_line(&chars("#include Lib")), Directive::Text);
    assert_eq!(classify_line(&chars("")), Directive::Text);
}
