use aide::highlight::{highlight_name_to_type, HighlightType, Language, SyntaxHighlighter};

#[test]
fn test_language_from_extension_rust() {
    assert_eq!(Language::from_extension("rs"), Some(Language::Rust));
    assert_eq!(Language::from_extension("RS"), Some(Language::Rust));
}

#[test]
fn test_language_from_extension_unknown() {
    assert_eq!(Language::from_extension("txt"), None);
    assert_eq!(Language::from_extension("py"), None);
}

#[test]
fn test_language_name() {
    assert_eq!(Language::Rust.name(), "rust");
}

#[test]
fn test_highlighter_creation() {
    let highlighter = SyntaxHighlighter::new();
    assert!(highlighter.current_language().is_none());
    assert!(!highlighter.has_tree());
}

#[test]
fn test_set_language_rust() {
    let mut highlighter = SyntaxHighlighter::new();
    let result = highlighter.set_language(Language::Rust);
    assert!(result.is_ok());
    assert_eq!(highlighter.current_language(), Some(Language::Rust));
}

#[test]
fn test_parse_simple_rust_code() {
    let mut highlighter = SyntaxHighlighter::new();
    highlighter.set_language(Language::Rust).unwrap();

    let code = "fn main() {}";
    let result = highlighter.parse(code);
    assert!(result.is_ok());
    assert!(highlighter.has_tree());
}

#[test]
fn test_parse_without_language() {
    let mut highlighter = SyntaxHighlighter::new();
    let result = highlighter.parse("fn main() {}");
    assert!(result.is_err());
}

#[test]
fn test_parse_complex_rust_code() {
    let mut highlighter = SyntaxHighlighter::new();
    highlighter.set_language(Language::Rust).unwrap();

    let code = r#"
            use std::collections::HashMap;

            /// Documentation comment
            #[derive(Debug, Clone)]
            pub struct MyStruct {
                field: i32,
                name: String,
            }

            impl MyStruct {
                pub fn new(value: i32) -> Self {
                    Self {
                        field: value,
                        name: "test".to_string(),
                    }
                }

                pub fn calculate(&self) -> i32 {
                    self.field * 2
                }
            }

            fn main() {
                let s = MyStruct::new(42);
                println!("Value: {}", s.calculate());
            }
        "#;

    let result = highlighter.parse(code);
    assert!(result.is_ok());
}

#[test]
fn test_incremental_parse() {
    let mut highlighter = SyntaxHighlighter::new();
    highlighter.set_language(Language::Rust).unwrap();

    let code1 = "fn main() {}";
    highlighter.parse(code1).unwrap();
    assert!(highlighter.has_tree());

    highlighter.apply_edit(11, 11, 24, 0, 11, 0, 11, 0, 24);

    let code2 = "fn main() { let x = 1; }";
    let result = highlighter.reparse(code2);
    assert!(result.is_ok());
}

#[test]
fn test_highlight_keyword() {
    let mut highlighter = SyntaxHighlighter::new();
    highlighter.set_language(Language::Rust).unwrap();

    let code = "fn main() {}";
    let spans = highlighter.highlight(code).unwrap();

    let fn_span = spans.iter().find(|s| s.start == 0 && s.end == 2);
    assert!(fn_span.is_some());
    assert_eq!(fn_span.unwrap().highlight_type, HighlightType::Keyword);
}

#[test]
fn test_highlight_function_name() {
    let mut highlighter = SyntaxHighlighter::new();
    highlighter.set_language(Language::Rust).unwrap();

    let code = "fn main() {}";
    let spans = highlighter.highlight(code).unwrap();

    let main_span = spans.iter().find(|s| s.start == 3 && s.end == 7);
    assert!(main_span.is_some());
    assert_eq!(main_span.unwrap().highlight_type, HighlightType::Function);
}

#[test]
fn test_highlight_string_literal() {
    let mut highlighter = SyntaxHighlighter::new();
    highlighter.set_language(Language::Rust).unwrap();

    let code = r#"let s = "hello";"#;
    let spans = highlighter.highlight(code).unwrap();

    let has_string = spans.iter().any(|s| s.highlight_type == HighlightType::String);
    assert!(has_string);
}

#[test]
fn test_highlight_comment() {
    let mut highlighter = SyntaxHighlighter::new();
    highlighter.set_language(Language::Rust).unwrap();

    let code = "// This is a comment\nfn main() {}";
    let spans = highlighter.highlight(code).unwrap();

    let has_comment = spans.iter().any(|s| s.highlight_type == HighlightType::Comment);
    assert!(has_comment);
}

#[test]
fn test_highlight_number() {
    let mut highlighter = SyntaxHighlighter::new();
    highlighter.set_language(Language::Rust).unwrap();

    let code = "let x = 42;";
    let spans = highlighter.highlight(code).unwrap();

    let has_number_or_constant = spans.iter().any(|s| {
        s.highlight_type == HighlightType::Number || s.highlight_type == HighlightType::Constant
    });
    let has_42_span = spans.iter().any(|s| s.start == 8 && s.end == 10);
    assert!(has_number_or_constant || has_42_span || !spans.is_empty());
}

#[test]
fn test_highlight_type() {
    let mut highlighter = SyntaxHighlighter::new();
    highlighter.set_language(Language::Rust).unwrap();

    let code = "let x: i32 = 42;";
    let spans = highlighter.highlight(code).unwrap();

    let has_type = spans.iter().any(|s| s.highlight_type == HighlightType::Type);
    assert!(has_type);
}

#[test]
fn test_highlight_attribute() {
    let mut highlighter = SyntaxHighlighter::new();
    highlighter.set_language(Language::Rust).unwrap();

    let code = "#[derive(Debug)]\nstruct Foo {}";
    let spans = highlighter.highlight(code).unwrap();

    let has_attribute = spans.iter().any(|s| s.highlight_type == HighlightType::Attribute);
    assert!(has_attribute);
}

#[test]
fn test_highlight_macro() {
    let mut highlighter = SyntaxHighlighter::new();
    highlighter.set_language(Language::Rust).unwrap();

    let code = r#"println!("hello");"#;
    let spans = highlighter.highlight(code).unwrap();

    let has_macro = spans.iter().any(|s| s.highlight_type == HighlightType::Macro);
    assert!(has_macro);
}

#[test]
fn test_highlight_empty_code() {
    let mut highlighter = SyntaxHighlighter::new();
    highlighter.set_language(Language::Rust).unwrap();

    let spans = highlighter.highlight("").unwrap();
    assert!(spans.is_empty());
}

#[test]
fn test_highlight_japanese_comment() {
    let mut highlighter = SyntaxHighlighter::new();
    highlighter.set_language(Language::Rust).unwrap();

    let code = "// これは日本語コメント\nfn main() {}";
    let result = highlighter.highlight(code);
    assert!(result.is_ok());

    let spans = result.unwrap();
    let has_comment = spans.iter().any(|s| s.highlight_type == HighlightType::Comment);
    assert!(has_comment);
}

#[test]
fn test_highlight_multibyte_string() {
    let mut highlighter = SyntaxHighlighter::new();
    highlighter.set_language(Language::Rust).unwrap();

    let code = r#"let s = "こんにちは";"#;
    let result = highlighter.highlight(code);
    assert!(result.is_ok());

    let spans = result.unwrap();
    let has_string = spans.iter().any(|s| s.highlight_type == HighlightType::String);
    assert!(has_string);
}

#[test]
fn test_highlight_name_to_type_keyword() {
    assert_eq!(highlight_name_to_type("keyword"), HighlightType::Keyword);
    assert_eq!(highlight_name_to_type("keyword.control"), HighlightType::Keyword);
    assert_eq!(highlight_name_to_type("keyword.function"), HighlightType::Keyword);
}

#[test]
fn test_highlight_name_to_type_function() {
    assert_eq!(highlight_name_to_type("function"), HighlightType::Function);
    assert_eq!(highlight_name_to_type("function.builtin"), HighlightType::Function);
    assert_eq!(highlight_name_to_type("function.method"), HighlightType::Function);
}

#[test]
fn test_highlight_name_to_type_string() {
    assert_eq!(highlight_name_to_type("string"), HighlightType::String);
    assert_eq!(highlight_name_to_type("string.special"), HighlightType::String);
}

#[test]
fn test_highlight_name_to_type_unknown() {
    assert_eq!(highlight_name_to_type("unknown"), HighlightType::Other);
    assert_eq!(highlight_name_to_type(""), HighlightType::Other);
}

// Own tests.

#[test]
fn highlight_without_language_fails() {
    let mut highlighter = SyntaxHighlighter::new();
    assert_eq!(highlighter.highlight("fn main() {}"), Err("Language not set".to_string()));
}

#[test]
fn reparse_without_tree_parses_afresh() {
    let mut highlighter = SyntaxHighlighter::new();
    highlighter.set_language(Language::Rust).unwrap();
    assert!(!highlighter.has_tree());
    assert!(highlighter.reparse("fn f() {}").is_ok());
    assert!(highlighter.has_tree());
}

#[test]
fn spans_lie_within_the_text() {
    let mut highlighter = SyntaxHighlighter::new();
    highlighter.set_language(Language::Rust).unwrap();
    let code = "fn main() { let s = \"x\"; }";
    let spans = highlighter.highlight(code).unwrap();
    assert!(!spans.is_empty());
    for s in &spans {
        assert!(s.start <= s.end && s.end <= code.len());
    }
}

#[test]
fn name_mapping_is_by_whole_name() {
    assert_eq!(highlight_name_to_type("type.builtin"), HighlightType::Type);
    assert_eq!(highlight_name_to_type("float"), HighlightType::Number);
    assert_eq!(highlight_name_to_type("function.macro"), HighlightType::Macro);
    assert_eq!(highlight_name_to_type("namespace"), HighlightType::Module);
    assert_eq!(highlight_name_to_type("field"), HighlightType::Property);
    assert_eq!(highlight_name_to_type("comment.documentation"), HighlightType::Other);
}

#[test]
fn language_from_lowercase_extension() {
    assert_eq!(Language::from_lowercase_extension("rs"), Some(Language::Rust));
    assert_eq!(Language::from_lowercase_extension("RS"), None);
    assert_eq!(aide::lsp::LspLanguage::from_lowercase_extension("rs"), Some(aide::lsp::LspLanguage::Rust));
    assert_eq!(aide::lsp::LspLanguage::from_extension("Rs"), Some(aide::lsp::LspLanguage::Rust));
}
