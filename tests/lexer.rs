use merve::lexer::{check_source, Analysis, Export, LexerError};

#[test]
fn export_display_impl() {
    let e = Export {
        name: "foo",
        line: 42,
    };
    assert_eq!(e.to_string(), "foo (line 42)");
}

#[test]
fn error_display() {
    let err = LexerError::UnexpectedEsmImport;
    let s = err.to_string();
    assert!(s.contains("unexpected ESM import"), "got: {s}");
}

#[test]
fn error_display_unknown() {
    let err = LexerError::Unknown(99);
    let s = err.to_string();
    assert!(s.contains("99"), "got: {s}");
}

#[test]
fn error_from_code_roundtrip() {
    for code in 0..=12 {
        let err = LexerError::from_code(code);
        assert_ne!(err, LexerError::Unknown(code));
    }
    assert_eq!(LexerError::from_code(999), LexerError::Unknown(999));
}

#[test]
fn error_messages_exact() {
    assert_eq!(
        LexerError::EmptySource.to_string(),
        "merve lexer error: empty source"
    );
    assert_eq!(
        LexerError::Unknown(-7).to_string(),
        "merve lexer error: unknown (code -7)"
    );
    assert_eq!(
        LexerError::Unknown(i32::MIN).to_string(),
        "merve lexer error: unknown (code -2147483648)"
    );
    assert_eq!(LexerError::Unknown(0).as_str(), "unknown error");
}

#[test]
fn error_codes_in_order() {
    assert_eq!(LexerError::from_code(0), LexerError::EmptySource);
    assert_eq!(LexerError::from_code(10), LexerError::UnexpectedEsmImport);
    assert_eq!(LexerError::from_code(11), LexerError::UnexpectedEsmExport);
    assert_eq!(LexerError::from_code(12), LexerError::TemplateNestOverflow);
    assert_eq!(LexerError::from_code(13), LexerError::Unknown(13));
    assert_eq!(LexerError::from_code(-1), LexerError::Unknown(-1));
    assert_eq!(
        LexerError::from_code(7).as_str(),
        "unterminated regex character class"
    );
}

#[test]
fn export_text_of_line_zero_and_large() {
    let e = Export { name: "x", line: 0 };
    assert_eq!(e.to_string(), "x (line 0)");
    let e = Export {
        name: "y",
        line: u32::MAX,
    };
    assert_eq!(e.to_string(), "y (line 4294967295)");
}

#[test]
fn empty_source_is_refused() {
    assert_eq!(check_source(""), Err(LexerError::EmptySource));
    assert_eq!(check_source("exports.a = 1;"), Ok(()));
}

fn sample() -> Analysis<'static> {
    Analysis::from_parts(
        vec![
            Export { name: "a", line: 1 },
            Export { name: "b", line: 0 },
            Export { name: "c", line: 3 },
        ],
        vec![Export {
            name: "./other",
            line: 2,
        }],
    )
}

#[test]
fn analysis_lookups_and_bounds() {
    let a = sample();
    assert_eq!(a.exports_count(), 3);
    assert_eq!(a.reexports_count(), 1);
    assert_eq!(a.export_name(0), Some("a"));
    assert_eq!(a.export_name(2), Some("c"));
    assert_eq!(a.export_name(999), None);
    assert_eq!(a.export_line(0), Some(1));
    assert_eq!(a.export_line(1), None);
    assert_eq!(a.export_line(999), None);
    assert_eq!(a.reexport_name(0), Some("./other"));
    assert_eq!(a.reexport_line(0), Some(2));
    assert_eq!(a.reexport_name(1), None);
    assert_eq!(a.reexport_line(1), None);
}

#[test]
fn export_walks_in_order() {
    let a = sample();
    let mut it = a.exports();
    assert_eq!(it.len(), 3);
    assert_eq!(it.size_hint(), (3, Some(3)));
    assert_eq!(it.next(), Some(Export { name: "a", line: 1 }));
    assert_eq!(it.next(), Some(Export { name: "b", line: 0 }));
    assert_eq!(it.len(), 1);
    assert_eq!(it.next(), Some(Export { name: "c", line: 3 }));
    assert_eq!(it.next(), None);
    assert_eq!(it.len(), 0);
    let mut re = a.reexports();
    assert_eq!(re.len(), 1);
    assert_eq!(
        re.next(),
        Some(Export {
            name: "./other",
            line: 2
        })
    );
    assert_eq!(re.next(), None);
}
