use nasl_analyzer::interpret::Jumpable;
use nasl_analyzer::interpret::NASLDefinitions;
use nasl_analyzer::openvas_funcs::string_literal_range;
use nasl_analyzer::strutil::strip_file_scheme;
use nasl_analyzer::types::Argument;
use nasl_analyzer::types::Identifier;
use nasl_analyzer::types::Point;

fn ident(name: &str, row: usize, column: usize) -> Identifier {
    Identifier {
        start: Point { row, column },
        end: Point { row, column: column + name.len() },
        identifier: Some(name.to_string()),
    }
}

#[test]
fn matches_compares_the_name() {
    let id = ident("alpha", 1, 4);
    assert!(id.matches("alpha"));
    assert!(!id.matches("beta"));
    let anon = Identifier { start: Point { row: 0, column: 0 }, end: Point { row: 2, column: 0 }, identifier: None };
    assert!(!anon.matches("alpha"));
}

#[test]
fn in_pos_is_inclusive_and_lexicographic() {
    let id = Identifier {
        start: Point { row: 1, column: 4 },
        end: Point { row: 3, column: 2 },
        identifier: None,
    };
    assert!(id.in_pos(Point { row: 1, column: 4 }));
    assert!(id.in_pos(Point { row: 2, column: 90 }));
    assert!(id.in_pos(Point { row: 3, column: 2 }));
    assert!(!id.in_pos(Point { row: 1, column: 3 }));
    assert!(!id.in_pos(Point { row: 3, column: 3 }));
    assert!(!id.in_pos(Point { row: 0, column: 50 }));
}

#[test]
fn argument_text_comes_from_the_literal() {
    let arg = Argument::StringLiteral(ident("common.inc", 0, 9));
    assert_eq!(arg.to_string(), Some("common.inc".to_string()));
}

#[test]
fn every_entry_but_a_call_is_a_definition() {
    let code = "function test(a) { b = 1; }\ntest(1);\n";
    let js = NASLDefinitions::new_parse_tree("aha.nasl", code).unwrap();
    let defs = js.definitions();
    assert!(defs.iter().all(Jumpable::is_definition));
    assert!(js.jumps.iter().any(|j| !j.is_definition()));
    assert_eq!(
        js.jumps.iter().filter(|j| j.is_definition()).count(),
        defs.len()
    );
}

#[test]
fn literal_range_drops_the_quotes() {
    let r = string_literal_range(&(10..22));
    assert_eq!(r.start, 11);
    assert_eq!(r.end, 21);
}

#[test]
fn scheme_stripping_only_touches_the_prefix() {
    assert_eq!(strip_file_scheme("file:///root"), "/root".to_string());
    assert_eq!(strip_file_scheme("file://"), "".to_string());
    assert_eq!(strip_file_scheme("/root/file://x"), "/root/file://x".to_string());
    assert_eq!(strip_file_scheme("file:/"), "file:/".to_string());
}
