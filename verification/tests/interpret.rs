use nasl_analyzer::interpret::NASLDefinitions;
use nasl_analyzer::interpret::find_calls;
use nasl_analyzer::types::Point;
use nasl_analyzer::types::SearchParameter;

fn str_to_defco(name: &str, line: usize, column: usize) -> SearchParameter {
    SearchParameter {
        origin: "aha.nasl".to_string(),
        name: name.to_string(),
        pos: Point { row: line, column },
    }
}

#[test]
fn global_definitions() {
    let code = r#"
            function test(a) {
                return a;
            }
            testus = test(12);
            test(testus);
            "#
    .to_string();
    let result = NASLDefinitions::new_parse_tree("/tmp/test.nasl", &code).unwrap();
    let testus = NASLDefinitions::search_parameter("/tmp/test.nasl", &code, 5, 18);
    assert_eq!(
        NASLDefinitions::search_parameter("/tmp/test.nasl", &code, 5, 14).map(|i| i.name),
        Some("test".to_string())
    );
    assert_eq!(testus.clone().map(|i| i.name), Some("testus".to_string()));
    assert_eq!(
        result.find_points(&testus.unwrap()).first().copied(),
        Some(Point { row: 4, column: 12 }),
    );
}

#[test]
fn binary_expression() {
    let code = r#"
            if (((d = 23) == 1) || ((e = 42) == 42)) {
                f = d;
            }
        "#;
    let js = NASLDefinitions::new_parse_tree("aha.nasl", code).unwrap();
    assert_eq!(
        js.find_points(&str_to_defco("d", 2, 20)).first().copied(),
        Some(Point { row: 1, column: 18 }),
    );
}

#[test]
fn nested_binary_condition_binds_assignments() {
    // Without extra parentheses around each comparison, the assignments sit
    // under binary expressions nested in the outer binary expression; they
    // must still be collected into the if binder.
    let code = r#"
            if ((d = 23) == 1 || (e = 42) == 42) {
                f = d;
            }
        "#;
    let js = NASLDefinitions::new_parse_tree("aha.nasl", code).unwrap();
    assert_eq!(
        js.find_points(&str_to_defco("d", 2, 20)).first().copied(),
        Some(Point { row: 1, column: 17 }),
    );
    assert_eq!(
        js.find_points(&str_to_defco("e", 2, 20)).first().copied(),
        Some(Point { row: 1, column: 34 }),
    );
}

#[test]
fn if_handling() {
    let code = r#"
            if (description) {
                b = 13;
                c = b;
            } else if (42) {
                b = 14;
                c = b;
            } else {
                b = 12;
                c = b;
            }
            b = 1;
            c = b;
            if ((d = 12))
              test(d);
    "#;
    let js = NASLDefinitions::new_parse_tree("aha.nasl", code).unwrap();
    assert_eq!(
        js.find_points(&str_to_defco("b", 3, 20)).first().copied(),
        Some(Point { row: 2, column: 16 })
    );
    assert_eq!(
        js.find_points(&str_to_defco("b", 6, 20)).first().copied(),
        Some(Point { row: 5, column: 16 }),
    );
    assert_eq!(
        js.find_points(&str_to_defco("b", 9, 20)).first().copied(),
        Some(Point { row: 8, column: 16 }),
    );
    assert_eq!(
        js.find_points(&str_to_defco("b", 12, 16)).first().copied(),
        Some(Point {
            row: 11,
            column: 12
        }),
    );
    assert_eq!(
        js.find_points(&str_to_defco("d", 14, 19)).first().copied(),
        Some(Point {
            row: 13,
            column: 17
        }),
    );
}

#[test]
fn definition_locations() {
    let code = r#"
            function test(a) {
                b = a;
                return b;
            }
            b = 12;
            testus = test(b);
            test(testus);
            "#;
    let js = NASLDefinitions::new_parse_tree("aha.nasl", code).unwrap();
    assert_eq!(js.definitions().len(), 4);
    assert_eq!(
        js.find_points(&str_to_defco("a", 2, 21)).first().copied(),
        Some(Point { row: 1, column: 26 }),
    );
    assert_eq!(
        js.find_points(&str_to_defco("b", 3, 24)).first().copied(),
        Some(Point { row: 2, column: 16 }),
    );
}

#[test]
fn parameter_not_visible_outside_function() {
    // The query position lies outside the function's range, so its
    // parameter must not resolve; nothing else defines `a`.
    let code = r#"
            function test(a) {
                b = a;
            }
            c = 1;
            "#;
    let js = NASLDefinitions::new_parse_tree("aha.nasl", code).unwrap();
    assert!(js.find_points(&str_to_defco("a", 4, 13)).is_empty());
}

#[test]
fn assignment_visible_from_anywhere() {
    // A top-level assignment resolves wherever the query position lies.
    let code = r#"
            function test(a) {
                return a;
            }
            b = 12;
            "#;
    let js = NASLDefinitions::new_parse_tree("aha.nasl", code).unwrap();
    assert_eq!(
        js.find_points(&str_to_defco("b", 1, 1)).first().copied(),
        Some(Point { row: 4, column: 12 }),
    );
    assert_eq!(
        js.find_points(&str_to_defco("b", 4, 30)).first().copied(),
        Some(Point { row: 4, column: 12 }),
    );
}

#[test]
fn includes_extracted_in_source_order() {
    let code = r#"
            include("first.inc");
            test(testus);
            include("second.inc");
            test("third.inc");
            "#;
    let js = NASLDefinitions::new_parse_tree("aha.nasl", code).unwrap();
    assert_eq!(
        js.includes(),
        &vec!["first.inc".to_string(), "second.inc".to_string()]
    );
}

#[test]
fn calls_stream_in_source_order() {
    let code = r#"
            include("testus");
            test(testus);
            test("testus");
            "#;
    let js = NASLDefinitions::new_parse_tree("aha.nasl", code).unwrap();
    let test_calls = find_calls(&js.jumps, "test");
    assert_eq!(test_calls.len(), 2);
    assert!(test_calls[0].0.start.row < test_calls[1].0.start.row);
    assert_eq!(find_calls(&js.jumps, "include").len(), 1);
    let (_, args) = &find_calls(&js.jumps, "include")[0];
    assert_eq!(args.len(), 1);
    assert_eq!(args[0].to_string(), Some("testus".to_string()));
}

#[test]
fn search_parameter_misses_whitespace() {
    let code = "a = 1;\n";
    assert!(NASLDefinitions::search_parameter("aha.nasl", code, 5, 0).is_none());
}

#[test]
fn resolve_is_deterministic() {
    let code = r#"
            function test(a) {
                b = a;
            }
            b = 12;
            "#;
    let js = NASLDefinitions::new_parse_tree("aha.nasl", code).unwrap();
    let sp = str_to_defco("b", 2, 20);
    assert_eq!(js.find_points(&sp), js.find_points(&sp));
    let again = NASLDefinitions::new_parse_tree("aha.nasl", code).unwrap();
    assert_eq!(js.find_points(&sp), again.find_points(&sp));
}
