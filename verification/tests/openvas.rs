use nasl_analyzer::handler::goto_definition_points;
use nasl_analyzer::interpret::NASLDefinitions;
use nasl_analyzer::openvas_funcs::OpenVASInBuildFunctions;
use nasl_analyzer::types::Point;
use nasl_analyzer::types::SearchParameter;

fn query(origin: &str, name: &str, line: usize, column: usize) -> SearchParameter {
    SearchParameter {
        origin: origin.to_string(),
        name: name.to_string(),
        pos: Point { row: line, column },
    }
}

#[test]
fn funcnames() {
    let code = r#"
        #include "nasl_me.h"
        #include <stdio.h>
        static init_func libfuncs[] = { {"script_name", script_name_internal} };
        "#;
    let ut = OpenVASInBuildFunctions::new("nasl_init.c".to_string(), code.to_string()).unwrap();
    let sp = query("nasl_init.c", "script_name", 0, 0);
    assert_eq!(
        ut.find_origin_location(&sp).first().cloned(),
        Some(("nasl_init.c".to_string(), Point { row: 3, column: 41 })),
    );
}

#[test]
fn shallow_declarations_do_not_register_builtins() {
    // A declarator bound directly to an identifier, with no nested
    // declarator to check against `libfuncs`, must register nothing.
    let code = r#"
        static init_func foo = { {"a", b} };
        "#;
    let ut = OpenVASInBuildFunctions::new("nasl_init.c".to_string(), code.to_string()).unwrap();
    let sp = query("nasl_init.c", "a", 0, 0);
    assert!(ut.find_origin_location(&sp).is_empty());
}

#[test]
fn other_tables_do_not_register_builtins() {
    // The quotes are stripped from the literal, and only the table named
    // libfuncs counts.
    let code = r#"
        static init_func otherfuncs[] = { {"other_name", other_internal} };
        "#;
    let ut = OpenVASInBuildFunctions::new("nasl_init.c".to_string(), code.to_string()).unwrap();
    let sp = query("nasl_init.c", "other_name", 0, 0);
    assert!(ut.find_origin_location(&sp).is_empty());
}

#[test]
fn builtin_fallback_answers_when_nasl_is_silent() {
    let c_code = r#"
        static init_func libfuncs[] = { {"script_name", script_name_internal} };
        "#;
    let builtins = Some(
        OpenVASInBuildFunctions::new("/src/nasl_init.c".to_string(), c_code.to_string()).unwrap(),
    );
    let nasl = NASLDefinitions::new_parse_tree("aha.nasl", "a = 1;\n").unwrap();
    let sp = query("aha.nasl", "script_name", 0, 0);
    let found = goto_definition_points(&vec![nasl], &sp, &builtins);
    assert_eq!(found.len(), 1);
    assert_eq!(found[0].0, "/src/nasl_init.c".to_string());
    assert_eq!(found[0].1, Point { row: 1, column: 41 });
}

#[test]
fn builtin_fallback_is_last_resort() {
    // The same name exists both as a NASL assignment and as a built-in;
    // the built-in table must not be consulted.
    let c_code = r#"
        static init_func libfuncs[] = { {"script_name", script_name_internal} };
        "#;
    let builtins = Some(
        OpenVASInBuildFunctions::new("/src/nasl_init.c".to_string(), c_code.to_string()).unwrap(),
    );
    let nasl = NASLDefinitions::new_parse_tree("aha.nasl", "script_name = 1;\n").unwrap();
    let sp = query("aha.nasl", "script_name", 0, 0);
    let found = goto_definition_points(&vec![nasl], &sp, &builtins);
    assert_eq!(found.len(), 1);
    assert_eq!(found[0].0, "aha.nasl".to_string());
    assert_eq!(found[0].1, Point { row: 0, column: 0 });
}

#[test]
fn no_builtins_means_empty_answer() {
    let nasl = NASLDefinitions::new_parse_tree("aha.nasl", "a = 1;\n").unwrap();
    let sp = query("aha.nasl", "script_name", 0, 0);
    assert!(goto_definition_points(&vec![nasl], &sp, &None).is_empty());
}
