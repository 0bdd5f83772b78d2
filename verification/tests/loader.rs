use nasl_analyzer::cache::Cache;
use nasl_analyzer::cache::openvas_init_path;
use nasl_analyzer::handler::file_uri;
use nasl_analyzer::handler::find_all_points;
use nasl_analyzer::interpret::NASLDefinitions;
use nasl_analyzer::loader::include_candidates;
use nasl_analyzer::types::Point;
use nasl_analyzer::types::SearchParameter;

#[test]
fn candidates_join_roots_and_strip_scheme() {
    let includes = vec!["common.inc".to_string(), "other.inc".to_string()];
    let roots = vec!["file:///root".to_string(), "/usr/share".to_string()];
    assert_eq!(
        include_candidates(&includes, &roots),
        vec![
            "/root/common.inc".to_string(),
            "/usr/share/common.inc".to_string(),
            "/root/other.inc".to_string(),
            "/usr/share/other.inc".to_string(),
        ]
    );
}

#[test]
fn cross_file_resolution_points_at_the_included_file() {
    let a = NASLDefinitions::new_parse_tree(
        "/work/a.nasl",
        "include(\"common.inc\");\nfoo(1);\n",
    )
    .unwrap();
    let common = NASLDefinitions::new_parse_tree(
        "/root/common.inc",
        "function foo(x) { return x; }\n",
    )
    .unwrap();
    let sp = SearchParameter {
        origin: "/work/a.nasl".to_string(),
        name: "foo".to_string(),
        pos: Point { row: 1, column: 1 },
    };
    let found = find_all_points(&vec![a, common], &sp);
    assert_eq!(found.len(), 1);
    assert_eq!(found[0].0, "/root/common.inc".to_string());
    assert_eq!(
        file_uri(&found[0].0),
        "file:///root/common.inc".to_string()
    );
}

#[test]
fn init_path_keeps_c_files_and_extends_roots() {
    assert_eq!(
        openvas_init_path("/src/nasl/nasl_init.c"),
        "/src/nasl/nasl_init.c".to_string()
    );
    assert_eq!(
        openvas_init_path("/src/openvas"),
        "/src/openvas/nasl/nasl_init.c".to_string()
    );
}

#[test]
fn cache_holds_roots_and_builtins() {
    let mut cache = Cache::new(vec!["/a".to_string()]);
    cache.update_paths(vec!["/b".to_string()]);
    assert_eq!(cache.paths, vec!["/a".to_string(), "/b".to_string()]);
    assert!(cache.internal().is_none());
    let c_code = "static init_func libfuncs[] = { {\"script_name\", x} };\n";
    cache.set_internal("/src/nasl_init.c".to_string(), c_code.to_string());
    let held = cache.internal();
    assert!(held.is_some());
    let sp = SearchParameter {
        origin: "x.nasl".to_string(),
        name: "script_name".to_string(),
        pos: Point { row: 0, column: 0 },
    };
    let found = held.unwrap().find_origin_location(&sp);
    assert_eq!(found.len(), 1);
    assert_eq!(found[0].0, "/src/nasl_init.c".to_string());
}
