use std::path::PathBuf;

use rivet::request_path::resolve_request_file_path;

fn expected(base: &str, parts: &[&str], name: &str) -> String {
    let mut p = PathBuf::from(base).join(".rivet").join("collections");
    for part in parts {
        p = p.join(part);
    }
    p.join(format!("{name}.toml")).to_string_lossy().to_string()
}

#[test]
fn resolves_collection_and_name() {
    let r = resolve_request_file_path("/home/user/project", "users/list");
    assert_eq!(r, Ok(expected("/home/user/project", &["users"], "list")));
    assert_eq!(r, Ok("/home/user/project/.rivet/collections/users/list.toml".to_string()));
}

#[test]
fn resolves_nested_folders_and_trims() {
    let r = resolve_request_file_path("/p/", "  a/b/c/get-user \n");
    assert_eq!(r, Ok(expected("/p/", &["a", "b", "c"], "get-user")));
    assert_eq!(r, Ok("/p/.rivet/collections/a/b/c/get-user.toml".to_string()));
}

#[test]
fn empty_base_joins_like_pathbuf() {
    let r = resolve_request_file_path("", "x/y");
    assert_eq!(r, Ok(expected("", &["x"], "y")));
}

#[test]
fn rejects_empty_path() {
    assert_eq!(resolve_request_file_path("/p", "   "), Err("Request path cannot be empty".to_string()));
    assert_eq!(resolve_request_file_path("/p", ""), Err("Request path cannot be empty".to_string()));
}

#[test]
fn rejects_toml_extension() {
    assert_eq!(
        resolve_request_file_path("/p", "users/list.toml"),
        Err("Request path should not include the .toml extension".to_string())
    );
    assert_eq!(
        resolve_request_file_path("/p", ".toml"),
        Err("Request path should not include the .toml extension".to_string())
    );
}

#[test]
fn rejects_backslash() {
    assert_eq!(
        resolve_request_file_path("/p", "users\\list"),
        Err("Request path must use / as the separator".to_string())
    );
}

#[test]
fn rejects_single_segment() {
    assert_eq!(
        resolve_request_file_path("/p", "users"),
        Err("Request path must use collection/name format".to_string())
    );
}

#[test]
fn rejects_invalid_segments() {
    for bad in ["users//list", "/users/list", "users/", "./list", "users/..", "a/./b"] {
        assert_eq!(
            resolve_request_file_path("/p", bad),
            Err("Request path contains an invalid segment".to_string()),
            "{bad}"
        );
    }
}

#[test]
fn dots_inside_names_are_fine() {
    let r = resolve_request_file_path("/p", "v1.2/get.all");
    assert_eq!(r, Ok("/p/.rivet/collections/v1.2/get.all.toml".to_string()));
}

#[test]
fn trims_unicode_white_space_like_str_trim() {
    let raw = "\u{3000}\u{a0}users/list\u{2029}\t";
    let r = resolve_request_file_path("/p", raw);
    assert_eq!(r, Ok(expected("/p", &["users"], raw.trim().split('/').last().unwrap())));
}

#[test]
fn resolved_paths_stay_inside_the_collections_folder() {
    let base = "/p/.rivet/collections/";
    for request in ["a/b", " a/b/c ", "x/.y/z", "a/..b"] {
        let p = resolve_request_file_path("/p", request).unwrap();
        let rest = p.strip_prefix(base).expect("under the collections folder");
        let segs: Vec<&str> = rest.split('/').collect();
        assert!(segs.len() >= 2);
        for seg in &segs {
            assert!(!seg.is_empty() && *seg != "." && *seg != "..");
        }
        assert!(segs.last().unwrap().ends_with(".toml"));
    }
    for request in ["../a", "a/../b", "a/./b", "a//b", "/a/b", "a/b/", "a\\b", ".."] {
        assert!(resolve_request_file_path("/p", request).is_err(), "{request}");
    }
}
