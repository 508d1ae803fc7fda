use ferrocopy::lua::{filter_answer, missing_filter_error};
use ferrocopy::lua::{select_custom_names, LuaFilter};

#[test]
fn test_filter_include_large_files() {
    let script = r#"
function filter(path, size)
    return size > 1024
end
"#;
    let filter = LuaFilter::new(script).unwrap();
    assert!(filter.should_include("big.bin", 2048).unwrap());
    assert!(!filter.should_include("small.txt", 512).unwrap());
}

#[test]
fn test_filter_by_extension() {
    let script = r#"
function filter(path, size)
    return path:match("%.txt$") ~= nil
end
"#;
    let filter = LuaFilter::new(script).unwrap();
    assert!(filter.should_include("readme.txt", 100).unwrap());
    assert!(!filter.should_include("image.png", 99999).unwrap());
}

#[test]
fn test_invalid_script_errors() {
    let result = LuaFilter::new("invalid lua syntax {{");
    assert!(result.is_err());
}

#[test]
fn test_custom_globals() {
    let script = r#"
    custom_value = 42
    function filter(path, size)
        return true
    end
    "#;
    let filter = LuaFilter::new(script).unwrap();
    let globals = filter.custom_globals();
    assert!(globals.contains(&"custom_value".to_string()));
}

#[test]
fn script_errors_name_their_cause() {
    let err = LuaFilter::new("error('nope')").err().unwrap();
    assert!(err.starts_with("Lua script error: "));
    let no_filter = LuaFilter::new("x = 1").unwrap();
    let err = no_filter.should_include("a", 1).unwrap_err();
    assert!(err.starts_with("Missing 'filter' function: "));
    let failing = LuaFilter::new("function filter(p, s) error('bad') end").unwrap();
    let err = failing.should_include("a", 1).unwrap_err();
    assert!(err.starts_with("Lua filter error: "));
}

#[test]
fn filter_keeps_its_script_and_hides_builtin_names() {
    let script = "_hidden = 1\nshown = 2\nfunction filter(p, s) return true end";
    let f = LuaFilter::new(script).unwrap();
    assert_eq!(f.script(), script);
    let globals = f.custom_globals();
    assert!(globals.contains(&"shown".to_string()));
    assert!(!globals.contains(&"filter".to_string()));
    assert!(!globals.contains(&"_hidden".to_string()));
    assert!(!globals.iter().any(|g| g.starts_with('_')));
}

#[test]
fn custom_names_skip_unreadable_keys_and_reserved_names() {
    let keys = vec![
        Ok("alpha".to_string()),
        Err("not a string".to_string()),
        Ok("_G".to_string()),
        Ok("filter".to_string()),
        Ok("beta".to_string()),
        Ok("".to_string()),
    ];
    assert_eq!(select_custom_names(keys), vec!["alpha".to_string(), "beta".to_string(), "".to_string()]);
}

#[test]
fn filter_outcomes_are_explained() {
    assert_eq!(filter_answer(Ok(true)), Ok(true));
    assert_eq!(filter_answer(Ok(false)), Ok(false));
    assert_eq!(filter_answer(Err("boom".into())), Err("Lua filter error: boom".to_string()));
    assert_eq!(missing_filter_error("nil"), "Missing 'filter' function: nil");
}

#[test]
fn builtin_globals_are_not_custom() {
    let f = LuaFilter::new("custom_value = 42\nfunction filter(path, size) return true end").unwrap();
    assert_eq!(f.custom_globals(), vec!["custom_value".to_string()]);
    let keys = vec![Ok("custom_value".to_string()), Ok("print".to_string()), Ok("string".to_string())];
    assert_eq!(select_custom_names(keys), vec!["custom_value".to_string()]);
}
