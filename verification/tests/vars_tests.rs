use promptforge::VarMap;

#[test]
fn test_empty_prompt_vars() {
    let vars = VarMap::new();
    assert!(vars.is_empty(), "The map should be empty.");
}

#[test]
fn test_single_prompt_var() {
    let mut vars = VarMap::new();
    vars.insert("name", "tom");
    assert_eq!(vars.len(), 1);
    assert_eq!(vars.get("name"), Some(&"tom".to_string()));
}

#[test]
fn test_multiple_prompt_vars() {
    let mut vars = VarMap::new();
    vars.insert("name", "tom");
    vars.insert("adjective", "funny");
    vars.insert("content", "chickens");
    assert_eq!(vars.len(), 3);
    assert_eq!(vars.get("name"), Some(&"tom".to_string()));
    assert_eq!(vars.get("adjective"), Some(&"funny".to_string()));
    assert_eq!(vars.get("content"), Some(&"chickens".to_string()));
}

#[test]
fn vars_test_trailing_comma() {
    let mut vars = VarMap::new();
    vars.insert("name", "tom");
    vars.insert("adjective", "funny");
    vars.insert("content", "chickens");
    assert_eq!(vars.len(), 3);
    assert_eq!(vars.get("name"), Some(&"tom".to_string()));
    assert_eq!(vars.get("adjective"), Some(&"funny".to_string()));
    assert_eq!(vars.get("content"), Some(&"chickens".to_string()));
}

#[test]
fn test_overwriting_keys() {
    let mut vars = VarMap::new();
    vars.insert("name", "tom");
    vars.insert("name", "jerry");
    assert_eq!(vars.len(), 1);
    assert_eq!(vars.get("name"), Some(&"jerry".to_string()));
}
