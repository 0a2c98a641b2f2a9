use docstore::{Database, NotFound};

fn sample() -> Database {
    Database::new(vec![
        (
            "array._array_reconstructor".to_string(),
            Some("reconstructs arrays ...".to_string()),
        ),
        ("x.y".to_string(), None),
    ])
}

#[test]
fn test_module_item() {
    let doc = sample()
        .try_module_item("array", "_array_reconstructor")
        .unwrap();
    assert!(doc.is_some());
}

#[test]
fn present_path_returns_exact_documentation() {
    let db = sample();
    assert_eq!(
        db.try_path("array._array_reconstructor"),
        Ok(Some("reconstructs arrays ...".to_string()))
    );
}

#[test]
fn absent_path_returns_not_found() {
    let db = sample();
    assert_eq!(db.try_path("nonexistent.module.path"), Err(NotFound));
}

#[test]
fn undocumented_entry_is_success_without_documentation() {
    let db = sample();
    assert_eq!(db.try_path("x.y"), Ok(None));
}

#[test]
fn module_item_joins_with_one_separator() {
    let db = sample();
    assert_eq!(db.try_module_item("x", "y"), db.try_path("x.y"));
    assert_eq!(
        db.try_module_item("array", "_array_reconstructor"),
        db.try_path("array._array_reconstructor")
    );
    assert_eq!(db.try_module_item("X", "Y"), Err(NotFound));
}

#[test]
fn separator_only_path_matches_empty_module_and_item() {
    let db = Database::new(vec![(".".to_string(), None)]);
    assert_eq!(db.try_module_item("", ""), Ok(None));
}

#[test]
fn repeated_lookups_agree() {
    let db = sample();
    assert_eq!(db.try_path("x.y"), db.try_path("x.y"));
    assert_eq!(
        db.try_path("nonexistent.module.path"),
        db.try_path("nonexistent.module.path")
    );
    assert_eq!(
        db.try_module_item("x", "y"),
        db.try_module_item("x", "y")
    );
}

#[test]
fn duplicate_paths_keep_the_later_entry() {
    let db = Database::new(vec![
        ("a.b".to_string(), Some("first".to_string())),
        ("a.b".to_string(), Some("second".to_string())),
    ]);
    assert_eq!(db.try_path("a.b"), Ok(Some("second".to_string())));
}

#[test]
fn empty_table_finds_nothing() {
    let db = Database::new(vec![]);
    assert_eq!(db.try_path(""), Err(NotFound));
    assert_eq!(db.try_path("a.b"), Err(NotFound));
}

#[test]
fn empty_module_and_item_are_legal_inputs() {
    let db = sample();
    assert_eq!(db.try_module_item("", ""), Err(NotFound));
    assert_eq!(db.try_module_item("", "y"), Err(NotFound));
    assert_eq!(db.try_module_item("x", ""), Err(NotFound));
}
