use resp2chat::profiles::ProfileTable;

fn table(names: &[&str]) -> ProfileTable<usize> {
    let mut table = ProfileTable::new();
    for (i, name) in names.iter().enumerate() {
        table.insert(name.to_string(), i);
    }
    table
}

fn names(table: &ProfileTable<usize>) -> Vec<String> {
    (0..table.len()).map(|i| table.entry(i).0.to_string()).collect()
}

#[test]
fn names_are_kept_in_order() {
    let table = table(&["b", "a", "", "B", "é", "ab", "a"]);
    assert_eq!(names(&table), vec!["", "B", "a", "ab", "b", "é"]);
    assert_eq!(table.get("a"), Some(&6));
    assert_eq!(table.get("ab"), Some(&5));
    assert_eq!(table.get("A"), None);
}

#[test]
fn a_later_profile_takes_the_name_over() {
    let mut table = table(&["a", "b"]);
    table.insert("a".to_string(), 7);
    assert_eq!(table.len(), 2);
    assert_eq!(table.get("a"), Some(&7));
    assert_eq!(table.get("b"), Some(&1));
}

#[test]
fn names_match_up_to_case() {
    let table = table(&["GLM", "glm", "Kimi"]);
    assert_eq!(table.find("glm"), Some(&1));
    assert_eq!(table.find("GLM"), Some(&0));
    assert_eq!(table.find("Glm"), Some(&0));
    assert_eq!(table.find("KIMI"), Some(&2));
    assert_eq!(table.find("kim"), None);
}

#[test]
fn a_clone_holds_the_same() {
    let table = table(&["b", "a"]);
    assert_eq!(table.clone(), table);
    assert_eq!(names(&table.clone()), vec!["a", "b"]);
}

#[test]
fn an_empty_table_matches_nothing() {
    let table: ProfileTable<usize> = ProfileTable::new();
    assert_eq!(table.len(), 0);
    assert_eq!(table.get(""), None);
    assert_eq!(table.find("*"), None);
}
