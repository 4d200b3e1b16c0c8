use timesheet::index::{IndexFile, ProjectIndex, ProjectMap};

fn line(name: &str, path: &str) -> ProjectIndex {
    ProjectIndex { name: name.to_string(), path: path.to_string() }
}

#[test]
fn empty_map_has_no_project() {
    let map = ProjectMap::new();
    assert_eq!(map.get(&"midas".to_string()), None);
    assert_eq!(map.to_index().project_indexes.len(), 0);
}

#[test]
fn insert_then_get() {
    let mut map = ProjectMap::new();
    map.insert("midas".to_string(), "/tmp/midas.json".to_string());
    assert_eq!(map.get(&"midas".to_string()), Some(&"/tmp/midas.json".to_string()));
    assert_eq!(map.get(&"other".to_string()), None);
}

#[test]
fn insert_replaces_path_of_same_name() {
    let mut map = ProjectMap::new();
    map.insert("a".to_string(), "1".to_string());
    map.insert("b".to_string(), "2".to_string());
    map.insert("a".to_string(), "3".to_string());
    assert_eq!(map.get(&"a".to_string()), Some(&"3".to_string()));
    assert_eq!(map.get(&"b".to_string()), Some(&"2".to_string()));
    assert_eq!(map.to_index().project_indexes.len(), 2);
}

#[test]
fn remove_hands_back_path() {
    let mut map = ProjectMap::new();
    map.insert("a".to_string(), "1".to_string());
    map.insert("b".to_string(), "2".to_string());
    assert_eq!(map.remove(&"a".to_string()), Some("1".to_string()));
    assert_eq!(map.get(&"a".to_string()), None);
    assert_eq!(map.get(&"b".to_string()), Some(&"2".to_string()));
    assert_eq!(map.remove(&"a".to_string()), None);
}

#[test]
fn from_index_later_line_wins() {
    let index = IndexFile {
        project_indexes: vec![line("a", "1"), line("b", "2"), line("a", "3")],
    };
    let map = ProjectMap::from_index(index);
    assert_eq!(map.get(&"a".to_string()), Some(&"3".to_string()));
    assert_eq!(map.get(&"b".to_string()), Some(&"2".to_string()));
}

#[test]
fn to_index_rebuilds_same_map() {
    let mut map = ProjectMap::new();
    map.insert("x".to_string(), "px".to_string());
    map.insert("y".to_string(), "py".to_string());
    let index = map.to_index();
    assert_eq!(index.project_indexes.len(), 2);
    let again = ProjectMap::from_index(index);
    assert_eq!(again.get(&"x".to_string()), Some(&"px".to_string()));
    assert_eq!(again.get(&"y".to_string()), Some(&"py".to_string()));
}
