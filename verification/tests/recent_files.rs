use metronome::recent_files::{add, RecentFile, MAX_RECENT};

fn entry(path: &str, title: &str) -> RecentFile {
    RecentFile { path: path.to_string(), title: title.to_string() }
}

#[test]
fn test_add_puts_file_first() {
    let files = vec![entry("/a.gp5", "A"), entry("/b.gp", "B")];
    let list = add(files, "/c.gp5", "C");
    let paths: Vec<&str> = list.iter().map(|f| f.path.as_str()).collect();
    assert_eq!(paths, vec!["/c.gp5", "/a.gp5", "/b.gp"]);
    assert_eq!(list[0].title, "C");
}

#[test]
fn test_add_moves_existing_file_to_front() {
    let files = vec![entry("/a.gp5", "A"), entry("/b.gp", "B"), entry("/c.gp5", "C")];
    let list = add(files, "/b.gp", "B2");
    let paths: Vec<&str> = list.iter().map(|f| f.path.as_str()).collect();
    assert_eq!(paths, vec!["/b.gp", "/a.gp5", "/c.gp5"]);
    assert_eq!(list[0].title, "B2");
}

#[test]
fn test_add_keeps_at_most_ten() {
    let files: Vec<RecentFile> = (0..10).map(|i| entry(&format!("/{}.gp5", i), "T")).collect();
    let list = add(files, "/new.gp5", "N");
    assert_eq!(list.len(), MAX_RECENT);
    assert_eq!(list[0].path, "/new.gp5");
    assert_eq!(list[9].path, "/8.gp5");
}

#[test]
fn test_add_to_empty_list() {
    let list = add(Vec::new(), "/only.gp", "Only");
    assert_eq!(list.len(), 1);
    assert_eq!(list[0].path, "/only.gp");
}

#[test]
fn adding_the_same_file_twice_is_adding_it_once() {
    let files = vec![entry("/a.gp5", "A"), entry("/b.gp", "B"), entry("/c.gp5", "C")];
    let once = add(files.clone(), "/b.gp", "B2");
    let twice = add(add(files, "/b.gp", "B2"), "/b.gp", "B2");
    let view = |list: &Vec<RecentFile>| list.iter().map(|f| (f.path.clone(), f.title.clone())).collect::<Vec<_>>();
    assert_eq!(view(&once), view(&twice));
}
