use opmark_egui::fsmodel::FsModel;

fn path(segs: &[&str]) -> Vec<String> {
    segs.iter().map(|s| String::from(*s)).collect()
}

#[test]
fn rm_on_nonexistent_path_is_a_no_op() {
    let mut m = FsModel::new();
    m.mkdir(&path(&["out"]));
    m.mkfile(&path(&["out", "a.txt"]));
    let before = m.clone();
    m.rm(&path(&["missing"]));
    assert_eq!(m, before);
}

#[test]
fn rm_on_empty_tree_is_a_no_op() {
    let mut m = FsModel::new();
    let before = m.clone();
    m.rm(&path(&["anything"]));
    assert_eq!(m, before);
}

#[test]
fn mkdir_over_a_file_leaves_an_empty_directory() {
    let mut m = FsModel::new();
    m.mkfile(&path(&["work"]));
    assert!(m.has_entry(&path(&["work"]), false));
    m.mkdir(&path(&["work"]));
    assert!(m.has_entry(&path(&["work"]), true));
    assert!(!m.has_entry(&path(&["work"]), false));
}

#[test]
fn mkdir_over_a_directory_empties_it() {
    let mut m = FsModel::new();
    m.mkdir(&path(&["work"]));
    m.mkfile(&path(&["work", "a.txt"]));
    m.mkdir(&path(&["work"]));
    assert!(m.has_entry(&path(&["work"]), true));
    assert!(!m.has_entry(&path(&["work", "a.txt"]), false));
}

#[test]
fn rm_of_directory_takes_contents_but_not_siblings() {
    let mut m = FsModel::new();
    m.mkdir(&path(&["a"]));
    m.mkfile(&path(&["a", "x"]));
    m.mkfile(&path(&["b"]));
    m.rm(&path(&["a"]));
    assert!(!m.has_entry(&path(&["a"]), true));
    assert!(!m.has_entry(&path(&["a", "x"]), false));
    assert!(m.has_entry(&path(&["b"]), false));
}

#[test]
fn mkfile_overwrites_whatever_was_there() {
    let mut m = FsModel::new();
    m.mkdir(&path(&["p"]));
    m.mkfile(&path(&["p"]));
    assert!(m.has_entry(&path(&["p"]), false));
    assert!(!m.has_entry(&path(&["p"]), true));
}
