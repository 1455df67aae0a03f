use std::path::PathBuf;

use tunnelforge::path::FsPath;

#[test]
fn join_appends_segments() {
    let p = FsPath::from_root(Some(PathBuf::from("/home/u"))).join("a".to_string()).join("b.yml".to_string());
    assert_eq!(p.root, Some(PathBuf::from("/home/u")));
    assert_eq!(p.segments, vec!["a", "b.yml"]);
}
