use tsr_ast::bundled_fs::{
    bundled_node, bundled_rest, directory_exists, entries, read_file, stat, walk_next, walk_visits, BundledNode,
    WalkControl,
};

fn table() -> (Vec<Vec<u8>>, Vec<u64>) {
    (
        vec![b"lib.d.ts".to_vec(), b"lib.dom.d.ts".to_vec(), b"lib.es5.d.ts".to_vec()],
        vec![10, 200, 3000],
    )
}

#[test]
fn stat_reports_the_entry_names_of_root_libs_and_a_library() {
    let (names, sizes) = table();
    let root = stat(&names, &sizes, b"bundled:///").unwrap().unwrap();
    assert_eq!((root.name.as_slice(), root.directory, root.size), (b"".as_slice(), true, 0));
    let libs = stat(&names, &sizes, b"bundled:///libs").unwrap().unwrap();
    assert_eq!((libs.name.as_slice(), libs.directory), (b"libs".as_slice(), true));
    let lib = stat(&names, &sizes, b"bundled:///libs/lib.es5.d.ts").unwrap().unwrap();
    assert_eq!(lib.name, b"lib.es5.d.ts".to_vec());
    assert_eq!(lib.size, 3000);
    assert!(!lib.directory);
    assert!(stat(&names, &sizes, b"bundled:///libs/lib.es6.d.ts").unwrap().is_none());
    assert!(stat(&names, &sizes, b"bundled:///other").unwrap().is_none());
    assert!(stat(&names, &sizes, b"/home/lib.d.ts").is_none());
}

#[test]
fn reads_find_libraries_only_under_libs() {
    let (names, _) = table();
    assert_eq!(read_file(&names, b"bundled:///libs/lib.dom.d.ts"), Some(Some(1)));
    assert_eq!(read_file(&names, b"bundled:///libs"), Some(None));
    assert_eq!(read_file(&names, b"bundled:///lib.d.ts"), Some(None));
    assert_eq!(read_file(&names, b"bundled:///libs/missing.d.ts"), Some(None));
    assert_eq!(read_file(&names, b"lib.d.ts"), None);
    assert_eq!(bundled_node(&names, b"bundled:///libs/lib.d.ts"), Some(Some(BundledNode::Library(0))));
    assert_eq!(bundled_node(&names, b"bundled:///"), Some(Some(BundledNode::Root)));
    assert_eq!(bundled_rest(b"bundled:///libs/x"), Some(b"libs/x".to_vec()));
    assert_eq!(bundled_rest(b"bundled://libs"), None);
}

#[test]
fn only_libs_is_a_directory_and_lists_every_library() {
    let (names, _) = table();
    assert_eq!(directory_exists(b"bundled:///libs"), Some(true));
    assert_eq!(directory_exists(b"bundled:///"), Some(false));
    assert_eq!(directory_exists(b"/libs"), None);
    let root = entries(&names, b"bundled:///").unwrap();
    assert_eq!(root.directories, Some(vec![b"libs".to_vec()]));
    assert_eq!(root.files, None);
    let libs = entries(&names, b"bundled:///libs").unwrap();
    assert_eq!(libs.directories, None);
    assert_eq!(libs.files, Some(names.clone()));
    let other = entries(&names, b"bundled:///libs/lib.d.ts").unwrap();
    assert_eq!((other.directories, other.files), (None, None));
    assert!(entries(&names, b"/").is_none());
}

#[test]
fn walk_entry_names_match_their_visits_and_skipping_libs_ends_the_walk() {
    let (names, sizes) = table();
    let visits = walk_visits(&names, &sizes, b"bundled:///").unwrap();
    assert_eq!(visits.len(), names.len() + 1);
    assert_eq!(visits[0].path, b"bundled:////libs".to_vec());
    assert_eq!(visits[0].name, b"libs".to_vec());
    assert!(visits[0].directory);
    assert_eq!(visits[1].path, b"bundled:///libs/lib.d.ts".to_vec());
    assert_eq!(visits[1].name, names[0]);
    assert_eq!(visits[3].size, 3000);
    assert_eq!(walk_next(&visits, 0, WalkControl::Continue), Some(1));
    assert_eq!(walk_next(&visits, 0, WalkControl::SkipDir), None);
    assert_eq!(walk_next(&visits, 1, WalkControl::SkipDir), Some(2));
    assert_eq!(walk_next(&visits, 2, WalkControl::SkipAll), None);
    assert_eq!(walk_next(&visits, 3, WalkControl::Continue), None);
    let from_libs = walk_visits(&names, &sizes, b"bundled:///libs").unwrap();
    assert_eq!(from_libs.len(), names.len());
    assert!(from_libs.iter().all(|v| !v.directory));
    assert!(walk_visits(&names, &sizes, b"bundled:///libs/lib.d.ts").unwrap().is_empty());
    assert!(walk_visits(&names, &sizes, b"/").is_none());
}

#[test]
fn a_walked_library_path_is_found_by_stat_and_read() {
    let (names, sizes) = table();
    for (i, v) in walk_visits(&names, &sizes, b"bundled:///libs").unwrap().iter().enumerate() {
        assert_eq!(read_file(&names, &v.path), Some(Some(i)));
        let info = stat(&names, &sizes, &v.path).unwrap().unwrap();
        assert_eq!((info.name, info.directory, info.size), (names[i].clone(), false, sizes[i]));
    }
}

#[test]
fn stat_reports_the_pinned_entry_names() {
    let (names, sizes) = table();
    let root = stat(&names, &sizes, b"bundled:///").unwrap().unwrap();
    assert_eq!((root.name.as_slice(), root.directory), (b"".as_slice(), true));
    let libs = stat(&names, &sizes, b"bundled:///libs").unwrap().unwrap();
    assert_eq!((libs.name.as_slice(), libs.directory), (b"libs".as_slice(), true));
    let lib = stat(&names, &sizes, b"bundled:///libs/lib.es5.d.ts").unwrap().unwrap();
    assert_eq!(lib.name.as_slice(), b"lib.es5.d.ts");
    let index = tsr_ast::bundled::library(&names, b"lib.es5.d.ts").unwrap();
    assert_eq!(lib.size, sizes[index]);
    assert!(!lib.directory);
}

#[test]
fn walk_entry_info_carries_the_entry_name() {
    let (names, sizes) = table();
    let visits = walk_visits(&names, &sizes, b"bundled:///").unwrap();
    let mut seen: Vec<Vec<u8>> = Vec::new();
    let mut at = Some(0);
    while let Some(i) = at {
        let v = &visits[i];
        assert!(v.path.ends_with(&v.name), "{:?}", v.path);
        seen.push(v.name.clone());
        at = walk_next(&visits, i, WalkControl::Continue);
    }
    assert_eq!(seen.len(), names.len() + 1);
    assert_eq!(seen[0].as_slice(), b"libs");
    assert_eq!(seen[1], names[0]);
}
