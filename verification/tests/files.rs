use fc_server::{file_extension, join_path, join_paths, FileService};

#[test]
fn paths_join_like_pathbuf() {
    for (b, n) in [("a", "b"), ("a/", "b"), ("", "b"), ("a", "/b"), ("/x/y", "z.pdf"), ("a", "")] {
        let mut p = std::path::PathBuf::from(b);
        p.push(n);
        assert_eq!(join_path(b, n), p.display().to_string(), "{} {}", b, n);
    }
    assert_eq!(join_paths(&["/data/in2", "38773995_1"]), "/data/in2/38773995_1");
    assert_eq!(join_paths(&[]), "");
    assert_eq!(join_paths(&["a", "/b", "c"]), "/b/c");
}

#[test]
fn pdf_files_are_picked() {
    let mut fs = FileService::default();
    assert!(fs.get_list().is_empty());
    assert!(fs.get_pdf().is_empty());
    fs.add_file("/p/70178878_3", "doc.pdf", "pdf");
    fs.add_file("/p/70178878_3/container", "img.png", "png");
    fs.add_file("/p/70178878_3/container", "b.pdf", "pdf");
    let list = fs.get_list();
    assert_eq!(list.len(), 3);
    assert_eq!(list[1].path, "/p/70178878_3/container/img.png");
    let pdfs = fs.get_pdf();
    assert_eq!(pdfs.len(), 2);
    assert_eq!(pdfs[0].file_name, "doc.pdf");
    assert_eq!(pdfs[1].path, "/p/70178878_3/container/b.pdf");
}

#[test]
fn extensions_like_path() {
    for n in ["a.pdf", "a.tar.gz", ".hidden", "noext", "a.", "..", ".", "x..y", "..z", ""] {
        let std_ext = std::path::Path::new(n).extension().map(|e| e.to_str().unwrap().to_owned());
        assert_eq!(file_extension(n), std_ext, "{}", n);
    }
}

#[test]
fn entries_are_files_or_directories() {
    let mut fs = FileService::default();
    assert!(!fs.add_entry("/p", "doc.pdf", false));
    assert!(fs.add_entry("/p", "container", true));
    assert!(!fs.add_entry("/p", "README", false));
    // a directory whose name has a dot is taken for a file
    assert!(!fs.add_entry("/p", "dir.v2", true));
    let list = fs.get_list();
    assert_eq!(list.len(), 2);
    assert_eq!(list[0].file_type, "pdf");
    assert_eq!(list[1].path, "/p/dir.v2");
    assert_eq!(list[1].file_type, "v2");
}
