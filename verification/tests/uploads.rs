use iroh_common::uploads::{build_tree_from_file_list, split_path, DirNode, FileNode, TreeNode};

fn render(d: &DirNode<u32>) -> String {
    let mut out = format!("{}[", d.name);
    let mut first = true;
    for e in &d.entries {
        if !first {
            out.push(',');
        }
        first = false;
        match e {
            TreeNode::File(f) => out.push_str(&format!("{}={}", f.name, f.content)),
            TreeNode::Dir(sub) => out.push_str(&render(sub)),
        }
    }
    out.push(']');
    out
}

fn files(list: &[(u32, &str)]) -> Vec<(u32, String)> {
    list.iter().map(|(c, p)| (*c, p.to_string())).collect()
}

#[test]
fn split_path_cases() {
    assert_eq!(split_path("a/b/c"), vec!["a", "b", "c"]);
    assert_eq!(split_path("file.txt"), vec!["file.txt"]);
    assert_eq!(split_path(""), vec![""]);
    assert_eq!(split_path("a/"), vec!["a", ""]);
    assert_eq!(split_path("/a"), vec!["", "a"]);
    assert_eq!(split_path("//"), vec!["", "", ""]);
    assert_eq!(split_path("ä/ö"), vec!["ä", "ö"]);
}

#[test]
fn root_is_empty_and_unnamed() {
    let r: DirNode<u32> = DirNode::root();
    assert_eq!(render(&r), "[]");
}

#[test]
fn subdir_index_finds_first_dir_of_that_name() {
    let mut d: DirNode<u32> = DirNode::root();
    d.add_file(FileNode { name: "a".to_string(), content: 1 });
    assert_eq!(d.subdir_index("a"), None);
    assert_eq!(d.add_subdir("a"), 1);
    assert_eq!(d.add_subdir("b"), 2);
    assert_eq!(d.subdir_index("a"), Some(1));
    assert_eq!(d.subdir_index("b"), Some(2));
    assert_eq!(d.subdir_index("c"), None);
}

#[test]
fn files_at_the_top_go_in_the_root() {
    let t = build_tree_from_file_list(files(&[(1, "a.txt"), (2, "b.txt")]));
    assert_eq!(render(&t), "[a.txt=1,b.txt=2]");
}

#[test]
fn directories_are_made_once_and_reused() {
    let t = build_tree_from_file_list(files(&[
        (1, "docs/a.md"),
        (2, "top.txt"),
        (3, "docs/img/x.png"),
        (4, "docs/b.md"),
    ]));
    assert_eq!(render(&t), "[docs[a.md=1,img[x.png=3],b.md=4],top.txt=2]");
}

#[test]
fn same_file_path_twice_gives_two_files() {
    let t = build_tree_from_file_list(files(&[(1, "d/f"), (2, "d/f")]));
    assert_eq!(render(&t), "[d[f=1,f=2]]");
}

#[test]
fn empty_names_are_kept() {
    let t = build_tree_from_file_list(files(&[(1, ""), (2, "a/"), (3, "/b")]));
    assert_eq!(render(&t), "[=1,a[=2],[b=3]]");
}

#[test]
fn file_named_like_a_directory_does_not_block_it() {
    let t = build_tree_from_file_list(files(&[(1, "x"), (2, "x/y")]));
    assert_eq!(render(&t), "[x=1,x[y=2]]");
}

#[test]
fn empty_upload_gives_empty_root() {
    let t = build_tree_from_file_list::<u32>(Vec::new());
    assert_eq!(render(&t), "[]");
}

#[test]
fn ensure_subdirs_and_file_puts_file_at_path() {
    let mut d: DirNode<u32> = DirNode::root();
    d.ensure_subdirs_and_file(vec!["a".to_string(), "b".to_string(), "c".to_string()], 7);
    d.ensure_subdirs_and_file(vec!["a".to_string(), "d".to_string()], 8);
    assert_eq!(render(&d), "[a[b[c=7],d=8]]");
}

#[test]
fn split_parts_join_back_and_hold_no_slash() {
    for p in ["", "a", "a/b", "/x/", "a//b", "dir/sub/file.txt", "é/ü/ß"] {
        let parts = split_path(p);
        assert!(!parts.is_empty());
        assert!(parts.iter().all(|s| !s.contains('/')));
        assert_eq!(parts.join("/"), p);
    }
}

#[test]
fn every_uploaded_file_lands_once_at_its_path() {
    fn collect(d: &DirNode<u32>, prefix: &mut Vec<String>, out: &mut Vec<(Vec<String>, u32)>) {
        for e in &d.entries {
            match e {
                TreeNode::File(f) => {
                    let mut p = prefix.clone();
                    p.push(f.name.clone());
                    out.push((p, f.content));
                }
                TreeNode::Dir(sub) => {
                    prefix.push(sub.name.clone());
                    collect(sub, prefix, out);
                    prefix.pop();
                }
            }
        }
    }
    let input = files(&[(1, "a/b/c"), (2, "a/d"), (3, "e"), (4, "a/b/f"), (5, "g/h")]);
    let t = build_tree_from_file_list(input.clone());
    let mut found = Vec::new();
    collect(&t, &mut Vec::new(), &mut found);
    let mut expected: Vec<(Vec<String>, u32)> =
        input.iter().map(|(c, p)| (split_path(p), *c)).collect();
    found.sort();
    expected.sort();
    assert_eq!(found, expected);
}
