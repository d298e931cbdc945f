use remarkable::tablet::remote::{RemoteEntry, RemoteFileKind, RemoteMetadata};
use remarkable::tablet::ssh::{auth_attempts, expand_tilde, AuthMethod};
use remarkable::tablet::transfer::{join_rel_path, take_listing, walk_root, PendingDir};

fn item(name: &str, kind: RemoteFileKind, size: Option<u64>) -> RemoteEntry {
    RemoteEntry { name: name.to_string(), metadata: RemoteMetadata { kind, size, mtime: Some(9) } }
}

#[test]
fn walks_strips_trailing_slash() {
    assert_eq!(walk_root("/root/"), "/root");
    assert_eq!(walk_root("/root//"), "/root");
    assert_eq!(walk_root("/root"), "/root");
}

#[test]
fn listing_splits_dirs_files_and_skips_others() {
    let dir = PendingDir { remote: "/root".into(), rel: String::new() };
    let entries = vec![
        item("top.txt", RemoteFileKind::File, Some(1)),
        item("sub", RemoteFileKind::Dir, None),
        item("link", RemoteFileKind::Other, None),
    ];
    let mut frontier = Vec::new();
    let mut files = Vec::new();
    take_listing(&dir, &entries, &mut frontier, &mut files);
    assert_eq!(frontier.len(), 1);
    assert_eq!(frontier[0].remote, "/root/sub");
    assert_eq!(frontier[0].rel, "sub");
    assert_eq!(files.len(), 1);
    assert_eq!(files[0].remote_path, "/root/top.txt");
    assert_eq!(files[0].rel_path, "top.txt");
    assert_eq!(files[0].size, Some(1));
    assert_eq!(files[0].mtime, Some(9));

    let sub = frontier.remove(0);
    let entries = vec![item("inner.rm", RemoteFileKind::File, Some(2))];
    take_listing(&sub, &entries, &mut frontier, &mut files);
    assert_eq!(files[1].rel_path, "sub/inner.rm");
    assert_eq!(files[1].remote_path, "/root/sub/inner.rm");
}

#[test]
fn relative_paths_join_like_paths() {
    assert_eq!(join_rel_path("", "a"), "a");
    assert_eq!(join_rel_path("a", "b"), "a/b");
    assert_eq!(join_rel_path("a/", "b"), "a/b");
    assert_eq!(join_rel_path("a", "/b"), "/b");
}

#[test]
fn auth_methods_are_tried_agent_key_password() {
    assert_eq!(
        auth_attempts(true, true, true),
        vec![AuthMethod::Agent, AuthMethod::KeyFile, AuthMethod::Password]
    );
    assert_eq!(auth_attempts(false, true, false), vec![AuthMethod::KeyFile]);
    assert!(auth_attempts(false, false, false).is_empty());
}

#[test]
fn tilde_expands_with_home() {
    assert_eq!(expand_tilde("~/.ssh/id_rsa", Some("/home/u")), "/home/u/.ssh/id_rsa");
    assert_eq!(expand_tilde("~/.ssh/id_rsa", Some("/home/u/")), "/home/u/.ssh/id_rsa");
    assert_eq!(expand_tilde("~/.ssh/id_rsa", None), "~/.ssh/id_rsa");
    assert_eq!(expand_tilde("/etc/key", Some("/home/u")), "/etc/key");
}

#[test]
fn walk_to_empty_frontier_finds_each_nested_file_once() {
    let listing = |remote: &str| -> Vec<RemoteEntry> {
        match remote {
            "/data" => vec![
                item("a.metadata", RemoteFileKind::File, Some(1)),
                item("a", RemoteFileKind::Dir, None),
                item("link", RemoteFileKind::Other, None),
            ],
            "/data/a" => vec![
                item("p1.rm", RemoteFileKind::File, Some(2)),
                item("thumbs", RemoteFileKind::Dir, None),
            ],
            "/data/a/thumbs" => vec![item("p1.png", RemoteFileKind::File, Some(3))],
            _ => vec![],
        }
    };
    let mut frontier = vec![PendingDir { remote: walk_root("/data/"), rel: String::new() }];
    let mut files = Vec::new();
    while let Some(dir) = frontier.pop() {
        let entries = listing(&dir.remote);
        take_listing(&dir, &entries, &mut frontier, &mut files);
    }
    let mut rel: Vec<String> = files.iter().map(|f| f.rel_path.clone()).collect();
    rel.sort();
    assert_eq!(rel, vec!["a.metadata", "a/p1.rm", "a/thumbs/p1.png"]);
    assert!(files.iter().any(|f| f.remote_path == "/data/a/thumbs/p1.png" && f.size == Some(3)));
}
