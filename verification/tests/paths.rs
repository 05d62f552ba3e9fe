use kaomoji_widget::paths::{default_assets_dir, join_path, path_extension, resolve_asset_path, socket_path};

#[test]
fn join_adds_one_separator() {
    assert_eq!(join_path("/run/user/1000", "kaomoji-widget.sock"), "/run/user/1000/kaomoji-widget.sock");
    assert_eq!(join_path("/run/user/1000/", "x"), "/run/user/1000/x");
    assert_eq!(join_path("", "x"), "x");
    assert_eq!(join_path("dir", ""), "dir/");
}

#[test]
fn join_absolute_part_replaces_base() {
    assert_eq!(join_path("/assets", "/etc/face.png"), "/etc/face.png");
}

#[test]
fn socket_path_in_runtime_dir() {
    assert_eq!(
        socket_path(Some("/run/user/1000"), 1000),
        "/run/user/1000/kaomoji-widget.sock"
    );
}

#[test]
fn socket_path_by_uid() {
    assert_eq!(socket_path(None, 501), "/tmp/kaomoji-widget-501.sock");
    assert_eq!(socket_path(None, 0), "/tmp/kaomoji-widget-0.sock");
}

#[test]
fn resolve_asset_path_joins_name() {
    assert_eq!(
        resolve_asset_path(Some("/home/me/pack"), "happy.gif"),
        Some("/home/me/pack/happy.gif".to_string())
    );
    assert_eq!(resolve_asset_path(None, "happy.gif"), None);
}

#[test]
fn extensions() {
    assert_eq!(path_extension("/tmp/a.png"), Some("png".to_string()));
    assert_eq!(path_extension("archive.tar.gz"), Some("gz".to_string()));
    assert_eq!(path_extension("/tmp/.bashrc"), None);
    assert_eq!(path_extension("/tmp/..x"), Some("x".to_string()));
    assert_eq!(path_extension("/tmp/noext"), None);
    assert_eq!(path_extension("foo."), Some("".to_string()));
    assert_eq!(path_extension("dir.d/"), Some("d".to_string()));
    assert_eq!(path_extension("dir.d/."), Some("d".to_string()));
    assert_eq!(path_extension("a.b/.."), None);
    assert_eq!(path_extension("/"), None);
    assert_eq!(path_extension(""), None);
    assert_eq!(path_extension("."), None);
}

#[test]
fn extensions_agree_with_std() {
    for p in [
        "/tmp/a.png", "archive.tar.gz", "/tmp/.bashrc", "/tmp/..x", "/tmp/noext", "foo.",
        "dir.d/", "dir.d/.", "a.b/..", "/", "", ".", "./x.y", "x.y//", "a/./", "..", "...",
        ".a.b", "/x/y.z/./.",
    ] {
        let expected = std::path::Path::new(p)
            .extension()
            .map(|e| e.to_str().unwrap().to_string());
        assert_eq!(path_extension(p), expected, "path {p:?}");
    }
}

#[test]
fn joins_agree_with_std() {
    for (base, part) in [("/a", "b"), ("/a/", "b"), ("", "b"), ("a", ""), ("/a", "/b"), ("a//", "c")] {
        let expected = std::path::Path::new(base).join(part);
        assert_eq!(join_path(base, part), expected.to_str().unwrap(), "{base:?} + {part:?}");
    }
}

#[test]
fn default_assets_directory() {
    assert_eq!(default_assets_dir("/home/me/widget"), "/home/me/widget/assets/kaomoji-pack");
    assert_eq!(default_assets_dir("/"), "/assets/kaomoji-pack");
}
