use cp_engine::paths::basename;
use cp_engine::paths::classify;
use cp_engine::paths::join_under;
use cp_engine::paths::Direction;
use cp_engine::resolve::resolve_download;
use cp_engine::resolve::resolve_upload;
use cp_engine::resolve::RemoteKind;
use cp_engine::resolve::WriteMode;

#[test]
fn classify_remote_scheme() {
    assert_eq!(classify("data://x"), Direction::RemotePath);
}

#[test]
fn classify_plain_local() {
    assert_eq!(classify("./out"), Direction::LocalPath);
    assert_eq!(classify("out/sub/dir"), Direction::LocalPath);
}

#[test]
fn classify_file_scheme_local() {
    assert_eq!(classify("file:///tmp/x"), Direction::LocalPath);
    assert_eq!(classify("file://x"), Direction::LocalPath);
}

#[test]
fn classify_empty_local() {
    assert_eq!(classify(""), Direction::LocalPath);
}

#[test]
fn classify_other_scheme_remote() {
    assert_eq!(classify("s3://bucket/key"), Direction::RemotePath);
    assert_eq!(classify("x://y"), Direction::RemotePath);
}

#[test]
fn classify_file_like_scheme_remote() {
    // Only the exact `file` scheme counts as local.
    assert_eq!(classify("filex://y"), Direction::RemotePath);
    assert_eq!(classify("fil://y"), Direction::RemotePath);
}

#[test]
fn classify_separator_not_at_start() {
    // The first separator decides, wherever it stands.
    assert_eq!(classify("a/file://b"), Direction::RemotePath);
}

#[test]
fn basename_plain() {
    assert_eq!(basename("a.txt"), "a.txt");
}

#[test]
fn basename_nested() {
    assert_eq!(basename("dir/sub/a.txt"), "a.txt");
    assert_eq!(basename("data://x/a.txt"), "a.txt");
}

#[test]
fn basename_trailing_slash() {
    assert_eq!(basename("dir/"), "");
    assert_eq!(basename(""), "");
}

#[test]
fn join_under_concatenates() {
    assert_eq!(join_under("data://x", "a.txt"), "data://x/a.txt");
}

#[test]
fn upload_overwrite_existing_file() {
    let (target, mode) = resolve_upload("data://x/f.bin", "local/a.txt", RemoteKind::ExistingFile);
    assert_eq!(mode, WriteMode::Overwrite);
    assert_eq!(target, "data://x/f.bin");
}

#[test]
fn upload_into_existing_dir() {
    let (target, mode) = resolve_upload("data://x", "a.txt", RemoteKind::ExistingDir);
    assert_eq!(mode, WriteMode::InsertChild);
    assert_eq!(target, "data://x/a.txt");

    let (target, mode) = resolve_upload("data://x", "some/dir/b.png", RemoteKind::ExistingDir);
    assert_eq!(mode, WriteMode::InsertChild);
    assert_eq!(target, "data://x/b.png");
}

#[test]
fn upload_create_new_uses_literal_destination() {
    let (target, mode) = resolve_upload("data://x/new.bin", "a.txt", RemoteKind::NonExistent);
    assert_eq!(mode, WriteMode::CreateNew);
    assert_eq!(target, "data://x/new.bin");
}

#[test]
fn upload_distinct_basenames_do_not_collide() {
    let (ta, _) = resolve_upload("data://x", "a.txt", RemoteKind::ExistingDir);
    let (tb, _) = resolve_upload("data://x", "b.txt", RemoteKind::ExistingDir);
    assert_ne!(ta, tb);
}

#[test]
fn upload_equal_basenames_collide() {
    let (ta, _) = resolve_upload("data://x", "one/a.txt", RemoteKind::ExistingDir);
    let (tb, _) = resolve_upload("data://x", "two/a.txt", RemoteKind::ExistingDir);
    assert_eq!(ta, tb);
}

#[test]
fn download_into_existing_dir() {
    let target = resolve_download("./out", "data://x/a.txt", true);
    assert_eq!(target, "./out/a.txt");
}

#[test]
fn download_literal_target() {
    let target = resolve_download("./result.bin", "data://x/a.txt", false);
    assert_eq!(target, "./result.bin");
}
