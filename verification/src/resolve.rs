//! Per-item destination resolution. One destination string is shared by the
//! whole batch; each item resolves its own write target against it. The
//! remote or local stat that the resolution depends on is performed by the
//! caller and handed in as a plain value, so the decision itself is verified
//! for every possible answer of the store.

use vstd::prelude::*;

use crate::paths::basename;
use crate::paths::basename_of;
use crate::paths::join_under;
use crate::paths::joined;

verus! {

/// What the remote object named by the destination resolves to, as reported
/// by the store at the moment the item is processed.
#[derive(Clone, Copy, Debug, PartialEq, Eq, Structural)]
pub enum RemoteKind {
    ExistingFile,
    ExistingDir,
    NonExistent,
}

/// How an upload writes its target.
#[derive(Clone, Copy, Debug, PartialEq, Eq, Structural)]
pub enum WriteMode {
    /// The destination names an existing remote file: replace its content.
    Overwrite,
    /// The destination names an existing remote directory: place the item
    /// inside it under the item's base filename.
    InsertChild,
    /// The destination does not exist: create a new object whose address is
    /// the literal destination string.
    CreateNew,
}

/// Resolve one upload: given the destination string, the source item and what
/// the destination currently resolves to remotely, produce the target address
/// and the write mode.
pub fn resolve_upload(dest: &str, item: &str, kind: RemoteKind) -> (r: (String, WriteMode))
    ensures
        kind == RemoteKind::ExistingFile ==> r.1 == WriteMode::Overwrite && r.0@ == dest@,
        kind == RemoteKind::ExistingDir ==> r.1 == WriteMode::InsertChild && r.0@ == joined(
            dest@,
            basename_of(item@),
        ),
        kind == RemoteKind::NonExistent ==> r.1 == WriteMode::CreateNew && r.0@ == dest@,
{
    match kind {
        RemoteKind::ExistingFile => (dest.to_owned(), WriteMode::Overwrite),
        RemoteKind::ExistingDir => {
            let name = basename(item);
            (join_under(dest, name.as_str()), WriteMode::InsertChild)
        },
        RemoteKind::NonExistent => (dest.to_owned(), WriteMode::CreateNew),
    }
}

/// Resolve one download: the target is `dest/basename(item)` when the
/// destination names an existing local directory, and the literal destination
/// otherwise. Whether the directory exists is stat'ed by the caller.
pub fn resolve_download(dest: &str, item: &str, dest_is_dir: bool) -> (r: String)
    ensures
        dest_is_dir ==> r@ == joined(dest@, basename_of(item@)),
        !dest_is_dir ==> r@ == dest@,
{
    if dest_is_dir {
        let name = basename(item);
        join_under(dest, name.as_str())
    } else {
        dest.to_owned()
    }
}

} // verus!
