//! Session backup locations.
//!
//! When a link target is a pre-existing non-symlink, it is moved aside into a
//! per-session backup directory (`~/.dotfiles-backup/<tag>/...`) before the
//! symlink is created. One [`BackupWriter`] is used per engine run, sharing a
//! single tag across all backups. Destinations mirror the full absolute path
//! of what is backed up, so two backups of the same basename do not collide.

use vstd::prelude::*;

use super::path::{is_absolute, path_joined, root_stripped, strip_root};
use crate::text::{chars_of, push_str, string_of};

verus! {

/// `p` joined onto `base` as `Path::join` does: an absolute `p` replaces
/// `base`.
pub open spec fn joined_path(base: Seq<char>, p: Seq<char>) -> Seq<char> {
    if is_absolute(p) {
        p
    } else {
        path_joined(base, p)
    }
}

/// `Path::join` on text.
pub fn join_path(base: &str, p: &str) -> (r: String)
    ensures
        r@ == joined_path(base@, p@),
{
    let pv = chars_of(p);
    if pv.len() > 0 && pv[0] == '/' {
        return string_of(pv.as_slice());
    }
    let mut v = chars_of(base);
    let n: usize = v.len();
    if n > 0 && v[n - 1] != '/' {
        v.push('/');
    }
    push_str(&mut v, p);
    assert(v@ =~= joined_path(base@, p@));
    string_of(v.as_slice())
}

/// The session backup directory under `home` for `tag`.
pub open spec fn backup_root(home: Seq<char>, tag: Seq<char>) -> Seq<char> {
    joined_path(joined_path(home, ".dotfiles-backup"@), tag)
}

/// Where `src` goes under the backup root: its path without the leading `/`,
/// below the root.
pub open spec fn backup_destination(root: Seq<char>, src: Seq<char>) -> Seq<char> {
    joined_path(root, root_stripped(src))
}

/// Lazily owns the session backup directory: empty until the first conflict.
#[derive(Debug)]
pub struct BackupWriter {
    root: String,
}

impl View for BackupWriter {
    type V = Seq<char>;

    closed spec fn view(&self) -> Seq<char> {
        self.root@
    }
}

impl Default for BackupWriter {
    fn default() -> (r: BackupWriter)
        ensures
            r@.len() == 0,
    {
        BackupWriter { root: String::new() }
    }
}

impl BackupWriter {
    /// Whether the backup root has been set yet.
    pub fn is_initialized(&self) -> (r: bool)
        ensures
            r == (self@.len() > 0),
    {
        !self.root.as_str().is_empty()
    }

    /// The backup root (empty until set).
    pub fn root(&self) -> (r: &str)
        ensures
            r@ == self@,
    {
        self.root.as_str()
    }

    /// Set the backup root under `home` with the shared `tag`, and return it.
    pub fn init_root(&mut self, home: &str, tag: &str) -> (r: String)
        ensures
            r@ == backup_root(home@, tag@),
            final(self)@ == r@,
    {
        let base = join_path(home, ".dotfiles-backup");
        let root = join_path(base.as_str(), tag);
        self.root = root.clone();
        root
    }

    /// Where `src` is moved under the root.
    pub fn destination(&self, src: &str) -> (r: String)
        ensures
            r@ == backup_destination(self@, src@),
    {
        let rel = strip_root(src);
        join_path(self.root.as_str(), rel.as_str())
    }
}

/// A backup mirrors the absolute path it saves below the root: `/a/b`
/// goes to `<root>/a/b`, so two backups of the same file name from
/// different directories never collide.
pub proof fn backup_mirrors_absolute_path(root: Seq<char>, src: Seq<char>)
    requires
        root.len() > 0,
        root.last() != '/',
        src.len() > 1,
        src[0] == '/',
        src[1] != '/',
    ensures
        backup_destination(root, src) == root + src,
{
    assert(root_stripped(src) == src.drop_first());
    assert(root + seq!['/'] + src.drop_first() =~= root + src);
}

/// Backups of distinct absolute paths go to distinct destinations.
pub proof fn backups_never_collide(root: Seq<char>, a: Seq<char>, b: Seq<char>)
    requires
        root.len() > 0,
        root.last() != '/',
        a.len() > 1 && a[0] == '/' && a[1] != '/',
        b.len() > 1 && b[0] == '/' && b[1] != '/',
        a != b,
    ensures
        backup_destination(root, a) != backup_destination(root, b),
{
    backup_mirrors_absolute_path(root, a);
    backup_mirrors_absolute_path(root, b);
    if root + a == root + b {
        assert(a =~= (root + a).subrange(root.len() as int, (root + a).len() as int));
        assert(b =~= (root + b).subrange(root.len() as int, (root + b).len() as int));
    }
}

} // verus!
