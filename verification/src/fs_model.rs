//! A mathematical model of the filesystem semantics the backends promise:
//! an abstract map from absolute paths to entries, one transition per
//! contract operation, and proofs of the guarantees callers rely on --
//! creation makes a path exist, renaming moves content, recursive removal
//! leaves no descendant, listings never show the dot entries, and the open
//! modes read, write, append, truncate and create mean what POSIX says.
//!
//! A path is modelled as its sequence of components, so `a/b` is the
//! two-component sequence `[a, b]`.

use vstd::prelude::*;
use crate::filesystem::{LinuxFileType, LinuxOpenOptions, PERMISSION_BITS_MASK};

verus! {

/// An absolute path, as its sequence of components.
pub type FsPath = Seq<Seq<char>>;

/// One filesystem entry: a regular file with its content, a directory, or a
/// symbolic link with its raw target path.
pub enum FsNode {
    File { content: Seq<u8> },
    Dir,
    Symlink { target: Seq<char> },
}

/// The file-type bits of a regular file in a POSIX mode word.
pub const FILE_TYPE_BITS: u16 = 0o100000;

/// The file-type bits of a directory in a POSIX mode word.
pub const DIR_TYPE_BITS: u16 = 0o040000;

/// The file-type bits of a symbolic link in a POSIX mode word.
pub const SYMLINK_TYPE_BITS: u16 = 0o120000;

impl FsNode {
    /// The type tag this entry shows in listings and metadata.
    pub open spec fn file_type(self) -> LinuxFileType {
        match self {
            FsNode::File { .. } => LinuxFileType::File,
            FsNode::Dir => LinuxFileType::Dir,
            FsNode::Symlink { .. } => LinuxFileType::Symlink,
        }
    }

    /// The file-type bits a server applies to this entry's mode word.
    pub open spec fn type_bits(self) -> u16 {
        match self {
            FsNode::File { .. } => FILE_TYPE_BITS,
            FsNode::Dir => DIR_TYPE_BITS,
            FsNode::Symlink { .. } => SYMLINK_TYPE_BITS,
        }
    }
}

/// A component is well formed when it is neither empty nor one of the two
/// dot entries.
pub open spec fn wf_component(c: Seq<char>) -> bool {
    c.len() > 0 && c != seq!['.'] && c != seq!['.', '.']
}

/// A path is well formed when every component is.
pub open spec fn wf_path(p: FsPath) -> bool {
    forall|i: int| 0 <= i < p.len() ==> wf_component(#[trigger] p[i])
}

/// `q` names the same entry as `p` or an ancestor of it.
pub open spec fn path_prefix(q: FsPath, p: FsPath) -> bool {
    1 <= q.len() <= p.len() && q == p.take(q.len() as int)
}

/// The remote filesystem in the abstract: the entry at each existing path,
/// and the permission bits last set through the abstraction.
pub struct FsModel {
    pub nodes: Map<FsPath, FsNode>,
    pub modes: Map<FsPath, u16>,
}

/// An open file stream in the abstract: the content it operates on, the
/// cursor position, and whether every write goes to the end.
pub struct StreamModel {
    pub content: Seq<u8>,
    pub cursor: int,
    pub append: bool,
}

impl FsModel {
    /// The filesystem with no entries.
    pub open spec fn empty() -> FsModel {
        FsModel { nodes: Map::empty(), modes: Map::empty() }
    }

    /// Every existing path is well formed.
    pub open spec fn wf(self) -> bool {
        forall|p: FsPath| #[trigger] self.nodes.dom().contains(p) ==> wf_path(p)
    }

    /// An entry resolves at `p`.
    pub open spec fn exists_at(self, p: FsPath) -> bool {
        self.nodes.dom().contains(p)
    }

    /// The bytes of the regular file at `p`.
    pub open spec fn file_content(self, p: FsPath) -> Seq<u8>
        recommends
            self.exists_at(p),
            self.nodes[p] is File,
    {
        match self.nodes[p] {
            FsNode::File { content } => content,
            _ => Seq::empty(),
        }
    }

    /// Creating an empty regular file.
    pub open spec fn create_file(self, p: FsPath) -> FsModel {
        FsModel { nodes: self.nodes.insert(p, FsNode::File { content: Seq::empty() }), ..self }
    }

    /// Creating an empty directory.
    pub open spec fn create_dir(self, p: FsPath) -> FsModel {
        FsModel { nodes: self.nodes.insert(p, FsNode::Dir), ..self }
    }

    /// Removing the entry at `p`.
    pub open spec fn remove_file(self, p: FsPath) -> FsModel {
        FsModel { nodes: self.nodes.remove(p), modes: self.modes.remove(p) }
    }

    /// Renaming the entry at `from` to `to`: `from` stops existing and `to`
    /// holds exactly what `from` held.
    pub open spec fn rename(self, from: FsPath, to: FsPath) -> FsModel {
        FsModel {
            nodes: self.nodes.remove(from).insert(to, self.nodes[from]),
            modes: if self.modes.dom().contains(from) {
                self.modes.remove(from).insert(to, self.modes[from])
            } else {
                self.modes.remove(from)
            },
        }
    }

    /// Copying the regular file at `from` to `to`: `from` is untouched and
    /// `to` holds the same bytes.
    pub open spec fn copy(self, from: FsPath, to: FsPath) -> FsModel {
        FsModel {
            nodes: self.nodes.insert(to, FsNode::File { content: self.file_content(from) }),
            ..self
        }
    }

    /// Creating a symbolic link at `dst` whose raw target is `src`.
    pub open spec fn create_symlink(self, src: Seq<char>, dst: FsPath) -> FsModel {
        FsModel { nodes: self.nodes.insert(dst, FsNode::Symlink { target: src }), ..self }
    }

    /// Reading the raw target of the link at `p`, when `p` is a link.
    pub open spec fn read_link(self, p: FsPath) -> Option<Seq<char>> {
        if self.exists_at(p) {
            match self.nodes[p] {
                FsNode::Symlink { target } => Some(target),
                _ => None,
            }
        } else {
            None
        }
    }

    /// Hard-linking the entry at `src` to `dst`: both paths then resolve to
    /// the same content.
    pub open spec fn create_hard_link(self, src: FsPath, dst: FsPath) -> FsModel {
        FsModel { nodes: self.nodes.insert(dst, self.nodes[src]), ..self }
    }

    /// Setting the permission bits of the entry at `p`.
    pub open spec fn set_permissions(self, p: FsPath, bits: u16) -> FsModel {
        FsModel { modes: self.modes.insert(p, bits), ..self }
    }

    /// The mode word metadata reports for `p`: the permission bits last set,
    /// masked to the permission range, with the server-applied file-type
    /// bits above them.
    pub open spec fn metadata_mode(self, p: FsPath) -> u16
        recommends
            self.exists_at(p),
            self.modes.dom().contains(p),
    {
        self.nodes[p].type_bits() | (self.modes[p] & PERMISSION_BITS_MASK)
    }

    /// Creating a directory together with every missing ancestor.
    pub open spec fn create_dir_recursively(self, p: FsPath) -> FsModel {
        FsModel {
            nodes: Map::new(
                |q: FsPath| self.nodes.dom().contains(q) || path_prefix(q, p),
                |q: FsPath|
                    if self.nodes.dom().contains(q) {
                        self.nodes[q]
                    } else {
                        FsNode::Dir
                    },
            ),
            ..self
        }
    }

    /// Removing the entry at `p` and every descendant of it.
    pub open spec fn remove_dir_recursively(self, p: FsPath) -> FsModel {
        FsModel {
            nodes: Map::new(
                |q: FsPath| self.nodes.dom().contains(q) && !path_prefix(p, q),
                |q: FsPath| self.nodes[q],
            ),
            ..self
        }
    }

    /// The names of the direct children of the directory at `d`.
    pub open spec fn children(self, d: FsPath) -> Set<Seq<char>> {
        Set::new(|n: Seq<char>| self.nodes.dom().contains(d.push(n)))
    }

    /// Opening the file at `p`. Truncation without write access is rejected
    /// by the backend; an existing regular file opens with its content,
    /// cleared first when truncation was requested; a missing path opens as
    /// a fresh empty file exactly when creation was requested; everything
    /// else fails.
    pub open spec fn open_result(self, p: FsPath, opts: LinuxOpenOptions) -> Option<
        (FsModel, StreamModel),
    > {
        if opts.truncate && !opts.write {
            None
        } else if self.exists_at(p) && self.nodes[p] is File {
            let c = if opts.truncate {
                Seq::<u8>::empty()
            } else {
                self.file_content(p)
            };
            Some(
                (
                    FsModel { nodes: self.nodes.insert(p, FsNode::File { content: c }), ..self },
                    StreamModel { content: c, cursor: 0, append: opts.append },
                ),
            )
        } else if !self.exists_at(p) && opts.create {
            Some(
                (
                    self.create_file(p),
                    StreamModel { content: Seq::empty(), cursor: 0, append: opts.append },
                ),
            )
        } else {
            None
        }
    }
}

impl StreamModel {
    /// The bytes a read to end-of-file yields from the cursor on.
    pub open spec fn read_to_end(self) -> Seq<u8>
        recommends
            0 <= self.cursor <= self.content.len(),
    {
        self.content.skip(self.cursor)
    }

    /// Writing `data`: an append-mode stream extends the content at the end;
    /// otherwise the bytes land at the cursor, overwriting what was there.
    pub open spec fn write(self, data: Seq<u8>) -> StreamModel
        recommends
            0 <= self.cursor <= self.content.len(),
    {
        if self.append {
            StreamModel {
                content: self.content + data,
                cursor: self.content.len() + data.len() as int,
                ..self
            }
        } else {
            let end = self.cursor + data.len();
            let kept = if end >= self.content.len() {
                Seq::<u8>::empty()
            } else {
                self.content.skip(end)
            };
            StreamModel {
                content: self.content.take(self.cursor) + data + kept,
                cursor: end,
                ..self
            }
        }
    }
}

/// Law: on the empty filesystem no path exists, and an operation at one path
/// does not bring another path into existence -- a path not created
/// beforehand does not exist.
pub proof fn law_absent_path_does_not_exist(fs: FsModel, p: FsPath, q: FsPath)
    requires
        !fs.exists_at(p),
        q != p,
    ensures
        !FsModel::empty().exists_at(p),
        !fs.create_file(q).exists_at(p),
        !fs.create_dir(q).exists_at(p),
        !fs.create_symlink(seq!['x'], q).exists_at(p),
{
}

/// Law: after a successful file creation the path exists, holds an empty
/// regular file, and no other path changed.
pub proof fn law_create_file(fs: FsModel, p: FsPath)
    requires
        !fs.exists_at(p),
    ensures
        fs.create_file(p).exists_at(p),
        fs.create_file(p).nodes[p].file_type() == LinuxFileType::File,
        fs.create_file(p).file_content(p) == Seq::<u8>::empty(),
        forall|q: FsPath|
            q != p ==> #[trigger] fs.create_file(p).exists_at(q) == fs.exists_at(q),
        forall|q: FsPath|
            q != p && fs.exists_at(q) ==> #[trigger] fs.create_file(p).nodes[q] == fs.nodes[q],
{
}

/// Law: opening an existing regular file for reading succeeds, leaves the
/// filesystem as it was, and reading the stream to end-of-file yields
/// exactly the file's bytes.
pub proof fn law_open_read_yields_content(fs: FsModel, p: FsPath, b: Seq<u8>)
    requires
        fs.exists_at(p),
        fs.nodes[p] == (FsNode::File { content: b }),
    ensures
        ({
            let opts = LinuxOpenOptions {
                read: true,
                write: false,
                append: false,
                truncate: false,
                create: false,
            };
            &&& fs.open_result(p, opts) == Some((fs, StreamModel {
                content: b,
                cursor: 0,
                append: false,
            }))
            &&& (StreamModel { content: b, cursor: 0, append: false }).read_to_end() == b
        }),
{
    let opts = LinuxOpenOptions {
        read: true,
        write: false,
        append: false,
        truncate: false,
        create: false,
    };
    assert(fs.nodes.insert(p, FsNode::File { content: b }) =~= fs.nodes);
    assert(b.skip(0) =~= b);
}

/// Law: a write without append lands at the start of a freshly opened file,
/// overwriting from offset zero.
pub proof fn law_write_overwrites_from_start(b: Seq<u8>, data: Seq<u8>)
    ensures
        ({
            let s = StreamModel { content: b, cursor: 0, append: false };
            s.write(data).content == if data.len() >= b.len() {
                data
            } else {
                data + b.skip(data.len() as int)
            }
        }),
{
    let s = StreamModel { content: b, cursor: 0, append: false };
    assert(b.take(0) =~= Seq::<u8>::empty());
    if data.len() >= b.len() {
        assert(s.write(data).content =~= data);
    } else {
        assert(s.write(data).content =~= data + b.skip(data.len() as int));
    }
}

/// Law: a write on an append-mode stream preserves the prior content and
/// extends it with the new bytes.
pub proof fn law_append_preserves_and_extends(b: Seq<u8>, cursor: int, data: Seq<u8>)
    ensures
        (StreamModel { content: b, cursor, append: true }).write(data).content == b + data,
{
}

/// Law: opening with truncation (and write access) clears the prior content,
/// on the stream and in the filesystem.
pub proof fn law_truncate_clears(fs: FsModel, p: FsPath, opts: LinuxOpenOptions)
    requires
        fs.exists_at(p),
        fs.nodes[p] is File,
        opts.write,
        opts.truncate,
    ensures
        fs.open_result(p, opts) matches Some((fs2, s)) && s.content == Seq::<u8>::empty()
            && fs2.file_content(p) == Seq::<u8>::empty(),
{
}

/// Law: requesting creation makes an open succeed on a missing path, with an
/// empty file that then exists.
pub proof fn law_create_opens_missing(fs: FsModel, p: FsPath, opts: LinuxOpenOptions)
    requires
        !fs.exists_at(p),
        opts.create,
        !(opts.truncate && !opts.write),
    ensures
        fs.open_result(p, opts) matches Some((fs2, s)) && s.content == Seq::<u8>::empty()
            && fs2.exists_at(p) && fs2.file_content(p) == Seq::<u8>::empty(),
{
}

/// Law: after a rename the old path no longer exists, the new path exists,
/// and it holds exactly what the old path held.
pub proof fn law_rename(fs: FsModel, from: FsPath, to: FsPath)
    requires
        fs.exists_at(from),
        from != to,
    ensures
        !fs.rename(from, to).exists_at(from),
        fs.rename(from, to).exists_at(to),
        fs.rename(from, to).nodes[to] == fs.nodes[from],
{
}

/// Law: a copy preserves the content at the source and duplicates it at the
/// destination.
pub proof fn law_copy(fs: FsModel, from: FsPath, to: FsPath)
    requires
        fs.exists_at(from),
        fs.nodes[from] is File,
        from != to,
    ensures
        fs.copy(from, to).exists_at(from),
        fs.copy(from, to).exists_at(to),
        fs.copy(from, to).file_content(from) == fs.file_content(from),
        fs.copy(from, to).file_content(to) == fs.file_content(from),
{
}

/// Law: reading the link created at `dst` yields the raw target `src` it was
/// created with.
pub proof fn law_symlink_read_link(fs: FsModel, src: Seq<char>, dst: FsPath)
    ensures
        fs.create_symlink(src, dst).read_link(dst) == Some(src),
{
}

/// Law: after a hard link both paths resolve to the same content.
pub proof fn law_hard_link(fs: FsModel, src: FsPath, dst: FsPath, b: Seq<u8>)
    requires
        fs.exists_at(src),
        fs.nodes[src] == (FsNode::File { content: b }),
        src != dst,
    ensures
        fs.create_hard_link(src, dst).file_content(src) == b,
        fs.create_hard_link(src, dst).file_content(dst) == b,
{
}

/// Law: the permission bits read back after setting them are the bits that
/// were set, once the server-applied file-type bits are masked off.
pub proof fn law_set_permissions(fs: FsModel, p: FsPath, bits: u16)
    requires
        fs.exists_at(p),
        bits & PERMISSION_BITS_MASK == bits,
    ensures
        fs.set_permissions(p, bits).metadata_mode(p) & PERMISSION_BITS_MASK == bits,
{
    let t = fs.nodes[p].type_bits();
    assert(FILE_TYPE_BITS & PERMISSION_BITS_MASK == 0) by (bit_vector);
    assert(DIR_TYPE_BITS & PERMISSION_BITS_MASK == 0) by (bit_vector);
    assert(SYMLINK_TYPE_BITS & PERMISSION_BITS_MASK == 0) by (bit_vector);
    assert((t & 0o7777u16 == 0 && bits & 0o7777u16 == bits) ==> ((t | (bits & 0o7777u16))
        & 0o7777u16 == bits)) by (bit_vector);
}

/// Law: after removing a file its path no longer exists.
pub proof fn law_remove_file(fs: FsModel, p: FsPath)
    ensures
        !fs.remove_file(p).exists_at(p),
{
}

/// Law: recursive directory creation makes the path and every ancestor of
/// it exist, and leaves every existing entry as it was.
pub proof fn law_create_dir_recursively(fs: FsModel, p: FsPath)
    requires
        p.len() >= 1,
    ensures
        fs.create_dir_recursively(p).exists_at(p),
        forall|q: FsPath|
            path_prefix(q, p) ==> #[trigger] fs.create_dir_recursively(p).exists_at(q),
        forall|q: FsPath|
            fs.exists_at(q) ==> #[trigger] fs.create_dir_recursively(p).nodes[q] == fs.nodes[q],
{
    assert(p.take(p.len() as int) =~= p);
    assert(path_prefix(p, p));
}

/// Law: recursive removal leaves neither the path nor any descendant of it,
/// even when the directory had entries, and touches nothing else.
pub proof fn law_remove_dir_recursively(fs: FsModel, p: FsPath)
    requires
        p.len() >= 1,
    ensures
        !fs.remove_dir_recursively(p).exists_at(p),
        forall|q: FsPath| path_prefix(p, q) ==> !#[trigger] fs.remove_dir_recursively(p).exists_at(
            q,
        ),
        forall|q: FsPath|
            !path_prefix(p, q) ==> #[trigger] fs.remove_dir_recursively(p).exists_at(q)
                == fs.exists_at(q),
{
    assert(p.take(p.len() as int) =~= p);
    assert(path_prefix(p, p));
}

/// Law: a directory listing contains an entry for every direct child
/// previously created, with its type tag, and never contains the dot or
/// dot-dot entries.
pub proof fn law_list_dir(fs: FsModel, d: FsPath, n: Seq<char>)
    requires
        fs.wf(),
        wf_component(n),
    ensures
        fs.create_file(d.push(n)).children(d).contains(n),
        fs.create_file(d.push(n)).nodes[d.push(n)].file_type() == LinuxFileType::File,
        fs.create_dir(d.push(n)).children(d).contains(n),
        fs.create_dir(d.push(n)).nodes[d.push(n)].file_type() == LinuxFileType::Dir,
        !fs.children(d).contains(seq!['.']),
        !fs.children(d).contains(seq!['.', '.']),
{
    if fs.children(d).contains(seq!['.']) {
        let q = d.push(seq!['.']);
        assert(fs.nodes.dom().contains(q));
        assert(!wf_component(q[q.len() - 1]));
    }
    if fs.children(d).contains(seq!['.', '.']) {
        let q = d.push(seq!['.', '.']);
        assert(fs.nodes.dom().contains(q));
        assert(!wf_component(q[q.len() - 1]));
    }
}

} // verus!
