//! Value types for filesystem requests and replies: open-mode options, POSIX
//! permission bits, file-type tags, directory entries and file metadata, plus
//! the pure translations the SFTP backend applies to them.

use vstd::prelude::*;

verus! {

/// Which access modes and creation behaviors an open call should request.
/// The flags mirror POSIX `open(2)`: read/write select the access mode and
/// append, truncate and create select O_APPEND, O_TRUNC and O_CREAT.
#[derive(Clone, Copy, Debug, PartialEq, Eq, Structural)]
pub struct LinuxOpenOptions {
    pub read: bool,
    pub write: bool,
    pub append: bool,
    pub truncate: bool,
    pub create: bool,
}

/// SFTP version-3 open flag: open for reading.
pub const SFTP_FLAG_READ: u32 = 0x00000001;

/// SFTP version-3 open flag: open for writing.
pub const SFTP_FLAG_WRITE: u32 = 0x00000002;

/// SFTP version-3 open flag: every write lands at the end of the file.
pub const SFTP_FLAG_APPEND: u32 = 0x00000004;

/// SFTP version-3 open flag: create the file if it is missing.
pub const SFTP_FLAG_CREATE: u32 = 0x00000008;

/// SFTP version-3 open flag: discard the prior content on open.
pub const SFTP_FLAG_TRUNCATE: u32 = 0x00000010;

/// SFTP version-3 open flag: fail if the file already exists.
pub const SFTP_FLAG_EXCLUDE: u32 = 0x00000020;

impl LinuxOpenOptions {
    /// Starts from the empty option set: no access mode and no creation flag.
    pub fn new() -> (r: LinuxOpenOptions)
        ensures
            r == (LinuxOpenOptions {
                read: false,
                write: false,
                append: false,
                truncate: false,
                create: false,
            }),
    {
        LinuxOpenOptions { read: false, write: false, append: false, truncate: false, create: false }
    }

    pub fn is_read(&self) -> (r: bool)
        ensures
            r == self.read,
    {
        self.read
    }

    pub fn is_write(&self) -> (r: bool)
        ensures
            r == self.write,
    {
        self.write
    }

    pub fn is_append(&self) -> (r: bool)
        ensures
            r == self.append,
    {
        self.append
    }

    pub fn is_truncate(&self) -> (r: bool)
        ensures
            r == self.truncate,
    {
        self.truncate
    }

    pub fn is_create(&self) -> (r: bool)
        ensures
            r == self.create,
    {
        self.create
    }

    pub fn read(self) -> (r: LinuxOpenOptions)
        ensures
            r == (LinuxOpenOptions { read: true, ..self }),
    {
        LinuxOpenOptions { read: true, ..self }
    }

    pub fn write(self) -> (r: LinuxOpenOptions)
        ensures
            r == (LinuxOpenOptions { write: true, ..self }),
    {
        LinuxOpenOptions { write: true, ..self }
    }

    pub fn append(self) -> (r: LinuxOpenOptions)
        ensures
            r == (LinuxOpenOptions { append: true, ..self }),
    {
        LinuxOpenOptions { append: true, ..self }
    }

    pub fn truncate(self) -> (r: LinuxOpenOptions)
        ensures
            r == (LinuxOpenOptions { truncate: true, ..self }),
    {
        LinuxOpenOptions { truncate: true, ..self }
    }

    pub fn create(self) -> (r: LinuxOpenOptions)
        ensures
            r == (LinuxOpenOptions { create: true, ..self }),
    {
        LinuxOpenOptions { create: true, ..self }
    }

    /// The SFTP open flags this option set translates to: one bit per flag,
    /// exactly the bits whose option is requested.
    pub open spec fn spec_sftp_open_flags(self) -> u32 {
        (if self.read { SFTP_FLAG_READ } else { 0 }) | (if self.write {
            SFTP_FLAG_WRITE
        } else {
            0
        }) | (if self.append { SFTP_FLAG_APPEND } else { 0 }) | (if self.truncate {
            SFTP_FLAG_TRUNCATE
        } else {
            0
        }) | (if self.create { SFTP_FLAG_CREATE } else { 0 })
    }

    /// Translates the option set into the flag word an SFTP `open` request
    /// carries on the wire.
    pub fn sftp_open_flags(&self) -> (f: u32)
        ensures
            f == self.spec_sftp_open_flags(),
    {
        (if self.read { SFTP_FLAG_READ } else { 0 }) | (if self.write {
            SFTP_FLAG_WRITE
        } else {
            0
        }) | (if self.append { SFTP_FLAG_APPEND } else { 0 }) | (if self.truncate {
            SFTP_FLAG_TRUNCATE
        } else {
            0
        }) | (if self.create { SFTP_FLAG_CREATE } else { 0 })
    }
}

/// The flag word `create_file` sends: create the entry, and fail when an
/// entry already resolves at the path.
pub fn create_file_flags() -> (f: u32)
    ensures
        f == SFTP_FLAG_CREATE | SFTP_FLAG_EXCLUDE | SFTP_FLAG_WRITE,
{
    SFTP_FLAG_CREATE | SFTP_FLAG_EXCLUDE | SFTP_FLAG_WRITE
}

/// The SFTP status code a peer reports when no entry resolves at a path.
pub const SFTP_STATUS_NO_SUCH_FILE: u32 = 2;

/// The existence decision over a `stat` outcome: a successful stat means the
/// path resolves; a no-such-file status means it does not; every other
/// failure propagates unchanged.
pub fn exists_decision(stat_status: Result<(), u32>) -> (r: Result<bool, u32>)
    ensures
        stat_status is Ok ==> r == Ok::<bool, u32>(true),
        stat_status matches Err(c) ==> r == (if c == SFTP_STATUS_NO_SUCH_FILE {
            Ok::<bool, u32>(false)
        } else {
            Err::<bool, u32>(c)
        }),
{
    match stat_status {
        Ok(_) => Ok(true),
        Err(code) => {
            if code == SFTP_STATUS_NO_SUCH_FILE {
                Ok(false)
            } else {
                Err(code)
            }
        },
    }
}

/// The type tag of a directory entry or metadata record.
#[derive(Clone, Copy, Debug, PartialEq, Eq, Structural)]
pub enum LinuxFileType {
    File,
    Dir,
    Symlink,
    Other,
}

impl DeepView for LinuxFileType {
    type V = LinuxFileType;

    open spec fn deep_view(&self) -> LinuxFileType {
        *self
    }
}

/// The POSIX mode bits that name permissions: the nine rwx bits plus the
/// set-user-id, set-group-id and sticky bits.
pub const PERMISSION_BITS_MASK: u16 = 0o7777;

/// A POSIX mode bit-set. Values read back from a peer preserve the full
/// 16-bit mode, file-type bits included.
#[derive(Clone, Copy, Debug, PartialEq, Eq, Structural)]
pub struct LinuxPermissions {
    pub bits: u16,
}

impl LinuxPermissions {
    /// Accepts exactly the permission bits; a word carrying file-type bits
    /// is rejected.
    pub fn from_bits(bits: u16) -> (r: Option<LinuxPermissions>)
        ensures
            bits & PERMISSION_BITS_MASK == bits ==> r == Some(LinuxPermissions { bits }),
            bits & PERMISSION_BITS_MASK != bits ==> r is None,
    {
        if bits & PERMISSION_BITS_MASK == bits {
            Some(LinuxPermissions { bits })
        } else {
            None
        }
    }

    /// Keeps every bit of the mode word, the file-type bits a server applies
    /// included.
    pub fn from_bits_retain(bits: u16) -> (r: LinuxPermissions)
        ensures
            r == (LinuxPermissions { bits }),
    {
        LinuxPermissions { bits }
    }

    /// The raw mode word.
    pub fn bits(&self) -> (r: u16)
        ensures
            r == self.bits,
    {
        self.bits
    }
}

/// What a directory entry is in the abstract: its full path, its bare name
/// within the directory, and its type tag.
pub struct DirEntryView {
    pub path: Seq<char>,
    pub name: Seq<char>,
    pub file_type: LinuxFileType,
}

/// One entry of a directory listing.
#[derive(Debug, Clone)]
pub struct LinuxDirEntry {
    pub path: String,
    pub name: String,
    pub file_type: LinuxFileType,
}

impl View for LinuxDirEntry {
    type V = DirEntryView;

    open spec fn view(&self) -> DirEntryView {
        DirEntryView { path: self.path@, name: self.name@, file_type: self.file_type }
    }
}

impl DeepView for LinuxDirEntry {
    type V = DirEntryView;

    open spec fn deep_view(&self) -> DirEntryView {
        self.view()
    }
}

impl LinuxDirEntry {
    /// The entry's full path.
    pub fn path(&self) -> (r: &String)
        ensures
            r@ == self@.path,
    {
        &self.path
    }

    /// The entry's name within its directory.
    pub fn name(&self) -> (r: &String)
        ensures
            r@ == self@.name,
    {
        &self.name
    }

    /// The entry's type tag.
    pub fn file_type(&self) -> (r: LinuxFileType)
        ensures
            r == self@.file_type,
    {
        self.file_type
    }
}

/// Metadata of one filesystem entry as a peer reports it. Every attribute is
/// optional: a peer reports what it knows. Timestamps are seconds since the
/// epoch.
#[derive(Debug, Clone)]
pub struct LinuxFileMetadata {
    pub file_type: Option<LinuxFileType>,
    pub size: Option<u64>,
    pub permissions: Option<LinuxPermissions>,
    pub modified_time: Option<u64>,
    pub accessed_time: Option<u64>,
    pub created_time: Option<u64>,
    pub user_id: Option<u32>,
    pub user_name: Option<String>,
    pub group_id: Option<u32>,
    pub group_name: Option<String>,
}

/// The directory entries a raw listing translates to: dot and dot-dot are
/// dropped; every other raw entry keeps its name and type tag, in order, and
/// gets `parent`, a slash, and its name as its path.
pub open spec fn spec_dir_entries(parent: Seq<char>, raw: Seq<(Seq<char>, LinuxFileType)>) -> Seq<
    DirEntryView,
>
    decreases raw.len(),
{
    if raw.len() == 0 {
        Seq::empty()
    } else {
        let rest = spec_dir_entries(parent, raw.drop_last());
        let last = raw.last();
        if last.0 == seq!['.'] || last.0 == seq!['.', '.'] {
            rest
        } else {
            rest.push(
                DirEntryView {
                    path: parent + seq!['/'] + last.0,
                    name: last.0,
                    file_type: last.1,
                },
            )
        }
    }
}

/// Translates a raw SFTP directory listing -- each entry a name and a type
/// tag -- into the entries `list_dir` returns for the directory `parent`.
pub fn list_dir_entries(parent: &str, raw: &Vec<(String, LinuxFileType)>) -> (r: Vec<
    LinuxDirEntry,
>)
    ensures
        r.deep_view() == spec_dir_entries(parent@, raw.deep_view()),
{
    let ghost rdv = raw.deep_view();
    proof {
        assert forall|j: int| 0 <= j < rdv.len() implies rdv[j] == (
            raw@[j].0@,
            raw@[j].1,
        ) by {}
    }
    let mut out: Vec<LinuxDirEntry> = Vec::new();
    let n = raw.len();
    let mut i: usize = 0;
    while i < n
        invariant
            n == raw@.len(),
            rdv == raw.deep_view(),
            forall|j: int| 0 <= j < rdv.len() ==> rdv[j] == (#[trigger] raw@[j].0@, raw@[j].1),
            0 <= i <= n,
            out.deep_view() == spec_dir_entries(parent@, rdv.take(i as int)),
        decreases n - i,
    {
        let name: &String = &raw[i].0;
        let file_type = raw[i].1;
        let name_len = name.as_str().unicode_len();
        let is_dot = name_len == 1 && name.as_str().get_char(0) == '.';
        let is_dot_dot = name_len == 2 && name.as_str().get_char(0) == '.' && name.as_str()
            .get_char(1) == '.';
        proof {
            if is_dot {
                assert(name@ =~= seq!['.']);
            }
            if is_dot_dot {
                assert(name@ =~= seq!['.', '.']);
            }
            if !is_dot && !is_dot_dot {
                assert(name@ != seq!['.'] && name@ != seq!['.', '.']) by {
                    if name@ == seq!['.'] {
                        assert(name@.len() == 1 && name@[0] == '.');
                    }
                    if name@ == seq!['.', '.'] {
                        assert(name@.len() == 2 && name@[0] == '.' && name@[1] == '.');
                    }
                }
            }
        }
        let ghost snap = out.deep_view();
        if !is_dot && !is_dot_dot {
            let mut path = String::from_str(parent);
            path.append("/");
            path.append(name.as_str());
            proof {
                reveal_strlit("/");
                assert(path@ =~= parent@ + seq!['/'] + name@);
            }
            let entry = LinuxDirEntry { path, name: name.clone(), file_type };
            out.push(entry);
        }
        proof {
            assert(rdv.take(i + 1).drop_last() =~= rdv.take(i as int));
            assert(rdv.take(i + 1).last() == rdv[i as int]);
            if is_dot || is_dot_dot {
                assert(out.deep_view() =~= spec_dir_entries(parent@, rdv.take(i + 1)));
            } else {
                assert(out.deep_view() =~= snap.push(
                    DirEntryView {
                        path: parent@ + seq!['/'] + name@,
                        name: name@,
                        file_type,
                    },
                ));
                assert(out.deep_view() =~= spec_dir_entries(parent@, rdv.take(i + 1)));
            }
        }
        i += 1;
    }
    proof {
        assert(rdv.take(n as int) =~= rdv);
    }
    out
}

} // verus!
