//! What must hold of the files that a node trusts: their kind, their size and
//! who may touch them.

use crate::config_error::{refused, verdict, ConfigError, ConfigErrorView, Verdict};
use crate::text::{digits, digits_text, joined, joined3};
use vstd::prelude::*;
use vstd::string::*;

verus! {

pub const MAX_TLS_FILE_BYTES: u64 = 1_048_576;

pub const MAX_CONFIG_BYTES: u64 = 1_048_576;

pub const MAX_SNAPSHOT_BYTES: u64 = 10_737_418_240;

/// What the file system says of a path, symbolic links not followed.
#[derive(Clone, Copy, Debug, PartialEq, Eq, Structural)]
pub struct FileFacts {
    pub is_file: bool,
    pub is_dir: bool,
    pub is_symlink: bool,
    pub len: u64,
    /// The permission bits.
    pub mode: u32,
    pub device: u64,
    pub inode: u64,
}

/// What looking at a path gave: its facts, or the text of the fault.
pub type FileLook = Result<FileFacts, String>;

/// Whether someone other than the owner has access.
pub open spec fn shared(mode: u32) -> bool {
    mode & 0o077 != 0
}

/// Whether someone other than the owner may write.
pub open spec fn shared_write(mode: u32) -> bool {
    mode & 0o022 != 0
}

/// What a look at a TLS file must show.
pub open spec fn tls_metadata_verdict(facts: FileFacts, name: Seq<char>, private: bool) -> Verdict {
    if !facts.is_file {
        refused(name + " is not a regular file"@)
    } else if facts.len == 0 {
        refused(name + " is empty"@)
    } else if facts.len > MAX_TLS_FILE_BYTES {
        refused(name + " exceeds "@ + digits(MAX_TLS_FILE_BYTES as nat) + " bytes"@)
    } else if private && shared(facts.mode) {
        refused(name + " must not be group/world-readable"@)
    } else {
        Ok(())
    }
}

fn exceeds(name: &str, maximum: u64) -> (error: ConfigError)
    ensures
        error@ == ConfigErrorView::Invalid(
            name@ + " exceeds "@ + digits(maximum as nat) + " bytes"@,
        ),
{
    let mut text = joined3(name, " exceeds ", digits_text(maximum).as_str());
    text.append(" bytes");
    ConfigError::Invalid(text)
}

pub fn validate_tls_metadata(facts: &FileFacts, name: &str, private: bool) -> (result: Result<
    (),
    ConfigError,
>)
    ensures
        verdict(result) == tls_metadata_verdict(*facts, name@, private),
{
    if !facts.is_file {
        return Err(ConfigError::Invalid(joined(name, " is not a regular file")));
    }
    if facts.len == 0 {
        return Err(ConfigError::Invalid(joined(name, " is empty")));
    }
    if facts.len > MAX_TLS_FILE_BYTES {
        return Err(exceeds(name, MAX_TLS_FILE_BYTES));
    }
    if private && facts.mode & 0o077 != 0 {
        return Err(ConfigError::Invalid(joined(name, " must not be group/world-readable")));
    }
    Ok(())
}

/// What a look at a bounded file must show.
pub open spec fn bounded_metadata_verdict(
    facts: FileFacts,
    label: Seq<char>,
    maximum: u64,
    owner_writes_alone: bool,
) -> Verdict {
    if !facts.is_file {
        refused(label + " is not a regular file"@)
    } else if facts.len == 0 || facts.len > maximum {
        refused(label + " size must be between 1 and "@ + digits(maximum as nat) + " bytes"@)
    } else if owner_writes_alone && shared_write(facts.mode) {
        refused(label + " must not be group/world-writable"@)
    } else {
        Ok(())
    }
}

fn size_out_of_range(label: &str, maximum: u64) -> (error: ConfigError)
    ensures
        error@ == ConfigErrorView::Invalid(
            label@ + " size must be between 1 and "@ + digits(maximum as nat) + " bytes"@,
        ),
{
    let mut text = joined3(label, " size must be between 1 and ", digits_text(maximum).as_str());
    text.append(" bytes");
    ConfigError::Invalid(text)
}

pub fn validate_bounded_file_metadata(
    facts: &FileFacts,
    label: &str,
    maximum: u64,
    owner_writes_alone: bool,
) -> (result: Result<(), ConfigError>)
    ensures
        verdict(result) == bounded_metadata_verdict(*facts, label@, maximum, owner_writes_alone),
{
    if !facts.is_file {
        return Err(ConfigError::Invalid(joined(label, " is not a regular file")));
    }
    if facts.len == 0 || facts.len > maximum {
        return Err(size_out_of_range(label, maximum));
    }
    if owner_writes_alone && facts.mode & 0o022 != 0 {
        return Err(ConfigError::Invalid(joined(label, " must not be group/world-writable")));
    }
    Ok(())
}

/// Whether two looks were at one file.
pub open spec fn one_file(left: FileFacts, right: FileFacts) -> bool {
    left.device == right.device && left.inode == right.inode
}

pub fn same_file(left: &FileFacts, right: &FileFacts) -> (same: bool)
    ensures
        same == one_file(*left, *right),
{
    left.device == right.device && left.inode == right.inode
}

/// The rules that a file is read by.
#[derive(Clone, Copy, Debug, PartialEq, Eq, Structural)]
pub enum FileRule {
    /// A TLS file; a private one is for the owner alone.
    Tls { private: bool },
    /// A file of at most `maximum` bytes, perhaps for the owner alone to
    /// write.
    Bounded { maximum: u64, owner_writes_alone: bool },
}

impl FileRule {
    pub open spec fn limit(self) -> u64 {
        match self {
            FileRule::Tls { .. } => MAX_TLS_FILE_BYTES,
            FileRule::Bounded { maximum, .. } => maximum,
        }
    }

    pub open spec fn facts_verdict(self, facts: FileFacts, label: Seq<char>) -> Verdict {
        match self {
            FileRule::Tls { private } => tls_metadata_verdict(facts, label, private),
            FileRule::Bounded { maximum, owner_writes_alone } => bounded_metadata_verdict(
                facts,
                label,
                maximum,
                owner_writes_alone,
            ),
        }
    }

    /// What the look at the path before the file is opened must show.
    pub open spec fn path_verdict(self, look: FileLook, label: Seq<char>) -> Verdict {
        match look {
            Err(fault) => refused(label + " cannot be read: "@ + fault@),
            Ok(facts) => self.facts_verdict(facts, label),
        }
    }

    /// What the looks at the open file and at the path after that must show.
    pub open spec fn opened_verdict(
        self,
        opened: FileLook,
        current: FileLook,
        label: Seq<char>,
    ) -> Verdict {
        match (opened, current) {
            (Err(fault), _) => refused(label + " cannot be inspected: "@ + fault@),
            (_, Err(fault)) => refused(label + " cannot be rechecked: "@ + fault@),
            (Ok(opened), Ok(current)) => if !one_file(opened, current) {
                refused(label + " changed while it was being opened"@)
            } else {
                self.facts_verdict(opened, label)
            },
        }
    }

    /// What the bytes that were read must show. That the file is not empty is
    /// for the looks at it to show: one cut short after them is read as it is.
    pub open spec fn content_verdict(self, len: nat, label: Seq<char>) -> Verdict {
        if len > self.limit() {
            refused(label + " exceeds "@ + digits(self.limit() as nat) + " bytes"@)
        } else {
            Ok(())
        }
    }

    /// The most bytes that the file may have.
    pub fn maximum(&self) -> (maximum: u64)
        ensures
            maximum == self.limit(),
    {
        match self {
            FileRule::Tls { .. } => MAX_TLS_FILE_BYTES,
            FileRule::Bounded { maximum, .. } => *maximum,
        }
    }

    fn check_facts(&self, facts: &FileFacts, label: &str) -> (result: Result<(), ConfigError>)
        ensures
            verdict(result) == self.facts_verdict(*facts, label@),
    {
        match self {
            FileRule::Tls { private } => validate_tls_metadata(facts, label, *private),
            FileRule::Bounded { maximum, owner_writes_alone } => validate_bounded_file_metadata(
                facts,
                label,
                *maximum,
                *owner_writes_alone,
            ),
        }
    }

    /// Checks a path before it is opened.
    pub fn check_path(&self, look: &FileLook, label: &str) -> (result: Result<(), ConfigError>)
        ensures
            verdict(result) == self.path_verdict(*look, label@),
    {
        match look {
            Err(fault) => Err(
                ConfigError::Invalid(joined3(label, " cannot be read: ", fault.as_str())),
            ),
            Ok(facts) => self.check_facts(facts, label),
        }
    }

    /// Checks an open file against the path that it was opened by.
    pub fn check_opened(&self, opened: &FileLook, current: &FileLook, label: &str) -> (result:
        Result<(), ConfigError>)
        ensures
            verdict(result) == self.opened_verdict(*opened, *current, label@),
    {
        match (opened, current) {
            (Err(fault), _) => Err(
                ConfigError::Invalid(joined3(label, " cannot be inspected: ", fault.as_str())),
            ),
            (_, Err(fault)) => Err(
                ConfigError::Invalid(joined3(label, " cannot be rechecked: ", fault.as_str())),
            ),
            (Ok(opened), Ok(current)) => {
                if !same_file(opened, current) {
                    return Err(
                        ConfigError::Invalid(joined(label, " changed while it was being opened")),
                    );
                }
                self.check_facts(opened, label)
            },
        }
    }

    /// Checks the bytes that were read.
    pub fn check_content(&self, bytes: &[u8], label: &str) -> (result: Result<(), ConfigError>)
        ensures
            verdict(result) == self.content_verdict(bytes@.len(), label@),
    {
        if bytes.len() as u64 > self.maximum() {
            return Err(exceeds(label, self.maximum()));
        }
        Ok(())
    }

    /// What came of reading a file: the bytes that were read must show it.
    pub open spec fn read_verdict(
        self,
        read: Result<Vec<u8>, ConfigError>,
        label: Seq<char>,
    ) -> Verdict {
        match read {
            Err(e) => Err(e@),
            Ok(bytes) => self.content_verdict(bytes@.len(), label),
        }
    }

    /// The bytes that were read, if they are as the rule has them.
    pub fn accept(&self, read: Result<Vec<u8>, ConfigError>, label: &str) -> (result: Result<
        Vec<u8>,
        ConfigError,
    >)
        ensures
            match result {
                Ok(bytes) => read == Ok::<_, ConfigError>(bytes) && self.read_verdict(
                    read,
                    label@,
                ) is Ok,
                Err(e) => self.read_verdict(read, label@) == Err::<(), _>(e@),
            },
    {
        match read {
            Err(e) => Err(e),
            Ok(bytes) => match self.check_content(bytes.as_slice(), label) {
                Ok(()) => Ok(bytes),
                Err(e) => Err(e),
            },
        }
    }
}

/// What a look at an optional TLS file must show.
pub open spec fn tls_file_verdict(look: Option<FileLook>, name: Seq<char>, private: bool) -> Verdict {
    match look {
        None => refused(name + " is missing"@),
        Some(look) => FileRule::Tls { private }.path_verdict(look, name),
    }
}

pub fn validate_tls_file(look: &Option<FileLook>, name: &str, private: bool) -> (result: Result<
    (),
    ConfigError,
>)
    ensures
        verdict(result) == tls_file_verdict(*look, name@, private),
{
    match look {
        None => Err(ConfigError::Invalid(joined(name, " is missing"))),
        Some(look) => FileRule::Tls { private }.check_path(look, name),
    }
}

/// Whether a snapshot file of a given size is accepted.
pub open spec fn snapshot_size_verdict(size: Result<u64, String>) -> Verdict {
    match size {
        Err(fault) => Err(ConfigErrorView::Io(fault@)),
        Ok(size) => if size > MAX_SNAPSHOT_BYTES {
            refused("snapshot exceeds "@ + digits(MAX_SNAPSHOT_BYTES as nat) + " bytes"@)
        } else {
            Ok(())
        },
    }
}

/// Checks the size that was found of a snapshot file.
pub fn snapshot_file_within_limit(size: Result<u64, String>) -> (result: Result<(), ConfigError>)
    ensures
        verdict(result) == snapshot_size_verdict(size),
{
    match size {
        Err(fault) => Err(ConfigError::Io(fault)),
        Ok(size) => {
            if size > MAX_SNAPSHOT_BYTES {
                return Err(
                    ConfigError::Invalid(
                        joined3(
                            "snapshot exceeds ",
                            digits_text(MAX_SNAPSHOT_BYTES).as_str(),
                            " bytes",
                        ),
                    ),
                );
            }
            Ok(())
        },
    }
}

/// Checks the size of a configuration file.
pub fn check_config_size(size: u64) -> (result: Result<(), ConfigError>)
    ensures
        verdict(result) == if size > MAX_CONFIG_BYTES {
            refused("configuration"@ + " exceeds "@ + digits(MAX_CONFIG_BYTES as nat) + " bytes"@)
        } else {
            Ok(())
        },
{
    if size > MAX_CONFIG_BYTES {
        return Err(exceeds("configuration", MAX_CONFIG_BYTES));
    }
    Ok(())
}

/// Whether a path may serve as a private directory.
pub open spec fn private_dir_verdict(look: Option<FileFacts>, path: Seq<char>) -> Verdict {
    match look {
        Some(facts) => if facts.is_symlink {
            refused("data directory "@ + path + " must not be a symbolic link"@)
        } else {
            Ok(())
        },
        None => Ok(()),
    }
}

/// Checks what stands at the path of a private directory, if anything can be
/// seen there.
pub fn ensure_private_dir(look: &Option<FileFacts>, path: &str) -> (result: Result<(), ConfigError>)
    ensures
        verdict(result) == private_dir_verdict(*look, path@),
{
    match look {
        Some(facts) => {
            if facts.is_symlink {
                return Err(
                    ConfigError::Invalid(
                        joined3("data directory ", path, " must not be a symbolic link"),
                    ),
                );
            }
            Ok(())
        },
        None => Ok(()),
    }
}

/// The permissions that a node gives to its own files and directories.
pub fn private_mode(directory: bool) -> (mode: u32)
    ensures
        mode == if directory {
            0o700u32
        } else {
            0o600u32
        },
        !shared(mode),
{
    assert(0o700u32 & 0o077 == 0) by (bit_vector);
    assert(0o600u32 & 0o077 == 0) by (bit_vector);
    if directory {
        0o700
    } else {
        0o600
    }
}

/// A path below a directory.
pub open spec fn path_join(dir: Seq<char>, name: Seq<char>) -> Seq<char> {
    if dir.len() == 0 || dir.last() == '/' {
        dir + name
    } else {
        dir + "/"@ + name
    }
}

/// The path of a relative name below a directory.
pub fn join_path(dir: &str, name: &str) -> (path: String)
    ensures
        path@ == path_join(dir@, name@),
{
    let chars = crate::text::text_chars(dir);
    let n = chars.len();
    if n == 0 || chars[n - 1] == '/' {
        joined(dir, name)
    } else {
        joined3(dir, "/", name)
    }
}

} // verus!
