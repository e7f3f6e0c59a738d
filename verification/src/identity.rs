//! What ties a data directory to one node of one cluster: the identity file,
//! the lock that binds a verified manifest, and when either may be made.

use crate::config::{
    config_verdict, is_blank, Config, TlsFiles, VerifiedOpenRaftManifest, MAX_CLUSTER_ID_BYTES,
};
use crate::config_error::{
    both, invalid, refuse, refused, verdict, ConfigError, ConfigErrorView, Verdict,
};
use crate::endpoint::{decode_lower_hex, encode_lower_hex, lower_hex_outcome, lower_hex_reads_back};
use crate::files::{join_path, path_join, same_file, one_file, FileFacts};
use crate::ids::{cluster_name_bytes, sha_of};
use crate::manifest::VerifiedView;
use crate::text::{
    digits, digits_text, hex_chars, joined3, owned, same_bytes, same_text, text_bytes, text_chars,
    trimmed,
};
use vstd::prelude::*;
use vstd::string::*;
use vstd::utf8::encode_utf8;

verus! {

pub const IDENTITY_VERSION: u32 = 1;

pub const MAX_IDENTITY_BYTES: u64 = 4096;

pub const MANIFEST_BINDING_VERSION: u16 = 1;

pub const MAX_MANIFEST_BINDING_BYTES: u64 = 4096;

// ---------------------------------------------------------------------------
// What was found at a path
// ---------------------------------------------------------------------------

/// What looking at a path found.
#[derive(Clone, Debug)]
pub enum PathLook {
    Missing,
    Found,
    Fault(String),
}

/// What looking at the directory of state files found.
#[derive(Debug)]
pub enum StateDirLook {
    Missing,
    /// Something that is no directory.
    Other,
    /// A directory, with the name of one entry if it has any.
    Directory(Result<Option<String>, String>),
    Fault(String),
}

/// The entries of a directory in the order in which they were listed, or the
/// text of the fault.
pub type Listing = Result<Vec<Result<String, String>>, String>;

/// Where durable state was found, or the fault that looking met.
pub type Found = Result<Option<Seq<char>>, ConfigErrorView>;

/// What a search says.
pub open spec fn found(result: Result<Option<String>, ConfigError>) -> Found {
    match result {
        Ok(Some(path)) => Ok(Some(path@)),
        Ok(None) => Ok(None),
        Err(e) => Err(e@),
    }
}

/// Whether a text ends with another.
pub open spec fn ends_with(text: Seq<char>, end: Seq<char>) -> bool {
    end.len() <= text.len() && text.subrange(text.len() - end.len(), text.len() as int) == end
}

/// Tests whether a text ends with another.
pub fn text_ends_with(text: &str, end: &str) -> (ends: bool)
    ensures
        ends == ends_with(text@, end@),
{
    let t = text_chars(text);
    let e = text_chars(end);
    if e.len() > t.len() {
        return false;
    }
    let gap = t.len() - e.len();
    let mut i: usize = 0;
    while i < e.len()
        invariant
            t@ == text@,
            e@ == end@,
            i <= e@.len() <= t@.len(),
            gap == t@.len() - e@.len(),
            forall|k: int| 0 <= k < i ==> t@[gap + k] == e@[k],
        decreases e@.len() - i,
    {
        let ghost whole = t.len();
        assert(gap + i < whole);
        if t[gap + i] != e[i] {
            assert(text@.subrange(gap as int, text@.len() as int)[i as int] != end@[i as int]);
            return false;
        }
        i += 1;
    }
    assert(text@.subrange(gap as int, text@.len() as int) =~= end@);
    true
}

/// The first log file among the entries from the `i`th on.
pub open spec fn log_among(data_dir: Seq<char>, entries: Seq<Result<String, String>>, i: int) -> Found
    decreases entries.len() - i,
{
    if i < 0 || i >= entries.len() {
        Ok(None)
    } else {
        match entries[i] {
            Err(fault) => Err(ConfigErrorView::Io(fault@)),
            Ok(name) => if ends_with(name@, ".raft.log"@) {
                Ok(Some(path_join(data_dir, name@)))
            } else {
                log_among(data_dir, entries, i + 1)
            },
        }
    }
}

/// Where durable state stands in a data directory: a state file, the log
/// database, or a log file.
pub open spec fn durable_artifact(
    data_dir: Seq<char>,
    state: StateDirLook,
    log_database: PathLook,
    listing: Listing,
) -> Found {
    let state_dir = path_join(data_dir, "state"@);
    match state {
        StateDirLook::Fault(fault) => Err(ConfigErrorView::Io(fault@)),
        StateDirLook::Other => Ok(Some(state_dir)),
        StateDirLook::Directory(Err(fault)) => Err(ConfigErrorView::Io(fault@)),
        StateDirLook::Directory(Ok(Some(name))) => Ok(Some(path_join(state_dir, name@))),
        _ => match log_database {
            PathLook::Fault(fault) => Err(ConfigErrorView::Io(fault@)),
            PathLook::Found => Ok(Some(path_join(data_dir, "raft.redb"@))),
            PathLook::Missing => match listing {
                Err(fault) => Err(ConfigErrorView::Io(fault@)),
                Ok(entries) => log_among(data_dir, entries@, 0),
            },
        },
    }
}

#[verifier::loop_isolation(false)]
fn find_log(data_dir: &str, entries: &Vec<Result<String, String>>) -> (result: Result<
    Option<String>,
    ConfigError,
>)
    ensures
        found(result) == log_among(data_dir@, entries@, 0),
{
    let mut i: usize = 0;
    while i < entries.len()
        invariant
            i <= entries@.len(),
            log_among(data_dir@, entries@, 0) == log_among(data_dir@, entries@, i as int),
        decreases entries@.len() - i,
    {
        match &entries[i] {
            Err(fault) => {
                return Err(ConfigError::Io(owned(fault.as_str())));
            },
            Ok(name) => {
                if text_ends_with(name.as_str(), ".raft.log") {
                    return Ok(Some(join_path(data_dir, name.as_str())));
                }
            },
        }
        i += 1;
    }
    Ok(None)
}

/// Finds durable state in a data directory, with what looking at its places
/// gave.
pub fn existing_durable_artifact(
    config: &Config,
    state: &StateDirLook,
    log_database: &PathLook,
    listing: &Listing,
) -> (result: Result<Option<String>, ConfigError>)
    ensures
        found(result) == durable_artifact(config.data_dir@, *state, *log_database, *listing),
{
    let data_dir = config.data_dir.as_str();
    let state_dir = join_path(data_dir, "state");
    match state {
        StateDirLook::Fault(fault) => {
            return Err(ConfigError::Io(owned(fault.as_str())));
        },
        StateDirLook::Other => {
            return Ok(Some(state_dir));
        },
        StateDirLook::Directory(Err(fault)) => {
            return Err(ConfigError::Io(owned(fault.as_str())));
        },
        StateDirLook::Directory(Ok(Some(name))) => {
            return Ok(Some(join_path(state_dir.as_str(), name.as_str())));
        },
        StateDirLook::Directory(Ok(None)) => {},
        StateDirLook::Missing => {},
    }
    match log_database {
        PathLook::Fault(fault) => {
            return Err(ConfigError::Io(owned(fault.as_str())));
        },
        PathLook::Found => {
            return Ok(Some(join_path(data_dir, "raft.redb")));
        },
        PathLook::Missing => {},
    }
    match listing {
        Err(fault) => Err(ConfigError::Io(owned(fault.as_str()))),
        Ok(entries) => find_log(data_dir, entries),
    }
}

/// Where durable state stands that a manifest would bind: the identity, or
/// what [`durable_artifact`] finds.
pub open spec fn bound_artifact(config: Config, identity: PathLook, artifact: Found) -> Found {
    match identity {
        PathLook::Found => Ok(Some(path_join(config.data_dir@, "identity.toml"@))),
        PathLook::Fault(fault) => Err(ConfigErrorView::Io(fault@)),
        PathLook::Missing => artifact,
    }
}

pub fn existing_manifest_bound_artifact(
    config: &Config,
    identity: &PathLook,
    artifact: Result<Option<String>, ConfigError>,
) -> (result: Result<Option<String>, ConfigError>)
    ensures
        found(result) == bound_artifact(*config, *identity, found(artifact)),
{
    match identity {
        PathLook::Found => Ok(Some(config.identity_path())),
        PathLook::Fault(fault) => Err(ConfigError::Io(owned(fault.as_str()))),
        PathLook::Missing => artifact,
    }
}

// ---------------------------------------------------------------------------
// The identity of an installation
// ---------------------------------------------------------------------------

/// Which node of which cluster a data directory belongs to.
#[derive(Clone, Debug, PartialEq, Eq)]
pub struct InstallationIdentity {
    pub format_version: u32,
    pub cluster_id: String,
    pub cluster_incarnation: u64,
    pub node_id: u64,
}

/// What an [`InstallationIdentity`] says.
#[verifier::ext_equal]
pub struct IdentityView {
    pub format_version: u32,
    pub cluster_id: Seq<char>,
    pub cluster_incarnation: u64,
    pub node_id: u64,
}

impl View for InstallationIdentity {
    type V = IdentityView;

    open spec fn view(&self) -> IdentityView {
        IdentityView {
            format_version: self.format_version,
            cluster_id: self.cluster_id@,
            cluster_incarnation: self.cluster_incarnation,
            node_id: self.node_id,
        }
    }
}

/// The identity that a configuration gives to an installation.
pub open spec fn identity_of(config: Config) -> IdentityView {
    IdentityView {
        format_version: IDENTITY_VERSION,
        cluster_id: config.cluster_id@,
        cluster_incarnation: config.cluster_incarnation,
        node_id: config.node_id,
    }
}

impl IdentityView {
    /// What is wrong with an identity, if anything.
    pub open spec fn verdict(self) -> Verdict {
        if self.format_version != IDENTITY_VERSION {
            refused("identity version "@ + digits(self.format_version as nat) + " is unsupported"@)
        } else if trimmed(self.cluster_id).len() == 0 {
            refused("identity cluster_id is empty"@)
        } else if encode_utf8(self.cluster_id).len() > MAX_CLUSTER_ID_BYTES {
            refused("identity cluster_id exceeds 128 bytes"@)
        } else if self.cluster_incarnation == 0 {
            refused("identity cluster_incarnation must be nonzero"@)
        } else if self.node_id == 0 {
            refused("identity node_id must be nonzero"@)
        } else {
            Ok(())
        }
    }

    /// Whether the identity is that of a configuration's node.
    pub open spec fn matches(self, config: Config) -> bool {
        &&& self.cluster_id == config.cluster_id@
        &&& self.cluster_incarnation == config.cluster_incarnation
        &&& self.node_id == config.node_id
    }
}

impl InstallationIdentity {
    /// The identity that a configuration gives to an installation.
    pub fn from_config(config: &Config) -> (identity: InstallationIdentity)
        ensures
            identity@ == identity_of(*config),
    {
        InstallationIdentity {
            format_version: IDENTITY_VERSION,
            cluster_id: owned(config.cluster_id.as_str()),
            cluster_incarnation: config.cluster_incarnation,
            node_id: config.node_id,
        }
    }

    /// Checks an identity that was read.
    pub fn validate(&self) -> (result: Result<(), ConfigError>)
        ensures
            verdict(result) == self@.verdict(),
    {
        if self.format_version != IDENTITY_VERSION {
            return Err(
                ConfigError::Invalid(
                    joined3(
                        "identity version ",
                        digits_text(self.format_version as u64).as_str(),
                        " is unsupported",
                    ),
                ),
            );
        }
        if is_blank(self.cluster_id.as_str()) {
            return refuse("identity cluster_id is empty");
        }
        if text_bytes(self.cluster_id.as_str()).len() > MAX_CLUSTER_ID_BYTES {
            return refuse("identity cluster_id exceeds 128 bytes");
        }
        if self.cluster_incarnation == 0 {
            return refuse("identity cluster_incarnation must be nonzero");
        }
        if self.node_id == 0 {
            return refuse("identity node_id must be nonzero");
        }
        Ok(())
    }

    /// Whether the identity is that of a configuration's node.
    pub fn matches_config(&self, config: &Config) -> (same: bool)
        ensures
            same == self@.matches(*config),
    {
        same_text(self.cluster_id.as_str(), config.cluster_id.as_str())
            && self.cluster_incarnation == config.cluster_incarnation && self.node_id
            == config.node_id
    }

    /// Whether two identities say the same.
    pub fn same_as(&self, other: &InstallationIdentity) -> (same: bool)
        ensures
            same == (self@ == other@),
    {
        let same = self.format_version == other.format_version && same_text(
            self.cluster_id.as_str(),
            other.cluster_id.as_str(),
        ) && self.cluster_incarnation == other.cluster_incarnation && self.node_id == other.node_id;
        assert(same ==> self@ =~= other@);
        same
    }
}

/// What the look at the identity's path must show before it is opened.
pub open spec fn identity_path_verdict(facts: FileFacts) -> Verdict {
    if facts.is_symlink {
        refused("identity path must not be a symbolic link"@)
    } else if !facts.is_file {
        refused("identity path is not a regular file"@)
    } else if facts.len > MAX_IDENTITY_BYTES {
        refused("identity file exceeds 4096 bytes"@)
    } else if facts.mode & 0o077 != 0 {
        refused("identity file must not be group/world-readable"@)
    } else {
        Ok(())
    }
}

/// Checks the identity's path before it is opened.
pub fn check_identity_path(facts: &FileFacts) -> (result: Result<(), ConfigError>)
    ensures
        verdict(result) == identity_path_verdict(*facts),
{
    if facts.is_symlink {
        return refuse("identity path must not be a symbolic link");
    }
    if !facts.is_file {
        return refuse("identity path is not a regular file");
    }
    if facts.len > MAX_IDENTITY_BYTES {
        return refuse("identity file exceeds 4096 bytes");
    }
    if facts.mode & 0o077 != 0 {
        return refuse("identity file must not be group/world-readable");
    }
    Ok(())
}

/// What the open identity file and its path must show.
pub open spec fn identity_opened_verdict(opened: FileFacts, current: FileFacts) -> Verdict {
    if current.is_symlink || !current.is_file || !one_file(opened, current) {
        refused("identity path changed while it was being opened"@)
    } else if opened.len > MAX_IDENTITY_BYTES {
        refused("identity file exceeds 4096 bytes"@)
    } else {
        Ok(())
    }
}

/// Checks the open identity file against its path.
pub fn check_identity_opened(opened: &FileFacts, current: &FileFacts) -> (result: Result<
    (),
    ConfigError,
>)
    ensures
        verdict(result) == identity_opened_verdict(*opened, *current),
{
    if current.is_symlink || !current.is_file || !same_file(opened, current) {
        return refuse("identity path changed while it was being opened");
    }
    if opened.len > MAX_IDENTITY_BYTES {
        return refuse("identity file exceeds 4096 bytes");
    }
    Ok(())
}

/// Checks how much of the identity file was read, or is to be written.
pub fn check_identity_size(bytes: usize) -> (result: Result<(), ConfigError>)
    ensures
        verdict(result) == if bytes > MAX_IDENTITY_BYTES {
            refused("identity file exceeds 4096 bytes"@)
        } else {
            Ok(())
        },
{
    if bytes as u64 > MAX_IDENTITY_BYTES {
        return refuse("identity file exceeds 4096 bytes");
    }
    Ok(())
}

/// What looking at the identity's path and reading it gave.
#[derive(Debug)]
pub enum IdentityLook {
    /// The identity file, or the fault that reading it met.
    Found(Result<InstallationIdentity, ConfigError>),
    /// No identity, and what looking for durable state gave.
    Missing(Result<Option<String>, ConfigError>),
    Fault(String),
}

/// What is left to do about an identity.
#[derive(Clone, Debug)]
pub enum IdentityStep {
    /// Nothing: the identity is there and is the right one.
    Settled,
    /// Write this identity.
    Create(InstallationIdentity),
}

/// What is done about an identity; `true` where one is to be made.
pub open spec fn identity_outcome(config: Config, look: IdentityLook) -> Result<
    bool,
    ConfigErrorView,
> {
    match look {
        IdentityLook::Fault(fault) => Err(ConfigErrorView::Io(fault@)),
        IdentityLook::Found(Err(e)) => Err(e@),
        IdentityLook::Found(Ok(identity)) => match identity@.verdict() {
            Err(e) => Err(e),
            Ok(()) => if identity@.matches(config) {
                Ok(false)
            } else {
                Err(
                    ConfigErrorView::Invalid(
                        "persisted installation identity does not match configuration"@,
                    ),
                )
            },
        },
        IdentityLook::Missing(artifact) => match found(artifact) {
            Err(e) => Err(e),
            Ok(Some(path)) => Err(
                ConfigErrorView::Invalid(
                    "identity is missing while durable state exists at "@ + path
                        + "; refusing to bind an existing installation"@,
                ),
            ),
            Ok(None) => Ok(true),
        },
    }
}

/// Decides what to do about the identity of an installation. An installation
/// that has durable state is never given a new identity.
pub fn ensure_installation_identity(config: &Config, look: IdentityLook) -> (result: Result<
    IdentityStep,
    ConfigError,
>)
    ensures
        match result {
            Ok(IdentityStep::Settled) => identity_outcome(*config, look) == Ok::<
                _,
                ConfigErrorView,
            >(false),
            Ok(IdentityStep::Create(identity)) => identity_outcome(*config, look) == Ok::<
                _,
                ConfigErrorView,
            >(true) && identity@ == identity_of(*config),
            Err(e) => identity_outcome(*config, look) == Err::<bool, _>(e@),
        },
{
    match look {
        IdentityLook::Fault(fault) => Err(ConfigError::Io(fault)),
        IdentityLook::Found(Err(e)) => Err(e),
        IdentityLook::Found(Ok(identity)) => {
            match identity.validate() {
                Ok(()) => {},
                Err(e) => {
                    return Err(e);
                },
            }
            if !identity.matches_config(config) {
                return Err(invalid("persisted installation identity does not match configuration"));
            }
            Ok(IdentityStep::Settled)
        },
        IdentityLook::Missing(artifact) => match artifact {
            Err(e) => Err(e),
            Ok(Some(path)) => Err(
                ConfigError::Invalid(
                    joined3(
                        "identity is missing while durable state exists at ",
                        path.as_str(),
                        "; refusing to bind an existing installation",
                    ),
                ),
            ),
            Ok(None) => Ok(IdentityStep::Create(InstallationIdentity::from_config(config))),
        },
    }
}

/// How publishing a staged file went: a link is made only where nothing stands
/// at the path.
#[derive(Debug)]
pub enum Published<T> {
    Linked,
    /// Something stood there already; what reading it gave.
    Raced(Result<T, ConfigError>),
    Fault(String),
}

/// What comes of publishing an identity.
pub open spec fn identity_published(
    identity: IdentityView,
    outcome: Published<InstallationIdentity>,
) -> Verdict {
    match outcome {
        Published::Linked => Ok(()),
        Published::Fault(fault) => Err(ConfigErrorView::Io(fault@)),
        Published::Raced(Err(e)) => Err(e@),
        Published::Raced(Ok(existing)) => both(
            existing@.verdict(),
            if existing@ == identity {
                Ok(())
            } else {
                refused("a different identity won concurrent first-open creation"@)
            },
        ),
    }
}

/// Decides whether an identity was made: by this node, or the same one by
/// another.
pub fn create_installation_identity(
    identity: &InstallationIdentity,
    outcome: Published<InstallationIdentity>,
) -> (result: Result<(), ConfigError>)
    ensures
        verdict(result) == identity_published(identity@, outcome),
{
    match outcome {
        Published::Linked => Ok(()),
        Published::Fault(fault) => Err(ConfigError::Io(fault)),
        Published::Raced(Err(e)) => Err(e),
        Published::Raced(Ok(existing)) => {
            existing.validate()?;
            if existing.same_as(identity) {
                Ok(())
            } else {
                refuse("a different identity won concurrent first-open creation")
            }
        },
    }
}

/// The name of the file that is staged before it is published under
/// `file_name`.
pub fn staging_name(file_name: &str, process: u32, sequence: u64) -> (name: String)
    ensures
        name@ == "."@ + file_name@ + "."@ + digits(process as nat) + "."@ + digits(sequence as nat)
            + ".tmp"@,
{
    let mut name = joined3(".", file_name, ".");
    name.append(digits_text(process as u64).as_str());
    name.append(".");
    name.append(digits_text(sequence).as_str());
    name.append(".tmp");
    name
}

// ---------------------------------------------------------------------------
// The binding of a manifest
// ---------------------------------------------------------------------------

/// Which manifest an installation was first opened with.
#[derive(Clone, Debug, PartialEq, Eq)]
pub struct ManifestBinding {
    pub format_version: u16,
    pub cluster_id: String,
    pub cluster_incarnation: u64,
    pub generation: u64,
    pub signer_key_id: String,
    pub manifest_digest: String,
}

/// What a [`ManifestBinding`] says.
#[verifier::ext_equal]
pub struct BindingView {
    pub format_version: u16,
    pub cluster_id: Seq<char>,
    pub cluster_incarnation: u64,
    pub generation: u64,
    pub signer_key_id: Seq<char>,
    pub manifest_digest: Seq<char>,
}

impl View for ManifestBinding {
    type V = BindingView;

    open spec fn view(&self) -> BindingView {
        BindingView {
            format_version: self.format_version,
            cluster_id: self.cluster_id@,
            cluster_incarnation: self.cluster_incarnation,
            generation: self.generation,
            signer_key_id: self.signer_key_id@,
            manifest_digest: self.manifest_digest@,
        }
    }
}

/// The binding of a verified manifest.
pub open spec fn binding_of(config: Config, verified: VerifiedView) -> BindingView {
    BindingView {
        format_version: MANIFEST_BINDING_VERSION,
        cluster_id: config.cluster_id@,
        cluster_incarnation: config.cluster_incarnation,
        generation: verified.generation,
        signer_key_id: hex_chars(verified.signer_key_id),
        manifest_digest: hex_chars(verified.manifest_digest),
    }
}

/// A field in lower-case hexadecimal notation.
pub open spec fn hex_field(value: Seq<char>, label: Seq<char>) -> Verdict {
    match lower_hex_outcome(value, 32, label) {
        Ok(_) => Ok(()),
        Err(e) => Err(e),
    }
}

impl BindingView {
    /// What is wrong with a binding that was read, if anything.
    pub open spec fn verdict(self) -> Verdict {
        if self.format_version != MANIFEST_BINDING_VERSION || trimmed(self.cluster_id).len() == 0
            || self.cluster_incarnation == 0 || self.generation == 0 {
            refused("bootstrap manifest binding contains invalid metadata"@)
        } else {
            both(
                hex_field(self.signer_key_id, "binding signer_key_id"@),
                hex_field(self.manifest_digest, "binding manifest_digest"@),
            )
        }
    }
}

impl ManifestBinding {
    /// The binding of a verified manifest.
    pub fn of(config: &Config, verified: &VerifiedOpenRaftManifest) -> (binding: ManifestBinding)
        ensures
            binding@ == binding_of(*config, verified@),
    {
        ManifestBinding {
            format_version: MANIFEST_BINDING_VERSION,
            cluster_id: owned(config.cluster_id.as_str()),
            cluster_incarnation: config.cluster_incarnation,
            generation: verified.generation,
            signer_key_id: encode_lower_hex(verified.signer_key_id.as_slice()),
            manifest_digest: encode_lower_hex(verified.manifest_digest.as_slice()),
        }
    }

    /// Checks a binding that was read.
    pub fn validate(&self) -> (result: Result<(), ConfigError>)
        ensures
            verdict(result) == self@.verdict(),
    {
        if self.format_version != MANIFEST_BINDING_VERSION || is_blank(self.cluster_id.as_str())
            || self.cluster_incarnation == 0 || self.generation == 0 {
            return refuse("bootstrap manifest binding contains invalid metadata");
        }
        match decode_lower_hex(self.signer_key_id.as_str(), 32, "binding signer_key_id") {
            Ok(_) => {},
            Err(e) => {
                return Err(e);
            },
        }
        match decode_lower_hex(self.manifest_digest.as_str(), 32, "binding manifest_digest") {
            Ok(_) => Ok(()),
            Err(e) => Err(e),
        }
    }

    /// Whether two bindings say the same.
    pub fn same_as(&self, other: &ManifestBinding) -> (same: bool)
        ensures
            same == (self@ == other@),
    {
        let same = self.format_version == other.format_version && same_text(
            self.cluster_id.as_str(),
            other.cluster_id.as_str(),
        ) && self.cluster_incarnation == other.cluster_incarnation && self.generation
            == other.generation && same_text(
            self.signer_key_id.as_str(),
            other.signer_key_id.as_str(),
        ) && same_text(self.manifest_digest.as_str(), other.manifest_digest.as_str());
        assert(same ==> self@ =~= other@);
        same
    }
}

/// Checks who may touch the binding file.
pub fn check_binding_mode(mode: u32) -> (result: Result<(), ConfigError>)
    ensures
        verdict(result) == if mode & 0o077 != 0 {
            refused("bootstrap manifest binding must not be group/world-accessible"@)
        } else {
            Ok(())
        },
{
    if mode & 0o077 != 0 {
        return refuse("bootstrap manifest binding must not be group/world-accessible");
    }
    Ok(())
}

/// Checks the text of a binding that is to be written.
pub fn check_binding_size(bytes: usize) -> (result: Result<(), ConfigError>)
    ensures
        verdict(result) == if bytes == 0 || bytes > MAX_MANIFEST_BINDING_BYTES {
            refused("bootstrap manifest binding exceeds its size limit"@)
        } else {
            Ok(())
        },
{
    if bytes == 0 || bytes as u64 > MAX_MANIFEST_BINDING_BYTES {
        return refuse("bootstrap manifest binding exceeds its size limit");
    }
    Ok(())
}

/// What looking at the binding's path and reading it gave.
#[derive(Debug)]
pub enum BindingLook {
    /// The binding, or the fault that reading it met.
    Found(Result<ManifestBinding, ConfigError>),
    /// No binding, and what looking for durable state gave.
    Missing(Result<Option<String>, ConfigError>),
    Fault(String),
}

/// What is left to do about a binding.
#[derive(Clone, Debug)]
pub enum BindingStep {
    /// Nothing: the binding is there, or none is wanted.
    Settled,
    /// Write this binding.
    Create(ManifestBinding),
}

/// What is done about a binding; `true` where one is to be made.
pub open spec fn binding_outcome(expected: BindingView, look: BindingLook) -> Result<
    bool,
    ConfigErrorView,
> {
    match look {
        BindingLook::Fault(fault) => Err(ConfigErrorView::Io(fault@)),
        BindingLook::Found(Err(e)) => Err(e@),
        BindingLook::Found(Ok(existing)) => if existing@ == expected {
            Ok(false)
        } else {
            Err(
                ConfigErrorView::Invalid(
                    "persisted bootstrap manifest binding does not match the verified manifest"@,
                ),
            )
        },
        BindingLook::Missing(artifact) => match found(artifact) {
            Err(e) => Err(e),
            Ok(Some(path)) => Err(
                ConfigErrorView::Invalid(
                    "bootstrap manifest binding is missing while durable state exists at "@ + path
                        + "; refusing to bind an existing installation"@,
                ),
            ),
            Ok(None) => Ok(true),
        },
    }
}

/// Whether a step is the one that an outcome asks for.
pub open spec fn binding_step(
    outcome: Result<bool, ConfigErrorView>,
    expected: BindingView,
    result: Result<BindingStep, ConfigError>,
) -> bool {
    match result {
        Ok(BindingStep::Settled) => outcome == Ok::<_, ConfigErrorView>(false),
        Ok(BindingStep::Create(binding)) => outcome == Ok::<_, ConfigErrorView>(true) && binding@
            == expected,
        Err(e) => outcome == Err::<bool, _>(e@),
    }
}

/// Decides what to do about the binding of a verified manifest.
pub fn ensure_manifest_binding(
    config: &Config,
    verified: &VerifiedOpenRaftManifest,
    look: &BindingLook,
) -> (result: Result<BindingStep, ConfigError>)
    ensures
        binding_step(
            binding_outcome(binding_of(*config, verified@), *look),
            binding_of(*config, verified@),
            result,
        ),
{
    let expected = ManifestBinding::of(config, verified);
    match look {
        BindingLook::Fault(fault) => Err(ConfigError::Io(owned(fault.as_str()))),
        BindingLook::Found(Err(e)) => Err(e.copied()),
        BindingLook::Found(Ok(existing)) => {
            if !existing.same_as(&expected) {
                return Err(
                    invalid(
                        "persisted bootstrap manifest binding does not match the verified manifest",
                    ),
                );
            }
            Ok(BindingStep::Settled)
        },
        BindingLook::Missing(artifact) => match artifact {
            Err(e) => Err(e.copied()),
            Ok(Some(path)) => Err(
                ConfigError::Invalid(
                    joined3(
                        "bootstrap manifest binding is missing while durable state exists at ",
                        path.as_str(),
                        "; refusing to bind an existing installation",
                    ),
                ),
            ),
            Ok(None) => Ok(BindingStep::Create(expected)),
        },
    }
}

/// What comes of publishing a binding.
pub open spec fn binding_published(
    binding: BindingView,
    outcome: Published<ManifestBinding>,
) -> Verdict {
    match outcome {
        Published::Linked => Ok(()),
        Published::Fault(fault) => Err(ConfigErrorView::Io(fault@)),
        Published::Raced(Err(e)) => Err(e@),
        Published::Raced(Ok(existing)) => if existing@ == binding {
            Ok(())
        } else {
            refused("a different bootstrap manifest binding won concurrent first-open creation"@)
        },
    }
}

/// Decides whether a binding was made: by this node, or the same one by
/// another.
pub fn create_manifest_binding(
    binding: &ManifestBinding,
    outcome: &Published<ManifestBinding>,
) -> (result: Result<(), ConfigError>)
    ensures
        verdict(result) == binding_published(binding@, *outcome),
{
    match outcome {
        Published::Linked => Ok(()),
        Published::Fault(fault) => Err(ConfigError::Io(owned(fault.as_str()))),
        Published::Raced(Err(e)) => Err(e.copied()),
        Published::Raced(Ok(existing)) => {
            if existing.same_as(binding) {
                Ok(())
            } else {
                refuse("a different bootstrap manifest binding won concurrent first-open creation")
            }
        },
    }
}

/// Whether a configuration without a signature may open an installation.
pub open spec fn unbound_verdict(config: Config, binding: PathLook) -> Verdict {
    if config.bootstrap_manifest is Some {
        refused(
            "signed OpenRaft configuration requires Config::load_openraft_signed and an external trust key"@,
        )
    } else {
        match binding {
            PathLook::Found => refused(
                "unsigned configuration cannot open an installation with a bootstrap manifest binding"@,
            ),
            PathLook::Missing => Ok(()),
            PathLook::Fault(fault) => Err(
                ConfigErrorView::Io("could not inspect bootstrap manifest binding: "@ + fault@),
            ),
        }
    }
}

/// Checks that a configuration without a signature opens no bound
/// installation.
pub fn ensure_ordinary_config_is_unbound(config: &Config, binding: &PathLook) -> (result: Result<
    (),
    ConfigError,
>)
    ensures
        verdict(result) == unbound_verdict(*config, *binding),
{
    if config.bootstrap_manifest.is_some() {
        return refuse(
            "signed OpenRaft configuration requires Config::load_openraft_signed and an external trust key",
        );
    }
    match binding {
        PathLook::Found => refuse(
            "unsigned configuration cannot open an installation with a bootstrap manifest binding",
        ),
        PathLook::Missing => Ok(()),
        PathLook::Fault(fault) => Err(
            ConfigError::Io(
                crate::text::joined(
                    "could not inspect bootstrap manifest binding: ",
                    fault.as_str(),
                ),
            ),
        ),
    }
}

/// What the look at a binding says to one who only asks whether it is there.
pub open spec fn binding_path(look: BindingLook) -> PathLook {
    match look {
        BindingLook::Found(_) => PathLook::Found,
        BindingLook::Missing(_) => PathLook::Missing,
        BindingLook::Fault(fault) => PathLook::Fault(fault),
    }
}

/// What opening durable state asks of a configuration's manifest.
pub open spec fn access_outcome(config: Config, look: BindingLook) -> Result<
    bool,
    ConfigErrorView,
> {
    match (config.bootstrap_manifest, config.capability.manifest()) {
        (Some(_), Some(verified)) => binding_outcome(binding_of(config, verified@), look),
        (Some(_), None) => Err(
            ConfigErrorView::Invalid(
                "signed OpenRaft configuration was not verified with an external trust key"@,
            ),
        ),
        (None, Some(_)) => Err(
            ConfigErrorView::Invalid(
                "verified bootstrap manifest capability does not match the configuration"@,
            ),
        ),
        (None, None) => match unbound_verdict(config, binding_path(look)) {
            Ok(()) => Ok(false),
            Err(e) => Err(e),
        },
    }
}

/// Decides whether a configuration may open durable state: a signed one only
/// where it was verified and is bound, an unsigned one only where nothing is
/// bound.
pub fn ensure_manifest_authorizes_state_access(config: &Config, look: BindingLook) -> (result:
    Result<BindingStep, ConfigError>)
    ensures
        binding_step(
            access_outcome(*config, look),
            binding_of(*config, config.capability.manifest()->0@),
            result,
        ),
{
    match (&config.bootstrap_manifest, config.capability.verified()) {
        (Some(_), Some(verified)) => ensure_manifest_binding(config, verified, &look),
        (Some(_), None) => Err(
            invalid("signed OpenRaft configuration was not verified with an external trust key"),
        ),
        (None, Some(_)) => Err(
            invalid("verified bootstrap manifest capability does not match the configuration"),
        ),
        (None, None) => {
            let path = match look {
                BindingLook::Found(_) => PathLook::Found,
                BindingLook::Missing(_) => PathLook::Missing,
                BindingLook::Fault(fault) => PathLook::Fault(fault),
            };
            match ensure_ordinary_config_is_unbound(config, &path) {
                Ok(()) => Ok(BindingStep::Settled),
                Err(e) => Err(e),
            }
        },
    }
}

// ---------------------------------------------------------------------------
// Opening the store
// ---------------------------------------------------------------------------

/// Whether a state file and what it holds belong to a configuration's cluster.
pub open spec fn store_verdict(
    config: Config,
    state_is_symlink: bool,
    cluster_id: Seq<u8>,
    cluster_incarnation: u64,
) -> Verdict {
    if state_is_symlink {
        refused("state path must not be a symbolic link"@)
    } else if cluster_id != sha_of(cluster_name_bytes(config.cluster_id@)).subrange(0, 16) {
        refused("persisted cluster_id does not match configuration"@)
    } else if cluster_incarnation != config.cluster_incarnation {
        refused("persisted cluster_incarnation does not match configuration"@)
    } else {
        Ok(())
    }
}

/// Checks that the state path is no symbolic link.
pub fn check_state_path(state_is_symlink: bool) -> (result: Result<(), ConfigError>)
    ensures
        verdict(result) == if state_is_symlink {
            refused("state path must not be a symbolic link"@)
        } else {
            Ok(())
        },
{
    if state_is_symlink {
        return refuse("state path must not be a symbolic link");
    }
    Ok(())
}

/// Checks that an opened store belongs to a configuration's cluster.
pub fn check_opened_store(
    config: &Config,
    cluster_id: &[u8; 16],
    cluster_incarnation: u64,
) -> (result: Result<(), ConfigError>)
    ensures
        verdict(result) == store_verdict(*config, false, cluster_id@, cluster_incarnation),
{
    let own = config.cluster_id();
    if !same_bytes(cluster_id.as_slice(), own.0.as_slice()) {
        return refuse("persisted cluster_id does not match configuration");
    }
    if cluster_incarnation != config.cluster_incarnation {
        return refuse("persisted cluster_incarnation does not match configuration");
    }
    Ok(())
}

// ---------------------------------------------------------------------------
// Laws
// ---------------------------------------------------------------------------

/// The identity that an accepted configuration writes is accepted when it is
/// read back under that configuration.
pub proof fn own_identity_is_accepted(
    config: Config,
    files: TlsFiles,
    identity: InstallationIdentity,
)
    requires
        config_verdict(config, files) is Ok,
        identity@ == identity_of(config),
    ensures
        identity_outcome(config, IdentityLook::Found(Ok(identity))) == Ok::<_, ConfigErrorView>(
            false,
        ),
{
}

/// An identity that one configuration wrote is refused under any configuration
/// of another node, cluster or incarnation.
pub proof fn foreign_identity_is_refused(
    config: Config,
    other: Config,
    identity: InstallationIdentity,
)
    requires
        identity@ == identity_of(other),
        config.node_id != other.node_id || config.cluster_id@ != other.cluster_id@
            || config.cluster_incarnation != other.cluster_incarnation,
    ensures
        identity_outcome(config, IdentityLook::Found(Ok(identity))) is Err,
{
}

/// Durable state without an identity or without a binding is never taken over.
pub proof fn existing_state_is_not_taken_over(
    config: Config,
    expected: BindingView,
    path: String,
)
    ensures
        identity_outcome(config, IdentityLook::Missing(Ok(Some(path)))) is Err,
        binding_outcome(expected, BindingLook::Missing(Ok(Some(path)))) is Err,
{
}

/// The binding of a verified manifest is well-formed when it is read back.
pub proof fn own_binding_is_accepted(
    config: Config,
    files: TlsFiles,
    verified: VerifiedOpenRaftManifest,
    binding: ManifestBinding,
)
    requires
        config_verdict(config, files) is Ok,
        verified.generation != 0,
        binding@ == binding_of(config, verified@),
    ensures
        binding@.verdict() is Ok,
        binding_outcome(
            binding_of(config, verified@),
            BindingLook::Found(Ok(binding)),
        ) == Ok::<_, ConfigErrorView>(false),
{
    lower_hex_reads_back(verified.signer_key_id@);
    lower_hex_reads_back(verified.manifest_digest@);
}

} // verus!
