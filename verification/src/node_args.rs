//! The command line of a node: its commands, its options, and what a command
//! must be given.

use crate::config::Config;
use crate::text::{joined3, owned, parse_natural, read_natural, same_text, text_chars};
use vstd::prelude::*;
use vstd::string::*;

verus! {

/// The words of a command line.
pub open spec fn words(args: Seq<String>) -> Seq<Seq<char>> {
    args.map_values(|arg: String| arg@)
}

/// The word behind the first `name` from the `i`th word on.
pub open spec fn value_from(args: Seq<Seq<char>>, name: Seq<char>, i: int) -> Option<Seq<char>>
    decreases args.len() - i,
{
    if i < 0 || i + 1 >= args.len() {
        None
    } else if args[i] == name {
        Some(args[i + 1])
    } else {
        value_from(args, name, i + 1)
    }
}

/// The word behind the first `name`.
pub open spec fn value_of(args: Seq<Seq<char>>, name: Seq<char>) -> Option<Seq<char>> {
    value_from(args, name, 0)
}

/// The value of an option.
pub fn arg_value(args: &[String], name: &str) -> (value: Option<String>)
    ensures
        crate::error::optional_text(value) == value_of(words(args@), name@),
{
    let ghost all = words(args@);
    let mut i: usize = 0;
    while i < args.len() && args.len() - i >= 2
        invariant
            all == words(args@),
            i <= args@.len(),
            value_of(all, name@) == value_from(all, name@, i as int),
        decreases args@.len() - i,
    {
        assert(all[i as int] == args@[i as int]@);
        if same_text(args[i].as_str(), name) {
            assert(all[i + 1] == args@[i + 1]@);
            return Some(owned(args[i + 1].as_str()));
        }
        i += 1;
    }
    None
}

/// Whether a word is given.
pub fn has_flag(args: &[String], name: &str) -> (given: bool)
    ensures
        given == words(args@).contains(name@),
{
    let ghost all = words(args@);
    let mut i: usize = 0;
    while i < args.len()
        invariant
            all == words(args@),
            i <= args@.len(),
            forall|k: int| 0 <= k < i ==> #[trigger] all[k] != name@,
        decreases args@.len() - i,
    {
        assert(all[i as int] == args@[i as int]@);
        if same_text(args[i].as_str(), name) {
            assert(all.contains(name@));
            return true;
        }
        i += 1;
    }
    false
}

/// What a node is told to do.
#[derive(Clone, Copy, Debug, PartialEq, Eq, Structural)]
pub enum Command {
    Bootstrap,
    Status,
    Check,
    StateHash,
    Metrics,
    Snapshot,
    Restore,
    Member,
    Run,
    Help,
}

/// The word that a command line starts with; a bare one runs the node.
pub open spec fn command_word(args: Seq<Seq<char>>) -> Seq<char> {
    if args.len() == 0 {
        "run"@
    } else {
        args[0]
    }
}

/// The command that a word names.
pub open spec fn command_of(word: Seq<char>) -> Option<Command> {
    if word == "bootstrap"@ {
        Some(Command::Bootstrap)
    } else if word == "status"@ {
        Some(Command::Status)
    } else if word == "check"@ {
        Some(Command::Check)
    } else if word == "state-hash"@ {
        Some(Command::StateHash)
    } else if word == "metrics"@ {
        Some(Command::Metrics)
    } else if word == "snapshot"@ {
        Some(Command::Snapshot)
    } else if word == "restore"@ {
        Some(Command::Restore)
    } else if word == "member"@ {
        Some(Command::Member)
    } else if word == "run"@ {
        Some(Command::Run)
    } else if word == "--help"@ || word == "help"@ {
        Some(Command::Help)
    } else {
        None
    }
}

fn find_command(word: &str) -> (command: Option<Command>)
    ensures
        command == command_of(word@),
{
    if same_text(word, "bootstrap") {
        Some(Command::Bootstrap)
    } else if same_text(word, "status") {
        Some(Command::Status)
    } else if same_text(word, "check") {
        Some(Command::Check)
    } else if same_text(word, "state-hash") {
        Some(Command::StateHash)
    } else if same_text(word, "metrics") {
        Some(Command::Metrics)
    } else if same_text(word, "snapshot") {
        Some(Command::Snapshot)
    } else if same_text(word, "restore") {
        Some(Command::Restore)
    } else if same_text(word, "member") {
        Some(Command::Member)
    } else if same_text(word, "run") {
        Some(Command::Run)
    } else if same_text(word, "--help") || same_text(word, "help") {
        Some(Command::Help)
    } else {
        None
    }
}

/// Finds the command of a command line.
pub fn dispatch(args: &[String]) -> (result: Result<Command, String>)
    ensures
        match result {
            Ok(command) => command_of(command_word(words(args@))) == Some(command),
            Err(text) => command_of(command_word(words(args@))) is None && text@
                == "unknown command "@ + command_word(words(args@)) + "; use --help"@,
        },
{
    let word = if args.len() == 0 {
        owned("run")
    } else {
        assert(words(args@)[0] == args@[0]@);
        owned(args[0].as_str())
    };
    match find_command(word.as_str()) {
        Some(command) => Ok(command),
        None => Err(joined3("unknown command ", word.as_str(), "; use --help")),
    }
}

/// The path of the configuration.
pub fn config_path(args: &[String]) -> (path: String)
    ensures
        path@ == match value_of(words(args@), "--config"@) {
            Some(path) => path,
            None => "chorus.toml"@,
        },
{
    match arg_value(args, "--config") {
        Some(path) => path,
        None => owned("chorus.toml"),
    }
}

/// How a configuration is to be loaded.
#[derive(Clone, Debug)]
pub enum ConfigSource {
    /// As it stands; a signed one is refused.
    Plain,
    /// Verified with the key at this path.
    Signed { trust_key: String },
}

/// Decides how a configuration is loaded: with a key it is always verified, and
/// where a signed one is needed a key must be given.
pub fn load_command_config(args: &[String], require_signed_manifest: bool) -> (result: Result<
    ConfigSource,
    String,
>)
    ensures
        match value_of(words(args@), "--manifest-key"@) {
            Some(key) => result matches Ok(ConfigSource::Signed { trust_key }) && trust_key@ == key,
            None => if require_signed_manifest {
                result matches Err(text) && text@
                    == "authenticated OpenRaft requires --manifest-key PATH before state or listeners are opened"@
            } else {
                result matches Ok(ConfigSource::Plain)
            },
        },
{
    match arg_value(args, "--manifest-key") {
        Some(trust_key) => Ok(ConfigSource::Signed { trust_key }),
        None => {
            if require_signed_manifest {
                return Err(
                    owned(
                        "authenticated OpenRaft requires --manifest-key PATH before state or listeners are opened",
                    ),
                );
            }
            Ok(ConfigSource::Plain)
        },
    }
}

/// What is wrong with the confirmation of a dangerous command, if anything.
pub open spec fn confirmation_fault(args: Seq<Seq<char>>, cluster_id: Seq<char>) -> Option<
    Seq<char>,
> {
    match value_of(args, "--cluster-id"@) {
        None => Some("dangerous command requires --cluster-id matching the target"@),
        Some(supplied) => if supplied == cluster_id {
            None
        } else {
            Some("--cluster-id does not match target configuration"@)
        },
    }
}

/// What a check says.
pub open spec fn fault_of(result: Result<(), String>) -> Option<Seq<char>> {
    match result {
        Ok(()) => None,
        Err(text) => Some(text@),
    }
}

/// Checks that a dangerous command names the cluster that it is for.
pub fn require_cluster_confirmation(args: &[String], config: &Config) -> (result: Result<
    (),
    String,
>)
    ensures
        fault_of(result) == confirmation_fault(words(args@), config.cluster_id@),
{
    match arg_value(args, "--cluster-id") {
        None => Err(owned("dangerous command requires --cluster-id matching the target")),
        Some(supplied) => {
            if !same_text(supplied.as_str(), config.cluster_id.as_str()) {
                return Err(owned("--cluster-id does not match target configuration"));
            }
            Ok(())
        },
    }
}

/// A node's number in decimal notation.
pub open spec fn node_number(text: Seq<char>) -> Option<u64> {
    match read_natural(text) {
        Some(n) => if n <= u64::MAX {
            Some(n as u64)
        } else {
            None
        },
        None => None,
    }
}

pub fn parse_node_number(text: &str) -> (number: Option<u64>)
    ensures
        number == node_number(text@),
{
    let chars = text_chars(text);
    parse_natural(chars.as_slice(), u64::MAX)
}

/// The text that explains the command line.
pub fn help_text() -> (text: &'static str)
    ensures
        text@
            == "Chorus MVP\n\nUSAGE:\n  chorus run --config PATH [--allow-insecure-dev | --openraft-single-node | --openraft-mtls --manifest-key PATH]\n  chorus bootstrap [--config PATH] [--data-dir PATH] [--node-id N] [--confirm] [--openraft-single-node | --openraft-mtls --manifest-key PATH]\n  chorus status|check|metrics|state-hash --config PATH [--manifest-key PATH]\n  chorus member list [--config PATH] [--manifest-key PATH]\n  chorus member add-learner|promote|demote|remove --node-id N --config PATH --cluster-id ID --confirm --offline [--manifest-key PATH]\n  chorus snapshot create|export --config PATH --output PATH --offline [--manifest-key PATH]\n  chorus snapshot inspect --input PATH\n  chorus restore --input PATH --config PATH --cluster-id ID --confirm --force-new-cluster [--manifest-key PATH]"@,
{
    "Chorus MVP\n\nUSAGE:\n  chorus run --config PATH [--allow-insecure-dev | --openraft-single-node | --openraft-mtls --manifest-key PATH]\n  chorus bootstrap [--config PATH] [--data-dir PATH] [--node-id N] [--confirm] [--openraft-single-node | --openraft-mtls --manifest-key PATH]\n  chorus status|check|metrics|state-hash --config PATH [--manifest-key PATH]\n  chorus member list [--config PATH] [--manifest-key PATH]\n  chorus member add-learner|promote|demote|remove --node-id N --config PATH --cluster-id ID --confirm --offline [--manifest-key PATH]\n  chorus snapshot create|export --config PATH --output PATH --offline [--manifest-key PATH]\n  chorus snapshot inspect --input PATH\n  chorus restore --input PATH --config PATH --cluster-id ID --confirm --force-new-cluster [--manifest-key PATH]"
}

} // verus!
