//! The command line, once read: which operation is asked for, on which
//! directories, with which options.

use crate::flags::{flags_of, lemma_flags_of, Flag};
use crate::path::{file_name, file_name_of, join, join_spec};
use vstd::prelude::*;
use vstd::string::*;

verus! {

/// The operation asked for.
#[derive(Eq, PartialEq, Clone, Copy, Debug, Structural)]
pub enum SubCommandType {
    Copy,
    Synchronize,
    Remove,
}

/// An operation with its directories: the source, where it has one, and the
/// destinations or targets.
#[derive(Debug)]
pub struct SubCommand<'a> {
    pub src: Option<&'a str>,
    pub dest: Vec<String>,
    pub sub_command_type: SubCommandType,
}

/// What parsing gives: the operation and the options.
#[derive(Debug)]
pub struct ParseResult<'a> {
    pub sub_command: SubCommand<'a>,
    pub flags: Flag,
}

/// Why a command line is refused.
#[derive(Eq, PartialEq, Clone, Copy, Debug, Structural)]
pub enum ParseError {
    UnknownSubcommand,
    NoTargets,
    SourceNotDirectory,
    DestinationNotCreated,
}

impl ParseError {
    /// The words that tell the user of the refusal.
    pub fn message(&self) -> (text: &'static str)
        ensures
            text@ == (match *self {
                ParseError::UnknownSubcommand => "Unknown subcommand"@,
                ParseError::NoTargets => "No target directories specified"@,
                ParseError::SourceNotDirectory => "Source Error -- Source is not a directory"@,
                ParseError::DestinationNotCreated => "Destination Error -- Destination could not be created"@,
            }),
    {
        match self {
            ParseError::UnknownSubcommand => "Unknown subcommand",
            ParseError::NoTargets => "No target directories specified",
            ParseError::SourceNotDirectory => "Source Error -- Source is not a directory",
            ParseError::DestinationNotCreated => "Destination Error -- Destination could not be created",
        }
    }
}

/// What the command line held: the name of the subcommand, which options were
/// given, and the directories named.
pub struct Matches {
    pub sub_command: String,
    pub no_delete: bool,
    pub secure: bool,
    pub verbose: bool,
    pub sequential: bool,
    pub source: Option<String>,
    pub destination: Option<String>,
    pub targets: Vec<String>,
}

/// What the caller found on disk for the directories named: whether the
/// source is a directory, whether the destination exists, and for each target
/// in turn whether it is a directory. A target without an answer counts as no
/// directory.
pub struct Probes {
    pub source_is_dir: bool,
    pub destination_exists: bool,
    pub targets_are_dirs: Vec<bool>,
}

/// What a `ParseResult` holds, over sequences of characters.
pub struct ParseView {
    pub src: Option<Seq<char>>,
    pub dest: Seq<Seq<char>>,
    pub sub_command_type: SubCommandType,
    pub flags: Flag,
}

/// The strings, as sequences of characters.
pub open spec fn texts(strings: Seq<String>) -> Seq<Seq<char>> {
    Seq::new(strings.len(), |i: int| strings[i]@)
}

impl<'a> ParseResult<'a> {
    pub open spec fn view(&self) -> ParseView {
        ParseView {
            src: match self.sub_command.src {
                Some(s) => Some(s@),
                None => None,
            },
            dest: texts(self.sub_command.dest@),
            sub_command_type: self.sub_command.sub_command_type,
            flags: self.flags,
        }
    }
}

/// The targets that are directories, in the order given.
pub open spec fn kept_targets(targets: Seq<String>, are_dirs: Seq<bool>) -> Seq<Seq<char>>
    decreases targets.len(),
{
    if targets.len() == 0 {
        Seq::<Seq<char>>::empty()
    } else {
        let before = kept_targets(targets.drop_last(), are_dirs);
        let last = targets.len() - 1;
        if last < are_dirs.len() && are_dirs[last] {
            before.push(targets.last()@)
        } else {
            before
        }
    }
}

/// Where a copy goes: into the destination under the source's own name where
/// the destination exists already and the source has a name, else to the
/// destination itself.
pub open spec fn copy_destination(source: Seq<char>, destination: Seq<char>, found: bool) -> Seq<char> {
    if found && file_name_of(source).is_some() {
        join_spec(destination, file_name_of(source).unwrap())
    } else {
        destination
    }
}

/// The options that the command line gave.
pub open spec fn flags_given(args: &Matches) -> Flag {
    flags_of(args.no_delete, args.secure, args.verbose, args.sequential)
}

/// Whether the command line names its directories as its subcommand needs
/// them: `cp` and `sync` a source and a destination.
pub open spec fn well_formed(args: &Matches) -> bool {
    (args.sub_command@ == "cp"@ || args.sub_command@ == "sync"@) ==> args.source.is_some()
        && args.destination.is_some()
}

/// What a command line comes to, given what was found on disk.
pub open spec fn parsed(args: &Matches, found: &Probes) -> Result<ParseView, ParseError> {
    if args.sub_command@ == "cp"@ || args.sub_command@ == "sync"@ {
        if !found.source_is_dir {
            Err(ParseError::SourceNotDirectory)
        } else if args.sub_command@ == "cp"@ {
            Ok(
                ParseView {
                    src: Some(args.source.unwrap()@),
                    dest: seq![
                        copy_destination(
                            args.source.unwrap()@,
                            args.destination.unwrap()@,
                            found.destination_exists,
                        ),
                    ],
                    sub_command_type: SubCommandType::Copy,
                    flags: flags_given(args),
                },
            )
        } else {
            Ok(
                ParseView {
                    src: Some(args.source.unwrap()@),
                    dest: seq![args.destination.unwrap()@],
                    sub_command_type: SubCommandType::Synchronize,
                    flags: flags_given(args),
                },
            )
        }
    } else if args.sub_command@ == "rm"@ {
        let kept = kept_targets(args.targets@, found.targets_are_dirs@);
        if kept.len() == 0 {
            Err(ParseError::NoTargets)
        } else {
            Ok(
                ParseView {
                    src: None,
                    dest: kept,
                    sub_command_type: SubCommandType::Remove,
                    flags: flags_given(args),
                },
            )
        }
    } else {
        Err(ParseError::UnknownSubcommand)
    }
}

/// Whether two strings hold the same characters.
pub fn same_text(a: &str, b: &str) -> (same: bool)
    ensures
        same == (a@ == b@),
{
    let n: usize = a.unicode_len();
    if n != b.unicode_len() {
        return false;
    }
    let mut i: usize = 0;
    while i < n
        invariant
            n == a@.len(),
            n == b@.len(),
            0 <= i <= n,
            forall|k: int| 0 <= k < i ==> a@[k] == b@[k],
        decreases n - i,
    {
        if a.get_char(i) != b.get_char(i) {
            return false;
        }
        i = i + 1;
    }
    assert(a@ =~= b@);
    true
}

/// Builds the set of options from the four choices.
pub fn collect_flags(no_delete: bool, secure: bool, verbose: bool, sequential: bool) -> (flags: Flag)
    ensures
        flags == flags_of(no_delete, secure, verbose, sequential),
        flags.has(Flag::no_delete()) == no_delete,
        flags.has(Flag::secure()) == secure,
        flags.has(Flag::verbose()) == verbose,
        flags.has(Flag::sequential()) == sequential,
{
    let mut flags = Flag::empty();
    if no_delete {
        flags.insert(Flag::no_delete());
    }
    if secure {
        flags.insert(Flag::secure());
    }
    if verbose {
        flags.insert(Flag::verbose());
    }
    if sequential {
        flags.insert(Flag::sequential());
    }
    proof {
        let a: u32 = if no_delete { 0x1u32 } else { 0u32 };
        let b: u32 = if secure { 0x2u32 } else { 0u32 };
        let c: u32 = if verbose { 0x4u32 } else { 0u32 };
        let d: u32 = if sequential { 0x8u32 } else { 0u32 };
        assert((((0u32 | a) | b) | c) | d == a | b | c | d) by (bit_vector);
        assert(0u32 | 0u32 == 0u32) by (bit_vector);
        assert(flags.bits == a | b | c | d) by {
            assert(forall|x: u32| #[trigger] (x | 0u32) == x) by (bit_vector);
        }
        lemma_flags_of(no_delete, secure, verbose, sequential);
    }
    flags
}

/// Keeps the targets that are directories, in the order given.
pub fn retain_directories(targets: &Vec<String>, are_dirs: &Vec<bool>) -> (kept: Vec<String>)
    ensures
        texts(kept@) == kept_targets(targets@, are_dirs@),
{
    let mut kept: Vec<String> = Vec::new();
    let mut i: usize = 0;
    proof {
        assert(targets@.take(0).len() == 0);
        assert(texts(kept@) =~= kept_targets(targets@.take(0), are_dirs@));
    }
    while i < targets.len()
        invariant
            0 <= i <= targets.len(),
            texts(kept@) == kept_targets(targets@.take(i as int), are_dirs@),
        decreases targets.len() - i,
    {
        proof {
            assert(targets@.take(i as int + 1).drop_last() =~= targets@.take(i as int));
        }
        if i < are_dirs.len() && are_dirs[i] {
            let ghost held = kept@;
            let target = targets[i].clone();
            kept.push(target);
            proof {
                assert(texts(kept@) =~= texts(held).push(targets@[i as int]@));
            }
        }
        i = i + 1;
    }
    proof {
        assert(targets@.take(targets@.len() as int) =~= targets@);
    }
    kept
}

/// Works out the operation, its directories and the options from what the
/// command line held and what was found on disk.
///
/// `cp` and `sync` need a source that is a directory. `cp` into a destination
/// that exists goes into it under the source's own name. `rm` keeps the
/// targets that are directories and needs one at least.
pub fn parse_args<'a>(args: &'a Matches, found: &Probes) -> (result: Result<ParseResult<'a>, ParseError>)
    requires
        well_formed(args),
    ensures
        match result {
            Ok(r) => parsed(args, found) == Ok::<ParseView, ParseError>(r@),
            Err(e) => parsed(args, found) == Err::<ParseView, ParseError>(e),
        },
{
    let flags = collect_flags(args.no_delete, args.secure, args.verbose, args.sequential);
    let name: &str = args.sub_command.as_str();
    let is_copy: bool = same_text(name, "cp");
    let is_sync: bool = same_text(name, "sync");
    if is_copy || is_sync {
        let source: &'a str = match &args.source {
            Some(s) => s.as_str(),
            None => { return Err(ParseError::SourceNotDirectory); },
        };
        let destination: &str = match &args.destination {
            Some(d) => d.as_str(),
            None => { return Err(ParseError::SourceNotDirectory); },
        };
        if !found.source_is_dir {
            return Err(ParseError::SourceNotDirectory);
        }
        let mut dest: Vec<String> = Vec::new();
        if is_copy {
            let place = match file_name(source) {
                Some(own_name) => if found.destination_exists {
                    join(destination, own_name.as_str())
                } else {
                    String::from_str(destination)
                },
                None => String::from_str(destination),
            };
            dest.push(place);
            proof {
                assert(texts(dest@) =~= seq![
                    copy_destination(source@, destination@, found.destination_exists),
                ]);
            }
            Ok(
                ParseResult {
                    sub_command: SubCommand {
                        src: Some(source),
                        dest,
                        sub_command_type: SubCommandType::Copy,
                    },
                    flags,
                },
            )
        } else {
            dest.push(String::from_str(destination));
            proof {
                assert(texts(dest@) =~= seq![destination@]);
            }
            Ok(
                ParseResult {
                    sub_command: SubCommand {
                        src: Some(source),
                        dest,
                        sub_command_type: SubCommandType::Synchronize,
                    },
                    flags,
                },
            )
        }
    } else if same_text(name, "rm") {
        let dest = retain_directories(&args.targets, &found.targets_are_dirs);
        if dest.len() == 0 {
            return Err(ParseError::NoTargets);
        }
        Ok(
            ParseResult {
                sub_command: SubCommand { src: None, dest, sub_command_type: SubCommandType::Remove },
                flags,
            },
        )
    } else {
        Err(ParseError::UnknownSubcommand)
    }
}

/// Whether the destination stands ready: it was there already, or it could be
/// created.
pub fn destination_ready(found: bool, created: bool) -> (ready: Result<(), ParseError>)
    ensures
        ready.is_ok() == (found || created),
        ready.is_err() ==> ready.unwrap_err() == ParseError::DestinationNotCreated,
{
    if found || created {
        Ok(())
    } else {
        Err(ParseError::DestinationNotCreated)
    }
}

/// How much of a run is reported.
#[derive(Eq, PartialEq, Clone, Copy, Debug, Structural)]
pub enum LogLevel {
    /// Every entry that is handled.
    Info,
    /// Failures only.
    Error,
}

/// How a run is set up.
#[derive(Eq, PartialEq, Clone, Copy, Debug, Structural)]
pub struct Settings {
    pub log_level: LogLevel,
    pub single_worker: bool,
}

/// Chooses the set-up of a run from the options: everything is reported where
/// `VERBOSE` is set, else failures only; a single worker does the work where
/// `SEQUENTIAL` is set.
pub fn set_env(flags: Flag) -> (settings: Settings)
    ensures
        settings.log_level == (if flags.has(Flag::verbose()) {
            LogLevel::Info
        } else {
            LogLevel::Error
        }),
        settings.single_worker == flags.has(Flag::sequential()),
{
    let log_level = if flags.contains(Flag::verbose()) {
        LogLevel::Info
    } else {
        LogLevel::Error
    };
    Settings { log_level, single_worker: flags.contains(Flag::sequential()) }
}

} // verus!
