//! The command line as plain values, and what it asks for.

use std::path::PathBuf;

use vstd::prelude::*;

verus! {

/// The parsed command line.
#[derive(Debug)]
pub struct Cli {
    pub data_dir: Option<PathBuf>,
    pub extended: bool,
    pub debug: bool,
    pub version: bool,
    pub command: Option<Command>,
}

/// The mode, with the hash to identify (`-` for standard input).
#[derive(Debug)]
pub enum Command {
    Hc { hash: String },
    Jtr { hash: String },
}

/// Which reference of a mode is reported: hashcat's number or John the
/// Ripper's format name.
#[derive(Clone, Copy, Debug)]
pub enum OutputKind {
    Hashcat,
    John,
}

/// The name of each output kind on the command line and in the response.
pub open spec fn kind_name(kind: OutputKind) -> Seq<char> {
    match kind {
        OutputKind::Hashcat => seq!['h', 'c'],
        OutputKind::John => seq!['j', 't', 'r'],
    }
}

impl OutputKind {
    pub fn as_str(self) -> (r: &'static str)
        ensures
            r@ == kind_name(self),
    {
        match self {
            Self::Hashcat => {
                proof {
                    reveal_strlit("hc");
                }
                "hc"
            },
            Self::John => {
                proof {
                    reveal_strlit("jtr");
                }
                "jtr"
            },
        }
    }
}

/// Where the hash comes from.
#[derive(Debug)]
pub enum HashSource {
    Argument(String),
    StandardInput,
}

/// A request to identify a hash.
#[derive(Debug)]
pub struct IdentifyRequest {
    pub output_kind: OutputKind,
    pub hash: HashSource,
    pub data_dir: PathBuf,
    pub extended: bool,
    pub debug: bool,
}

/// What the command line asks for.
#[derive(Debug)]
pub enum Invocation {
    Version,
    Identify(IdentifyRequest),
}

/// The output kind that a command selects.
pub open spec fn command_kind(c: Command) -> OutputKind {
    match c {
        Command::Hc { .. } => OutputKind::Hashcat,
        Command::Jtr { .. } => OutputKind::John,
    }
}

/// The hash argument of a command.
pub open spec fn command_hash(c: Command) -> String {
    match c {
        Command::Hc { hash } => hash,
        Command::Jtr { hash } => hash,
    }
}

/// A hash argument of `-` stands for standard input.
pub open spec fn hash_source(raw: String) -> HashSource {
    if raw@ == seq!['-'] {
        HashSource::StandardInput
    } else {
        HashSource::Argument(raw)
    }
}

fn source_of(raw: String) -> (r: HashSource)
    ensures
        r == hash_source(raw),
{
    if raw.as_str().unicode_len() == 1 && raw.as_str().get_char(0) == '-' {
        assert(raw@ =~= seq!['-']);
        HashSource::StandardInput
    } else {
        HashSource::Argument(raw)
    }
}

impl Cli {
    /// What the command line asks for: `--version` wins over everything
    /// else; matching needs a mode with its hash, and then a data directory.
    pub fn invocation(self) -> (r: Result<Invocation, String>)
        ensures
            self.version ==> r matches Ok(Invocation::Version),
            !self.version && self.command is None ==> (r matches Err(m) && m@
                == "a mode (`hc` or `jtr`) and hash are required"@),
            !self.version && self.command is Some && self.data_dir is None ==> (r matches Err(m)
                && m@ == "--data-dir <path> is required for matching"@),
            !self.version && self.command is Some && self.data_dir is Some ==> (r matches Ok(
                Invocation::Identify(req),
            ) && req.output_kind == command_kind(self.command.unwrap()) && req.hash
                == hash_source(command_hash(self.command.unwrap())) && req.data_dir
                == self.data_dir.unwrap() && req.extended == self.extended && req.debug
                == self.debug),
    {
        if self.version {
            return Ok(Invocation::Version);
        }
        let command = match self.command {
            Some(command) => command,
            None => return Err(String::from_str("a mode (`hc` or `jtr`) and hash are required")),
        };
        let data_dir = match self.data_dir {
            Some(data_dir) => data_dir,
            None => return Err(String::from_str("--data-dir <path> is required for matching")),
        };
        let (output_kind, raw_hash) = match command {
            Command::Hc { hash } => (OutputKind::Hashcat, hash),
            Command::Jtr { hash } => (OutputKind::John, hash),
        };
        Ok(
            Invocation::Identify(
                IdentifyRequest {
                    output_kind,
                    hash: source_of(raw_hash),
                    data_dir,
                    extended: self.extended,
                    debug: self.debug,
                },
            ),
        )
    }
}

} // verus!
