use vstd::prelude::*;

use crate::cmd::install;
use crate::cmd::Cmd;

verus! {

/// The command line: an optional subcommand.
pub struct Cli {
    pub cmd: Option<Cmd>,
}

impl Cli {
    /// Whether the banner is shown: where no subcommand is given.
    pub fn shows_banner(&self) -> (res: bool)
        ensures
            res == self.cmd is None,
    {
        self.cmd.is_none()
    }

    /// The subcommand to run: the one given, else installing the latest
    /// release.
    pub fn command(self) -> (res: Cmd)
        ensures
            match self.cmd {
                Some(c) => res == c,
                None => res matches Cmd::Install(args) && args.release is None && !args.no_switch,
            },
    {
        match self.cmd {
            Some(c) => c,
            None => Cmd::Install(install::Args::latest()),
        }
    }
}

} // verus!
