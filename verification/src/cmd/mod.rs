pub mod clean;
pub mod current;
pub mod install;
pub mod list;

use vstd::prelude::*;

verus! {

/// The subcommands.
pub enum Cmd {
    Clean(clean::Args),
    Current(current::Args),
    Install(install::Args),
    List(list::Args),
}

} // verus!
