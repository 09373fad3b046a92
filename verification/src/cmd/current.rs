use vstd::prelude::*;

verus! {

/// Show the aiken version currently in use.
pub struct Args {}

/// What `current` does.
#[derive(Debug, PartialEq, Eq)]
pub enum CurrentAction {
    /// Report the version in use.
    Show(String),
    /// Nothing usable is switched to: install the latest release.
    InstallLatest,
}

/// Decides from what was found of the switched-to version: whether the path
/// that names it exists, and the version's name.
pub fn current_action(found: Option<(bool, String)>) -> (res: CurrentAction)
    ensures
        match found {
            Some((exists, name)) => if exists && name@.len() > 0 {
                res matches CurrentAction::Show(shown) && shown@ == name@
            } else {
                res is InstallLatest
            },
            None => res is InstallLatest,
        },
{
    match found {
        Some((exists, name)) => {
            if exists && !name.as_str().is_empty() {
                CurrentAction::Show(name)
            } else {
                CurrentAction::InstallLatest
            }
        },
        None => CurrentAction::InstallLatest,
    }
}

} // verus!
