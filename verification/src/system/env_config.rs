//! The decisions of environment changes. Writing the registry, running `setx`
//! and announcing changes are done by the caller; these functions say what to
//! do next and what text to write.

use vstd::prelude::*;
use crate::text::{concat3, str_eq};
use crate::system::path_entry::{
    normalize_entry, normalized, path_contains, path_has, append_entry, appended, remove_entry,
    removed, semicolon,
};
use crate::system::path_laws::{lemma_append_then_contains, lemma_remove_entries};

verus! {

/// The ways of writing an environment variable, in the order they are tried:
/// the machine-wide registry key, the user key, then the `setx` tool.
#[derive(PartialEq, Eq, Structural, Clone, Copy, Debug)]
pub enum EnvTarget {
    Machine,
    User,
    Setx,
}

/// What to do after one way of writing a variable was tried.
#[derive(PartialEq, Eq, Structural, Clone, Copy, Debug)]
pub enum EnvNext {
    /// Announce the change to running programs and report success.
    BroadcastOk,
    /// Try the next way of writing.
    Try(EnvTarget),
    /// Report the error of the last way.
    Fail,
}

/// The next step of setting a variable after writing it through `tried`
/// succeeded or failed: success is announced and reported; a failure falls back
/// from the machine key to the user key to `setx`, whose failure is reported.
pub fn set_system_env(tried: EnvTarget, succeeded: bool) -> (r: EnvNext)
    ensures
        succeeded ==> r == EnvNext::BroadcastOk,
        !succeeded ==> r == match tried {
            EnvTarget::Machine => EnvNext::Try(EnvTarget::User),
            EnvTarget::User => EnvNext::Try(EnvTarget::Setx),
            EnvTarget::Setx => EnvNext::Fail,
        },
{
    if succeeded {
        EnvNext::BroadcastOk
    } else {
        match tried {
            EnvTarget::Machine => EnvNext::Try(EnvTarget::User),
            EnvTarget::User => EnvNext::Try(EnvTarget::Setx),
            EnvTarget::Setx => EnvNext::Fail,
        }
    }
}

/// The `PATH` to write into a registry key holding `current` so that it holds
/// `new_entry`: `None` when an equal entry is already there (nothing to write),
/// else `current` with `new_entry` appended. Afterwards the entry is present.
pub fn path_after_append(current: &str, new_entry: &str) -> (r: Option<String>)
    ensures
        path_has(current@, normalized(new_entry@)) ==> r is None,
        !path_has(current@, normalized(new_entry@)) ==> (r matches Some(u) && u@ == appended(
            current@,
            new_entry@,
        )),
        new_entry@.len() > 0 && !new_entry@.contains(';') ==> path_has(
            match r {
                Some(u) => u@,
                None => current@,
            },
            normalized(new_entry@),
        ),
{
    let n = normalize_entry(new_entry);
    if path_contains(current, n.as_str()) {
        None
    } else {
        let u = append_entry(current, new_entry);
        proof {
            if new_entry@.len() > 0 && !new_entry@.contains(';') {
                lemma_append_then_contains(current@, new_entry@);
            }
        }
        Some(u)
    }
}

/// The value given to `setx PATH` when no registry key could be written:
/// `None` when the process `PATH` already holds an equal entry, else the process
/// `PATH`, a `;` and the new entry.
pub fn setx_path_after_append(current: &str, new_entry: &str) -> (r: Option<String>)
    ensures
        path_has(current@, normalized(new_entry@)) ==> r is None,
        !path_has(current@, normalized(new_entry@)) ==> (r matches Some(u) && u@ == current@
            + semicolon() + new_entry@),
{
    let n = normalize_entry(new_entry);
    if path_contains(current, n.as_str()) {
        None
    } else {
        let u = concat3(current, ";", new_entry);
        proof {
            reveal_strlit(";");
        }
        Some(u)
    }
}

/// The `PATH` to write back into a registry key holding `current` so that no
/// entry equal to `entry` is left: `None` when removing changes nothing (nothing
/// to write), else the text without those entries. Afterwards no such entry is
/// present.
pub fn remove_from_path(current: &str, entry: &str) -> (r: Option<String>)
    ensures
        removed(current@, normalized(entry@)) == current@ ==> r is None,
        removed(current@, normalized(entry@)) != current@ ==> (r matches Some(u) && u@ == removed(
            current@,
            normalized(entry@),
        )),
        !path_has(
            match r {
                Some(u) => u@,
                None => current@,
            },
            normalized(entry@),
        ),
{
    let n = normalize_entry(entry);
    let updated = remove_entry(current, n.as_str());
    proof {
        lemma_remove_entries(current@, n@);
    }
    if str_eq(updated.as_str(), current) {
        None
    } else {
        Some(updated)
    }
}

} // verus!
