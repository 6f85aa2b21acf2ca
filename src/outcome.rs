//! Classification of the free-text answers of the driven CLI. Every test runs
//! on the lower-cased output; anything that matches no known vocabulary is a
//! failure.

use vstd::prelude::*;
use crate::text::{includes, contains_str};

verus! {

/// What `str::to_lowercase` returns for `s`.
pub uninterp spec fn lower_of(s: Seq<char>) -> Seq<char>;

/// Relies on `str::to_lowercase`: the result depends on the characters alone.
#[verifier::external_body]
pub(crate) fn lowercase(s: &str) -> (r: Vec<char>)
    ensures
        r@ == lower_of(s@),
{
    s.to_lowercase().chars().collect()
}

/// Outcome of one CLI sub-command.
#[derive(Debug, Clone, Copy, PartialEq, Eq, Structural)]
pub struct CommandOutcome {
    pub success: bool,
    pub already: bool,
}

/// The explicit failure vocabulary.
pub open spec fn failure_vocab(t: Seq<char>) -> bool {
    includes(t, "error"@) || includes(t, "failed"@) || includes(t, "failure"@) || includes(t, "unable to"@)
        || includes(t, "could not"@)
}

pub open spec fn marketplace_add_outcome(t: Seq<char>) -> CommandOutcome {
    let already = includes(t, "already"@) && (includes(t, "marketplace"@) || includes(t, "exists"@) || includes(
        t,
        "added"@,
    ) || includes(t, "installed"@));
    if already {
        CommandOutcome { success: true, already: true }
    } else {
        let success = !failure_vocab(t) && (includes(t, "marketplace added"@) || includes(
            t,
            "added marketplace"@,
        ) || includes(t, "successfully added"@) || (includes(t, "marketplace"@) && includes(t, "added"@)
            && !includes(t, "not added"@)));
        CommandOutcome { success, already: false }
    }
}

pub open spec fn plugin_install_outcome(t: Seq<char>) -> CommandOutcome {
    let not_installed = includes(t, "not installed"@) || includes(t, "not found"@);
    let already = includes(t, "already installed"@) || includes(t, "already exists"@);
    let success = !failure_vocab(t) && !not_installed && (already || includes(
        t,
        "successfully installed"@,
    ) || includes(t, "installation complete"@) || includes(t, "install success"@) || includes(
        t,
        "plugin installed"@,
    ) || (includes(t, "installed"@) && !includes(t, "not installed"@) && !includes(t, "isn't installed"@)));
    CommandOutcome { success, already }
}

pub open spec fn plugin_uninstall_outcome(t: Seq<char>) -> CommandOutcome {
    let not_installed = includes(t, "not installed"@) || includes(t, "not found"@) || includes(
        t,
        "doesn't exist"@,
    );
    let has_error = !not_installed && failure_vocab(t);
    let success = !has_error && (not_installed || includes(t, "successfully uninstalled"@) || includes(
        t,
        "uninstall success"@,
    ) || includes(t, "plugin uninstalled"@) || includes(t, "removed"@) || (includes(t, "uninstalled"@)
        && !includes(t, "not uninstalled"@)));
    CommandOutcome { success, already: not_installed }
}

pub open spec fn marketplace_remove_outcome(t: Seq<char>) -> CommandOutcome {
    let not_found = includes(t, "not found"@) || includes(t, "doesn't exist"@);
    let has_error = !not_found && failure_vocab(t);
    let success = !has_error && (not_found || includes(t, "successfully removed"@) || includes(
        t,
        "marketplace removed"@,
    ) || includes(t, "removed marketplace"@) || includes(t, "uninstalled"@) || (includes(t, "removed"@)
        && !includes(t, "not removed"@)));
    CommandOutcome { success, already: not_found }
}

/// Status word after `plugin update`.
pub open spec fn plugin_update_status(t: Seq<char>) -> Seq<char> {
    if includes(t, "already"@) && includes(t, "latest"@) {
        "already_latest"@
    } else if includes(t, "updated"@) {
        "updated"@
    } else {
        "failed"@
    }
}

pub open spec fn marketplace_update_ok(t: Seq<char>) -> bool {
    includes(t, "successfully updated marketplace"@) || (includes(t, "updated"@) && includes(t, "marketplace"@)
        && !includes(t, "failed"@)) || includes(t, "already up to date"@)
}

/// The phrasings of the one-time workspace-trust confirmation.
pub open spec fn trust_prompt(t: Seq<char>) -> bool {
    includes(t, "quick safety check"@) || (includes(t, "trust this folder"@) && includes(t, "enter to confirm"@))
        || (includes(t, "accessing workspace"@) && includes(t, "trust"@))
}

pub fn has_failure_vocab(t: &Vec<char>) -> (r: bool)
    ensures
        r == failure_vocab(t@),
{
    contains_str(t, "error") || contains_str(t, "failed") || contains_str(t, "failure")
        || contains_str(t, "unable to") || contains_str(t, "could not")
}

/// `marketplace add` outcome of already lower-cased output.
pub fn classify_marketplace_add(t: &Vec<char>) -> (r: CommandOutcome)
    ensures
        r == marketplace_add_outcome(t@),
{
    let already = contains_str(t, "already") && (contains_str(t, "marketplace") || contains_str(
        t,
        "exists",
    ) || contains_str(t, "added") || contains_str(t, "installed"));
    if already {
        return CommandOutcome { success: true, already: true };
    }
    let has_error = has_failure_vocab(t);
    let success = !has_error && (contains_str(t, "marketplace added") || contains_str(
        t,
        "added marketplace",
    ) || contains_str(t, "successfully added") || (contains_str(t, "marketplace")
        && contains_str(t, "added") && !contains_str(t, "not added")));
    CommandOutcome { success, already: false }
}

/// `plugin install` outcome of already lower-cased output.
pub fn classify_plugin_install(t: &Vec<char>) -> (r: CommandOutcome)
    ensures
        r == plugin_install_outcome(t@),
{
    let has_error = has_failure_vocab(t);
    let not_installed = contains_str(t, "not installed") || contains_str(t, "not found");
    let already = contains_str(t, "already installed") || contains_str(t, "already exists");
    let success = !has_error && !not_installed && (already || contains_str(
        t,
        "successfully installed",
    ) || contains_str(t, "installation complete") || contains_str(t, "install success")
        || contains_str(t, "plugin installed") || (contains_str(t, "installed") && !contains_str(
        t,
        "not installed",
    ) && !contains_str(t, "isn't installed")));
    CommandOutcome { success, already }
}

/// `plugin uninstall` outcome of already lower-cased output.
pub fn classify_plugin_uninstall(t: &Vec<char>) -> (r: CommandOutcome)
    ensures
        r == plugin_uninstall_outcome(t@),
{
    let not_installed = contains_str(t, "not installed") || contains_str(t, "not found")
        || contains_str(t, "doesn't exist");
    let has_error = !not_installed && has_failure_vocab(t);
    let success = !has_error && (not_installed || contains_str(t, "successfully uninstalled")
        || contains_str(t, "uninstall success") || contains_str(t, "plugin uninstalled")
        || contains_str(t, "removed") || (contains_str(t, "uninstalled") && !contains_str(
        t,
        "not uninstalled",
    )));
    CommandOutcome { success, already: not_installed }
}

/// `marketplace remove` outcome of already lower-cased output.
pub fn classify_marketplace_remove(t: &Vec<char>) -> (r: CommandOutcome)
    ensures
        r == marketplace_remove_outcome(t@),
{
    let not_found = contains_str(t, "not found") || contains_str(t, "doesn't exist");
    let has_error = !not_found && has_failure_vocab(t);
    let success = !has_error && (not_found || contains_str(t, "successfully removed")
        || contains_str(t, "marketplace removed") || contains_str(t, "removed marketplace")
        || contains_str(t, "uninstalled") || (contains_str(t, "removed") && !contains_str(
        t,
        "not removed",
    )));
    CommandOutcome { success, already: not_found }
}

/// `plugin update` status of already lower-cased output.
pub fn classify_plugin_update(t: &Vec<char>) -> (r: String)
    ensures
        r@ == plugin_update_status(t@),
{
    if contains_str(t, "already") && contains_str(t, "latest") {
        "already_latest".to_string()
    } else if contains_str(t, "updated") {
        "updated".to_string()
    } else {
        "failed".to_string()
    }
}

/// `marketplace update` success of already lower-cased output.
pub fn classify_marketplace_update(t: &Vec<char>) -> (r: bool)
    ensures
        r == marketplace_update_ok(t@),
{
    contains_str(t, "successfully updated marketplace") || (contains_str(t, "updated")
        && contains_str(t, "marketplace") && !contains_str(t, "failed")) || contains_str(
        t,
        "already up to date",
    )
}

/// Whether already lower-cased output shows the workspace-trust prompt.
pub fn shows_trust_prompt(t: &Vec<char>) -> (r: bool)
    ensures
        r == trust_prompt(t@),
{
    contains_str(t, "quick safety check") || (contains_str(t, "trust this folder")
        && contains_str(t, "enter to confirm")) || (contains_str(t, "accessing workspace")
        && contains_str(t, "trust"))
}

pub fn parse_marketplace_add_output(output: &str) -> (r: CommandOutcome)
    ensures
        r == marketplace_add_outcome(lower_of(output@)),
{
    classify_marketplace_add(&lowercase(output))
}

pub fn parse_plugin_install_output(output: &str) -> (r: CommandOutcome)
    ensures
        r == plugin_install_outcome(lower_of(output@)),
{
    classify_plugin_install(&lowercase(output))
}

pub fn parse_plugin_uninstall_output(output: &str) -> (r: CommandOutcome)
    ensures
        r == plugin_uninstall_outcome(lower_of(output@)),
{
    classify_plugin_uninstall(&lowercase(output))
}

pub fn parse_marketplace_remove_output(output: &str) -> (r: CommandOutcome)
    ensures
        r == marketplace_remove_outcome(lower_of(output@)),
{
    classify_marketplace_remove(&lowercase(output))
}

pub fn parse_plugin_update_output(output: &str) -> (r: String)
    ensures
        r@ == plugin_update_status(lower_of(output@)),
{
    classify_plugin_update(&lowercase(output))
}

pub fn parse_marketplace_update_output(output: &str) -> (r: bool)
    ensures
        r == marketplace_update_ok(lower_of(output@)),
{
    classify_marketplace_update(&lowercase(output))
}

/// Whether the accumulated terminal output shows the workspace-trust prompt.
pub fn is_workspace_trust_prompt(output: &str) -> (r: bool)
    ensures
        r == trust_prompt(lower_of(output@)),
{
    shows_trust_prompt(&lowercase(output))
}

} // verus!
