//! Making an identity the active one of a repository: the two calls of
//! `git config` that do it, and what the user is told of each.

use vstd::prelude::*;
use crate::identity::{GitId, Identity};

verus! {

/// The texts of a sequence of strings.
pub open spec fn texts(v: Seq<String>) -> Seq<Seq<char>> {
    v.map_values(|s: String| s@)
}

/// The arguments with which git sets the email address of the repository.
pub open spec fn email_arguments(id: Identity) -> Seq<Seq<char>> {
    seq!["config"@, "user.email"@, id.email]
}

/// The arguments with which git sets the name of the repository. The name
/// is handed over between a pair of double quotes.
pub open spec fn name_arguments(id: Identity) -> Seq<Seq<char>> {
    seq!["config"@, "user.name"@, "\""@ + id.name + "\""@]
}

/// What the user is told after the call that sets the email address.
pub open spec fn email_report_text(done: bool) -> Seq<char> {
    if done {
        "Set email in current repo.\n"@
    } else {
        "Failed to set email in current repo.\n"@
    }
}

/// What the user is told after the call that sets the name.
pub open spec fn name_report_text(done: bool) -> Seq<char> {
    if done {
        "Set name in current repo.\n"@
    } else {
        "Failed to set name in current repo.\n"@
    }
}

/// The arguments of the call that sets the email address: `email_arguments`.
pub fn set_email_arguments(id: &GitId) -> (args: Vec<String>)
    ensures
        texts(args@) == email_arguments(id@),
{
    let mut args: Vec<String> = Vec::new();
    args.push("config".to_owned());
    args.push("user.email".to_owned());
    args.push(id.email.clone());
    assert(texts(args@) =~= email_arguments(id@));
    args
}

/// The arguments of the call that sets the name: `name_arguments`.
pub fn set_name_arguments(id: &GitId) -> (args: Vec<String>)
    ensures
        texts(args@) == name_arguments(id@),
{
    let mut quoted = "\"".to_owned();
    quoted.append(id.name.as_str());
    quoted.append("\"");
    let mut args: Vec<String> = Vec::new();
    args.push("config".to_owned());
    args.push("user.name".to_owned());
    args.push(quoted);
    assert(texts(args@) =~= name_arguments(id@));
    args
}

/// The line that follows the call that sets the email address. The call
/// counts as done when git could be run.
pub fn email_report(done: bool) -> (text: String)
    ensures
        text@ == email_report_text(done),
{
    if done {
        "Set email in current repo.\n".to_owned()
    } else {
        "Failed to set email in current repo.\n".to_owned()
    }
}

/// The line that follows the call that sets the name. It does not depend
/// on how the call for the email address went.
pub fn name_report(done: bool) -> (text: String)
    ensures
        text@ == name_report_text(done),
{
    if done {
        "Set name in current repo.\n".to_owned()
    } else {
        "Failed to set name in current repo.\n".to_owned()
    }
}

} // verus!
