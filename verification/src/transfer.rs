//! The transfer agent: what it is started with, and how its report is read.

use crate::model::strings_view;
use crate::text::{contains_text, str_contains};
use vstd::prelude::*;

verus! {

/// The arguments with which the agent fetches item `workshop_id` of
/// application `appid`.
pub open spec fn agent_args(appid: Seq<char>, workshop_id: Seq<char>) -> Seq<Seq<char>> {
    seq![
        "+force_install_dir"@,
        "./necodl"@,
        "+login"@,
        "anonymous"@,
        "+workshop_download_item"@,
        appid,
        workshop_id,
        "+quit"@,
    ]
}

/// The arguments with which the agent fetches one item.
pub fn download_args(appid: &str, workshop_id: &str) -> (args: Vec<String>)
    ensures
        strings_view(args@) == agent_args(appid@, workshop_id@),
{
    let mut args: Vec<String> = Vec::new();
    args.push(String::from_str("+force_install_dir"));
    args.push(String::from_str("./necodl"));
    args.push(String::from_str("+login"));
    args.push(String::from_str("anonymous"));
    args.push(String::from_str("+workshop_download_item"));
    args.push(String::from_str(appid));
    args.push(String::from_str(workshop_id));
    args.push(String::from_str("+quit"));
    assert(strings_view(args@) =~= agent_args(appid@, workshop_id@));
    args
}

/// Whether a line of the agent's output reports that the item has arrived.
pub open spec fn reports_success(line: Seq<char>) -> bool {
    contains_text(line, "Success. Downloaded item"@) || contains_text(line, "item state : 4"@)
}

/// Whether a line of the agent's output reports that the item has arrived.
/// Once such a line is seen, the rest of the output need not be read.
pub fn is_success_line(line: &str) -> (success: bool)
    ensures
        success == reports_success(line@),
{
    str_contains(line, "Success. Downloaded item") || str_contains(line, "item state : 4")
}

/// Whether a run of the agent counts as a success: a line of its output
/// said so, or the process ended with a success status.
pub fn transfer_succeeded(saw_success_line: bool, exit_ok: bool) -> (ok: bool)
    ensures
        ok == (saw_success_line || exit_ok),
{
    saw_success_line || exit_ok
}

} // verus!
