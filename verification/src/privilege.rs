//! The short root scripts run through sudo.
//!
//! The front end releases the terminal, feeds the script to `sudo sh -s`
//! and reports what it printed.

use vstd::prelude::*;

use crate::fstab::{
    cred_dir_spec, opt_cred_view, render_script, script_spec, sh_quote, sh_quote_spec, CredV,
    CredWrite,
};

verus! {

pub enum SudoJob {
    ApplyFstab { contents: String, creds: Option<CredWrite>, mount: Option<String> },
    Mount(String),
    Umount(String),
}

pub enum SudoJobV {
    ApplyFstab { contents: Seq<char>, creds: Option<CredV>, mount: Option<Seq<char>> },
    Mount(Seq<char>),
    Umount(Seq<char>),
}

pub open spec fn opt_string_view(o: Option<String>) -> Option<Seq<char>> {
    match o {
        Some(s) => Some(s@),
        None => None,
    }
}

impl View for SudoJob {
    type V = SudoJobV;

    open spec fn view(&self) -> SudoJobV {
        match self {
            SudoJob::ApplyFstab { contents, creds, mount } => SudoJobV::ApplyFstab {
                contents: contents@,
                creds: opt_cred_view(*creds),
                mount: opt_string_view(*mount),
            },
            SudoJob::Mount(t) => SudoJobV::Mount(t@),
            SudoJob::Umount(t) => SudoJobV::Umount(t@),
        }
    }
}

/// Where the current fstab is copied before it is replaced.
pub open spec fn backup_path(stamp: Seq<char>) -> Seq<char> {
    "/etc/fstab.bak."@ + stamp
}

/// The script for a job; `stamp` names the backup copy of fstab.
pub open spec fn job_script_spec(job: SudoJobV, stamp: Seq<char>) -> Seq<char> {
    match job {
        SudoJobV::ApplyFstab { contents, creds, mount } => script_spec(
            backup_path(stamp),
            contents,
            creds,
            mount,
            cred_dir_spec(creds),
        ),
        SudoJobV::Mount(t) => "set -eu\nmount -- "@ + sh_quote_spec(t) + "\n"@,
        SudoJobV::Umount(t) => "set -eu\numount -- "@ + sh_quote_spec(t) + "\n"@,
    }
}

pub fn job_script(job: &SudoJob, stamp: &str) -> (r: String)
    ensures
        r@ == job_script_spec(job@, stamp@),
{
    match job {
        SudoJob::ApplyFstab { contents, creds, mount } => {
            let backup = String::from_str("/etc/fstab.bak.").concat(stamp);
            let c: Option<&CredWrite> = match creds {
                Some(w) => Some(w),
                None => None,
            };
            let m: Option<&str> = match mount {
                Some(t) => Some(t.as_str()),
                None => None,
            };
            render_script(backup.as_str(), contents.as_str(), c, m)
        },
        SudoJob::Mount(target) => {
            let q = sh_quote(target.as_str());
            String::from_str("set -eu\nmount -- ").concat(q.as_str()).concat("\n")
        },
        SudoJob::Umount(target) => {
            let q = sh_quote(target.as_str());
            String::from_str("set -eu\numount -- ").concat(q.as_str()).concat("\n")
        },
    }
}

} // verus!
