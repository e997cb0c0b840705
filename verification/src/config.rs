//! The run's configuration and command-line choices, as plain values.
//!
//! Loading the configuration file and parsing the command line happen
//! outside the library; these types carry what the run's logic reads.

use vstd::prelude::*;
use crate::date::Date;
use crate::resolver::{Mode, RunContext};

verus! {

/// Credentials of the membership source.
#[derive(Debug, Clone)]
pub struct Cleverreach {
    pub client_id: String,
    pub client_secret: String,
    pub group_id: String,
}

/// The message transport and addressing choices: the sender address, an
/// optional global destination override, the digest's receivers, and the
/// SMTP account.
#[derive(Debug, Clone)]
pub struct Email {
    pub from: String,
    pub to_overwrite: Option<String>,
    pub digest: Vec<String>,
    pub host: String,
    pub port: Option<u16>,
    pub username: String,
    pub password: String,
}

/// Where the template source lives.
#[derive(Debug, Clone)]
pub struct NextcloudConfig {
    pub server: String,
    pub username: String,
}

/// The whole run configuration.
#[derive(Debug, Clone)]
pub struct Config {
    /// The earliest effective enrollment date.
    pub min_date: Date,
    /// A fixed run day for deterministic runs; the current day when unset.
    pub now_date: Option<Date>,
    pub cleverreach: Cleverreach,
    pub email: Email,
    pub nextcloud: NextcloudConfig,
}

/// The command-line choices of one run.
#[derive(Debug, Clone)]
pub struct Args {
    /// Run in catch-up mode for the named template: send it to everyone who
    /// should have received it in the past.
    pub send_mail_to_oldies: Option<String>,
    /// Decide and count, but send nothing.
    pub dry_run: bool,
}

impl Config {
    /// The resolver context of a run: the reference day, the enrollment
    /// floor, and normal or catch-up mode per the command line.
    pub fn run_context(&self, today: Date, args: &Args) -> (r: RunContext)
        ensures
            r.today == today,
            r.min_enrollment_floor == self.min_date,
            match args.send_mail_to_oldies {
                Some(name) => r.mode matches Mode::CatchUp(n) && n@ == name@,
                None => r.mode is Normal,
            },
    {
        let mode = match &args.send_mail_to_oldies {
            Some(name) => Mode::CatchUp(name.clone()),
            None => Mode::Normal,
        };
        RunContext { today, min_enrollment_floor: self.min_date, mode }
    }
}

} // verus!
