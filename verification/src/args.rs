//! The command-line requests as plain data: what each subcommand carries,
//! free of any argument-parsing machinery.

use vstd::prelude::*;

verus! {

/// The store file name used when none is given.
pub const DEFAULT_PASSWORD_FILENAME: &'static str = "store";

/// Generated-password lengths on offer.
#[derive(Debug, Clone, Copy, PartialEq, Eq, Structural)]
pub enum Length {
    Eight,
    Sixteen,
    ThirtyTwo,
}

impl Length {
    /// The number of characters this choice stands for.
    pub fn get_val(self) -> (r: usize)
        ensures
            r == (match self {
                Length::Eight => 8usize,
                Length::Sixteen => 16usize,
                Length::ThirtyTwo => 32usize,
            }),
    {
        match self {
            Length::Eight => 8,
            Length::Sixteen => 16,
            Length::ThirtyTwo => 32,
        }
    }
}

/// One parsed command-line request.
#[derive(Debug)]
pub struct Args {
    pub command: Command,
}

/// The subcommands and the settings each carries.
#[derive(Debug)]
pub enum Command {
    Add {
        file_name: String,
        service: String,
        username: Option<String>,
        password: Option<String>,
        master: Option<String>,
        generate: bool,
        length: Length,
        symbols: bool,
        uppercase: bool,
        lowercase: bool,
        numbers: bool,
    },
    Generate {
        length: Length,
        symbols: bool,
        uppercase: bool,
        lowercase: bool,
        numbers: bool,
        count: usize,
    },
    List { file_name: String, master: Option<String>, show_passwords: bool },
    Remove {
        file_name: String,
        service: String,
        username: Option<String>,
        master: Option<String>,
    },
    Show {
        file_name: String,
        service: String,
        username: Option<String>,
        master: Option<String>,
    },
    UpdateMaster { file_name: String, master: Option<String>, new_master: Option<String> },
    Repl { file_name: String },
}

} // verus!
