//! The decisions of the interactive session: which operation a line of
//! input selects. The read/print loop itself lives with the caller.

use vstd::prelude::*;
use vstd::string::*;

verus! {

/// What a line at the main prompt asks for.
#[derive(Debug, Clone, Copy, PartialEq, Eq, Structural)]
pub enum ReplCommand {
    AddPassword,
    GeneratePassword,
    ListPasswords,
    RemovePassword,
    ShowPassword,
    UpdateMaster,
    Exit,
}

/// What a line at the add dialogue's first prompt selects.
#[derive(Debug, Clone, Copy, PartialEq, Eq, Structural)]
pub enum AddChoice {
    Generate,
    Enter,
    Cancel,
}

/// Which operation a main-prompt line selects; anything unrecognized ends
/// the session.
pub open spec fn spec_repl_command(s: Seq<char>) -> ReplCommand {
    if s == "1"@ || s == "add"@ || s == "a"@ {
        ReplCommand::AddPassword
    } else if s == "2"@ || s == "generate"@ || s == "g"@ {
        ReplCommand::GeneratePassword
    } else if s == "3"@ || s == "list"@ || s == "l"@ {
        ReplCommand::ListPasswords
    } else if s == "4"@ || s == "remove"@ || s == "r"@ {
        ReplCommand::RemovePassword
    } else if s == "5"@ || s == "show"@ || s == "s"@ {
        ReplCommand::ShowPassword
    } else if s == "6"@ || s == "update"@ || s == "u"@ {
        ReplCommand::UpdateMaster
    } else {
        ReplCommand::Exit
    }
}

/// Which way an add-dialogue line goes; anything unrecognized cancels.
pub open spec fn spec_add_choice(s: Seq<char>) -> AddChoice {
    if s == "1"@ || s == "generate"@ || s == "g"@ || s == "random"@ || s == "r"@ {
        AddChoice::Generate
    } else if s == "2"@ || s == "enter"@ || s == "e"@ {
        AddChoice::Enter
    } else {
        AddChoice::Cancel
    }
}

/// Whether two texts have the same characters.
fn str_eq(s: &str, lit: &str) -> (r: bool)
    ensures
        r == (s@ == lit@),
{
    let n = s.unicode_len();
    let m = lit.unicode_len();
    if n != m {
        return false;
    }
    let mut k: usize = 0;
    while k < n
        invariant
            n == s@.len(),
            n == lit@.len(),
            0 <= k <= n,
            forall|t: int| 0 <= t < k ==> s@[t] == lit@[t],
        decreases n - k,
    {
        if s.get_char(k) != lit.get_char(k) {
            return false;
        }
        k += 1;
    }
    proof {
        assert(s@ =~= lit@);
    }
    true
}

/// Reads a main-prompt line into the operation it selects.
pub fn parse_repl_command(input: &str) -> (r: ReplCommand)
    ensures
        r == spec_repl_command(input@),
{
    if str_eq(input, "1") || str_eq(input, "add") || str_eq(input, "a") {
        ReplCommand::AddPassword
    } else if str_eq(input, "2") || str_eq(input, "generate") || str_eq(input, "g") {
        ReplCommand::GeneratePassword
    } else if str_eq(input, "3") || str_eq(input, "list") || str_eq(input, "l") {
        ReplCommand::ListPasswords
    } else if str_eq(input, "4") || str_eq(input, "remove") || str_eq(input, "r") {
        ReplCommand::RemovePassword
    } else if str_eq(input, "5") || str_eq(input, "show") || str_eq(input, "s") {
        ReplCommand::ShowPassword
    } else if str_eq(input, "6") || str_eq(input, "update") || str_eq(input, "u") {
        ReplCommand::UpdateMaster
    } else {
        ReplCommand::Exit
    }
}

/// Reads an add-dialogue line into the choice it selects.
pub fn parse_add_choice(input: &str) -> (r: AddChoice)
    ensures
        r == spec_add_choice(input@),
{
    if str_eq(input, "1") || str_eq(input, "generate") || str_eq(input, "g") || str_eq(
        input,
        "random",
    ) || str_eq(input, "r") {
        AddChoice::Generate
    } else if str_eq(input, "2") || str_eq(input, "enter") || str_eq(input, "e") {
        AddChoice::Enter
    } else {
        AddChoice::Cancel
    }
}

} // verus!
