//! The dispatcher: turns an input line into what the shell does with it.
use vstd::prelude::*;
use crate::actions::{
    calculate, calculation_view, explain_shell_command, explanation, generate_password, help,
    HELP_TEXT,
};
use crate::bindings::{is_alphanumeric, meval_outcome};
use crate::command::{Action, CommandView, ParsedCommand};
use crate::matcher::{lemma_parse_arity, opt_view, parse, parse_command};

verus! {

/// What the shell does with one input line.
#[derive(Debug)]
pub enum Reply {
    /// No rule recognises the line.
    Unrecognized,
    /// The action needed no outside work; this is its output.
    Output(String),
    /// The action reaches the machine (files, processes, network, clipboard,
    /// clock): the caller performs it.
    Perform(ParsedCommand),
}

impl Reply {
    pub open spec fn output_is(&self, t: Seq<char>) -> bool {
        match self {
            Reply::Output(x) => x@ == t,
            _ => false,
        }
    }

    /// An output of `n` ASCII letters and digits.
    pub open spec fn is_password(&self, n: usize) -> bool {
        match self {
            Reply::Output(x) => x@.len() == n && forall|i: int| 0 <= i < n ==> is_alphanumeric(#[trigger] x@[i]),
            _ => false,
        }
    }

    pub open spec fn performs(&self, c: CommandView) -> bool {
        match self {
            Reply::Perform(p) => p@ == c,
            _ => false,
        }
    }
}

/// The actions whose whole output the library computes itself.
pub open spec fn computed_here(a: Action) -> bool {
    match a {
        Action::Help | Action::Explain | Action::Calculate | Action::GeneratePassword(_) => true,
        _ => false,
    }
}

/// Recognises an input line and, where the action needs nothing from the
/// machine, computes its output.
pub fn handle_command(input: &str) -> (r: Reply)
    ensures
        parse(input@) is None <==> r is Unrecognized,
        parse(input@) matches Some(c) ==> {
            &&& c.0 == Action::Help ==> r.output_is(HELP_TEXT@)
            &&& c.0 == Action::Explain ==> r.output_is(explanation(c.1[0]))
            &&& c.0 == Action::Calculate ==> r.output_is(calculation_view(meval_outcome(c.1[0])))
            &&& (c.0 matches Action::GeneratePassword(n) ==> r.is_password(n))
            &&& !computed_here(c.0) ==> r.performs(c)
        },
{
    let parsed = parse_command(input);
    match parsed {
        None => Reply::Unrecognized,
        Some(cmd) => {
            assert(opt_view(Some(cmd)) == parse(input@));
            proof {
                lemma_parse_arity(input@);
            }
            match cmd.action {
                Action::Help => Reply::Output(help()),
                Action::Explain => Reply::Output(explain_shell_command(cmd.arg(0).as_str())),
                Action::Calculate => Reply::Output(calculate(cmd.arg(0).as_str())),
                Action::GeneratePassword(n) => Reply::Output(generate_password(n)),
                _ => Reply::Perform(cmd),
            }
        },
    }
}

} // verus!
