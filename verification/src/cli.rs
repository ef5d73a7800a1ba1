//! What the command line asks for.

use vstd::prelude::*;
use vstd::string::*;

use crate::text::same_text;
use crate::text::texts;

verus! {

/// What the program is to do.
#[derive(Debug)]
pub enum Command {
    /// Create an API key with this label and print it once.
    AddKey(String),
    /// Serve.
    Serve,
}

/// The mathematical value of a [`Command`].
pub enum CommandView {
    AddKey(Seq<char>),
    Serve,
}

impl Command {
    /// The mathematical value.
    pub open spec fn view(&self) -> CommandView {
        match self {
            Command::AddKey(label) => CommandView::AddKey(label@),
            Command::Serve => CommandView::Serve,
        }
    }
}

/// What the arguments ask for, the program's name first: `keys add [label]` asks
/// for a key, anything else to serve.
pub open spec fn asked(args: Seq<Seq<char>>) -> CommandView {
    if args.len() >= 3 && args[1] == "keys"@ && args[2] == "add"@ {
        CommandView::AddKey(
            if args.len() >= 4 {
                args[3]
            } else {
                "unnamed"@
            },
        )
    } else {
        CommandView::Serve
    }
}

/// What the arguments ask for.
pub fn command(args: &Vec<String>) -> (r: Command)
    ensures
        r@ == asked(texts(args@)),
{
    if args.len() >= 3 && same_text(args[1].as_str(), "keys") && same_text(
        args[2].as_str(),
        "add",
    ) {
        if args.len() >= 4 {
            Command::AddKey(args[3].clone())
        } else {
            Command::AddKey("unnamed".to_string())
        }
    } else {
        Command::Serve
    }
}

/// `keys add` asks for a key, with the label behind it or else `unnamed`, whatever the
/// program is called and whatever follows the label; everything else asks to serve.
pub proof fn law_keys_add_asks_for_a_key(
    program: Seq<char>,
    label: Seq<char>,
    rest: Seq<Seq<char>>,
    args: Seq<Seq<char>>,
)
    ensures
        asked(seq![program, "keys"@, "add"@, label] + rest) == CommandView::AddKey(label),
        asked(seq![program, "keys"@, "add"@]) == CommandView::AddKey("unnamed"@),
        args.len() < 3 ==> asked(args) == CommandView::Serve,
        args.len() >= 3 && (args[1] != "keys"@ || args[2] != "add"@) ==> asked(args)
            == CommandView::Serve,
{
    let a = seq![program, "keys"@, "add"@, label] + rest;
    assert(a[1] == "keys"@ && a[2] == "add"@ && a[3] == label);
}

/// A command is what it holds.
pub proof fn law_commands_are_what_they_hold(label: String)
    ensures
        Command::AddKey(label)@ == CommandView::AddKey(label@),
        Command::Serve@ == CommandView::Serve,
{
}

} // verus!
