use crate::commands::CommandSpec;
use vstd::prelude::*;

verus! {

/// The reply that points to the source code.
pub const SOURCE_NOTICE: &'static str =
    "My source code can be found here: https://github.com/0xb01u/mother-brain";

/// Replies with where the source code is found.
pub fn run() -> (reply: String)
    ensures
        reply@ == SOURCE_NOTICE@,
{
    SOURCE_NOTICE.to_owned()
}

/// Announces the command `code`, which takes no option.
pub fn register() -> (command: CommandSpec)
    ensures
        command.name@ == "code"@,
        command.description@ == "Get a link to this bot's source code."@,
        command.options@.len() == 0,
{
    CommandSpec {
        name: "code",
        description: "Get a link to this bot's source code.",
        options: Vec::new(),
    }
}

} // verus!
