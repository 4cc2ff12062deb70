use crate::commands::{cracktime, pswd, CommandSpec};
use vstd::prelude::*;
use vstd::string::*;

verus! {

/// The one user whom the bot serves.
pub const OWNER_ID: u64 = 231844961878802442;

/// What the bot does with a command it receives.
#[derive(Clone, Copy, Debug, PartialEq, Eq, Structural)]
pub enum Decision {
    /// Tell the sender that the bot does not serve them.
    Refuse,
    /// Generate a password artifact and reply with it.
    Pswd,
    /// Estimate the time to crack a password and reply with it.
    Cracktime,
    /// Make no reply.
    Ignore,
}

/// The decision on a command by its sender and its name: anyone but the owner is
/// refused whatever they ask, and the owner is served the commands that are known.
pub open spec fn decision_of(user_id: u64, command_name: Seq<char>) -> Decision {
    if user_id != OWNER_ID {
        Decision::Refuse
    } else if command_name == "pswd"@ {
        Decision::Pswd
    } else if command_name == "cracktime"@ {
        Decision::Cracktime
    } else {
        Decision::Ignore
    }
}

/// The words with which a sender called `user_name` is refused.
pub open spec fn refusal_of(user_name: Seq<char>) -> Seq<char> {
    "I am sorry "@ + user_name + ", I'm afraid I can't do that."@
}

/// Decides what to do with a command.
pub fn decide(user_id: u64, command_name: &str) -> (decision: Decision)
    ensures
        decision == decision_of(user_id, command_name@),
{
    if user_id != OWNER_ID {
        return Decision::Refuse;
    }
    let name = command_name.to_owned();
    if name == "pswd".to_owned() {
        Decision::Pswd
    } else if name == "cracktime".to_owned() {
        Decision::Cracktime
    } else {
        Decision::Ignore
    }
}

/// Writes the refusal for a sender.
pub fn refusal(user_name: &str) -> (reply: String)
    ensures
        reply@ == refusal_of(user_name@),
{
    let mut reply = "I am sorry ".to_owned();
    reply.append(user_name);
    reply.append(", I'm afraid I can't do that.");
    reply
}

/// The commands that the bot announces once it is connected, in this order.
pub fn announced_commands() -> (commands: Vec<CommandSpec>)
    ensures
        commands@.len() == 2,
        pswd::announces(commands@[0]),
        cracktime::announces(commands@[1]),
{
    let mut commands: Vec<CommandSpec> = Vec::new();
    commands.push(pswd::register());
    commands.push(cracktime::register());
    commands
}

} // verus!
