use crate::commands::{
    integer_at, integer_option, CommandSpec, OptionKind, OptionSpec, OptionValue,
    DEFAULT_STRENGTH,
};
use vstd::prelude::*;

verus! {

/// The least strength that the estimate is asked for.
pub const MIN_STRENGTH: u32 = 1;

/// The greatest strength that the estimate is asked for.
pub const MAX_STRENGTH: u32 = 50;

/// The number of words that an estimate is asked for: the number in the first option
/// where it lies within the announced range, the default where the option is absent or
/// no number, and nothing where the number lies outside the range.
pub open spec fn estimated_strength(options: Seq<OptionValue>) -> Option<u32> {
    match integer_at(options, 0) {
        Some(n) => if MIN_STRENGTH <= n <= MAX_STRENGTH {
            Some(n as u32)
        } else {
            None
        },
        None => Some(DEFAULT_STRENGTH),
    }
}

/// Reads the number of words that an estimate is asked for.
pub fn requested_strength(options: &[OptionValue]) -> (strength: Option<u32>)
    ensures
        strength == estimated_strength(options@),
{
    match integer_option(options, 0) {
        Some(n) => {
            if n >= 1 && n <= 50 {
                Some(n as u32)
            } else {
                None
            }
        },
        None => Some(DEFAULT_STRENGTH),
    }
}

/// What the command `cracktime` announces: its name, its description and its one
/// option, the strength with its range.
pub open spec fn announces(command: CommandSpec) -> bool {
    &&& command.name@ == "cracktime"@
    &&& command.description@
        == "Give an estimate for the average time needed to crack a generated password."@
    &&& command.options@.len() == 1
    &&& command.options@[0].kind == OptionKind::Integer
    &&& command.options@[0].name@ == "strength"@
    &&& command.options@[0].description@
        == "Strength of the password to crack. Valid values are between 1 and 50 (included). Default is 6."@
    &&& !command.options@[0].required
    &&& command.options@[0].int_range == Some((MIN_STRENGTH as u64, MAX_STRENGTH as u64))
}

/// Announces the command `cracktime` with its one option.
pub fn register() -> (command: CommandSpec)
    ensures
        announces(command),
{
    let mut options: Vec<OptionSpec> = Vec::new();
    options.push(
        OptionSpec {
            kind: OptionKind::Integer,
            name: "strength",
            description: "Strength of the password to crack. Valid values are between 1 and 50 (included). Default is 6.",
            required: false,
            int_range: Some((1u64, 50u64)),
        },
    );
    CommandSpec {
        name: "cracktime",
        description: "Give an estimate for the average time needed to crack a generated password.",
        options,
    }
}

} // verus!
