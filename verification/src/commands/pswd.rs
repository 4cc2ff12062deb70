use crate::artifact::well_shaped;
use crate::cipher::MAX_CIPHER_INPUT;
use crate::commands::{
    integer_at, integer_option, text_at, text_option, CommandSpec, OptionKind, OptionSpec,
    OptionValue, DEFAULT_STRENGTH,
};
use crate::error::PswdError;
use crate::pipeline::{draws_stay_in_list, generate, generated};
use vstd::prelude::*;
use vstd::string::*;
use vstd::utf8::*;

verus! {

/// The least strength that a password is generated at.
pub const MIN_STRENGTH: u32 = 1;

/// The greatest strength that a password is generated at.
pub const MAX_STRENGTH: u32 = 10;

/// What a caller asks for: which password, under which secret, of how many words.
pub struct Request<'a> {
    pub hint: &'a str,
    pub secret_phrase: &'a str,
    pub strength: u32,
}

/// The strength that the options ask for: the number in the third option, the default
/// where that option is absent or no number; a number outside the range is refused.
pub open spec fn strength_of(options: Seq<OptionValue>) -> Result<u32, PswdError> {
    match integer_at(options, 2) {
        Some(n) => if MIN_STRENGTH <= n <= MAX_STRENGTH {
            Ok(n as u32)
        } else {
            Err(PswdError::StrengthOutOfRange)
        },
        None => Ok(DEFAULT_STRENGTH),
    }
}

/// The request that the options carry, as hint, secret phrase and strength: the hint is
/// the text of the first option, the secret phrase that of the second. A missing hint
/// is reported before a missing secret, and that before a strength out of range.
pub open spec fn request_of(options: Seq<OptionValue>) -> Result<
    (Seq<char>, Seq<char>, u32),
    PswdError,
> {
    match text_at(options, 0) {
        None => Err(PswdError::MissingHint),
        Some(hint) => match text_at(options, 1) {
            None => Err(PswdError::MissingSecret),
            Some(secret_phrase) => match strength_of(options) {
                Err(e) => Err(e),
                Ok(strength) => Ok((hint, secret_phrase, strength)),
            },
        },
    }
}

/// The reply to the options of a `pswd` command: the artifact of the request in them.
pub open spec fn reply_of(
    options: Seq<OptionValue>,
    key_material: Seq<u8>,
    word_list: Seq<String>,
) -> Result<Seq<char>, PswdError> {
    match request_of(options) {
        Err(e) => Err(e),
        Ok((hint, secret_phrase, strength)) => generated(
            encode_utf8(hint),
            encode_utf8(secret_phrase),
            strength,
            key_material,
            word_list,
        ),
    }
}

/// Reads the request out of the options of a `pswd` command.
pub fn parse_request<'a>(options: &'a [OptionValue]) -> (request: Result<Request<'a>, PswdError>)
    ensures
        match request {
            Ok(r) => request_of(options@) == Ok::<(Seq<char>, Seq<char>, u32), PswdError>(
                (r.hint@, r.secret_phrase@, r.strength),
            ),
            Err(e) => request_of(options@) == Err::<(Seq<char>, Seq<char>, u32), PswdError>(e),
        },
{
    let hint = match text_option(options, 0) {
        Some(text) => text,
        None => { return Err(PswdError::MissingHint); },
    };
    let secret_phrase = match text_option(options, 1) {
        Some(text) => text,
        None => { return Err(PswdError::MissingSecret); },
    };
    let strength = match integer_option(options, 2) {
        Some(n) => {
            if n >= 1 && n <= 10 {
                n as u32
            } else {
                return Err(PswdError::StrengthOutOfRange);
            }
        },
        None => DEFAULT_STRENGTH,
    };
    Ok(Request { hint, secret_phrase, strength })
}

/// Answers a `pswd` command: reads the request out of its options and generates the
/// artifact from the key material and the word list handed in.
pub fn run(options: &[OptionValue], key_material: &[u8], word_list: &Vec<String>) -> (reply:
    Result<String, PswdError>)
    requires
        key_material@.len() <= MAX_CIPHER_INPUT,
    ensures
        match reply {
            Ok(text) => reply_of(options@, key_material@, word_list@) == Ok::<
                Seq<char>,
                PswdError,
            >(text@) && well_shaped(text@),
            Err(e) => reply_of(options@, key_material@, word_list@) == Err::<
                Seq<char>,
                PswdError,
            >(e),
        },
        match request_of(options@) {
            Ok((hint, secret_phrase, strength)) => draws_stay_in_list(
                encode_utf8(hint),
                encode_utf8(secret_phrase),
                strength,
                key_material@,
                word_list@,
            ),
            Err(_) => true,
        },
{
    let request = match parse_request(options) {
        Ok(request) => request,
        Err(e) => { return Err(e); },
    };
    generate(request.hint, request.secret_phrase, request.strength, key_material, word_list)
}

/// What the command `pswd` announces: its name, its description and its three options,
/// the tip, the secret words and the strength with its range.
pub open spec fn announces(command: CommandSpec) -> bool {
    &&& command.name@ == "pswd"@
    &&& command.description@ == "Generate/retrieve password."@
    &&& command.options@.len() == 3
    &&& command.options@[0].kind == OptionKind::Text
    &&& command.options@[0].name@ == "tip"@
    &&& command.options@[0].description@
        == "A tip about the password you want to generate/retrieve."@
    &&& command.options@[0].required
    &&& command.options@[0].int_range.is_none()
    &&& command.options@[1].kind == OptionKind::Text
    &&& command.options@[1].name@ == "secret_words"@
    &&& command.options@[1].description@ == "The secret words to make me do work."@
    &&& command.options@[1].required
    &&& command.options@[1].int_range.is_none()
    &&& command.options@[2].kind == OptionKind::Integer
    &&& command.options@[2].name@ == "strength"@
    &&& command.options@[2].description@
        == "Strength of the generated password. Valid values are between 1 and 10 (included). Default is 6."@
    &&& !command.options@[2].required
    &&& command.options@[2].int_range == Some((MIN_STRENGTH as u64, MAX_STRENGTH as u64))
}

/// Announces the command `pswd` with its three options.
pub fn register() -> (command: CommandSpec)
    ensures
        announces(command),
{
    let mut options: Vec<OptionSpec> = Vec::new();
    options.push(
        OptionSpec {
            kind: OptionKind::Text,
            name: "tip",
            description: "A tip about the password you want to generate/retrieve.",
            required: true,
            int_range: None,
        },
    );
    options.push(
        OptionSpec {
            kind: OptionKind::Text,
            name: "secret_words",
            description: "The secret words to make me do work.",
            required: true,
            int_range: None,
        },
    );
    options.push(
        OptionSpec {
            kind: OptionKind::Integer,
            name: "strength",
            description: "Strength of the generated password. Valid values are between 1 and 10 (included). Default is 6.",
            required: false,
            int_range: Some((1u64, 10u64)),
        },
    );
    CommandSpec { name: "pswd", description: "Generate/retrieve password.", options }
}

} // verus!
