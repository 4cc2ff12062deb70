use mother_brain::bot::{announced_commands, decide, refusal, Decision, OWNER_ID};
use mother_brain::commands::{
    code, cracktime, integer_option, license, pswd, text_option, OptionKind, OptionValue,
};
use mother_brain::error::PswdError;
use mother_brain::key::normalize_secret;
use mother_brain::pipeline::generate;
use openssl::symm::{encrypt, Cipher};

fn four_words() -> Vec<String> {
    vec!["alpha".to_string(), "bravo".to_string(), "charlie".to_string(), "delta".to_string()]
}

fn key_material() -> Vec<u8> {
    let key: Vec<u8> = (0u8..32).collect();
    encrypt(Cipher::aes_256_cbc(), &normalize_secret("s3cret"), Some(&[0u8; 16]), &key).unwrap()
}

fn text(value: &str) -> OptionValue {
    OptionValue::Text(value.to_string())
}

#[test]
fn options_are_read_by_position_and_kind() {
    let options = vec![text("bank"), OptionValue::Integer(-4), OptionValue::Other];
    assert_eq!(text_option(&options, 0), Some("bank"));
    assert_eq!(text_option(&options, 1), None);
    assert_eq!(text_option(&options, 2), None);
    assert_eq!(text_option(&options, 3), None);
    assert_eq!(integer_option(&options, 0), None);
    assert_eq!(integer_option(&options, 1), Some(-4));
    assert_eq!(integer_option(&options, 2), None);
    assert_eq!(integer_option(&options, 3), None);
}

#[test]
fn request_without_strength_takes_the_default() {
    let options = vec![text("bank"), text("s3cret")];
    let request = pswd::parse_request(&options).unwrap();
    assert_eq!(request.hint, "bank");
    assert_eq!(request.secret_phrase, "s3cret");
    assert_eq!(request.strength, 6);
}

#[test]
fn request_with_a_strength_that_is_no_number_takes_the_default() {
    let options = vec![text("bank"), text("s3cret"), text("9")];
    assert_eq!(pswd::parse_request(&options).unwrap().strength, 6);
}

#[test]
fn request_keeps_a_strength_within_the_range() {
    for strength in 1i64..=10 {
        let options = vec![text("bank"), text("s3cret"), OptionValue::Integer(strength)];
        assert_eq!(pswd::parse_request(&options).unwrap().strength, strength as u32);
    }
}

#[test]
fn request_with_a_strength_out_of_range_is_refused() {
    for strength in [0i64, 11, -1, 50, i64::MAX, i64::MIN, 4294967299] {
        let options = vec![text("bank"), text("s3cret"), OptionValue::Integer(strength)];
        assert_eq!(pswd::parse_request(&options).err(), Some(PswdError::StrengthOutOfRange));
    }
}

#[test]
fn request_without_a_hint_is_refused() {
    assert_eq!(pswd::parse_request(&[]).err(), Some(PswdError::MissingHint));
    let options = vec![OptionValue::Integer(1), text("s3cret")];
    assert_eq!(pswd::parse_request(&options).err(), Some(PswdError::MissingHint));
    let options = vec![OptionValue::Other, OptionValue::Other, OptionValue::Integer(99)];
    assert_eq!(pswd::parse_request(&options).err(), Some(PswdError::MissingHint));
}

#[test]
fn request_without_a_secret_is_refused() {
    let options = vec![text("bank")];
    assert_eq!(pswd::parse_request(&options).err(), Some(PswdError::MissingSecret));
    let options = vec![text("bank"), OptionValue::Integer(3), OptionValue::Integer(99)];
    assert_eq!(pswd::parse_request(&options).err(), Some(PswdError::MissingSecret));
}

#[test]
fn pswd_command_replies_with_the_artifact_of_its_request() {
    let options = vec![text("bank"), text("s3cret"), OptionValue::Integer(3)];
    let reply = pswd::run(&options, &key_material(), &four_words()).unwrap();
    assert_eq!(reply, generate("bank", "s3cret", 3, &key_material(), &four_words()).unwrap());
    assert_eq!(reply.len(), 1040);
}

#[test]
fn pswd_command_defaults_to_six_words() {
    let options = vec![text("bank"), text("s3cret")];
    let reply = pswd::run(&options, &key_material(), &four_words()).unwrap();
    assert_eq!(reply, generate("bank", "s3cret", 6, &key_material(), &four_words()).unwrap());
}

#[test]
fn pswd_command_passes_errors_on() {
    let options = vec![text("bank")];
    assert_eq!(
        pswd::run(&options, &key_material(), &four_words()),
        Err(PswdError::MissingSecret)
    );
    let options = vec![text("bank"), text("s3cret"), OptionValue::Integer(11)];
    assert_eq!(
        pswd::run(&options, &key_material(), &four_words()),
        Err(PswdError::StrengthOutOfRange)
    );
    let options = vec![text("bank"), text("s3cret")];
    assert_eq!(pswd::run(&options, &key_material(), &Vec::new()), Err(PswdError::EmptyWordList));
}

#[test]
fn pswd_command_announces_three_options() {
    let command = pswd::register();
    assert_eq!(command.name, "pswd");
    assert_eq!(command.description, "Generate/retrieve password.");
    assert_eq!(command.options.len(), 3);
    assert_eq!(command.options[0].name, "tip");
    assert_eq!(command.options[0].kind, OptionKind::Text);
    assert!(command.options[0].required);
    assert_eq!(command.options[0].int_range, None);
    assert_eq!(
        command.options[0].description,
        "A tip about the password you want to generate/retrieve."
    );
    assert_eq!(command.options[1].name, "secret_words");
    assert_eq!(command.options[1].kind, OptionKind::Text);
    assert!(command.options[1].required);
    assert_eq!(command.options[1].description, "The secret words to make me do work.");
    assert_eq!(command.options[2].name, "strength");
    assert_eq!(command.options[2].kind, OptionKind::Integer);
    assert!(!command.options[2].required);
    assert_eq!(command.options[2].int_range, Some((1, 10)));
    assert_eq!(
        command.options[2].description,
        "Strength of the generated password. Valid values are between 1 and 10 (included). Default is 6."
    );
}

#[test]
fn cracktime_command_announces_its_strength() {
    let command = cracktime::register();
    assert_eq!(command.name, "cracktime");
    assert_eq!(
        command.description,
        "Give an estimate for the average time needed to crack a generated password."
    );
    assert_eq!(command.options.len(), 1);
    assert_eq!(command.options[0].name, "strength");
    assert_eq!(command.options[0].kind, OptionKind::Integer);
    assert!(!command.options[0].required);
    assert_eq!(command.options[0].int_range, Some((1, 50)));
    assert_eq!(
        command.options[0].description,
        "Strength of the password to crack. Valid values are between 1 and 50 (included). Default is 6."
    );
}

#[test]
fn cracktime_strength_is_read_from_the_first_option() {
    assert_eq!(cracktime::requested_strength(&[]), Some(6));
    assert_eq!(cracktime::requested_strength(&[text("x")]), Some(6));
    assert_eq!(cracktime::requested_strength(&[OptionValue::Integer(1)]), Some(1));
    assert_eq!(cracktime::requested_strength(&[OptionValue::Integer(50)]), Some(50));
    assert_eq!(cracktime::requested_strength(&[OptionValue::Integer(0)]), None);
    assert_eq!(cracktime::requested_strength(&[OptionValue::Integer(51)]), None);
    assert_eq!(cracktime::requested_strength(&[OptionValue::Integer(-7)]), None);
}

#[test]
fn code_command_replies_with_the_link() {
    assert_eq!(
        code::run(),
        "My source code can be found here: https://github.com/0xb01u/mother-brain"
    );
    let command = code::register();
    assert_eq!(command.name, "code");
    assert_eq!(command.description, "Get a link to this bot's source code.");
    assert!(command.options.is_empty());
}

#[test]
fn license_command_replies_with_the_notice() {
    let reply = license::run();
    assert!(reply.starts_with(
        "Mother Brain: Discord bot for kinda securely generating kinda secure passwords. Copyright (C) 2023-2024  Bolu <bolu@tuta.io>\n \nThis program is free software: you can redistribute it and/or modify it under the terms of the GNU Affero General Public License as published by the Free Software Foundation, either version 3 of the License, or (at your option) any later version.\n\nThis program is distributed"
    ));
    assert!(reply.ends_with(
        "GNU Affero General Public License for more details.\n\nYou should have received a copy of the GNU Affero General Public License along with this program. If not, see <https://www.gnu.org/licenses/>.\n"
    ));
    assert_eq!(reply.len(), 759);
    let command = license::register();
    assert_eq!(command.name, "license");
    assert_eq!(command.description, "Show the software license for this bot.");
    assert!(command.options.is_empty());
}

#[test]
fn only_the_owner_is_served() {
    assert_eq!(decide(OWNER_ID, "pswd"), Decision::Pswd);
    assert_eq!(decide(OWNER_ID, "cracktime"), Decision::Cracktime);
    assert_eq!(decide(OWNER_ID, "code"), Decision::Ignore);
    assert_eq!(decide(OWNER_ID, "license"), Decision::Ignore);
    assert_eq!(decide(OWNER_ID, ""), Decision::Ignore);
    assert_eq!(decide(OWNER_ID, "PSWD"), Decision::Ignore);
    assert_eq!(decide(OWNER_ID + 1, "pswd"), Decision::Refuse);
    assert_eq!(decide(0, "cracktime"), Decision::Refuse);
    assert_eq!(decide(u64::MAX, "anything"), Decision::Refuse);
    assert_eq!(OWNER_ID, 231844961878802442);
}

#[test]
fn refusal_names_the_sender() {
    assert_eq!(refusal("Dave"), "I am sorry Dave, I'm afraid I can't do that.");
    assert_eq!(refusal(""), "I am sorry , I'm afraid I can't do that.");
}

#[test]
fn two_commands_are_announced() {
    let commands = announced_commands();
    let names: Vec<&str> = commands.iter().map(|c| c.name).collect();
    assert_eq!(names, vec!["pswd", "cracktime"]);
}
