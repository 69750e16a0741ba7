use geoguessr_tracker::commands::{cmd_validator, score_validator, CmdType};

#[test]
fn command_letters_map_to_commands() {
    assert_eq!(CmdType::from_str("q"), Ok(CmdType::Quit));
    assert_eq!(CmdType::from_str("s "), Ok(CmdType::PrintStats));
    assert_eq!(CmdType::from_str("d"), Ok(CmdType::AddEntryDirect));
    assert_eq!(CmdType::from_str("c"), Ok(CmdType::AddEntryCalculated));
    assert_eq!(CmdType::from_str("f"), Ok(CmdType::FixPrev));
    assert_eq!(CmdType::from_str("x"), Err("unkown command character".to_string()));
}

#[test]
fn command_must_be_one_letter() {
    assert_eq!(cmd_validator("q"), Ok(()));
    assert_eq!(cmd_validator("Z \n"), Ok(()));
    let msg = Err("commands should be given as a single letter".to_string());
    assert_eq!(cmd_validator("qq"), msg);
    assert_eq!(cmd_validator("1"), msg);
    assert_eq!(cmd_validator(""), msg);
    assert_eq!(cmd_validator(" q"), msg);
    assert_eq!(cmd_validator("é"), msg);
}

#[test]
fn score_must_be_short_digits_and_commas() {
    assert_eq!(score_validator("5000"), Ok(()));
    assert_eq!(score_validator("5,00 "), Ok(()));
    assert_eq!(score_validator("12345"), Err("input is too long".to_string()));
    assert_eq!(score_validator(""), Err("input is too long".to_string()));
    assert_eq!(score_validator("ééé"), Err("input is too long".to_string()));
    assert_eq!(
        score_validator("12a"),
        Err("score can only contain ASCII digits and commas".to_string())
    );
    assert_eq!(score_validator(",,"), Ok(()));
}
