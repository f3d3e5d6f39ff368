use grid_client::direction::Direction;
use grid_client::protocol::{decode, encode, Command, DecodeError, Event, Field};

#[test]
fn decode_messages_without_fields() {
    assert_eq!(decode("tick"), Ok(Event::Tick));
    assert_eq!(decode("tick\n"), Ok(Event::Tick));
    assert_eq!(decode(" win \n"), Ok(Event::Win));
    assert_eq!(decode("error"), Ok(Event::Error));
    assert_eq!(decode("error|something went wrong\n"), Ok(Event::Error));
}

#[test]
fn decode_game() {
    assert_eq!(decode("game|4|4|0"), Ok(Event::Game { width: 4, height: 4, own_id: 0 }));
    assert_eq!(decode("game| 30 |20|7\n"), Ok(Event::Game { width: 30, height: 20, own_id: 7 }));
    assert_eq!(decode("game|4|4|0|more"), Ok(Event::Game { width: 4, height: 4, own_id: 0 }));
}

#[test]
fn decode_motd_player_chat() {
    assert_eq!(decode("motd| Welcome! \n"), Ok(Event::Motd(String::from("Welcome!"))));
    assert_eq!(
        decode("player|3|Ann\n"),
        Ok(Event::Player { id: 3, name: String::from("Ann") })
    );
    assert_eq!(
        decode("player|3| Ann Lee \n"),
        Ok(Event::Player { id: 3, name: String::from("Ann Lee") })
    );
    assert_eq!(
        decode("chat|2|hello there\n"),
        Ok(Event::Chat { player: 2, text: String::from("hello there") })
    );
    // a bar cannot stand inside a field: the text ends at it
    assert_eq!(
        decode("chat|2|left|right\n"),
        Ok(Event::Chat { player: 2, text: String::from("left") })
    );
    assert_eq!(decode("motd|\n"), Ok(Event::Motd(String::new())));
}

#[test]
fn decode_pos_die_lose() {
    assert_eq!(decode("pos|1|2|3\n"), Ok(Event::Pos { player: 1, x: 2, y: 3 }));
    assert_eq!(decode("die|2\n"), Ok(Event::Die { player: 2 }));
    assert_eq!(decode("lose|5|12\n"), Ok(Event::Lose { wins: 5, losses: 12 }));
    assert_eq!(
        decode("lose|4294967295|0\n"),
        Ok(Event::Lose { wins: 4294967295, losses: 0 })
    );
}

#[test]
fn decode_ignores_unknown_kinds() {
    assert_eq!(decode(""), Ok(Event::Ignored));
    assert_eq!(decode("\n"), Ok(Event::Ignored));
    assert_eq!(decode("hello|1|2"), Ok(Event::Ignored));
    assert_eq!(decode("TICK"), Ok(Event::Ignored));
    assert_eq!(decode("ti ck"), Ok(Event::Ignored));
    assert_eq!(decode("|tick"), Ok(Event::Ignored));
    assert_eq!(decode("join|a|b"), Ok(Event::Ignored));
}

#[test]
fn decode_reports_missing_fields() {
    assert_eq!(decode("motd"), Err(DecodeError::Missing(Field::Text)));
    assert_eq!(decode("game"), Err(DecodeError::Missing(Field::Width)));
    assert_eq!(decode("game|4"), Err(DecodeError::Missing(Field::Height)));
    assert_eq!(decode("game|4|4"), Err(DecodeError::Missing(Field::OwnId)));
    assert_eq!(decode("player"), Err(DecodeError::Missing(Field::PlayerId)));
    assert_eq!(decode("player|1"), Err(DecodeError::Missing(Field::Name)));
    assert_eq!(decode("pos"), Err(DecodeError::Missing(Field::PlayerId)));
    assert_eq!(decode("pos|1"), Err(DecodeError::Missing(Field::X)));
    assert_eq!(decode("pos|1|2"), Err(DecodeError::Missing(Field::Y)));
    assert_eq!(decode("chat"), Err(DecodeError::Missing(Field::PlayerId)));
    assert_eq!(decode("chat|1"), Err(DecodeError::Missing(Field::Text)));
    assert_eq!(decode("die"), Err(DecodeError::Missing(Field::PlayerId)));
    assert_eq!(decode("lose"), Err(DecodeError::Missing(Field::Wins)));
    assert_eq!(decode("lose|1"), Err(DecodeError::Missing(Field::Losses)));
}

#[test]
fn decode_reports_malformed_numbers() {
    assert_eq!(decode("game|x|4|0"), Err(DecodeError::Malformed(Field::Width)));
    assert_eq!(decode("game|4|-4|0"), Err(DecodeError::Malformed(Field::Height)));
    assert_eq!(decode("game|4|4|"), Err(DecodeError::Malformed(Field::OwnId)));
    assert_eq!(decode("player|one|Ann"), Err(DecodeError::Malformed(Field::PlayerId)));
    assert_eq!(decode("pos|1|2.0|3"), Err(DecodeError::Malformed(Field::X)));
    assert_eq!(decode("pos|1|2|3 4"), Err(DecodeError::Malformed(Field::Y)));
    assert_eq!(decode("chat|?|hi"), Err(DecodeError::Malformed(Field::PlayerId)));
    assert_eq!(decode("die|"), Err(DecodeError::Malformed(Field::PlayerId)));
    assert_eq!(decode("lose|4294967296|0"), Err(DecodeError::Malformed(Field::Wins)));
    assert_eq!(decode("lose|1|many"), Err(DecodeError::Malformed(Field::Losses)));
    assert_eq!(
        decode("game|99999999999999999999999|4|0"),
        Err(DecodeError::Malformed(Field::Width))
    );
}

#[test]
fn decode_reports_the_first_fault() {
    assert_eq!(decode("game|x|y"), Err(DecodeError::Malformed(Field::Width)));
    assert_eq!(decode("pos|1|x"), Err(DecodeError::Malformed(Field::X)));
    assert_eq!(decode("player|x"), Err(DecodeError::Malformed(Field::PlayerId)));
}

#[test]
fn encode_commands() {
    assert_eq!(
        encode(&Command::Join { username: String::from("Bot"), password: String::from("pw") }),
        "join|Bot|pw\n"
    );
    assert_eq!(encode(&Command::Move(Direction::WPos)), "move|right\n");
    assert_eq!(encode(&Command::Move(Direction::WNeg)), "move|left\n");
    assert_eq!(encode(&Command::Move(Direction::HPos)), "move|up\n");
    assert_eq!(encode(&Command::Move(Direction::HNeg)), "move|down\n");
    assert_eq!(encode(&Command::Chat(String::from("hi all"))), "chat|hi all\n");
    assert_eq!(encode(&Command::Chat(String::new())), "chat|\n");
}
