use crate::direction::Direction;
use crate::text::{
    fields, is_number, lemma_fields_len, number, parse_msg_arg, same_text, split_fields, trim,
    trimmed,
};
use vstd::prelude::*;
use vstd::string::*;

verus! {

/// The fields that the messages of the server hold.
#[derive(Clone, Copy, Debug, PartialEq, Eq, Structural)]
pub enum Field {
    Text,
    Width,
    Height,
    OwnId,
    PlayerId,
    Name,
    X,
    Y,
    Wins,
    Losses,
}

/// Why a line of the server could not be read.
#[derive(Clone, Copy, Debug, PartialEq, Eq, Structural)]
pub enum DecodeError {
    /// The line ends before the field.
    Missing(Field),
    /// The field should hold a number and does not, or the number is too
    /// large.
    Malformed(Field),
}

/// What the server tells the client.
#[derive(Debug, PartialEq, Eq)]
pub enum Event {
    Error,
    Motd(String),
    Game { width: usize, height: usize, own_id: usize },
    Tick,
    Player { id: usize, name: String },
    Pos { player: usize, x: usize, y: usize },
    Chat { player: usize, text: String },
    Die { player: usize },
    Lose { wins: u32, losses: u32 },
    Win,
    /// Any other line; it asks for nothing.
    Ignored,
}

/// What an `Event` says, with its texts as sequences of characters.
pub ghost enum Message {
    Error,
    Motd(Seq<char>),
    Game { width: usize, height: usize, own_id: usize },
    Tick,
    Player { id: usize, name: Seq<char> },
    Pos { player: usize, x: usize, y: usize },
    Chat { player: usize, text: Seq<char> },
    Die { player: usize },
    Lose { wins: u32, losses: u32 },
    Win,
    Ignored,
}

impl View for Event {
    type V = Message;

    open spec fn view(&self) -> Message {
        match *self {
            Event::Error => Message::Error,
            Event::Motd(text) => Message::Motd(text@),
            Event::Game { width, height, own_id } => Message::Game { width, height, own_id },
            Event::Tick => Message::Tick,
            Event::Player { id, name } => Message::Player { id, name: name@ },
            Event::Pos { player, x, y } => Message::Pos { player, x, y },
            Event::Chat { player, text } => Message::Chat { player, text: text@ },
            Event::Die { player } => Message::Die { player },
            Event::Lose { wins, losses } => Message::Lose { wins, losses },
            Event::Win => Message::Win,
            Event::Ignored => Message::Ignored,
        }
    }
}

/// What the client tells the server.
#[derive(Debug, PartialEq, Eq)]
pub enum Command {
    Join { username: String, password: String },
    Move(Direction),
    Chat(String),
}

/// The texts of a list of fields.
pub open spec fn texts(parts: Seq<&str>) -> Seq<Seq<char>> {
    Seq::new(parts.len(), |k: int| parts[k]@)
}

/// The text of the field `k`, without the white space around it.
pub open spec fn text_at(f: Seq<Seq<char>>, k: int, field: Field) -> Result<
    Seq<char>,
    DecodeError,
> {
    if 0 <= k < f.len() {
        Ok(trimmed(f[k]))
    } else {
        Err(DecodeError::Missing(field))
    }
}

/// The number that the field `k` holds, if it is one and is not above `max`.
pub open spec fn number_at(f: Seq<Seq<char>>, k: int, field: Field, max: usize) -> Result<
    usize,
    DecodeError,
> {
    if !(0 <= k < f.len()) {
        Err(DecodeError::Missing(field))
    } else if is_number(f[k]) && number(f[k]) <= max {
        Ok(number(f[k]) as usize)
    } else {
        Err(DecodeError::Malformed(field))
    }
}

/// The largest count of games won or lost that a message can hold.
pub open spec fn max_count() -> usize {
    if usize::MAX < 0xFFFF_FFFF {
        usize::MAX
    } else {
        0xFFFF_FFFFusize
    }
}

/// The message that the fields `f` hold. The first field names the kind of
/// message, and each kind has its own fields behind it. The fields are read
/// from left to right, and the first one that is missing or malformed is the
/// error. Fields behind those are not looked at.
pub open spec fn message_of(f: Seq<Seq<char>>) -> Result<Message, DecodeError> {
    let kind = trimmed(f[0]);
    if kind == "error"@ {
        Ok(Message::Error)
    } else if kind == "motd"@ {
        match text_at(f, 1, Field::Text) {
            Ok(text) => Ok(Message::Motd(text)),
            Err(e) => Err(e),
        }
    } else if kind == "game"@ {
        match number_at(f, 1, Field::Width, usize::MAX) {
            Err(e) => Err(e),
            Ok(width) => match number_at(f, 2, Field::Height, usize::MAX) {
                Err(e) => Err(e),
                Ok(height) => match number_at(f, 3, Field::OwnId, usize::MAX) {
                    Err(e) => Err(e),
                    Ok(own_id) => Ok(Message::Game { width, height, own_id }),
                },
            },
        }
    } else if kind == "tick"@ {
        Ok(Message::Tick)
    } else if kind == "player"@ {
        match number_at(f, 1, Field::PlayerId, usize::MAX) {
            Err(e) => Err(e),
            Ok(id) => match text_at(f, 2, Field::Name) {
                Err(e) => Err(e),
                Ok(name) => Ok(Message::Player { id, name }),
            },
        }
    } else if kind == "pos"@ {
        match number_at(f, 1, Field::PlayerId, usize::MAX) {
            Err(e) => Err(e),
            Ok(player) => match number_at(f, 2, Field::X, usize::MAX) {
                Err(e) => Err(e),
                Ok(x) => match number_at(f, 3, Field::Y, usize::MAX) {
                    Err(e) => Err(e),
                    Ok(y) => Ok(Message::Pos { player, x, y }),
                },
            },
        }
    } else if kind == "chat"@ {
        match number_at(f, 1, Field::PlayerId, usize::MAX) {
            Err(e) => Err(e),
            Ok(player) => match text_at(f, 2, Field::Text) {
                Err(e) => Err(e),
                Ok(text) => Ok(Message::Chat { player, text }),
            },
        }
    } else if kind == "die"@ {
        match number_at(f, 1, Field::PlayerId, usize::MAX) {
            Err(e) => Err(e),
            Ok(player) => Ok(Message::Die { player }),
        }
    } else if kind == "lose"@ {
        match number_at(f, 1, Field::Wins, max_count()) {
            Err(e) => Err(e),
            Ok(wins) => match number_at(f, 2, Field::Losses, max_count()) {
                Err(e) => Err(e),
                Ok(losses) => Ok(Message::Lose { wins: wins as u32, losses: losses as u32 }),
            },
        }
    } else if kind == "win"@ {
        Ok(Message::Win)
    } else {
        Ok(Message::Ignored)
    }
}

/// The message that a line holds.
pub open spec fn decoded(line: Seq<char>) -> Result<Message, DecodeError> {
    message_of(fields(line))
}

/// The line that tells the server `cmd`: the kind of command and its
/// arguments, with `|` between them and a line feed at the end.
pub open spec fn wire(cmd: Command) -> Seq<char> {
    match cmd {
        Command::Join { username, password } => "join|"@ + username@ + "|"@ + password@ + "\n"@,
        Command::Move(dir) => "move|"@ + dir.spec_command_name() + "\n"@,
        Command::Chat(text) => "chat|"@ + text@ + "\n"@,
    }
}

/// Reads the field `k` as a text.
fn text_field(parts: &Vec<&str>, k: usize, field: Field) -> (r: Result<String, DecodeError>)
    ensures
        match r {
            Ok(text) => text_at(texts(parts@), k as int, field) == Ok::<Seq<char>, DecodeError>(
                text@,
            ),
            Err(e) => text_at(texts(parts@), k as int, field) == Err::<Seq<char>, DecodeError>(e),
        },
{
    if k < parts.len() {
        Ok(trim(parts[k]).to_owned())
    } else {
        Err(DecodeError::Missing(field))
    }
}

/// Reads the field `k` as a number that is not above `max`.
fn number_field(parts: &Vec<&str>, k: usize, field: Field, max: usize) -> (r: Result<
    usize,
    DecodeError,
>)
    ensures
        r == number_at(texts(parts@), k as int, field, max),
{
    if k >= parts.len() {
        return Err(DecodeError::Missing(field));
    }
    match parse_msg_arg(parts[k]) {
        Some(value) => {
            if value <= max {
                Ok(value)
            } else {
                Err(DecodeError::Malformed(field))
            }
        },
        None => Err(DecodeError::Malformed(field)),
    }
}

/// The largest count of games won or lost that a message can hold.
fn count_limit() -> (max: usize)
    ensures
        max == max_count(),
{
    if usize::MAX < 0xFFFF_FFFF {
        usize::MAX
    } else {
        0xFFFF_FFFF
    }
}

/// Reads a line of the server. A line of a kind that the client does not
/// know is `Ignored`; a line of a known kind with a field missing, or with
/// something else where a number should stand, is an error.
pub fn decode(line: &str) -> (r: Result<Event, DecodeError>)
    ensures
        match r {
            Ok(event) => decoded(line@) == Ok::<Message, DecodeError>(event@),
            Err(e) => decoded(line@) == Err::<Message, DecodeError>(e),
        },
{
    let parts = split_fields(line);
    proof {
        lemma_fields_len(line@);
        assert(texts(parts@) =~= fields(line@));
    }
    let kind = trim(parts[0]);
    if same_text(kind, "error") {
        Ok(Event::Error)
    } else if same_text(kind, "motd") {
        match text_field(&parts, 1, Field::Text) {
            Ok(text) => Ok(Event::Motd(text)),
            Err(e) => Err(e),
        }
    } else if same_text(kind, "game") {
        match number_field(&parts, 1, Field::Width, usize::MAX) {
            Err(e) => Err(e),
            Ok(width) => match number_field(&parts, 2, Field::Height, usize::MAX) {
                Err(e) => Err(e),
                Ok(height) => match number_field(&parts, 3, Field::OwnId, usize::MAX) {
                    Err(e) => Err(e),
                    Ok(own_id) => Ok(Event::Game { width, height, own_id }),
                },
            },
        }
    } else if same_text(kind, "tick") {
        Ok(Event::Tick)
    } else if same_text(kind, "player") {
        match number_field(&parts, 1, Field::PlayerId, usize::MAX) {
            Err(e) => Err(e),
            Ok(id) => match text_field(&parts, 2, Field::Name) {
                Err(e) => Err(e),
                Ok(name) => Ok(Event::Player { id, name }),
            },
        }
    } else if same_text(kind, "pos") {
        match number_field(&parts, 1, Field::PlayerId, usize::MAX) {
            Err(e) => Err(e),
            Ok(player) => match number_field(&parts, 2, Field::X, usize::MAX) {
                Err(e) => Err(e),
                Ok(x) => match number_field(&parts, 3, Field::Y, usize::MAX) {
                    Err(e) => Err(e),
                    Ok(y) => Ok(Event::Pos { player, x, y }),
                },
            },
        }
    } else if same_text(kind, "chat") {
        match number_field(&parts, 1, Field::PlayerId, usize::MAX) {
            Err(e) => Err(e),
            Ok(player) => match text_field(&parts, 2, Field::Text) {
                Err(e) => Err(e),
                Ok(text) => Ok(Event::Chat { player, text }),
            },
        }
    } else if same_text(kind, "die") {
        match number_field(&parts, 1, Field::PlayerId, usize::MAX) {
            Err(e) => Err(e),
            Ok(player) => Ok(Event::Die { player }),
        }
    } else if same_text(kind, "lose") {
        match number_field(&parts, 1, Field::Wins, count_limit()) {
            Err(e) => Err(e),
            Ok(wins) => match number_field(&parts, 2, Field::Losses, count_limit()) {
                Err(e) => Err(e),
                Ok(losses) => Ok(Event::Lose { wins: wins as u32, losses: losses as u32 }),
            },
        }
    } else if same_text(kind, "win") {
        Ok(Event::Win)
    } else {
        Ok(Event::Ignored)
    }
}

/// Writes the line that tells the server `cmd`.
pub fn encode(cmd: &Command) -> (line: String)
    ensures
        line@ == wire(*cmd),
{
    match cmd {
        Command::Join { username, password } => {
            let mut line = "join|".to_owned();
            line.append(username.as_str());
            line.append("|");
            line.append(password.as_str());
            line.append("\n");
            line
        },
        Command::Move(dir) => {
            let mut line = "move|".to_owned();
            line.append(dir.command_name());
            line.append("\n");
            line
        },
        Command::Chat(text) => {
            let mut line = "chat|".to_owned();
            line.append(text.as_str());
            line.append("\n");
            line
        },
    }
}

} // verus!
