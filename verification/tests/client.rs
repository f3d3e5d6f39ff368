use grid_client::client::{Client, Phase, Reply};
use grid_client::direction::Direction;
use grid_client::protocol::{decode, encode, Command, Event};

fn feed(client: &mut Client, line: &str) -> Reply {
    let event = decode(line).unwrap();
    assert!(client.admits(&event));
    client.step(event)
}

#[test]
fn new_client_waits_for_a_game() {
    let c = Client::new("Bot");
    assert_eq!(c.phase, Phase::AwaitingGame);
    assert_eq!(c.game.name(), "Bot");
    assert_eq!(c.game.width(), 0);
}

#[test]
fn join_names_user_and_password() {
    let c = Client::new("Bot");
    let cmd = c.join("secret");
    assert_eq!(
        cmd,
        Command::Join { username: String::from("Bot"), password: String::from("secret") }
    );
    assert_eq!(encode(&cmd), "join|Bot|secret\n");
}

#[test]
fn first_tick_on_open_grid_moves_right() {
    let mut c = Client::new("MASTER CONTROL PROGRAM");
    let greeting = feed(&mut c, "game|4|4|0\n");
    assert_eq!(
        greeting,
        Reply::Send(Command::Chat(String::from("You shouldn't have come back, Flynn.")))
    );
    assert_eq!(c.phase, Phase::InEpoch);
    assert_eq!(feed(&mut c, "player|0|Bot\n"), Reply::Nothing);
    assert_eq!(feed(&mut c, "pos|0|0|0\n"), Reply::Nothing);
    assert_eq!(c.game.pos(), (0, 0));
    let reply = feed(&mut c, "tick\n");
    assert_eq!(reply, Reply::Send(Command::Move(Direction::WPos)));
    match reply {
        Reply::Send(cmd) => assert_eq!(encode(&cmd), "move|right\n"),
        _ => unreachable!(),
    }
    // the same events give the same move
    let mut d = Client::new("MASTER CONTROL PROGRAM");
    feed(&mut d, "game|4|4|0\n");
    feed(&mut d, "player|0|Bot\n");
    feed(&mut d, "pos|0|0|0\n");
    assert_eq!(feed(&mut d, "tick\n"), Reply::Send(Command::Move(Direction::WPos)));
}

#[test]
fn first_tick_when_the_client_bears_the_name() {
    let mut c = Client::new("Bot");
    feed(&mut c, "game|4|4|0\n");
    feed(&mut c, "player|0|Bot\n");
    assert_eq!(c.game.me(), Some(0));
    assert_eq!(c.game.lookup_name(0), None);
    feed(&mut c, "pos|0|0|0\n");
    assert_eq!(feed(&mut c, "tick\n"), Reply::Send(Command::Move(Direction::WPos)));
}

#[test]
fn death_of_an_unknown_player_changes_nothing() {
    let mut c = Client::new("Bot");
    feed(&mut c, "game|3|3|0\n");
    feed(&mut c, "player|1|Ann\n");
    feed(&mut c, "pos|1|1|1\n");
    feed(&mut c, "pos|0|0|2\n");
    assert_eq!(feed(&mut c, "die|2\n"), Reply::Nothing);
    for x in 0..3 {
        for y in 0..3 {
            let expected = if (x, y) == (1, 1) {
                Some(1)
            } else if (x, y) == (0, 2) {
                Some(0)
            } else {
                None
            };
            assert_eq!(c.game.claimant(x, y), expected);
        }
    }
    assert_eq!(c.game.lookup_name(1), Some("Ann"));
    assert_eq!(c.game.lookup_name(2), None);
    assert_eq!(c.game.me(), Some(0));
    assert_eq!(c.game.pos(), (0, 2));
    assert_eq!(c.phase, Phase::InEpoch);
}

#[test]
fn death_before_any_game() {
    let mut c = Client::new("Bot");
    assert_eq!(feed(&mut c, "die|2\n"), Reply::Nothing);
    assert_eq!(c.phase, Phase::AwaitingGame);
    assert_eq!(c.game.width(), 0);
}

#[test]
fn death_frees_cells() {
    let mut c = Client::new("Bot");
    feed(&mut c, "game|3|3|0\n");
    feed(&mut c, "player|1|Ann\n");
    feed(&mut c, "pos|1|1|1\n");
    feed(&mut c, "pos|1|1|2\n");
    feed(&mut c, "die|1\n");
    assert!(!c.game.is_claimed(1, 1));
    assert!(!c.game.is_claimed(1, 2));
    assert_eq!(c.game.display_name(1), "UNKNOWN");
}

#[test]
fn tick_avoids_claimed_cells() {
    let mut c = Client::new("Bot");
    feed(&mut c, "game|5|5|0\n");
    feed(&mut c, "pos|0|2|2\n");
    feed(&mut c, "pos|1|3|2\n");
    feed(&mut c, "pos|1|1|2\n");
    feed(&mut c, "pos|1|2|3\n");
    assert_eq!(feed(&mut c, "tick\n"), Reply::Send(Command::Move(Direction::HNeg)));
}

#[test]
fn phases_follow_the_events() {
    let mut c = Client::new("Bot");
    assert_eq!(feed(&mut c, "motd|hello\n"), Reply::Nothing);
    assert_eq!(c.phase, Phase::AwaitingGame);
    feed(&mut c, "game|2|2|0\n");
    assert_eq!(c.phase, Phase::InEpoch);
    assert_eq!(feed(&mut c, "chat|1|hi\n"), Reply::Nothing);
    assert_eq!(feed(&mut c, "whatever|1\n"), Reply::Nothing);
    assert_eq!(c.phase, Phase::InEpoch);
    assert_eq!(feed(&mut c, "lose|1|2\n"), Reply::Nothing);
    assert_eq!(c.phase, Phase::AwaitingGame);
    feed(&mut c, "game|2|2|0\n");
    assert_eq!(c.phase, Phase::InEpoch);
    assert_eq!(feed(&mut c, "win\n"), Reply::Nothing);
    assert_eq!(c.phase, Phase::AwaitingGame);
    assert_eq!(feed(&mut c, "error\n"), Reply::Stop);
    assert_eq!(c.phase, Phase::Terminated);
}

#[test]
fn terminated_client_ignores_everything() {
    let mut c = Client::new("Bot");
    feed(&mut c, "game|2|2|0\n");
    feed(&mut c, "pos|0|1|1\n");
    feed(&mut c, "error\n");
    assert_eq!(feed(&mut c, "game|5|5|3\n"), Reply::Nothing);
    assert_eq!(c.phase, Phase::Terminated);
    assert_eq!(c.game.width(), 2);
    assert_eq!(c.game.me(), Some(0));
    assert_eq!(feed(&mut c, "tick\n"), Reply::Nothing);
    assert_eq!(feed(&mut c, "pos|1|9|9\n"), Reply::Nothing);
    assert_eq!(feed(&mut c, "die|0\n"), Reply::Nothing);
    assert_eq!(c.game.claimant(1, 1), Some(0));
    assert_eq!(feed(&mut c, "error\n"), Reply::Nothing);
    assert_eq!(c.phase, Phase::Terminated);
}

#[test]
fn claims_outside_the_grid_are_not_admitted() {
    let mut c = Client::new("Bot");
    assert!(!c.admits(&Event::Pos { player: 0, x: 0, y: 0 }));
    feed(&mut c, "game|3|2|0\n");
    assert!(c.admits(&Event::Pos { player: 0, x: 2, y: 1 }));
    assert!(!c.admits(&Event::Pos { player: 0, x: 3, y: 1 }));
    assert!(!c.admits(&Event::Pos { player: 0, x: 2, y: 2 }));
    assert!(c.admits(&Event::Die { player: 9 }));
}

#[test]
fn tick_is_admitted_where_rays_fit() {
    let mut c = Client::new("Bot");
    assert!(c.admits(&Event::Tick));
    assert_eq!(c.step(Event::Tick), Reply::Send(Command::Move(Direction::WPos)));
    feed(&mut c, "game|5|3|0\n");
    feed(&mut c, "pos|0|1|1\n");
    assert!(!c.admits(&Event::Tick));
}

#[test]
fn new_game_clears_the_old_one() {
    let mut c = Client::new("Bot");
    feed(&mut c, "game|3|3|0\n");
    feed(&mut c, "player|1|Ann\n");
    feed(&mut c, "pos|1|1|1\n");
    feed(&mut c, "game|2|4|5\n");
    assert_eq!(c.game.width(), 2);
    assert_eq!(c.game.height(), 4);
    assert_eq!(c.game.me(), Some(5));
    assert_eq!(c.game.lookup_name(1), None);
    for x in 0..2 {
        for y in 0..4 {
            assert!(!c.game.is_claimed(x, y));
        }
    }
}
