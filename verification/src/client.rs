use crate::beam::{is_choice, rays_fit, rays_on_grid, select_direction};
use crate::protocol::{Command, Event, Message};
use crate::world::Game;
use vstd::prelude::*;

verus! {

/// Where the client stands in the course of a session.
#[derive(Clone, Copy, Debug, PartialEq, Eq, Structural)]
pub enum Phase {
    /// No game is running; the client waits for the next one.
    AwaitingGame,
    /// A game is running.
    InEpoch,
    /// The server has reported an error; the session is over.
    Terminated,
}

/// What the client does in answer to an event.
#[derive(Debug, PartialEq, Eq)]
pub enum Reply {
    Nothing,
    /// The command is to be sent to the server.
    Send(Command),
    /// The session is over: no further line is to be read.
    Stop,
}

/// The client: its picture of the game and its place in the session.
pub struct Client {
    pub game: Game,
    pub phase: Phase,
}

/// What the client says when a game begins.
pub open spec fn greeting_text() -> Seq<char> {
    "You shouldn't have come back, Flynn."@
}

/// The phase that follows `phase` when the server says `m`. A game that
/// begins puts the client into it, a game lost or won ends it, and an error
/// ends the session for good.
pub open spec fn next_phase(phase: Phase, m: Message) -> Phase {
    if phase == Phase::Terminated {
        Phase::Terminated
    } else {
        match m {
            Message::Game { .. } => Phase::InEpoch,
            Message::Lose { .. } => Phase::AwaitingGame,
            Message::Win => Phase::AwaitingGame,
            Message::Error => Phase::Terminated,
            _ => phase,
        }
    }
}

/// The phase that follows `phase` after the server has said each of
/// `messages` in turn.
pub open spec fn phase_after(phase: Phase, messages: Seq<Message>) -> Phase
    decreases messages.len(),
{
    if messages.len() == 0 {
        phase
    } else {
        next_phase(phase_after(phase, messages.drop_last()), messages.last())
    }
}

/// Nothing leads out of `Terminated`.
pub proof fn lemma_terminated_absorbs(messages: Seq<Message>)
    ensures
        phase_after(Phase::Terminated, messages) == Phase::Terminated,
    decreases messages.len(),
{
    if messages.len() > 0 {
        lemma_terminated_absorbs(messages.drop_last());
    }
}

/// Whether `after` and `reply` are what the client `before` makes of the
/// message `m`. A session that is over takes no notice of anything. Else a
/// game that begins is greeted, a tick is answered by a move in the chosen
/// direction, an error stops the client, and names, claims and deaths are
/// entered into the picture of the game; all else leaves it as it is.
pub open spec fn is_step(before: &Client, after: &Client, m: Message, reply: Reply) -> bool {
    &&& after.phase == next_phase(before.phase, m)
    &&& if before.phase == Phase::Terminated {
        after.game == before.game && reply == Reply::Nothing
    } else {
        match m {
            Message::Game { width, height, own_id } => {
                &&& after.game.is_epoch_start(&before.game, width, height, own_id)
                &&& reply matches Reply::Send(Command::Chat(text)) && text@ == greeting_text()
            },
            Message::Player { id, name } => {
                &&& after.game.is_registration(&before.game, id, name)
                &&& reply == Reply::Nothing
            },
            Message::Pos { player, x, y } => {
                &&& after.game.is_claim(&before.game, player, x, y)
                &&& reply == Reply::Nothing
            },
            Message::Die { player } => {
                &&& after.game.is_removal(&before.game, player)
                &&& reply == Reply::Nothing
            },
            Message::Tick => {
                &&& after.game == before.game
                &&& reply matches Reply::Send(Command::Move(dir)) && is_choice(
                    &before.game,
                    before.game.position(),
                    dir,
                )
            },
            Message::Error => after.game == before.game && reply == Reply::Stop,
            _ => after.game == before.game && reply == Reply::Nothing,
        }
    }
}

impl Client {
    /// Whether the client can act on the message `m`: a claim must name a
    /// cell of the grid, and on a tick rays must be cast from the client's
    /// position.
    pub open spec fn accepts(&self, m: Message) -> bool {
        self.phase != Phase::Terminated ==> match m {
            Message::Pos { player, x, y } => self.game.on_grid(x as int, y as int),
            Message::Tick => rays_on_grid(&self.game, self.game.position()),
            _ => true,
        }
    }

    /// A client that waits for its first game.
    pub fn new(username: &str) -> (client: Client)
        ensures
            client.game.wf(),
            client.phase == Phase::AwaitingGame,
            client.game.username() == username@,
            client.game.identity() is None,
            client.game.names() == Map::<usize, Seq<char>>::empty(),
            client.game.spec_width() == 0,
            client.game.spec_height() == 0,
    {
        Client { game: Game::new(username), phase: Phase::AwaitingGame }
    }

    /// The command by which the client asks to take part in the next game.
    pub fn join(&self, password: &str) -> (cmd: Command)
        ensures
            cmd matches Command::Join { username, password: word } && username@
                == self.game.username() && word@ == password@,
    {
        Command::Join { username: self.game.name().to_owned(), password: password.to_owned() }
    }

    /// Whether the client can act on `event`.
    pub fn admits(&self, event: &Event) -> (ok: bool)
        requires
            self.game.wf(),
        ensures
            ok == self.accepts(event@),
    {
        if self.phase == Phase::Terminated {
            return true;
        }
        match event {
            Event::Pos { player, x, y } => *x < self.game.width() && *y < self.game.height(),
            Event::Tick => rays_fit(&self.game, self.game.pos()),
            _ => true,
        }
    }

    /// Acts on an event.
    pub fn step(&mut self, event: Event) -> (reply: Reply)
        requires
            old(self).game.wf(),
            old(self).accepts(event@),
        ensures
            final(self).game.wf(),
            is_step(old(self), final(self), event@, reply),
    {
        if self.phase == Phase::Terminated {
            return Reply::Nothing;
        }
        match event {
            Event::Game { width, height, own_id } => {
                self.game.start_epoch(width, height, own_id);
                self.phase = Phase::InEpoch;
                Reply::Send(Command::Chat("You shouldn't have come back, Flynn.".to_owned()))
            },
            Event::Player { id, name } => {
                self.game.register_player(id, name);
                Reply::Nothing
            },
            Event::Pos { player, x, y } => {
                self.game.claim(player, x, y);
                Reply::Nothing
            },
            Event::Die { player } => {
                self.game.remove_player(player);
                Reply::Nothing
            },
            Event::Tick => {
                let choice = select_direction(&self.game);
                Reply::Send(Command::Move(choice.0))
            },
            Event::Error => {
                self.phase = Phase::Terminated;
                Reply::Stop
            },
            Event::Lose { wins, losses } => {
                self.phase = Phase::AwaitingGame;
                Reply::Nothing
            },
            Event::Win => {
                self.phase = Phase::AwaitingGame;
                Reply::Nothing
            },
            Event::Motd(_) => Reply::Nothing,
            Event::Chat { player, text } => Reply::Nothing,
            Event::Ignored => Reply::Nothing,
        }
    }
}

} // verus!
