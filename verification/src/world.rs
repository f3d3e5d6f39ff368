use crate::cell::Cell;
use std::collections::HashMap;
use vstd::prelude::*;
use vstd::string::*;

verus! {

broadcast use vstd::std_specs::hash::group_hash_axioms;

/// The names after a player's name has been noted: a player who bears the
/// client's own name is not listed, and a player who has a name keeps it.
pub open spec fn registered(
    names: Map<usize, Seq<char>>,
    username: Seq<char>,
    id: usize,
    name: Seq<char>,
) -> Map<usize, Seq<char>> {
    if name == username || names.contains_key(id) {
        names
    } else {
        names.insert(id, name)
    }
}

/// The names after each of `calls`, a player and a name, has been noted in
/// turn.
pub open spec fn registered_all(
    names: Map<usize, Seq<char>>,
    username: Seq<char>,
    calls: Seq<(usize, Seq<char>)>,
) -> Map<usize, Seq<char>>
    decreases calls.len(),
{
    if calls.len() == 0 {
        names
    } else {
        registered(
            registered_all(names, username, calls.drop_last()),
            username,
            calls.last().0,
            calls.last().1,
        )
    }
}

/// The name of the player `id` as it is shown: within quotation marks, or the
/// word `UNKNOWN` for a player without a name.
pub open spec fn shown_name(names: Map<usize, Seq<char>>, id: usize) -> Seq<char> {
    if names.contains_key(id) {
        "\""@ + names[id] + "\""@
    } else {
        "UNKNOWN"@
    }
}

/// What the client knows of the game: the grid and who holds each cell, the
/// names of the other players, and who and where the client itself is.
pub struct Game {
    username: String,
    me: Option<usize>,
    players: HashMap<usize, String>,
    grid: Vec<Vec<Cell>>,
    height: usize,
    pos: (usize, usize),
}

impl Game {
    /// Every column of the grid has the same number of cells.
    pub closed spec fn wf(&self) -> bool {
        forall|x: int| 0 <= x < self.grid@.len() ==> (#[trigger] self.grid@[x])@.len() == self.height
    }

    /// The name under which the client itself plays.
    pub closed spec fn username(&self) -> Seq<char> {
        self.username@
    }

    /// The client's own player, once known.
    pub closed spec fn identity(&self) -> Option<usize> {
        self.me
    }

    /// The cell that the client claimed last.
    pub closed spec fn position(&self) -> (usize, usize) {
        self.pos
    }

    /// The names of the other players, by player.
    pub closed spec fn names(&self) -> Map<usize, Seq<char>> {
        Map::new(|id: usize| self.players@.contains_key(id), |id: usize| self.players@[id]@)
    }

    /// The number of columns of the grid.
    pub closed spec fn spec_width(&self) -> nat {
        self.grid@.len()
    }

    /// The number of cells in each column of the grid.
    pub closed spec fn spec_height(&self) -> nat {
        self.height as nat
    }

    /// Whether `(x, y)` is a cell of the grid.
    pub open spec fn on_grid(&self, x: int, y: int) -> bool {
        0 <= x < self.spec_width() && 0 <= y < self.spec_height()
    }

    /// Who holds the cell `(x, y)` of the grid.
    pub closed spec fn owner(&self, x: int, y: int) -> Option<usize> {
        self.grid@[x]@[y].claimed_by
    }

    /// Whether the two games agree on everything but the grid's cells and the
    /// names.
    pub open spec fn same_frame(&self, other: &Game) -> bool {
        &&& self.username() == other.username()
        &&& self.spec_width() == other.spec_width()
        &&& self.spec_height() == other.spec_height()
    }

    /// Whether this is the game at the start of an epoch on a grid of `width`
    /// columns of `height` cells, begun from the game `before`: every cell is
    /// free and no player has a name, whatever `before` held. The client is
    /// `own_id`; its name and the cell that it claimed last are those of
    /// `before`.
    pub open spec fn is_epoch_start(
        &self,
        before: &Game,
        width: usize,
        height: usize,
        own_id: usize,
    ) -> bool {
        &&& self.wf()
        &&& self.spec_width() == width
        &&& self.spec_height() == height
        &&& forall|x: int, y: int| self.on_grid(x, y) ==> #[trigger] self.owner(x, y) is None
        &&& self.names() == Map::<usize, Seq<char>>::empty()
        &&& self.identity() == Some(own_id)
        &&& self.username() == before.username()
        &&& self.position() == before.position()
    }

    /// Whether this is the game `before` after the name of the player `id`
    /// has been noted.
    pub open spec fn is_registration(&self, before: &Game, id: usize, name: Seq<char>) -> bool {
        &&& self.wf()
        &&& self.same_frame(before)
        &&& self.position() == before.position()
        &&& forall|x: int, y: int|
            self.on_grid(x, y) ==> #[trigger] self.owner(x, y) == before.owner(x, y)
        &&& self.identity() == if name == before.username() {
            Some(id)
        } else {
            before.identity()
        }
        &&& self.names() == registered(before.names(), before.username(), id, name)
    }

    /// Whether this is the game `before` after `player` has claimed the cell
    /// `(x, y)`.
    pub open spec fn is_claim(&self, before: &Game, player: usize, x: usize, y: usize) -> bool {
        &&& self.wf()
        &&& self.same_frame(before)
        &&& self.identity() == before.identity()
        &&& self.names() == before.names()
        &&& forall|i: int, j: int|
            self.on_grid(i, j) ==> #[trigger] self.owner(i, j) == if i == x && j == y {
                Some(player)
            } else {
                before.owner(i, j)
            }
        &&& self.position() == if before.identity() == Some(player) {
            (x, y)
        } else {
            before.position()
        }
    }

    /// Whether this is the game `before` after the player `id` has gone.
    pub open spec fn is_removal(&self, before: &Game, id: usize) -> bool {
        &&& self.wf()
        &&& self.same_frame(before)
        &&& self.identity() == before.identity()
        &&& self.position() == before.position()
        &&& self.names() == before.names().remove(id)
        &&& forall|i: int, j: int|
            self.on_grid(i, j) ==> #[trigger] self.owner(i, j) == if before.owner(i, j) == Some(id) {
                None
            } else {
                before.owner(i, j)
            }
    }

    /// A game of which nothing is known yet: no grid, no players.
    pub fn new(username: &str) -> (g: Game)
        ensures
            g.wf(),
            g.username() == username@,
            g.identity() is None,
            g.names() == Map::<usize, Seq<char>>::empty(),
            g.spec_width() == 0,
            g.spec_height() == 0,
            g.position() == (0usize, 0usize),
    {
        let g = Game {
            username: username.to_owned(),
            me: None,
            players: HashMap::new(),
            grid: Vec::new(),
            height: 0,
            pos: (0, 0),
        };
        assert(g.names() =~= Map::<usize, Seq<char>>::empty());
        g
    }

    /// Begins a new epoch: a grid of `width` columns of `height` free cells
    /// each, no known players, and `own_id` as the client's own player.
    pub fn start_epoch(&mut self, width: usize, height: usize, own_id: usize)
        ensures
            final(self).is_epoch_start(old(self), width, height, own_id),
    {
        let mut grid: Vec<Vec<Cell>> = Vec::new();
        let mut x: usize = 0;
        while x < width
            invariant
                x <= width,
                grid@.len() == x,
                forall|i: int| 0 <= i < x ==> (#[trigger] grid@[i])@.len() == height,
                forall|i: int, j: int|
                    0 <= i < x && 0 <= j < height ==> (#[trigger] grid@[i]@[j]).claimed_by is None,
            decreases width - x,
        {
            let mut column: Vec<Cell> = Vec::new();
            let mut y: usize = 0;
            while y < height
                invariant
                    y <= height,
                    column@.len() == y,
                    forall|j: int| 0 <= j < y ==> (#[trigger] column@[j]).claimed_by is None,
                decreases height - y,
            {
                column.push(Cell::new());
                y += 1;
            }
            grid.push(column);
            x += 1;
        }
        self.grid = grid;
        self.height = height;
        self.me = Some(own_id);
        self.players.clear();
        assert(self.names() =~= Map::<usize, Seq<char>>::empty());
    }

    /// Takes note of a player's name. A player who bears the client's own name
    /// is the client itself; any other name is kept only if the player has
    /// none yet.
    pub fn register_player(&mut self, id: usize, name: String)
        requires
            old(self).wf(),
        ensures
            final(self).is_registration(old(self), id, name@),
            forall|p: usize| #[trigger]
                old(self).names().contains_key(p) ==> final(self).names().contains_key(p)
                    && final(self).names()[p] == old(self).names()[p],
    {
        if name == self.username {
            self.me = Some(id);
        } else if !self.players.contains_key(&id) {
            self.players.insert(id, name);
            assert(self.names() =~= old(self).names().insert(id, name@));
        } else {
            assert(self.names().contains_key(id));
        }
    }

    /// Gives the cell `(x, y)` to `player`, whoever held it before. When the
    /// player is the client itself, the client now stands on that cell.
    pub fn claim(&mut self, player: usize, x: usize, y: usize)
        requires
            old(self).wf(),
            old(self).on_grid(x as int, y as int),
        ensures
            final(self).is_claim(old(self), player, x, y),
            final(self).owner(x as int, y as int) == Some(player),
    {
        self.grid[x][y] = Cell { claimed_by: Some(player) };
        if self.me == Some(player) {
            self.pos = (x, y);
        }
    }

    /// Forgets a player: the name goes, and every cell that the player held
    /// is free again.
    pub fn remove_player(&mut self, id: usize)
        requires
            old(self).wf(),
        ensures
            final(self).is_removal(old(self), id),
            forall|i: int, j: int|
                final(self).on_grid(i, j) ==> #[trigger] final(self).owner(i, j) != Some(id),
            forall|i: int, j: int|
                final(self).on_grid(i, j) && old(self).owner(i, j) != Some(id)
                    ==> #[trigger] final(self).owner(i, j) == old(self).owner(i, j),
    {
        self.players.remove(&id);
        assert(self.names() =~= old(self).names().remove(id));
        let width = self.grid.len();
        let height = self.height;
        let mut x: usize = 0;
        while x < width
            invariant
                x <= width,
                width == self.grid@.len(),
                height == self.height,
                self.wf(),
                self.same_frame(old(self)),
                self.identity() == old(self).identity(),
                self.position() == old(self).position(),
                self.names() == old(self).names().remove(id),
                forall|i: int, j: int|
                    self.on_grid(i, j) ==> self.owner(i, j) == if i < x
                        && #[trigger] old(self).owner(i, j) == Some(id) {
                        None
                    } else {
                        old(self).owner(i, j)
                    },
            decreases width - x,
        {
            let mut y: usize = 0;
            while y < height
                invariant
                    x < width,
                    y <= height,
                    width == self.grid@.len(),
                    height == self.height,
                    self.wf(),
                    self.same_frame(old(self)),
                    self.identity() == old(self).identity(),
                    self.position() == old(self).position(),
                    self.names() == old(self).names().remove(id),
                    forall|i: int, j: int|
                        self.on_grid(i, j) ==> self.owner(i, j) == if (i < x || (i == x && j < y))
                            && #[trigger] old(self).owner(i, j) == Some(id) {
                            None
                        } else {
                            old(self).owner(i, j)
                        },
                decreases height - y,
            {
                if self.grid[x][y].claimed_by == Some(id) {
                    self.grid[x][y] = Cell::new();
                }
                y += 1;
            }
            x += 1;
        }
    }

    /// The name under which a player is known, if any.
    pub fn lookup_name(&self, id: usize) -> (name: Option<&str>)
        ensures
            match name {
                Some(n) => self.names().contains_key(id) && n@ == self.names()[id],
                None => !self.names().contains_key(id),
            },
    {
        match self.players.get(&id) {
            Some(n) => Some(n.as_str()),
            None => None,
        }
    }

    /// The name of a player as it is shown: within quotation marks, or the
    /// word `UNKNOWN` for a player without a name.
    pub fn display_name(&self, id: usize) -> (shown: String)
        ensures
            shown@ == shown_name(self.names(), id),
    {
        match self.lookup_name(id) {
            Some(name) => {
                let mut shown = "\"".to_owned();
                shown.append(name);
                shown.append("\"");
                shown
            },
            None => "UNKNOWN".to_owned(),
        }
    }

    /// The name under which the client itself plays.
    pub fn name(&self) -> (name: &str)
        ensures
            name@ == self.username(),
    {
        self.username.as_str()
    }

    /// Who holds the cell `(x, y)`.
    pub fn claimant(&self, x: usize, y: usize) -> (who: Option<usize>)
        requires
            self.wf(),
            self.on_grid(x as int, y as int),
        ensures
            who == self.owner(x as int, y as int),
    {
        self.grid[x][y].claimed_by
    }

    /// Whether some player holds the cell `(x, y)`.
    pub fn is_claimed(&self, x: usize, y: usize) -> (b: bool)
        requires
            self.wf(),
            self.on_grid(x as int, y as int),
        ensures
            b == (self.owner(x as int, y as int) is Some),
    {
        self.grid[x][y].claimed()
    }

    /// The client's own player, once known.
    pub fn me(&self) -> (id: Option<usize>)
        ensures
            id == self.identity(),
    {
        self.me
    }

    /// The cell that the client claimed last.
    pub fn pos(&self) -> (p: (usize, usize))
        ensures
            p == self.position(),
    {
        self.pos
    }

    /// The number of columns of the grid.
    pub fn width(&self) -> (w: usize)
        ensures
            w == self.spec_width(),
    {
        self.grid.len()
    }

    /// The number of cells in each column of the grid.
    pub fn height(&self) -> (h: usize)
        ensures
            h == self.spec_height(),
    {
        self.height
    }
}

/// The first name stays: whatever names are noted afterwards, and for
/// whichever players, a player who has a name keeps that name.
pub proof fn lemma_first_name_stays(
    names: Map<usize, Seq<char>>,
    username: Seq<char>,
    calls: Seq<(usize, Seq<char>)>,
    id: usize,
)
    requires
        names.contains_key(id),
    ensures
        registered_all(names, username, calls).contains_key(id),
        registered_all(names, username, calls)[id] == names[id],
    decreases calls.len(),
{
    if calls.len() > 0 {
        lemma_first_name_stays(names, username, calls.drop_last(), id);
    }
}

/// Where a player who held no cell and had no name goes, nothing changes.
pub proof fn lemma_removal_of_stranger(after: &Game, before: &Game, id: usize)
    requires
        after.is_removal(before, id),
        forall|x: int, y: int|
            before.on_grid(x, y) ==> #[trigger] before.owner(x, y) != Some(id),
    ensures
        forall|x: int, y: int|
            before.on_grid(x, y) ==> #[trigger] after.owner(x, y) == before.owner(x, y),
        !before.names().contains_key(id) ==> after.names() == before.names(),
{
    if !before.names().contains_key(id) {
        assert(before.names().remove(id) =~= before.names());
    }
}

/// Who holds the cell `(x, y)` after each of `claims`, a player and a cell,
/// has been made in turn, when `before` held it at first: the player of the
/// last claim of that cell, and `before` if there is none.
pub open spec fn claimant_after(
    before: Option<usize>,
    claims: Seq<(usize, usize, usize)>,
    x: int,
    y: int,
) -> Option<usize>
    decreases claims.len(),
{
    if claims.len() == 0 {
        before
    } else if claims.last().1 == x && claims.last().2 == y {
        Some(claims.last().0)
    } else {
        claimant_after(before, claims.drop_last(), x, y)
    }
}

/// The latest claim holds: after any number of claims, each of which leads
/// from one of `games` to the next, every cell of the grid is held by the
/// player who claimed it last, and a cell that nobody claimed is held as
/// before.
pub proof fn lemma_latest_claim_holds(
    games: Seq<Game>,
    claims: Seq<(usize, usize, usize)>,
    x: int,
    y: int,
)
    requires
        games.len() == claims.len() + 1,
        forall|k: int|
            0 <= k < claims.len() ==> (#[trigger] games[k + 1]).is_claim(
                &games[k],
                claims[k].0,
                claims[k].1,
                claims[k].2,
            ),
        games[0].on_grid(x, y),
    ensures
        games.last().on_grid(x, y),
        games.last().owner(x, y) == claimant_after(games[0].owner(x, y), claims, x, y),
    decreases claims.len(),
{
    if claims.len() > 0 {
        let n = claims.len() as int;
        let earlier = games.drop_last();
        assert forall|k: int| 0 <= k < n - 1 implies (#[trigger] earlier[k + 1]).is_claim(
            &earlier[k],
            claims.drop_last()[k].0,
            claims.drop_last()[k].1,
            claims.drop_last()[k].2,
        ) by {
            assert(games[k + 1].is_claim(&games[k], claims[k].0, claims[k].1, claims[k].2));
        }
        lemma_latest_claim_holds(earlier, claims.drop_last(), x, y);
        assert(games[n - 1 + 1].is_claim(
            &games[n - 1],
            claims[n - 1].0,
            claims[n - 1].1,
            claims[n - 1].2,
        ));
        assert(earlier.last() == games[n - 1]);
    }
}

} // verus!
