use crate::world::Game;
use vstd::prelude::*;
use vstd::string::*;

verus! {

/// The character that writes the digit `d`.
pub open spec fn digit_text(d: int) -> Seq<char> {
    if d == 0 {
        "0"@
    } else if d == 1 {
        "1"@
    } else if d == 2 {
        "2"@
    } else if d == 3 {
        "3"@
    } else if d == 4 {
        "4"@
    } else if d == 5 {
        "5"@
    } else if d == 6 {
        "6"@
    } else if d == 7 {
        "7"@
    } else if d == 8 {
        "8"@
    } else {
        "9"@
    }
}

/// The digits that write `n` in base ten, without leading zeros.
pub open spec fn decimal_text(n: nat) -> Seq<char>
    decreases n,
{
    if n < 10 {
        digit_text(n as int)
    } else {
        decimal_text(n / 10) + digit_text((n % 10) as int)
    }
}

/// How a cell is drawn: two dashes for a free cell, and for a claimed cell
/// the number of the player who holds it, in two digits or more.
pub open spec fn cell_text(owner: Option<usize>) -> Seq<char> {
    match owner {
        None => "--"@,
        Some(id) => if id < 10 {
            "0"@ + digit_text(id as int)
        } else {
            decimal_text(id as nat)
        },
    }
}

/// How the first `n` cells of the column `x` are drawn: the highest cell
/// first.
pub open spec fn column_text(world: &Game, x: int, n: int) -> Seq<char>
    decreases n,
{
    if n <= 0 {
        Seq::<char>::empty()
    } else {
        cell_text(world.owner(x, n - 1)) + column_text(world, x, n - 1)
    }
}

/// The character that writes a digit.
fn digit_str(d: usize) -> (text: &'static str)
    requires
        d < 10,
    ensures
        text@ == digit_text(d as int),
{
    if d == 0 {
        "0"
    } else if d == 1 {
        "1"
    } else if d == 2 {
        "2"
    } else if d == 3 {
        "3"
    } else if d == 4 {
        "4"
    } else if d == 5 {
        "5"
    } else if d == 6 {
        "6"
    } else if d == 7 {
        "7"
    } else if d == 8 {
        "8"
    } else {
        "9"
    }
}

/// Writes `n` in base ten.
pub fn decimal_string(n: usize) -> (text: String)
    ensures
        text@ == decimal_text(n as nat),
    decreases n,
{
    if n < 10 {
        digit_str(n).to_owned()
    } else {
        let mut text = decimal_string(n / 10);
        text.append(digit_str(n % 10));
        text
    }
}

/// Draws a cell.
pub fn cell_string(owner: Option<usize>) -> (text: String)
    ensures
        text@ == cell_text(owner),
{
    match owner {
        None => "--".to_owned(),
        Some(id) => {
            if id < 10 {
                let mut text = "0".to_owned();
                text.append(digit_str(id));
                text
            } else {
                decimal_string(id)
            }
        },
    }
}

/// Draws the grid, a line for each column: the last column first, and in
/// each line the highest cell first.
pub fn render(world: &Game) -> (lines: Vec<String>)
    requires
        world.wf(),
    ensures
        lines@.len() == world.spec_width(),
        forall|k: int|
            0 <= k < lines@.len() ==> (#[trigger] lines@[k])@ == column_text(
                world,
                world.spec_width() - 1 - k,
                world.spec_height() as int,
            ),
{
    let width = world.width();
    let height = world.height();
    let mut lines: Vec<String> = Vec::new();
    let mut x: usize = width;
    while x > 0
        invariant
            world.wf(),
            width == world.spec_width(),
            height == world.spec_height(),
            x <= width,
            lines@.len() == width - x,
            forall|k: int|
                0 <= k < lines@.len() ==> (#[trigger] lines@[k])@ == column_text(
                    world,
                    width - 1 - k,
                    height as int,
                ),
        decreases x,
    {
        x -= 1;
        let mut line = String::new();
        let mut y: usize = height;
        while y > 0
            invariant
                world.wf(),
                width == world.spec_width(),
                height == world.spec_height(),
                x < width,
                y <= height,
                line@ + column_text(world, x as int, y as int) == column_text(
                    world,
                    x as int,
                    height as int,
                ),
            decreases y,
        {
            y -= 1;
            let cell = cell_string(world.claimant(x, y));
            proof {
                assert(line@ + cell@ + column_text(world, x as int, y as int) =~= line@ + (cell@
                    + column_text(world, x as int, y as int)));
            }
            line.append(cell.as_str());
        }
        assert(line@ + Seq::<char>::empty() =~= line@);
        lines.push(line);
    }
    lines
}

} // verus!
