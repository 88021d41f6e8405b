//! The picture of one frame: a grid of characters with the border, the
//! score line, the ground line, the player and the obstacles.
use crate::game::{Frame, GameModel, GameState, PLAYER_COLUMN};
use vstd::prelude::*;

verus! {

pub const PLAYER_GLYPH: char = '@';
pub const OBSTACLE_GLYPH: char = '#';
pub const GROUND_GLYPH: char = '=';
pub const HORIZONTAL_GLYPH: char = '─';
pub const VERTICAL_GLYPH: char = '│';
pub const TOP_LEFT_GLYPH: char = '┌';
pub const TOP_RIGHT_GLYPH: char = '┐';
pub const BOTTOM_LEFT_GLYPH: char = '└';
pub const BOTTOM_RIGHT_GLYPH: char = '┘';

/// The character of a decimal digit `d < 10`.
pub open spec fn digit_char(d: int) -> char {
    ((d + 48) as u8) as char
}

/// The decimal digits of `n`, most significant first, without leading zeros.
pub open spec fn digits_of(n: nat) -> Seq<char>
    decreases n,
{
    if n < 10 {
        seq![digit_char(n as int)]
    } else {
        digits_of(n / 10).push(digit_char((n % 10) as int))
    }
}

/// The text of the score line.
pub open spec fn score_text(score: nat, highscore: nat) -> Seq<char> {
    seq!['S', 'c', 'o', 'r', 'e', ':', ' '] + digits_of(score) + seq![
        ' ',
        ' ',
        'H',
        'i',
        'g',
        'h',
        's',
        'c',
        'o',
        'r',
        'e',
        ':',
        ' ',
    ] + digits_of(highscore)
}

/// Some obstacle stands in column `c`.
pub open spec fn occupied(obs: Seq<int>, c: int) -> bool {
    exists|i: int| 0 <= i < obs.len() && #[trigger] obs[i] == c
}

/// The character at row `r`, column `c` of the frame drawn for state `m`.
/// Later layers cover earlier ones: border, score line and ground line first,
/// then the player, then the obstacles on the row just above the ground.
pub open spec fn cell(m: GameModel, f: Frame, r: int, c: int) -> char {
    let lane = f.height - 3;
    let text = score_text(m.score as nat, m.highscore as nat);
    if r == lane && occupied(m.obstacles, c) {
        OBSTACLE_GLYPH
    } else if r == lane - m.player_y && c == PLAYER_COLUMN {
        PLAYER_GLYPH
    } else if r == 0 {
        if c == 0 {
            TOP_LEFT_GLYPH
        } else if c == f.width - 1 {
            TOP_RIGHT_GLYPH
        } else {
            HORIZONTAL_GLYPH
        }
    } else if r == f.height - 1 {
        if c == 0 {
            BOTTOM_LEFT_GLYPH
        } else if c == f.width - 1 {
            BOTTOM_RIGHT_GLYPH
        } else {
            HORIZONTAL_GLYPH
        }
    } else if c == 0 || c == f.width - 1 {
        VERTICAL_GLYPH
    } else if r == f.height - 2 {
        GROUND_GLYPH
    } else if r == 1 && 2 <= c < 2 + text.len() {
        text[c - 2]
    } else {
        ' '
    }
}

/// Appends the decimal digits of `n`.
fn push_decimal(out: &mut Vec<char>, n: u64)
    ensures
        final(out)@ == old(out)@ + digits_of(n as nat),
    decreases n,
{
    if n >= 10 {
        push_decimal(out, n / 10);
    }
    let d: u8 = (n % 10) as u8;
    out.push((48u8 + d) as char);
    proof {
        if n >= 10 {
            assert(digits_of(n as nat) == digits_of((n / 10) as nat).push(digit_char((n % 10) as int)));
        }
    }
    assert(final(out)@ =~= old(out)@ + digits_of(n as nat));
}

/// The score line: `Score: <score>  Highscore: <highscore>`.
pub fn score_line(score: u64, highscore: u64) -> (r: Vec<char>)
    ensures
        r@ == score_text(score as nat, highscore as nat),
{
    let mut out: Vec<char> = vec!['S', 'c', 'o', 'r', 'e', ':', ' '];
    push_decimal(&mut out, score);
    let tail: Vec<char> = vec![' ', ' ', 'H', 'i', 'g', 'h', 's', 'c', 'o', 'r', 'e', ':', ' '];
    let mut i: usize = 0;
    let ghost start = out@;
    while i < tail.len()
        invariant
            i <= tail@.len(),
            out@ == start + tail@.subrange(0, i as int),
        decreases tail@.len() - i,
    {
        out.push(tail[i]);
        i = i + 1;
        assert(out@ =~= start + tail@.subrange(0, i as int));
    }
    assert(tail@.subrange(0, tail@.len() as int) =~= tail@);
    push_decimal(&mut out, highscore);
    assert(out@ =~= score_text(score as nat, highscore as nat));
    out
}

/// Whether an obstacle stands in column `c`.
fn obstacle_at(obstacles: &Vec<u16>, c: u16) -> (r: bool)
    ensures
        r == occupied(obstacles@.map_values(|p: u16| p as int), c as int),
{
    let ghost obs = obstacles@.map_values(|p: u16| p as int);
    let mut i: usize = 0;
    while i < obstacles.len()
        invariant
            i <= obstacles@.len(),
            obs == obstacles@.map_values(|p: u16| p as int),
            forall|j: int| 0 <= j < i ==> obstacles@[j] != c,
        decreases obstacles@.len() - i,
    {
        if obstacles[i] == c {
            assert(obs[i as int] == c as int);
            return true;
        }
        i = i + 1;
    }
    assert forall|j: int| 0 <= j < obs.len() implies #[trigger] obs[j] != c as int by {
        assert(obstacles@[j] != c);
    }
    false
}

/// The character at row `r`, column `c`.
fn cell_at(game: &GameState, frame: &Frame, text: &Vec<char>, r: u16, c: u16) -> (ch: char)
    requires
        game.wf(*frame),
        text@ == score_text(game.score as nat, game.highscore as nat),
    ensures
        ch == cell(game@, *frame, r as int, c as int),
{
    let lane: u16 = frame.height - 3;
    if r == lane && obstacle_at(&game.obstacles, c) {
        OBSTACLE_GLYPH
    } else if r as i32 == lane as i32 - game.player_y && c == PLAYER_COLUMN {
        PLAYER_GLYPH
    } else if r == 0 {
        if c == 0 {
            TOP_LEFT_GLYPH
        } else if c == frame.width - 1 {
            TOP_RIGHT_GLYPH
        } else {
            HORIZONTAL_GLYPH
        }
    } else if r == frame.height - 1 {
        if c == 0 {
            BOTTOM_LEFT_GLYPH
        } else if c == frame.width - 1 {
            BOTTOM_RIGHT_GLYPH
        } else {
            HORIZONTAL_GLYPH
        }
    } else if c == 0 || c == frame.width - 1 {
        VERTICAL_GLYPH
    } else if r == frame.height - 2 {
        GROUND_GLYPH
    } else if r == 1 && 2 <= c && ((c - 2) as usize) < text.len() {
        text[(c - 2) as usize]
    } else {
        ' '
    }
}

/// The full frame for the current state: `height` rows of `width` characters.
/// Drawing reads the state and never changes it.
pub fn render(game: &GameState, frame: &Frame) -> (rows: Vec<Vec<char>>)
    requires
        game.wf(*frame),
    ensures
        rows@.len() == frame.height,
        forall|r: int| 0 <= r < frame.height ==> (#[trigger] rows@[r])@.len() == frame.width,
        forall|r: int, c: int|
            0 <= r < frame.height && 0 <= c < frame.width ==> #[trigger] rows@[r]@[c] == cell(
                game@,
                *frame,
                r,
                c,
            ),
{
    let text = score_line(game.score, game.highscore);
    let mut rows: Vec<Vec<char>> = Vec::new();
    let mut r: u16 = 0;
    while r < frame.height
        invariant
            game.wf(*frame),
            text@ == score_text(game.score as nat, game.highscore as nat),
            r <= frame.height,
            rows@.len() == r,
            forall|i: int| 0 <= i < r ==> (#[trigger] rows@[i])@.len() == frame.width,
            forall|i: int, c: int|
                0 <= i < r && 0 <= c < frame.width ==> #[trigger] rows@[i]@[c] == cell(
                    game@,
                    *frame,
                    i,
                    c,
                ),
        decreases frame.height - r,
    {
        let mut row: Vec<char> = Vec::new();
        let mut c: u16 = 0;
        while c < frame.width
            invariant
                game.wf(*frame),
                text@ == score_text(game.score as nat, game.highscore as nat),
                r < frame.height,
                c <= frame.width,
                row@.len() == c,
                forall|j: int| 0 <= j < c ==> #[trigger] row@[j] == cell(game@, *frame, r as int, j),
            decreases frame.width - c,
        {
            row.push(cell_at(game, frame, &text, r, c));
            c = c + 1;
        }
        rows.push(row);
        r = r + 1;
    }
    rows
}

} // verus!
