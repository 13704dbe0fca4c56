//! The choices a user makes when starting a simulation: how to show it,
//! and which strategy computes it.
use crate::grid::{columns, Grid};
use crate::text::{lower_of, lowercase, same_text};
use vstd::arithmetic::div_mod::lemma_fundamental_div_mod_converse;
use vstd::prelude::*;

verus! {

/// Ways of presenting a simulation.
#[derive(Clone, Copy, Debug, PartialEq, Eq, Structural)]
pub enum Presentations {
    /// An animated image written to a file.
    Gif,
    /// An animation in the terminal.
    Tui,
}

impl Presentations {
    /// The display name.
    pub fn name(&self) -> (r: String)
        ensures
            r@ == match self {
                Presentations::Gif => "GIF"@,
                Presentations::Tui => "TUI"@,
            },
    {
        match self {
            Presentations::Gif => "GIF".to_owned(),
            Presentations::Tui => "TUI".to_owned(),
        }
    }
}

/// The strategies that compute the generations.
#[derive(Clone, Copy, Debug, PartialEq, Eq, Structural)]
pub enum Algorithm {
    /// Direct neighbor counting.
    Std,
    /// Spatial convolution.
    Conv,
    /// Convolution in the frequency domain.
    Fft,
}

/// The strategy that a lower-case name stands for.
pub open spec fn algorithm_named(name: Seq<char>) -> Option<Algorithm> {
    if name == "std"@ || name == "standard"@ {
        Some(Algorithm::Std)
    } else if name == "conv"@ || name == "convolution"@ {
        Some(Algorithm::Conv)
    } else if name == "fft"@ || name == "spectral"@ {
        Some(Algorithm::Fft)
    } else {
        None
    }
}

impl Algorithm {
    /// The strategy named by `name`, already in lower case.
    pub fn from_lowercase(name: &str) -> (r: Option<Algorithm>)
        ensures
            r == algorithm_named(name@),
    {
        if same_text(name, "std") || same_text(name, "standard") {
            Some(Algorithm::Std)
        } else if same_text(name, "conv") || same_text(name, "convolution") {
            Some(Algorithm::Conv)
        } else if same_text(name, "fft") || same_text(name, "spectral") {
            Some(Algorithm::Fft)
        } else {
            None
        }
    }

    /// The strategy named by `input`, in any case.
    pub fn parse(input: &str) -> (r: Result<Algorithm, ()>)
        ensures
            r == match algorithm_named(lower_of(input@)) {
                Some(a) => Ok::<Algorithm, ()>(a),
                None => Err(()),
            },
    {
        let lower = lowercase(input);
        match Algorithm::from_lowercase(lower.as_str()) {
            Some(a) => Ok(a),
            None => Err(()),
        }
    }

    /// The display name.
    pub fn name(&self) -> (r: String)
        ensures
            r@ == match self {
                Algorithm::Std => "standard"@,
                Algorithm::Conv => "convolution"@,
                Algorithm::Fft => "spectral"@,
            },
    {
        match self {
            Algorithm::Std => "standard".to_owned(),
            Algorithm::Conv => "convolution".to_owned(),
            Algorithm::Fft => "spectral".to_owned(),
        }
    }
}

impl std::str::FromStr for Algorithm {
    type Err = ();

    fn from_str(input: &str) -> Result<Algorithm, ()> {
        Algorithm::parse(input)
    }
}

/// Brightness of a cell in a frame: 0 when dead, 255 when alive, and in
/// proportion to the state while it decays.
pub open spec fn shade(cell: u8, state: u8) -> u8 {
    if cell >= state {
        255
    } else {
        (255 * (cell as int) / (state as int)) as u8
    }
}

/// Byte `i` of a frame of `g`: the frame holds the rows `y = 0, 1, ...` in
/// turn, each the cells `x = 0, 1, ...` in turn, three equal color channels
/// per cell.
pub open spec fn frame_byte(g: Seq<Seq<u8>>, state: u8, i: int) -> u8 {
    let p = i / 3;
    let numx = g.len() as int;
    shade(g[p % numx][p / numx], state)
}

/// Brightness of a cell in a frame.
pub fn shade_of(cell: u8, state: u8) -> (r: u8)
    ensures
        r == shade(cell, state),
{
    if cell >= state {
        255
    } else {
        assert(255 * (cell as int) / (state as int) < 255) by (nonlinear_arith)
            requires
                cell < state,
        ;
        (255 * cell as u16 / state as u16) as u8
    }
}

/// The RGB bytes of a frame showing the current generation, row by row.
pub fn frame_pixels(field: &Grid, state: u8) -> (r: Vec<u8>)
    ensures
        r@.len() == 3 * (field@.len() * field@[0].len()),
        forall|i: int| 0 <= i < r@.len() ==> #[trigger] r@[i] == frame_byte(field@, state, i),
{
    let cols = field.columns();
    let ghost g = field@;
    let numx = cols.len();
    let numy = cols[0].len();
    let mut pixels: Vec<u8> = Vec::new();
    let mut y: usize = 0;
    while y < numy
        invariant
            g == columns(cols@),
            crate::grid::is_grid(g),
            numx == g.len(),
            numy == g[0].len(),
            y <= numy,
            pixels@.len() == 3 * (y * numx),
            forall|i: int| 0 <= i < pixels@.len() ==> #[trigger] pixels@[i] == frame_byte(g, state, i),
        decreases numy - y,
    {
        let mut x: usize = 0;
        while x < numx
            invariant
                g == columns(cols@),
                crate::grid::is_grid(g),
                numx == g.len(),
                numy == g[0].len(),
                y < numy,
                x <= numx,
                pixels@.len() == 3 * (y * numx + x),
                forall|i: int|
                    0 <= i < pixels@.len() ==> #[trigger] pixels@[i] == frame_byte(g, state, i),
            decreases numx - x,
        {
            assert(g[x as int].len() == numy);
            let s = shade_of(cols[x][y], state);
            proof {
                let p = y * numx + x;
                lemma_fundamental_div_mod_converse(p, numx as int, y as int, x as int);
                lemma_fundamental_div_mod_converse(3 * p, 3, p, 0);
                lemma_fundamental_div_mod_converse(3 * p + 1, 3, p, 1);
                lemma_fundamental_div_mod_converse(3 * p + 2, 3, p, 2);
            }
            pixels.push(s);
            pixels.push(s);
            pixels.push(s);
            x = x + 1;
        }
        assert(3 * ((y + 1) * numx) == 3 * (y * numx + numx)) by (nonlinear_arith);
        y = y + 1;
    }
    assert(numy * numx == numx * numy) by (nonlinear_arith);
    pixels
}

/// How often the terminal is polled for keys while a generation is shown.
pub const POLL_MILLIS: u64 = 200;

/// Splits the time a generation is shown into whole polling periods and
/// the rest.
pub fn split_wait(millis: u64) -> (r: (u64, u64))
    ensures
        r.0 * POLL_MILLIS + r.1 == millis,
        r.1 < POLL_MILLIS,
{
    (millis / POLL_MILLIS, millis % POLL_MILLIS)
}

/// One side of the field: the one asked for, else the terminal's less the
/// two cells of the frame, else 10.
pub open spec fn side(asked: Option<u32>, terminal: Option<u16>) -> u32 {
    match asked {
        Some(n) => n,
        None => match terminal {
            Some(t) => if t >= 2 {
                (t - 2) as u32
            } else {
                0
            },
            None => 10,
        },
    }
}

/// The size of the field: what the user asked for, else what fits in a
/// terminal of `terminal` columns and rows, else 10 by 10.
pub fn get_size(numx: Option<u32>, numy: Option<u32>, terminal: Option<(u16, u16)>) -> (r: (
    u32,
    u32,
))
    ensures
        r.0 == side(
            numx,
            match terminal {
                Some(t) => Some(t.0),
                None => None,
            },
        ),
        r.1 == side(
            numy,
            match terminal {
                Some(t) => Some(t.1),
                None => None,
            },
        ),
{
    let width = match numx {
        Some(n) => n,
        None => match terminal {
            Some((w, _)) => w.saturating_sub(2) as u32,
            None => 10,
        },
    };
    let height = match numy {
        Some(n) => n,
        None => match terminal {
            Some((_, h)) => h.saturating_sub(2) as u32,
            None => 10,
        },
    };
    (width, height)
}

} // verus!
