use gameoflife::{
    Algorithm, GameOfLife, GameOfLifeConvolution, GameOfLifeFFT, GameOfLifeStd, Grid, GridError,
    InvalidRuleError, LifeRule, NeighborRule, Presentations, Rule,
};
use gameoflife::presentation::{frame_pixels, get_size, shade_of, split_wait};
use rand::Rng;

const CONWAY_SURVIVAL: [bool; 9] = [false, false, true, true, false, false, false, false, false];
const CONWAY_BIRTH: [bool; 9] = [false, false, false, true, false, false, false, false, false];

fn conway(state: u8, neighbor: NeighborRule) -> Rule {
    Rule::new(
        LifeRule::Raw(CONWAY_SURVIVAL),
        LifeRule::Raw(CONWAY_BIRTH),
        state,
        neighbor,
    )
    .unwrap()
}

/// Convolution of `mask` with the 3x3 `kernel` through a discrete Fourier
/// transform of the zero-padded operands, rounded to integers and cut to
/// the shape of `mask`.
fn spectral_counts(mask: &[Vec<usize>], kernel: &[Vec<usize>]) -> Vec<Vec<usize>> {
    let numx = mask.len();
    let numy = mask[0].len();
    let (px, py) = (numx + 2, numy + 2);
    let pad = |m: &[Vec<usize>]| -> Vec<Vec<f64>> {
        let mut out = vec![vec![0.0; py]; px];
        for (x, column) in m.iter().enumerate() {
            for (y, v) in column.iter().enumerate() {
                out[x][y] = *v as f64;
            }
        }
        out
    };
    let dft = |re: &[Vec<f64>], im: &[Vec<f64>], sign: f64| -> (Vec<Vec<f64>>, Vec<Vec<f64>>) {
        let mut out_re = vec![vec![0.0; py]; px];
        let mut out_im = vec![vec![0.0; py]; px];
        for u in 0..px {
            for v in 0..py {
                let (mut sr, mut si) = (0.0, 0.0);
                for x in 0..px {
                    for y in 0..py {
                        let angle = sign
                            * 2.0
                            * std::f64::consts::PI
                            * ((u * x) as f64 / px as f64 + (v * y) as f64 / py as f64);
                        let (c, s) = (angle.cos(), angle.sin());
                        sr += re[x][y] * c - im[x][y] * s;
                        si += re[x][y] * s + im[x][y] * c;
                    }
                }
                out_re[u][v] = sr;
                out_im[u][v] = si;
            }
        }
        (out_re, out_im)
    };
    let zeros = vec![vec![0.0; py]; px];
    let (ar, ai) = dft(&pad(mask), &zeros, -1.0);
    let (br, bi) = dft(&pad(kernel), &zeros, -1.0);
    let mut pr = vec![vec![0.0; py]; px];
    let mut pi = vec![vec![0.0; py]; px];
    for u in 0..px {
        for v in 0..py {
            pr[u][v] = ar[u][v] * br[u][v] - ai[u][v] * bi[u][v];
            pi[u][v] = ar[u][v] * bi[u][v] + ai[u][v] * br[u][v];
        }
    }
    let (full, _) = dft(&pr, &pi, 1.0);
    let scale = (px * py) as f64;
    (0..numx)
        .map(|x| {
            (0..numy)
                .map(|y| (full[x + 1][y + 1] / scale).round() as usize)
                .collect()
        })
        .collect()
}

fn spectral_step(gol: &mut GameOfLifeFFT) {
    let counts = spectral_counts(&gol.alive_mask(), &gol.kernel());
    assert!(gol.compute_next_generation_from(&counts));
}

fn cells_of<G: GameOfLife>(gol: &G) -> Vec<u8> {
    let mut cells = Vec::new();
    for x in 0..gol.numx() {
        for y in 0..gol.numy() {
            cells.push(gol.cell(x, y).unwrap());
        }
    }
    cells
}

fn fft_cells(gol: &GameOfLifeFFT) -> Vec<u8> {
    let mut cells = Vec::new();
    for x in 0..gol.numx() {
        for y in 0..gol.numy() {
            cells.push(gol.cell(x, y).unwrap());
        }
    }
    cells
}

#[test]
fn three_strategies_agree_on_random_grids() {
    let mut rng = rand::thread_rng();
    let shapes = [(1, 1), (1, 7), (6, 1), (5, 9), (12, 8)];
    let densities = [0.1, 0.3, 0.6];
    let rules = [
        conway(1, NeighborRule::Moore),
        conway(3, NeighborRule::Moore),
        conway(2, NeighborRule::VonNeumann),
        Rule::new(LifeRule::Range(1..4), LifeRule::One(2), 4, NeighborRule::VonNeumann).unwrap(),
    ];
    for &(numx, numy) in &shapes {
        for &p in &densities {
            for rule in &rules {
                let cells: Vec<u8> = (0..numx * numy)
                    .map(|_| rng.gen_bool(p) as u8 * rule.state)
                    .collect();
                let mut direct = GameOfLifeStd::new(Grid::new(numx, numy, cells.clone()).unwrap(), *rule);
                let mut spatial =
                    GameOfLifeConvolution::new(Grid::new(numx, numy, cells.clone()).unwrap(), *rule);
                let mut spectral = GameOfLifeFFT::new(Grid::new(numx, numy, cells).unwrap(), *rule);
                for _ in 0..4 {
                    direct.compute_next_generation();
                    spatial.compute_next_generation();
                    spectral_step(&mut spectral);
                    assert_eq!(cells_of(&direct), cells_of(&spatial));
                    assert_eq!(cells_of(&direct), fft_cells(&spectral));
                }
            }
        }
    }
}

#[test]
fn spectral_refuses_counts_of_the_wrong_shape() {
    let field = Grid::new(2, 2, vec![1, 0, 0, 1]).unwrap();
    let mut gol = GameOfLifeFFT::new(field, Rule::default());
    assert!(!gol.compute_next_generation_from(&vec![vec![0, 0]]));
    assert!(!gol.compute_next_generation_from(&vec![vec![0, 9], vec![0, 0]]));
    assert_eq!(fft_cells(&gol), vec![1, 0, 0, 1]);
    assert!(gol.compute_next_generation_from(&vec![vec![1, 3], vec![3, 1]]));
    assert_eq!(fft_cells(&gol), vec![0, 1, 1, 0]);
}

#[test]
fn spectral_operands() {
    let field = Grid::new(2, 3, vec![2, 1, 0, 0, 2, 2]).unwrap();
    let gol = GameOfLifeFFT::new(field, conway(2, NeighborRule::VonNeumann));
    assert_eq!(gol.alive_mask(), vec![vec![1, 0, 0], vec![0, 1, 1]]);
    assert_eq!(gol.kernel(), vec![vec![0, 1, 0], vec![1, 0, 1], vec![0, 1, 0]]);
    assert_eq!(gol.state(), 2);
}

#[test]
fn decaying_cell_counts_down_to_dead() {
    let mut cells = vec![0; 25];
    cells[2 * 5 + 2] = 3;
    let field = Grid::new(5, 5, cells).unwrap();
    let mut gol = GameOfLifeStd::new(field, conway(3, NeighborRule::Moore));
    let mut seen = Vec::new();
    for _ in 0..5 {
        gol.compute_next_generation();
        seen.push(gol.cell(2, 2).unwrap());
    }
    assert_eq!(seen, vec![2, 1, 0, 0, 0]);
}

#[test]
fn dead_cell_is_born_again() {
    // A dead cell with three alive neighbors is born, in every regime.
    let field = Grid::new(3, 3, vec![4, 4, 4, 0, 0, 0, 0, 0, 0]).unwrap();
    let mut gol = GameOfLifeConvolution::new(field, conway(4, NeighborRule::Moore));
    gol.compute_next_generation();
    assert_eq!(cells_of(&gol), vec![3, 4, 3, 0, 4, 0, 0, 0, 0]);
}

#[test]
fn corner_sees_fewer_neighbors_than_interior() {
    let field = Grid::new(5, 5, vec![1; 25]).unwrap();
    let moore = GameOfLifeStd::new(field, conway(1, NeighborRule::Moore));
    assert_eq!(moore.count_living_neighbors(0, 0), 3);
    assert_eq!(moore.count_living_neighbors(4, 4), 3);
    assert_eq!(moore.count_living_neighbors(2, 2), 8);

    let field = Grid::new(5, 5, vec![1; 25]).unwrap();
    let von_neumann = GameOfLifeStd::new(field, conway(1, NeighborRule::VonNeumann));
    assert_eq!(von_neumann.count_living_neighbors(0, 4), 2);
    assert_eq!(von_neumann.count_living_neighbors(2, 2), 4);
}

#[test]
fn lone_corner_cell_has_no_phantom_neighbors() {
    let mut cells = vec![0; 9];
    cells[0] = 1;
    let field = Grid::new(3, 3, cells).unwrap();
    let gol = GameOfLifeStd::new(field, Rule::default());
    assert_eq!(gol.count_living_neighbors(0, 0), 0);
    assert_eq!(gol.count_living_neighbors(2, 2), 0);
    assert_eq!(gol.count_living_neighbors(0, 2), 0);
    assert_eq!(gol.count_living_neighbors(1, 1), 1);
}

#[test]
fn block_is_a_still_life() {
    for &(a, b) in &[(2, 2), (0, 0), (4, 4)] {
        let mut cells = vec![0; 36];
        for x in a..a + 2 {
            for y in b..b + 2 {
                cells[x * 6 + y] = 1;
            }
        }
        let mut direct = GameOfLifeStd::new(Grid::new(6, 6, cells.clone()).unwrap(), Rule::default());
        let mut spatial =
            GameOfLifeConvolution::new(Grid::new(6, 6, cells.clone()).unwrap(), Rule::default());
        let mut spectral = GameOfLifeFFT::new(Grid::new(6, 6, cells.clone()).unwrap(), Rule::default());
        for _ in 0..3 {
            direct.compute_next_generation();
            spatial.compute_next_generation();
            spectral_step(&mut spectral);
            assert_eq!(cells_of(&direct), cells);
            assert_eq!(cells_of(&spatial), cells);
            assert_eq!(fft_cells(&spectral), cells);
        }
    }
}

#[test]
fn blinker_oscillates() {
    let mut cells = vec![0; 25];
    for y in 1..4 {
        cells[2 * 5 + y] = 1;
    }
    let mut gol = GameOfLifeConvolution::new(Grid::new(5, 5, cells.clone()).unwrap(), Rule::default());
    gol.compute_next_generation();
    let mut turned = vec![0; 25];
    for x in 1..4 {
        turned[x * 5 + 2] = 1;
    }
    assert_eq!(cells_of(&gol), turned);
    gol.compute_next_generation();
    assert_eq!(cells_of(&gol), cells);
}

#[test]
fn rule_forms_normalize_to_the_same_mask() {
    let expected = [false, false, false, true, false, false, false, false, false];
    let forms = [
        LifeRule::One(3),
        LifeRule::Range(3..4),
        LifeRule::Numbers(&[3, 3]),
        LifeRule::Raw(expected),
    ];
    for form in forms {
        let rule = Rule::new(LifeRule::Range(2..4), form, 1, NeighborRule::Moore).unwrap();
        assert_eq!(rule.birth, expected);
        assert_eq!(rule.survival, CONWAY_SURVIVAL);
    }
    let empty = Rule::new(LifeRule::Range(5..2), LifeRule::Numbers(&[]), 1, NeighborRule::Moore).unwrap();
    assert_eq!(empty.survival, [false; 9]);
    assert_eq!(empty.birth, [false; 9]);
}

#[test]
fn rule_errors() {
    let zero = Rule::new(LifeRule::One(2), LifeRule::One(3), 0, NeighborRule::Moore);
    assert_eq!(zero.unwrap_err(), InvalidRuleError::ZeroState);
    let one = Rule::new(LifeRule::One(9), LifeRule::One(3), 1, NeighborRule::Moore);
    assert_eq!(one.unwrap_err(), InvalidRuleError::CountOutOfRange);
    let range = Rule::new(LifeRule::One(2), LifeRule::Range(0..10), 1, NeighborRule::Moore);
    assert_eq!(range.unwrap_err(), InvalidRuleError::CountOutOfRange);
    let numbers = Rule::new(LifeRule::Numbers(&[1, 12]), LifeRule::One(3), 1, NeighborRule::Moore);
    assert_eq!(numbers.unwrap_err(), InvalidRuleError::CountOutOfRange);
    let von_neumann = Rule::new(LifeRule::One(2), LifeRule::One(5), 1, NeighborRule::VonNeumann);
    assert_eq!(von_neumann.unwrap_err(), InvalidRuleError::CountAboveNeighborhood);
    let moore = Rule::new(LifeRule::One(2), LifeRule::One(8), 1, NeighborRule::Moore);
    assert!(moore.is_ok());
}

#[test]
fn default_rule_is_conway() {
    let rule = Rule::default();
    assert_eq!(rule.survival, CONWAY_SURVIVAL);
    assert_eq!(rule.birth, CONWAY_BIRTH);
    assert_eq!(rule.state, 1);
    assert_eq!(rule.neighbor, NeighborRule::Moore);
}

#[test]
fn grid_errors_and_layout() {
    assert_eq!(Grid::new(0, 3, vec![]).unwrap_err(), GridError::ZeroDimension);
    assert_eq!(Grid::new(3, 0, vec![]).unwrap_err(), GridError::ZeroDimension);
    assert_eq!(Grid::new(2, 3, vec![0; 5]).unwrap_err(), GridError::ShapeMismatch);
    assert_eq!(Grid::new(usize::MAX, 2, vec![0; 2]).unwrap_err(), GridError::ShapeMismatch);

    let grid = Grid::new(2, 3, vec![0, 1, 2, 3, 4, 5]).unwrap();
    assert_eq!(grid.numx(), 2);
    assert_eq!(grid.numy(), 3);
    assert_eq!(grid.cell(0, 2), Some(2));
    assert_eq!(grid.cell(1, 0), Some(3));
    assert_eq!(grid.cell(2, 0), None);
    assert_eq!(grid.cell(0, 3), None);
}

#[test]
fn simulation_accessors() {
    let field = Grid::new(4, 2, vec![1; 8]).unwrap();
    let gol = GameOfLifeConvolution::new(field, conway(5, NeighborRule::Moore));
    assert_eq!(gol.numx(), 4);
    assert_eq!(gol.numy(), 2);
    assert_eq!(gol.state(), 5);
    assert_eq!(gol.cell(3, 1), Some(1));
    assert_eq!(gol.cell(4, 0), None);
}

#[test]
fn names_parse_in_any_case() {
    assert_eq!("Moore".parse::<NeighborRule>(), Ok(NeighborRule::Moore));
    assert_eq!("M".parse::<NeighborRule>(), Ok(NeighborRule::Moore));
    assert_eq!("VN".parse::<NeighborRule>(), Ok(NeighborRule::VonNeumann));
    assert_eq!("vonNeumann".parse::<NeighborRule>(), Ok(NeighborRule::VonNeumann));
    assert_eq!("von neumann".parse::<NeighborRule>(), Err(()));
    assert_eq!(NeighborRule::Moore.name(), "Moore");
    assert_eq!(NeighborRule::VonNeumann.name(), "von Neumann");

    assert_eq!("Standard".parse::<Algorithm>(), Ok(Algorithm::Std));
    assert_eq!("CONV".parse::<Algorithm>(), Ok(Algorithm::Conv));
    assert_eq!("fft".parse::<Algorithm>(), Ok(Algorithm::Fft));
    assert_eq!("gpu".parse::<Algorithm>(), Err(()));
    assert_eq!(Algorithm::Conv.name(), "convolution");
    assert_eq!(Presentations::Gif.name(), "GIF");
    assert_eq!(Presentations::Tui.name(), "TUI");
}

#[test]
fn frame_rows_follow_y_and_shade_by_state() {
    // Two columns of three cells; state 4.
    let grid = Grid::new(2, 3, vec![4, 2, 0, 1, 3, 9]).unwrap();
    let pixels = frame_pixels(&grid, 4);
    let shades: Vec<u8> = vec![255, 63, 127, 191, 0, 255];
    let expected: Vec<u8> = shades.iter().flat_map(|s| [*s, *s, *s]).collect();
    assert_eq!(pixels, expected);
}

#[test]
fn shade_is_proportional() {
    assert_eq!(shade_of(0, 1), 0);
    assert_eq!(shade_of(1, 1), 255);
    assert_eq!(shade_of(1, 3), 85);
    assert_eq!(shade_of(2, 3), 170);
    assert_eq!(shade_of(200, 255), 200);
    assert_eq!(shade_of(5, 0), 255);
}

#[test]
fn wait_splits_into_polls() {
    assert_eq!(split_wait(500), (2, 100));
    assert_eq!(split_wait(199), (0, 199));
    assert_eq!(split_wait(400), (2, 0));
}

#[test]
fn size_prefers_request_then_terminal() {
    assert_eq!(get_size(Some(7), Some(9), Some((80, 24))), (7, 9));
    assert_eq!(get_size(None, Some(9), Some((80, 24))), (78, 9));
    assert_eq!(get_size(None, None, Some((80, 24))), (78, 22));
    assert_eq!(get_size(None, None, None), (10, 10));
    assert_eq!(get_size(None, None, Some((1, 2))), (0, 0));
}
