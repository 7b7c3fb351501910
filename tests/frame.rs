use mandelbrot::frame::{render, stack_rows, Cell};
use num_complex::Complex;

#[test]
fn stack_rows_pairs_rows() {
    // two cells wide, one high: sample rows [1, 2] and [3, 4]
    let cells = stack_rows(&vec![1u8, 2, 3, 4], 2, 1);
    assert_eq!(cells, vec![Cell { fg: 1, bg: 3 }, Cell { fg: 2, bg: 4 }]);
}

#[test]
fn stack_rows_two_rows() {
    let blues: Vec<u8> = (0..12).collect();
    let cells = stack_rows(&blues, 3, 2);
    assert_eq!(
        cells,
        vec![
            Cell { fg: 0, bg: 3 },
            Cell { fg: 1, bg: 4 },
            Cell { fg: 2, bg: 5 },
            Cell { fg: 6, bg: 9 },
            Cell { fg: 7, bg: 10 },
            Cell { fg: 8, bg: 11 },
        ]
    );
}

#[test]
fn render_empty_grid() {
    assert!(render(&Vec::new(), 100, 0, 0).is_empty());
    assert!(render(&Vec::new(), 100, 5, 0).is_empty());
}

#[test]
fn render_colours_cells() {
    // one cell wide, two high; budget 4
    let counts = vec![0u32, 1, 4, 2];
    let cells = render(&counts, 4, 1, 2);
    // total = 3; before(0) = 0, before(1) = 1, before(2) = 2
    assert_eq!(cells, vec![Cell { fg: 0, bg: 85 }, Cell { fg: 0, bg: 170 }]);
}

#[test]
fn render_all_interior_is_black() {
    let counts = vec![300u32; 2 * 4 * 3];
    let cells = render(&counts, 300, 4, 3);
    assert_eq!(cells.len(), 12);
    assert!(cells.iter().all(|c| *c == Cell { fg: 0, bg: 0 }));
}

fn escape_counts(x_min: f64, x_max: f64, y_min: f64, y_max: f64, width: u16, height: u16, max: u32) -> Vec<u32> {
    let x_step = (x_max - x_min) / width as f64;
    let y_step = (y_max - y_min) / height as f64 / 2.0;
    let mut counts = Vec::new();
    for y in 0..height * 2 {
        for x in 0..width {
            let c = Complex::new(x_min + x as f64 * x_step, y_min + y as f64 * y_step);
            let mut z = Complex::new(0.0, 0.0);
            let mut n = 0;
            while z.norm_sqr() <= 4.0 && n < max {
                z = z * z + c;
                n += 1;
            }
            counts.push(n);
        }
    }
    counts
}

#[test]
fn initial_view_renders_deterministically() {
    let counts = escape_counts(-2.0, 1.0, -1.0, 1.0, 80, 48, 10000);
    assert_eq!(counts.len(), 80 * 96);
    let first = render(&counts, 10000, 80, 48);
    assert_eq!(first.len(), 3840);
    assert!(first.iter().all(|c| c.fg < 255 && c.bg < 255));
    assert!(first.iter().any(|c| c.fg > 0));
    let again = render(&escape_counts(-2.0, 1.0, -1.0, 1.0, 80, 48, 10000), 10000, 80, 48);
    assert_eq!(first, again);
}
