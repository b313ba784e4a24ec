//! Behavioural checks of the library on concrete values: the relaxer's
//! trivial harmonic solution, convergence of the Laplace lesson, boundary
//! applicator idempotence, a golden-array advection run, the discrete
//! maximum principle for diffusion, and exact small-grid checks of the
//! sweeps and field operations.

use cfd_rust::field::Field;
use cfd_rust::lesson;
use cfd_rust::line::hat;
use cfd_rust::stencil::{sweep_interior1, sweep_periodic2, Patch};

fn linspace(a: f64, b: f64, n: usize) -> Vec<f64> {
    let mut v = Vec::with_capacity(n);
    for i in 0..n {
        v.push(a + (b - a) * i as f64 / (n as f64 - 1.0));
    }
    v
}

fn rows_of(f: &Field<f64>) -> Vec<Vec<f64>> {
    f.rows_vec()
}

fn sum_abs(rows: &[Vec<f64>]) -> f64 {
    rows.iter().flatten().map(|x| x.abs()).sum()
}

/// With a zero source term and zero boundary, the relaxed interior decays
/// to the trivial harmonic solution `p == 0`.
#[test]
fn relaxer_zero_source_decays_to_zero() {
    let n = 9;
    let mut p = Field::filled(n, n, 0.0_f64);
    for i in 1..n - 1 {
        for j in 1..n - 1 {
            p.set(i, j, 1.0);
        }
    }
    let b = Field::filled(n, n, 0.0_f64);
    let kernel = |pp: Patch<f64>, _pb: Patch<f64>| (pp.r + pp.l + pp.up + pp.dn) / 4.0;
    lesson::xe::set_pressure_poisson(&mut p, &b, 2000, kernel);
    for row in rows_of(&p) {
        for x in row {
            assert!(x.abs() < 1e-9);
        }
    }
}

/// The Laplace lesson's stopping criterion is met at loop exit and the
/// solver terminates within a generous sweep cap.
#[test]
fn laplace_converges() {
    let nx = 31;
    let ny = 31;
    let eps = 1e-4_f64;
    let dx: f64 = 2.0 / 30.0;
    let dy: f64 = 1.0 / 30.0;
    let y = linspace(0., 1., nx);
    let mut p = Field::filled(ny, nx, 0.0_f64);
    p.apply_laplace_bc(0.0, &y);
    let before = rows_of(&p);
    let kernel = move |pa: Patch<f64>| {
        (dy.powi(2) * (pa.r + pa.l) + dx.powi(2) * (pa.up + pa.dn))
            / (2. * (dx.powi(2) + dy.powi(2)))
    };
    let done = move |pn: Vec<Vec<f64>>, pq: Vec<Vec<f64>>| {
        let norm = (sum_abs(&pq) - sum_abs(&pn)).abs() / sum_abs(&pn);
        !(norm > eps)
    };
    let steps = lesson::xc::solve(&mut p, &y, 0.0, kernel, done, 100000);
    assert!(steps >= 1);
    assert!(steps < 100000);
    assert_ne!(before, rows_of(&p));
}

/// Applying the all-borders applicator twice yields the same field as
/// applying it once.
#[test]
fn border_const_idempotent_on_values() {
    let mut f = Field::from_rows(
        vec![
            vec![3.0, 1.5, -2.0, 7.0],
            vec![0.25, 9.0, 4.0, -1.0],
            vec![5.0, -6.0, 2.5, 8.0],
        ],
        4,
    );
    f.apply_border_const(1.0);
    let once = rows_of(&f);
    f.apply_border_const(1.0);
    assert_eq!(once, rows_of(&f));
    assert_eq!(once[0], vec![1.0, 1.0, 1.0, 1.0]);
    assert_eq!(once[1], vec![1.0, 9.0, 4.0, 1.0]);
}

/// Applying the driven-lid applicator twice yields the same field as
/// applying it once.
#[test]
fn lid_walls_idempotent_on_values() {
    let mut f = Field::filled(4, 4, 5.0_f64);
    f.apply_lid_walls(0.0, 1.0);
    let once = rows_of(&f);
    f.apply_lid_walls(0.0, 1.0);
    assert_eq!(once, rows_of(&f));
    assert_eq!(once[3], vec![0.0, 1.0, 1.0, 0.0]);
    assert_eq!(once[0], vec![0.0, 0.0, 0.0, 0.0]);
    assert_eq!(once[1], vec![0.0, 5.0, 5.0, 0.0]);
}

/// Applying the Laplace boundary regime twice yields the same field as
/// applying it once.
#[test]
fn laplace_bc_idempotent_on_values() {
    let y = vec![0.0, 0.25, 0.5, 0.75, 1.0];
    let mut f = Field::filled(5, 5, 2.0_f64);
    f.set(1, 2, 7.0);
    f.set(3, 3, -4.0);
    f.apply_laplace_bc(0.0, &y);
    let once = rows_of(&f);
    f.apply_laplace_bc(0.0, &y);
    assert_eq!(once, rows_of(&f));
    assert_eq!(once[2][0], 0.0);
    assert_eq!(once[2][4], 0.5);
    assert_eq!(once[0], once[1]);
    assert_eq!(once[4], once[3]);
}

/// Applying the wall-rows applicator twice yields the same field as
/// applying it once.
#[test]
fn wall_rows_idempotent_on_values() {
    let mut f = Field::filled(4, 3, 6.0_f64);
    f.apply_wall_rows(0.0);
    let once = rows_of(&f);
    f.apply_wall_rows(0.0);
    assert_eq!(once, rows_of(&f));
    assert_eq!(once[0], vec![0.0, 0.0, 0.0]);
    assert_eq!(once[1], vec![6.0, 6.0, 6.0]);
    assert_eq!(once[3], vec![0.0, 0.0, 0.0]);
}

/// Applying the zero-gradient row applicator twice yields the same field
/// as applying it once.
#[test]
fn neumann_rows_idempotent_on_values() {
    let mut f = Field::from_rows(
        vec![
            vec![1.0, 2.0],
            vec![3.0, 4.0],
            vec![5.0, 6.0],
            vec![7.0, 8.0],
        ],
        2,
    );
    f.apply_neumann_rows();
    let once = rows_of(&f);
    f.apply_neumann_rows();
    assert_eq!(once, rows_of(&f));
    assert_eq!(once[0], vec![3.0, 4.0]);
    assert_eq!(once[3], vec![5.0, 6.0]);
}

/// The 1D linear-advection lesson matches a direct hand simulation of the
/// same recurrence, value for value.
#[test]
fn advection_matches_hand_simulation() {
    let nx = 41;
    let nt = 25;
    let dt = 0.025_f64;
    let dx = 2. / (nx as f64 - 1.);
    let begin = (0.5 / dx) as usize;
    let end = (1. / dx + 1.) as usize;
    let mut u = hat(nx, begin, end, 1.0, 2.0);

    let mut expected = vec![1.0_f64; nx];
    for x in expected.iter_mut().take(end).skip(begin) {
        *x = 2.0;
    }
    for _ in 0..nt {
        let un = expected.clone();
        for i in 1..nx {
            expected[i] = un[i] - un[i] * dt / dx * (un[i] - un[i - 1]);
        }
    }

    lesson::x2::solve(&mut u, nt, move |c: f64, l: f64| c - c * dt / dx * (c - l));
    assert_eq!(u, expected);
}

/// The 2D diffusion lesson with fixed boundary value 1 stays within the
/// initial bounds at every time step: the discrete maximum principle.
#[test]
fn diffusion_maximum_principle() {
    let nx = 31;
    let ny = 31;
    let nt = 17;
    let nu = 0.05_f64;
    let sigma = 0.25_f64;
    let dx = 2. / (nx as f64 - 1.);
    let dy = 2. / (ny as f64 - 1.);
    let dt = sigma * dx * dy / nu;
    let x_begin = (0.5 / dx) as usize;
    let x_end = (1. / dx + 1.) as usize;
    let y_begin = (0.5 / dy) as usize;
    let y_end = (1. / dy + 1.) as usize;
    let mut u = Field::block(ny, nx, x_begin, x_end, y_begin, y_end, 1.0, 2.0);
    let kernel = move |p: Patch<f64>| {
        p.c + nu * dt / dx.powi(2) * (p.r - 2. * p.c + p.l)
            + nu * dt / dy.powi(2) * (p.up - 2. * p.c + p.dn)
    };
    for _ in 0..nt + 1 {
        lesson::x9::solve(&mut u, 0, kernel, 1.0);
        for row in rows_of(&u) {
            for x in row {
                assert!((1.0..=2.0).contains(&x));
            }
        }
    }
}

/// One interior sweep with an averaging kernel, checked cell by cell on a
/// small grid.
#[test]
fn interior_sweep_exact_values() {
    let mut t = Field::from_rows(
        vec![
            vec![1.0, 2.0, 3.0],
            vec![4.0, 5.0, 6.0],
            vec![7.0, 8.0, 9.0],
        ],
        3,
    );
    let a = t.snapshot();
    sweep_interior1(&mut t, &a, |p: Patch<f64>| (p.l + p.r + p.up + p.dn) / 4.0);
    let got = rows_of(&t);
    assert_eq!(got[0], vec![1.0, 2.0, 3.0]);
    assert_eq!(got[2], vec![7.0, 8.0, 9.0]);
    assert_eq!(got[1], vec![4.0, (4.0 + 6.0 + 8.0 + 2.0) / 4.0, 6.0]);
}

/// The x-periodic sweep wraps the row neighbours: column 0 reads the last
/// column as its left neighbour and the last column reads column 0 as its
/// right neighbour.
#[test]
fn periodic_sweep_wraps_columns() {
    let mut t = Field::from_rows(
        vec![
            vec![0.0, 0.0, 0.0, 0.0],
            vec![10.0, 20.0, 30.0, 40.0],
            vec![0.0, 0.0, 0.0, 0.0],
        ],
        4,
    );
    let a = t.snapshot();
    let b = Field::filled(3, 4, 0.0_f64);
    sweep_periodic2(&mut t, &a, &b, |pa: Patch<f64>, _pb: Patch<f64>| pa.l);
    let got = rows_of(&t);
    assert_eq!(got[1], vec![40.0, 10.0, 20.0, 30.0]);
    assert_eq!(got[0], vec![0.0, 0.0, 0.0, 0.0]);
}

/// Field primitives: construction, reads, writes and row copies, checked
/// exactly.
#[test]
fn field_primitives_exact() {
    let mut f = Field::filled(3, 2, 0.5_f64);
    assert_eq!(f.ny(), 3);
    assert_eq!(f.nx(), 2);
    assert_eq!(f.get(2, 1), 0.5);
    f.set(1, 0, -3.0);
    assert_eq!(f.get(1, 0), -3.0);
    f.fill_row(0, 9.0);
    assert_eq!(f.row(0), vec![9.0, 9.0]);
    f.fill_col(1, 7.0);
    assert_eq!(f.get(0, 1), 7.0);
    assert_eq!(f.get(1, 1), 7.0);
    f.copy_row(2, 0);
    assert_eq!(f.row(2), vec![9.0, 7.0]);
    let vals = vec![1.0, 2.0, 3.0];
    f.set_col_from(0, &vals);
    assert_eq!(f.get(2, 0), 3.0);
    let snap = f.snapshot();
    f.set(0, 0, 100.0);
    assert_eq!(snap.get(0, 0), 1.0);
}

/// The hat profile holds the peak exactly on its index range and the base
/// elsewhere.
#[test]
fn hat_profile_exact() {
    let u = hat(6, 2, 4, 1.0_f64, 2.0_f64);
    assert_eq!(u, vec![1.0, 1.0, 2.0, 2.0, 1.0, 1.0]);
}

/// One Poisson relaxation sweep against a point source, checked exactly on
/// a small grid.
#[test]
fn poisson_sweep_exact_value() {
    let dx: f64 = 0.5;
    let dy: f64 = 0.25;
    let mut p = Field::from_rows(
        vec![
            vec![0.0, 1.0, 0.0],
            vec![2.0, 0.0, 4.0],
            vec![0.0, 3.0, 0.0],
        ],
        3,
    );
    let mut b = Field::filled(3, 3, 0.0_f64);
    b.set(1, 1, 8.0);
    let kernel = move |pp: cfd_rust::stencil::Patch<f64>, pb: cfd_rust::stencil::Patch<f64>| {
        ((pp.r + pp.l) * dy.powi(2) + (pp.up + pp.dn) * dx.powi(2)
            - pb.c * dx.powi(2) * dy.powi(2))
            / (2. * (dx.powi(2) + dy.powi(2)))
    };
    lesson::xd::solve(&mut p, &b, 0, kernel, 0.0);
    let expected = ((4.0 + 2.0) * dy.powi(2) + (3.0 + 1.0) * dx.powi(2)
        - 8.0 * dx.powi(2) * dy.powi(2))
        / (2. * (dx.powi(2) + dy.powi(2)));
    let got = rows_of(&p);
    assert_eq!(got[1][1], expected);
    assert_eq!(got[0], vec![0.0, 0.0, 0.0]);
    assert_eq!(got[1][0], 0.0);
    assert_eq!(got[1][2], 0.0);
    assert_eq!(got[2], vec![0.0, 0.0, 0.0]);
}
