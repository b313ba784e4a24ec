//! The lesson runs: each test sets up one lesson's default grid, initial
//! condition and physical parameters, builds the per-cell kernels from
//! them, and advances the solver through its configured steps.

use cfd_rust::field::Field;
use cfd_rust::lesson;
use cfd_rust::line::hat;
use cfd_rust::stencil::Patch;
use std::f64::consts::PI;

fn linspace(a: f64, b: f64, n: usize) -> Vec<f64> {
    let mut v = Vec::with_capacity(n);
    for i in 0..n {
        v.push(a + (b - a) * i as f64 / (n as f64 - 1.0));
    }
    v
}

fn sum_abs(rows: &[Vec<f64>]) -> f64 {
    rows.iter().flatten().map(|x| x.abs()).sum()
}

fn sum_all(rows: &[Vec<f64>]) -> f64 {
    rows.iter().flatten().sum()
}

fn ufunc(t: f64, x: f64, nu: f64) -> f64 {
    -2. * nu
        * (-(-8. * t + 2. * x) * (-(-4. * t + x).powi(2) / (4. * nu * (t + 1.))).exp()
            / (4. * nu * (t + 1.))
            - (-8. * t + 2. * x - 4. * PI)
                * (-(-4. * t + x - 2. * PI).powi(2) / (4. * nu * (t + 1.))).exp()
                / (4. * nu * (t + 1.)))
        / ((-(-4. * t + x - 2. * PI).powi(2) / (4. * nu * (t + 1.))).exp()
            + (-(-4. * t + x).powi(2) / (4. * nu * (t + 1.))).exp())
        + 4.
}

#[test]
fn x2() {
    let nx = 41;
    let nt = 25;
    let dt = 0.025_f64;
    let dx = 2. / (nx as f64 - 1.);
    let begin = (0.5 / dx) as usize;
    let end = (1. / dx + 1.) as usize;
    let mut u = hat(nx, begin, end, 1.0, 2.0);
    lesson::x2::solve(&mut u, nt, move |c: f64, l: f64| c - c * dt / dx * (c - l));
    assert_eq!(u.len(), nx);
}

#[test]
fn x3() {
    let nx = 85;
    let nt = 25;
    let c_speed = 1.0_f64;
    let sigma = 0.5_f64;
    let dx = 2. / (nx as f64 - 1.);
    let dt = sigma * dx;
    let begin = (0.5 / dx) as usize;
    let end = (1. / dx + 1.) as usize;
    let mut u = hat(nx, begin, end, 1.0, 2.0);
    lesson::x3::solve(&mut u, nt, move |c: f64, l: f64| c - c_speed * dt / dx * (c - l));
    assert_eq!(u.len(), nx);
}

#[test]
fn x4() {
    let nx = 41;
    let nt = 20;
    let nu = 0.3_f64;
    let sigma = 0.2_f64;
    let dx = 2. / (nx as f64 - 1.);
    let dt = sigma * dx.powi(2) / nu;
    let begin = (0.5 / dx) as usize;
    let end = (1. / dx + 1.) as usize;
    let mut u = hat(nx, begin, end, 1.0, 2.0);
    lesson::x4::solve(&mut u, nt, move |l: f64, c: f64, r: f64| {
        c + nu * dt / dx.powi(2) * (r - 2. * c + l)
    });
    assert_eq!(u.len(), nx);
}

#[test]
fn x5() {
    let nx = 101;
    let nt = 100;
    let nu = 0.07_f64;
    let dx = 2. * PI / (nx as f64 - 1.);
    let dt = dx * nu;
    let mut u = vec![1.0_f64; nx];
    for (ith, x0) in linspace(0., 2. * PI, nx).into_iter().enumerate() {
        u[ith] = ufunc(0., x0, nu);
    }
    lesson::x5::solve(&mut u, nt, move |l: f64, c: f64, r: f64| {
        c - c * dt / dx * (c - l) + nu * dt / dx.powi(2) * (r - 2. * c + l)
    });
    assert_eq!(u.len(), nx);
}

#[test]
fn x7() {
    let nx = 81;
    let ny = 81;
    let nt = 100;
    let c_speed = 1.0_f64;
    let sigma = 0.2_f64;
    let dx = 2. / (nx as f64 - 1.);
    let dy = 2. / (ny as f64 - 1.);
    let dt = sigma * dx;
    let x_begin = (0.5 / dx) as usize;
    let x_end = (1. / dx + 1.) as usize;
    let y_begin = (0.5 / dy) as usize;
    let y_end = (1. / dy + 1.) as usize;
    let mut u = Field::block(ny, nx, x_begin, x_end, y_begin, y_end, 1.0, 2.0);
    lesson::x7::solve(
        &mut u,
        nt,
        move |ce: f64, le: f64, dn: f64| {
            ce - c_speed * dt / dx * (ce - le) - c_speed * dt / dy * (ce - dn)
        },
        1.0,
    );
    assert_eq!(u.ny(), ny);
    assert_eq!(u.nx(), nx);
}

#[test]
fn x8() {
    let nx = 101;
    let ny = 101;
    let nt = 80;
    let sigma = 0.2_f64;
    let dx = 2. / (nx as f64 - 1.);
    let dy = 2. / (ny as f64 - 1.);
    let dt = sigma * dx;
    let x_begin = (0.5 / dx) as usize;
    let x_end = (1. / dx + 1.) as usize;
    let y_begin = (0.5 / dy) as usize;
    let y_end = (1. / dy + 1.) as usize;
    let mut u = Field::block(ny, nx, x_begin, x_end, y_begin, y_end, 1.0, 2.0);
    let mut v = Field::block(ny, nx, x_begin, x_end, y_begin, y_end, 1.0, 2.0);
    let fu = move |ac: f64, al: f64, ad: f64, bc: f64, _bl: f64, _bd: f64| {
        ac - ac * dt / dx * (ac - al) - bc * dt / dy * (ac - ad)
    };
    let fv = move |ac: f64, al: f64, ad: f64, bc: f64, _bl: f64, _bd: f64| {
        ac - bc * dt / dx * (ac - al) - ac * dt / dy * (ac - ad)
    };
    lesson::x8::solve(&mut u, &mut v, nt, fu, fv, 1.0);
    assert_eq!(u.ny(), ny);
    assert_eq!(v.nx(), nx);
}

#[test]
fn x9() {
    let nx = 31;
    let ny = 31;
    let nt = 17;
    let nu = 0.05_f64;
    let sigma = 0.25_f64;
    let dx = 2. / (nx as f64 - 1.);
    let dy = 2. / (ny as f64 - 1.);
    let dt = sigma * dx * dy / nu;
    let x_begin = (0.5 / dx) as usize;
    let x_end = (1. / dx + 1.) as usize;
    let y_begin = (0.5 / dy) as usize;
    let y_end = (1. / dy + 1.) as usize;
    let mut u = Field::block(ny, nx, x_begin, x_end, y_begin, y_end, 1.0, 2.0);
    lesson::x9::solve(
        &mut u,
        nt,
        move |p: Patch<f64>| {
            p.c + nu * dt / dx.powi(2) * (p.r - 2. * p.c + p.l)
                + nu * dt / dy.powi(2) * (p.up - 2. * p.c + p.dn)
        },
        1.0,
    );
    assert_eq!(u.ny(), ny);
}

#[test]
fn xa() {
    let nx = 41;
    let ny = 41;
    let nt = 120;
    let nu = 0.01_f64;
    let sigma = 0.0009_f64;
    let dx = 2. / (nx as f64 - 1.);
    let dy = 2. / (ny as f64 - 1.);
    let dt = sigma * dx * dy / nu;
    let x_begin = (0.5 / dx) as usize;
    let x_end = (1. / dx + 1.) as usize;
    let y_begin = (0.5 / dy) as usize;
    let y_end = (1. / dy + 1.) as usize;
    let mut u = Field::block(ny, nx, x_begin, x_end, y_begin, y_end, 1.0, 2.0);
    let mut v = Field::block(ny, nx, x_begin, x_end, y_begin, y_end, 1.0, 2.0);
    let fu = move |pa: Patch<f64>, pb: Patch<f64>| {
        pa.c - dt / dx * pa.c * (pa.c - pa.l) - dt / dy * pb.c * (pa.c - pa.dn)
            + nu * dt / dx.powi(2) * (pa.r - 2. * pa.c + pa.l)
            + nu * dt / dy.powi(2) * (pa.up - 2. * pa.c + pa.dn)
    };
    let fv = move |pa: Patch<f64>, pb: Patch<f64>| {
        pa.c - dt / dx * pb.c * (pa.c - pa.l) - dt / dy * pa.c * (pa.c - pa.dn)
            + nu * dt / dx.powi(2) * (pa.r - 2. * pa.c + pa.l)
            + nu * dt / dy.powi(2) * (pa.up - 2. * pa.c + pa.dn)
    };
    lesson::xa::solve(&mut u, &mut v, nt, fu, fv, 1.0);
    assert_eq!(u.ny(), ny);
    assert_eq!(v.nx(), nx);
}

#[test]
fn xc() {
    let nx = 31;
    let ny = 31;
    let eps = 1e-4_f64;
    let dx = 2. / (nx as f64 - 1.);
    let dy = 2. / (ny as f64 - 1.);
    let y = linspace(0., 1., nx);
    let mut p = Field::filled(ny, nx, 0.0_f64);
    p.apply_laplace_bc(0.0, &y);
    let kernel = move |pa: Patch<f64>| {
        (dy.powi(2) * (pa.r + pa.l) + dx.powi(2) * (pa.up + pa.dn))
            / (2. * (dx.powi(2) + dy.powi(2)))
    };
    let done = move |pn: Vec<Vec<f64>>, pq: Vec<Vec<f64>>| {
        let norm = (sum_abs(&pq) - sum_abs(&pn)).abs() / sum_abs(&pn);
        !(norm > eps)
    };
    let steps = lesson::xc::solve(&mut p, &y, 0.0, kernel, done, 100000);
    assert!(steps < 100000);
}

#[test]
fn xd() {
    let nx = 50;
    let ny = 50;
    let nt = 100;
    let dx = 2. / (nx as f64 - 1.);
    let dy = 1. / (ny as f64 - 1.);
    let mut p = Field::filled(ny, nx, 0.0_f64);
    let mut b = Field::filled(ny, nx, 0.0_f64);
    b.set(ny / 4, nx / 4, 100.0);
    b.set(3 * ny / 4, 3 * nx / 4, -100.0);
    let kernel = move |pp: Patch<f64>, pb: Patch<f64>| {
        ((pp.r + pp.l) * dy.powi(2) + (pp.up + pp.dn) * dx.powi(2)
            - pb.c * dx.powi(2) * dy.powi(2))
            / (2. * (dx.powi(2) + dy.powi(2)))
    };
    lesson::xd::solve(&mut p, &b, nt, kernel, 0.0);
    assert_eq!(p.ny(), ny);
}

fn cavity_kernels(
    dx: f64,
    dy: f64,
    dt: f64,
    rho: f64,
    nu: f64,
) -> (
    impl Fn(Patch<f64>, Patch<f64>) -> f64 + Copy,
    impl Fn(Patch<f64>, Patch<f64>) -> f64 + Copy,
    impl Fn(Patch<f64>, Patch<f64>, Patch<f64>) -> f64 + Copy,
    impl Fn(Patch<f64>, Patch<f64>, Patch<f64>) -> f64 + Copy,
) {
    let fb = move |pu: Patch<f64>, pv: Patch<f64>| {
        rho * (1. / dt
            * ((pu.r - pu.l) / (2. * dx) + (pv.up - pv.dn) / (2. * dy))
            - ((pu.r - pu.l) / (2. * dx)).powi(2)
            - 2. * ((pu.up - pu.dn) / (2. * dy) * (pv.r - pv.l) / (2. * dx))
            - ((pv.up - pv.dn) / (2. * dy)).powi(2))
    };
    let fp = move |pp: Patch<f64>, pb: Patch<f64>| {
        ((pp.r + pp.l) * dy.powi(2) + (pp.up + pp.dn) * dx.powi(2))
            / (2. * (dx.powi(2) + dy.powi(2)))
            - dx.powi(2) * dy.powi(2) / (2. * (dx.powi(2) + dy.powi(2))) * pb.c
    };
    let fu = move |pu: Patch<f64>, pv: Patch<f64>, pp: Patch<f64>| {
        pu.c - pu.c * dt / dx * (pu.c - pu.l) - pv.c * dt / dy * (pu.c - pu.dn)
            - dt / (2. * rho * dx) * (pp.r - pp.l)
            + nu * (dt / dx.powi(2) * (pu.r - 2. * pu.c + pu.l)
                + dt / dy.powi(2) * (pu.up - 2. * pu.c + pu.dn))
    };
    let fv = move |pu: Patch<f64>, pv: Patch<f64>, pp: Patch<f64>| {
        pv.c - pu.c * dt / dx * (pv.c - pv.l) - pv.c * dt / dy * (pv.c - pv.dn)
            - dt / (2. * rho * dy) * (pp.up - pp.dn)
            + nu * (dt / dx.powi(2) * (pv.r - 2. * pv.c + pv.l)
                + dt / dy.powi(2) * (pv.up - 2. * pv.c + pv.dn))
    };
    (fb, fp, fu, fv)
}

#[test]
fn xe() {
    let nx = 41;
    let ny = 41;
    let nt = 500;
    let nit = 50;
    let dt = 0.001_f64;
    let rho = 1.0_f64;
    let nu = 0.1_f64;
    let dx = 2. / (nx as f64 - 1.);
    let dy = 2. / (ny as f64 - 1.);
    let mut u = Field::filled(ny, nx, 0.0_f64);
    let mut v = Field::filled(ny, nx, 0.0_f64);
    let mut p = Field::filled(ny, nx, 0.0_f64);
    let (fb, fp, fu, fv) = cavity_kernels(dx, dy, dt, rho, nu);
    lesson::xe::solve(&mut u, &mut v, &mut p, nt, nit, fb, fp, fu, fv, 0.0, 1.0);
    for f in [&u, &v, &p] {
        assert_eq!(f.ny(), ny);
        assert_eq!(f.nx(), nx);
        for row in f.rows_vec() {
            for x in row {
                assert!(x.is_finite());
            }
        }
    }
}

#[test]
fn xf() {
    let nx = 41;
    let ny = 41;
    let nit = 50;
    let dt = 0.01_f64;
    let rho = 1.0_f64;
    let nu = 0.1_f64;
    let force = 1.0_f64;
    let dx = 2. / (nx as f64 - 1.);
    let dy = 2. / (ny as f64 - 1.);
    let mut u = Field::filled(ny, nx, 0.0_f64);
    let mut v = Field::filled(ny, nx, 0.0_f64);
    let mut p = Field::filled(ny, nx, 1.0_f64);
    let fb = move |pu: Patch<f64>, pv: Patch<f64>| {
        rho * (1. / dt
            * ((pu.r - pu.l) / (2. * dx) + (pv.up - pv.dn) / (2. * dy))
            - ((pu.r - pu.l) / (2. * dx)).powi(2)
            - 2. * ((pu.up - pu.dn) / (2. * dy) * (pv.r - pv.l) / (2. * dx))
            - ((pv.up - pv.dn) / (2. * dy)).powi(2))
    };
    let fp = move |pp: Patch<f64>, pb: Patch<f64>| {
        ((pp.r + pp.l) * dy.powi(2) + (pp.up + pp.dn) * dx.powi(2))
            / (2. * (dx.powi(2) + dy.powi(2)))
            - dx.powi(2) * dy.powi(2) / (2. * (dx.powi(2) + dy.powi(2))) * pb.c
    };
    let fu = move |pu: Patch<f64>, pv: Patch<f64>, pp: Patch<f64>| {
        pu.c - pu.c * dt / dx * (pu.c - pu.l) - pv.c * dt / dy * (pu.c - pu.dn)
            - dt / (2. * rho * dx) * (pp.r - pp.l)
            + nu * (dt / dx.powi(2) * (pu.r - 2. * pu.c + pu.l)
                + dt / dy.powi(2) * (pu.up - 2. * pu.c + pu.dn))
            + force * dt
    };
    let fv = move |pu: Patch<f64>, pv: Patch<f64>, pp: Patch<f64>| {
        pv.c - pu.c * dt / dx * (pv.c - pv.l) - pv.c * dt / dy * (pv.c - pv.dn)
            - dt / (2. * rho * dy) * (pp.up - pp.dn)
            + nu * (dt / dx.powi(2) * (pv.r - 2. * pv.c + pv.l)
                + dt / dy.powi(2) * (pv.up - 2. * pv.c + pv.dn))
    };
    let done = move |unew: Vec<Vec<f64>>, uold: Vec<Vec<f64>>| {
        let udiff = (sum_all(&unew) - sum_all(&uold)).abs() / sum_all(&unew);
        !(udiff > 0.001)
    };
    let steps = lesson::xf::solve(
        &mut u, &mut v, &mut p, nit, fb, fp, fu, fv, 0.0, done, 100000,
    );
    assert!(steps < 100000);
}
