use bethe_bloch::chart::{
    lin_offset,
    log_offset,
    render_bethe,
    render_bethe_checked,
    render_energy,
    render_energy_checked,
    RenderError,
    CHART_H,
    CHART_W,
};
use bethe_bloch::config::{AxisRange, ChartConfig};
use bethe_bloch::fixed::ONE;
use bethe_bloch::orchestrator::App;
use bethe_bloch::physics::BG_LOG_FLOOR;
use bethe_bloch::raster::Raster;

/// The background fill covers the whole buffer with the background color.
#[test]
fn fill_covers_buffer() {
    let r = Raster::new_filled(550, 500, (40, 40, 40));
    assert_eq!(r.data.len(), 550 * 500 * 3);
    assert!(r.data.iter().all(|&b| b == 40));
}

/// A single pixel write lands on exactly its three bytes.
#[test]
fn set_pixel_writes_three_bytes() {
    let mut r = Raster::new_filled(10, 10, (0, 0, 0));
    r.set_pixel(1, 2, (9, 8, 7));
    let base = 3 * (2 * 10 + 1);
    assert_eq!(&r.data[base..base + 3], &[9, 8, 7]);
    assert_eq!(r.data.iter().filter(|&&b| b != 0).count(), 3);
}

/// A horizontal line paints exactly its span.
#[test]
fn hline_paints_span() {
    let mut r = Raster::new_filled(10, 10, (0, 0, 0));
    r.draw_hline(2, 1, 3, (5, 5, 5));
    for x in 1..=3usize {
        let base = 3 * (2 * 10 + x);
        assert_eq!(&r.data[base..base + 3], &[5, 5, 5]);
    }
    assert_eq!(r.data.iter().filter(|&&b| b != 0).count(), 9);
}

/// A stroked segment covers every interpolation step along its longer
/// axis, with stroke width two.
#[test]
fn segment_covers_diagonal() {
    let mut r = Raster::new_filled(8, 8, (0, 0, 0));
    r.draw_segment(1, 1, 4, 4, (7, 7, 7));
    for t in 1..=4usize {
        let base = 3 * (t * 8 + t);
        assert_eq!(&r.data[base..base + 3], &[7, 7, 7]);
    }
    // stroke width two: the right and lower neighbors are painted too
    let base = 3 * (1 * 8 + 2);
    assert_eq!(&r.data[base..base + 3], &[7, 7, 7]);
}

/// The axis frame of the stopping-power chart sits at its documented
/// layout position.
#[test]
fn bethe_frame_position() {
    let cfg = ChartConfig::startup();
    let b = render_bethe(&cfg);
    // left axis line at column 80, top row 46 of the plot rectangle
    let base = 3 * (46 * 550 + 80);
    assert_eq!(&b.data[base..base + 3], &[255, 255, 255]);
    // a caption-margin pixel keeps the background color
    let margin = 3 * (10 * 550 + 10);
    assert_eq!(&b.data[margin..margin + 3], &[40, 40, 40]);
}

/// The linear transform maps the midpoint to the middle of the span and
/// the bounds to its edges, clamping out-of-band values.
#[test]
fn linear_transform_endpoints() {
    assert_eq!(lin_offset(0, 0, 100, 10), 0);
    assert_eq!(lin_offset(50, 0, 100, 10), 5);
    assert_eq!(lin_offset(100, 0, 100, 10), 10);
    assert_eq!(lin_offset(2000, 0, 100, 10), 10);
    assert_eq!(lin_offset(-50, 0, 100, 10), 0);
}

/// The logarithmic transform pins the domain bounds to the span's edges
/// and is monotone on a geometric ladder between them.
#[test]
fn log_transform_endpoints_and_monotone() {
    let lo = BG_LOG_FLOOR;
    let hi = 1000 * ONE;
    assert_eq!(log_offset(lo, lo, hi, 448), 0);
    assert_eq!(log_offset(hi, lo, hi, 448), 448);
    let mut prev = 0;
    let mut v = lo;
    while v <= hi {
        let off = log_offset(v, lo, hi, 448);
        assert!(off >= prev);
        prev = off;
        v *= 2;
    }
    // a logarithmic axis spaces a geometric ladder evenly: one octave is
    // about 448 / log2(1000 / 0.001953) pixels wide here
    let o1 = log_offset(ONE, lo, hi, 448);
    let o2 = log_offset(2 * ONE, lo, hi, 448);
    let o4 = log_offset(4 * ONE, lo, hi, 448);
    assert!((o2 - o1) >= 20 && (o4 - o2) >= 20);
    assert!(((o2 - o1) as i64 - (o4 - o2) as i64).abs() <= 1);
}

/// Rendering twice with an identical configuration produces byte-identical
/// pixel buffers, for both charts.
#[test]
fn render_is_idempotent() {
    let cfg = ChartConfig::startup();
    let b1 = render_bethe(&cfg);
    let b2 = render_bethe(&cfg);
    assert_eq!(b1.data, b2.data);
    let e1 = render_energy(&cfg);
    let e2 = render_energy(&cfg);
    assert_eq!(e1.data, e2.data);
    assert_eq!(b1.width, CHART_W);
    assert_eq!(b1.height, CHART_H);
}

/// The rendered buffer is not just background: the curve and the frame
/// leave their colors in it.
#[test]
fn render_draws_something() {
    let cfg = ChartConfig::startup();
    let b = render_bethe(&cfg);
    assert!(b.data.iter().any(|&x| x == 255));
    let e = render_energy(&cfg);
    assert!(e.data.iter().any(|&x| x == 255));
}

/// Changing only a stopping-power axis leaves the energy chart's buffer
/// unchanged, and the other way round: each chart is a function of its own
/// parameters alone.
#[test]
fn charts_are_independent() {
    let c1 = ChartConfig::startup();
    let mut c2 = c1;
    c2.set_bethe_y(ONE, 40 * ONE);
    c2.set_a(12 * ONE);
    assert_eq!(render_energy(&c1).data, render_energy(&c2).data);
    let mut c3 = c1;
    c3.set_energy_y(0, 400 * ONE);
    assert_eq!(render_bethe(&c1).data, render_bethe(&c3).data);
    assert_ne!(render_bethe(&c1).data, render_bethe(&c2).data);
}

/// Boundary: an axis narrowed to exactly the minimum allowed gap still
/// renders; an inverted range reaching the renderer is refused as a domain
/// error, leaving no buffer.
#[test]
fn boundary_gap_renders_and_inverted_fails() {
    let mut cfg = ChartConfig::startup();
    cfg.set_bethe_x(500 * ONE - 104858, 500 * ONE);
    cfg.set_energy_x(ONE - 10486, ONE);
    assert!(render_bethe_checked(&cfg).is_ok());
    assert!(render_energy_checked(&cfg).is_ok());

    let mut bad = ChartConfig::startup();
    bad.bethe_x = AxisRange { min: 10 * ONE, max: ONE };
    match render_bethe_checked(&bad) {
        Err(RenderError::InvalidDomain) => {}
        Ok(_) => panic!("inverted axis must not render"),
    }
    let mut bad2 = ChartConfig::startup();
    bad2.bethe_x = AxisRange { min: 0, max: 1000 * ONE };
    assert!(render_bethe_checked(&bad2).is_err());
}

/// The orchestrator allocates both texture handles once, publishes both
/// charts, and an unchanged cycle leaves the published textures untouched.
#[test]
fn orchestrator_unchanged_cycle_keeps_textures() {
    let mut app = App::startup();
    assert_eq!(app.store.slots.len(), 2);
    assert_eq!(app.bethe_tex.idx, 0);
    assert_eq!(app.energy_tex.idx, 1);
    let before_bethe = app.store.slots[0].clone();
    let before_energy = app.store.slots[1].clone();
    let cfg = app.config;
    app.on_cycle(cfg, false);
    assert_eq!(app.store.slots[0], before_bethe);
    assert_eq!(app.store.slots[1], before_energy);
}

/// A changed cycle republishes both charts under the same handles; a cycle
/// that edits only the stopping-power chart's parameters republishes an
/// identical energy texture.
#[test]
fn orchestrator_changed_cycle_republishes() {
    let mut app = App::startup();
    let before_bethe = app.store.slots[0].clone();
    let before_energy = app.store.slots[1].clone();
    let mut cfg = app.config;
    cfg.set_bethe_y(0, 40 * ONE);
    app.on_cycle(cfg, true);
    assert_eq!(app.store.slots.len(), 2);
    assert_ne!(app.store.slots[0], before_bethe);
    assert_eq!(app.store.slots[1], before_energy);
}

/// Publishing converts the byte buffer into per-pixel colors.
#[test]
fn published_texture_matches_buffer() {
    let app = App::startup();
    let cfg = app.config;
    let b = render_bethe(&cfg);
    let tex = &app.store.slots[0];
    assert_eq!(tex.len(), 550 * 500);
    for (i, px) in tex.iter().enumerate().step_by(3137) {
        assert_eq!(*px, (b.data[3 * i], b.data[3 * i + 1], b.data[3 * i + 2]));
    }
}
