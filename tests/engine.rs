use fractal_engine::band::Band;
use fractal_engine::color::{colorschemes, Rgba};
use fractal_engine::palette::{build_palette, needs_regeneration, next_scheme, PaletteError};
use fractal_engine::schedule::{band_height, plan_pass, RenderError};
use fractal_engine::work::{ResultsTable, WorkQueue};

fn gray(v: u8) -> Rgba {
    Rgba::new(v, v, v, 255)
}

#[test]
fn band_height_adds_margin() {
    assert_eq!(band_height(100, 4), 35);
    assert_eq!(band_height(600, 32), 18 + 18 * 32 / 10);
    assert_eq!(band_height(10, 1), 11);
    assert_eq!(band_height(9, 1), 9);
    assert_eq!(band_height(3, 8), 0);
}

#[test]
fn scenario_square_surface_four_bands() {
    let plan = plan_pass(100, 100, 4, 8, 21, 20).unwrap();
    assert_eq!(plan.band_height, 35);
    assert_eq!(plan.band_start(0), 0);
    assert_eq!(plan.band_start(1), 35);
    assert_eq!(plan.band_start(3), 105);
}

#[test]
fn plan_rejects_bad_snapshots() {
    assert_eq!(plan_pass(0, 100, 4, 8, 21, 20), Err(RenderError::DegenerateSurface));
    assert_eq!(plan_pass(100, 0, 4, 8, 21, 20), Err(RenderError::DegenerateSurface));
    assert_eq!(plan_pass(100, 100, 0, 8, 21, 20), Err(RenderError::NoBands));
    assert_eq!(plan_pass(100, 100, 4, 0, 21, 20), Err(RenderError::NoWorkers));
    assert_eq!(plan_pass(100, 100, 4, 8, 20, 20), Err(RenderError::PaletteTooShort));
    let plan = plan_pass(640, 480, 32, 8, 56, 55).unwrap();
    assert_eq!(plan.width, 640);
    assert_eq!(plan.band_count, 32);
    assert_eq!(plan.worker_count, 8);
}

#[test]
fn bands_cover_every_row_once() {
    let plan = plan_pass(100, 100, 4, 2, 21, 20).unwrap();
    let total = plan.band_count as u64 * plan.band_height;
    for row in 0..total {
        let mut owners = 0;
        for i in 0..plan.band_count {
            let start = plan.band_start(i);
            if start <= row && row < start + plan.band_height {
                owners += 1;
            }
        }
        assert_eq!(owners, 1);
    }
}

#[test]
fn queue_hands_out_lowest_index_first() {
    let mut q = WorkQueue::new(4);
    assert!(!q.is_empty());
    assert_eq!(q.take_next(), Some(0));
    assert_eq!(q.take_next(), Some(1));
    assert_eq!(q.take_next(), Some(2));
    assert_eq!(q.take_next(), Some(3));
    assert!(q.is_empty());
    assert_eq!(q.take_next(), None);
    assert_eq!(q.take_next(), None);
}

#[test]
fn empty_queue_hands_out_nothing() {
    let mut q = WorkQueue::new(0);
    assert!(q.is_empty());
    assert_eq!(q.take_next(), None);
}

#[test]
fn results_table_refuses_bad_stores() {
    let mut t: ResultsTable<u32> = ResultsTable::new(2);
    assert_eq!(t.len(), 2);
    assert_eq!(t.store(2, 7), Err(RenderError::BandOutOfRange));
    assert_eq!(t.store(0, 7), Ok(()));
    assert_eq!(t.store(0, 8), Err(RenderError::BandAlreadyStored));
    assert!(!t.is_complete());
    assert_eq!(t.finish(), Err(RenderError::MissingBand));
}

#[test]
fn results_do_not_depend_on_store_order() {
    let mut a: ResultsTable<u32> = ResultsTable::new(3);
    let mut b: ResultsTable<u32> = ResultsTable::new(3);
    for i in 0..3 {
        a.store(i, 10 + i as u32).unwrap();
    }
    for i in [2usize, 0, 1] {
        b.store(i, 10 + i as u32).unwrap();
    }
    assert!(a.is_complete());
    let ra = a.finish().unwrap();
    let rb = b.finish().unwrap();
    assert_eq!(ra, vec![10, 11, 12]);
    assert_eq!(ra, rb);
}

#[test]
fn palette_has_a_color_per_count() {
    let schemes = colorschemes();
    for scheme in &schemes {
        for max_iter in [0usize, 1, 2, 7, 20, 55, 1000] {
            let p = build_palette(scheme, max_iter).unwrap();
            assert_eq!(p.len(), max_iter + 1);
        }
    }
}

#[test]
fn palette_blends_between_anchors() {
    let scheme = vec![gray(0), gray(255)];
    let p = build_palette(&scheme, 4).unwrap();
    assert_eq!(p, vec![gray(0), gray(63), gray(127), gray(191), Rgba::black()]);
}

#[test]
fn palette_blends_downwards_and_alpha() {
    let scheme = vec![Rgba::new(200, 10, 100, 255), Rgba::new(100, 20, 100, 55), gray(0)];
    let p = build_palette(&scheme, 5).unwrap();
    assert_eq!(p.len(), 6);
    assert_eq!(p[0], Rgba::new(200, 10, 100, 255));
    assert_eq!(p[1], Rgba::new(150, 15, 100, 155));
    assert_eq!(p[2], Rgba::new(100, 20, 100, 55));
    assert_eq!(p[3], Rgba::new(50, 10, 50, 155));
    assert_eq!(p[4], Rgba::black());
    assert_eq!(p[5], Rgba::black());
}

#[test]
fn palette_short_cap_is_all_black() {
    let scheme = colorschemes()[5].clone();
    let p = build_palette(&scheme, 3).unwrap();
    assert_eq!(p, vec![Rgba::black(); 4]);
}

#[test]
fn palette_needs_two_anchors() {
    assert_eq!(build_palette(&vec![gray(3)], 10), Err(PaletteError::InvalidScheme));
    assert_eq!(build_palette(&Vec::new(), 10), Err(PaletteError::InvalidScheme));
}

#[test]
fn scheme_table_contents() {
    let schemes = colorschemes();
    assert_eq!(schemes.len(), 7);
    assert_eq!(schemes[0][0], Rgba::new(21, 29, 59, 255));
    assert_eq!(schemes[1].len(), 3);
    assert_eq!(schemes[6][7], Rgba::new(214, 93, 14, 255));
    assert!(schemes.iter().all(|s| s.len() >= 2));
}

#[test]
fn scheme_selection_wraps() {
    assert_eq!(next_scheme(0, 7), 1);
    assert_eq!(next_scheme(5, 7), 6);
    assert_eq!(next_scheme(6, 7), 0);
    assert_eq!(next_scheme(9, 7), 0);
    assert_eq!(next_scheme(usize::MAX, 7), 0);
}

#[test]
fn palette_regeneration_trigger() {
    assert!(needs_regeneration(55, 55, false));
    assert!(needs_regeneration(10, 55, false));
    assert!(!needs_regeneration(56, 55, false));
    assert!(needs_regeneration(56, 55, true));
}

#[test]
fn band_colors_counts_through_palette() {
    let palette = vec![gray(1), gray(2), gray(3)];
    let counts = vec![0usize, 1, 2, 3, 2, 0];
    let band = Band::from_counts(3, 2, &counts, &palette);
    assert_eq!(band.width(), 3);
    assert_eq!(band.height(), 2);
    assert_eq!(band.pixel(0, 0), gray(1));
    assert_eq!(band.pixel(2, 0), gray(3));
    assert_eq!(band.pixel(0, 1), Rgba::black());
    assert_eq!(band.pixel(1, 1), gray(3));
    assert_eq!(band.pixels().len(), 6);
}

#[test]
fn blank_band_is_one_color() {
    let band = Band::filled(4, 3, Rgba::white());
    assert_eq!(band.pixels().len(), 12);
    assert!(band.pixels().iter().all(|c| *c == Rgba::new(255, 255, 255, 255)));
}
