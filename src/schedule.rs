use vstd::prelude::*;

verus! {

/// Why a render pass cannot start or cannot be completed.
#[derive(Clone, Copy, Debug, PartialEq, Eq, Structural)]
pub enum RenderError {
    /// The surface has zero width or zero height.
    DegenerateSurface,
    /// The pass was asked to split the surface into zero bands.
    NoBands,
    /// The pass was given no workers to run on.
    NoWorkers,
    /// The palette has no color for some iteration count up to the cap.
    PaletteTooShort,
    /// A band index outside the results table.
    BandOutOfRange,
    /// A second result for a band that already has one.
    BandAlreadyStored,
    /// The pass ended with a band that no worker delivered.
    MissingBand,
    /// A worker stopped abnormally before the pass ended.
    WorkerPanic,
}

/// Rows in one band: the truncated share of the surface height, widened by
/// a margin of a tenth per band so that neighbouring bands leave no seam.
pub open spec fn band_height_spec(surface_height: int, band_count: int) -> int {
    let base = surface_height / band_count;
    base + base * band_count / 10
}

/// First surface row of band `index`.
pub open spec fn band_start_spec(band_height: int, index: int) -> int {
    index * band_height
}

pub fn band_height(surface_height: u32, band_count: u32) -> (r: u64)
    requires
        band_count >= 1,
    ensures
        r == band_height_spec(surface_height as int, band_count as int),
        r * band_count <= surface_height + surface_height * band_count / 10,
{
    let base: u64 = (surface_height / band_count) as u64;
    let b: u64 = band_count as u64;
    proof {
        let h = surface_height as int;
        let n = band_count as int;
        vstd::arithmetic::div_mod::lemma_fundamental_div_mod(h, n);
        assert(base * n <= h) by (nonlinear_arith)
            requires base == h / n, h == n * (h / n) + h % n, h % n >= 0;
        assert(base * n * n / 10 <= h * n / 10) by {
            assert(base * n * n <= h * n) by (nonlinear_arith)
                requires base * n <= h, n >= 1;
            vstd::arithmetic::div_mod::lemma_div_is_ordered(base * n * n, h * n, 10);
        }
        let x = base * n;
        vstd::arithmetic::div_mod::lemma_fundamental_div_mod(x, 10);
        assert((x / 10) * n * 10 <= x * n) by (nonlinear_arith)
            requires x == 10 * (x / 10) + x % 10, x % 10 >= 0, n >= 1;
        vstd::arithmetic::div_mod::lemma_div_is_ordered((x / 10) * n * 10, x * n, 10);
        vstd::arithmetic::div_mod::lemma_div_multiples_vanish((x / 10) * n, 10);
        assert((x / 10) * n * 10 == 10 * ((x / 10) * n)) by (nonlinear_arith);
        assert(x * n == base * n * n) by (nonlinear_arith) requires x == base * n;
        assert((base + base * n / 10) * n <= h + h * n / 10) by (nonlinear_arith)
            requires
                base * n <= h,
                base * n * n / 10 <= h * n / 10,
                base >= 0,
                n >= 1,
                (base * n / 10) * n <= base * n * n / 10;
    }
    base + base * b / 10
}

/// The integer layout of one render pass, checked before any worker starts.
#[derive(Clone, Copy, Debug, PartialEq, Eq, Structural)]
pub struct PassPlan {
    pub width: u32,
    pub surface_height: u32,
    pub band_count: u32,
    pub worker_count: u32,
    pub band_height: u64,
}

impl PassPlan {
    pub open spec fn wf(self) -> bool {
        &&& self.width >= 1
        &&& self.surface_height >= 1
        &&& self.band_count >= 1
        &&& self.worker_count >= 1
        &&& self.band_height == band_height_spec(self.surface_height as int, self.band_count as int)
    }

    /// Rows that the bands of this pass cover together, margins included.
    pub open spec fn covered_rows(self) -> int {
        self.band_count * self.band_height
    }

    /// First surface row of band `index`: the row offset that its pixels are
    /// mapped with.
    pub fn band_start(&self, index: u32) -> (r: u64)
        requires
            self.wf(),
            index < self.band_count,
        ensures
            r == band_start_spec(self.band_height as int, index as int),
    {
        let bh = band_height(self.surface_height, self.band_count);
        proof {
            let h = self.surface_height as int;
            let n = self.band_count as int;
            let i = index as int;
            assert(i * bh <= bh * n) by (nonlinear_arith)
                requires 0 <= i < n, bh >= 0;
            assert(h * n <= 0xffff_ffff * 0xffff_ffff) by (nonlinear_arith)
                requires 0 <= h <= 0xffff_ffff, 0 <= n <= 0xffff_ffff;
            vstd::arithmetic::div_mod::lemma_div_is_ordered(h * n, (0xffff_ffff * 0xffff_ffff) as int, 10);
        }
        (index as u64) * bh
    }
}

/// Checks the integer side of a render snapshot and lays out its bands.
/// A palette must hold a color for each iteration count `0..=max_iter`.
pub fn plan_pass(
    width: u32,
    surface_height: u32,
    band_count: u32,
    worker_count: u32,
    palette_len: usize,
    max_iter: usize,
) -> (r: Result<PassPlan, RenderError>)
    ensures
        (width == 0 || surface_height == 0) <==> r == Err::<PassPlan, RenderError>(
            RenderError::DegenerateSurface,
        ),
        (width >= 1 && surface_height >= 1 && band_count == 0) <==> r == Err::<
            PassPlan,
            RenderError,
        >(RenderError::NoBands),
        (width >= 1 && surface_height >= 1 && band_count >= 1 && worker_count == 0) <==> r
            == Err::<PassPlan, RenderError>(RenderError::NoWorkers),
        (width >= 1 && surface_height >= 1 && band_count >= 1 && worker_count >= 1
            && palette_len <= max_iter) <==> r == Err::<PassPlan, RenderError>(
            RenderError::PaletteTooShort,
        ),
        r is Ok <==> (width >= 1 && surface_height >= 1 && band_count >= 1 && worker_count >= 1
            && palette_len > max_iter),
        r is Ok ==> {
            let p = r->Ok_0;
            &&& p.wf()
            &&& p.width == width
            &&& p.surface_height == surface_height
            &&& p.band_count == band_count
            &&& p.worker_count == worker_count
        },
{
    if width == 0 || surface_height == 0 {
        return Err(RenderError::DegenerateSurface);
    }
    if band_count == 0 {
        return Err(RenderError::NoBands);
    }
    if worker_count == 0 {
        return Err(RenderError::NoWorkers);
    }
    if palette_len <= max_iter {
        return Err(RenderError::PaletteTooShort);
    }
    let band_height = band_height(surface_height, band_count);
    Ok(PassPlan { width, surface_height, band_count, worker_count, band_height })
}

/// The bands of a pass tile the rows `0..band_count * band_height`: each such
/// row lies in exactly one band.
pub proof fn lemma_bands_cover_rows(plan: PassPlan, row: int)
    requires
        plan.wf(),
        0 <= row < plan.covered_rows(),
    ensures
        exists|i: int|
            0 <= i < plan.band_count && #[trigger] band_start_spec(plan.band_height as int, i) <= row
                < band_start_spec(plan.band_height as int, i + 1),
        forall|i: int, j: int|
            #[trigger] band_start_spec(plan.band_height as int, i) <= row < band_start_spec(
                plan.band_height as int,
                i + 1,
            ) && #[trigger] band_start_spec(plan.band_height as int, j) <= row < band_start_spec(
                plan.band_height as int,
                j + 1,
            ) ==> i == j,
{
    let bh = plan.band_height as int;
    let n = plan.band_count as int;
    assert(bh > 0) by (nonlinear_arith)
        requires 0 <= row < n * bh, bh >= 0;
    let i = row / bh;
    vstd::arithmetic::div_mod::lemma_fundamental_div_mod(row, bh);
    assert(i * bh <= row < (i + 1) * bh) by (nonlinear_arith)
        requires row == bh * i + row % bh, 0 <= row % bh < bh;
    assert(0 <= i < n) by (nonlinear_arith)
        requires i * bh <= row < (i + 1) * bh, row < n * bh, bh > 0, row >= 0;
    assert(band_start_spec(bh, i) <= row < band_start_spec(bh, i + 1));
    assert forall|a: int, b: int|
        #[trigger] band_start_spec(bh, a) <= row < band_start_spec(bh, a + 1) && #[trigger] band_start_spec(bh, b)
            <= row < band_start_spec(bh, b + 1) implies a == b by {
        if a < b {
            assert((a + 1) * bh <= b * bh) by (nonlinear_arith)
                requires a < b, bh > 0;
        } else if b < a {
            assert((b + 1) * bh <= a * bh) by (nonlinear_arith)
                requires b < a, bh > 0;
        }
    }
}

} // verus!
