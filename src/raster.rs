use vstd::prelude::*;

verus! {

/// Size and sampling parameters of one render.
#[derive(Clone, Copy, Debug, PartialEq, Eq, Structural)]
pub struct RenderConfig {
    pub width: u32,
    pub height: u32,
    /// Jittered samples averaged into each pixel.
    pub samples: u32,
    /// Bounce depth at which a light path is cut off.
    pub max_depth: u32,
}

impl RenderConfig {
    /// A usable configuration: a non-empty image whose pixel count fits in
    /// memory indices, and at least one sample per pixel.
    pub open spec fn wf(&self) -> bool {
        &&& self.width > 0
        &&& self.height > 0
        &&& self.samples > 0
        &&& self.width * self.height <= usize::MAX
    }

    /// Output slot of the pixel in column `col` and row `row`: slots run
    /// row by row from the top of the image, while rows are counted up
    /// from the bottom.
    pub open spec fn slot_spec(&self, col: int, row: int) -> int {
        (self.height - 1 - row) * self.width + col
    }

    /// A configuration, or `None` when it is not usable (see `wf`).
    pub fn new(width: u32, height: u32, samples: u32, max_depth: u32) -> (r: Option<RenderConfig>)
        ensures
            r is Some <==> (RenderConfig { width, height, samples, max_depth }).wf(),
            r matches Some(c) ==> c == (RenderConfig { width, height, samples, max_depth }),
    {
        if width == 0 || height == 0 || samples == 0 {
            return None;
        }
        proof {
            assert(width * height <= u32::MAX * u32::MAX) by (nonlinear_arith)
                requires
                    width <= u32::MAX,
                    height <= u32::MAX,
            ;
        }
        let n: u64 = width as u64 * height as u64;
        if n > usize::MAX as u64 {
            None
        } else {
            Some(RenderConfig { width, height, samples, max_depth })
        }
    }

    /// Number of pixels, and of output slots.
    pub fn pixel_count(&self) -> (r: usize)
        requires
            self.wf(),
        ensures
            r == self.width * self.height,
    {
        (self.width as u64 * self.height as u64) as usize
    }

    /// Column and row of the pixel that output slot `index` holds.
    pub fn pixel_of_slot(&self, index: usize) -> (r: (u32, u32))
        requires
            self.wf(),
            index < self.width * self.height,
        ensures
            r.0 < self.width,
            r.1 < self.height,
            self.slot_spec(r.0 as int, r.1 as int) == index,
    {
        let w = self.width as usize;
        let q = index / w;
        let col = index % w;
        proof {
            assert(index == q * w + col) by (nonlinear_arith)
                requires
                    w > 0,
                    q == index / w,
                    col == index % w,
            ;
            assert(q < self.height) by (nonlinear_arith)
                requires
                    w > 0,
                    q == index / w,
                    index < w * self.height,
            ;
        }
        (col as u32, self.height - 1 - q as u32)
    }

    /// Output slot of the pixel in column `col` and row `row`.
    pub fn slot_of_pixel(&self, col: u32, row: u32) -> (r: usize)
        requires
            self.wf(),
            col < self.width,
            row < self.height,
        ensures
            r == self.slot_spec(col as int, row as int),
            r < self.width * self.height,
    {
        let up: u32 = self.height - 1 - row;
        proof {
            assert(up * self.width + col < self.width * self.height) by (nonlinear_arith)
                requires
                    up < self.height,
                    col < self.width,
            ;
        }
        up as usize * self.width as usize + col as usize
    }
}

/// Each pixel has exactly one output slot: distinct pixels go to distinct
/// slots, and every slot belongs to some pixel.
pub proof fn lemma_slots_match_pixels(cfg: RenderConfig, c1: int, r1: int, c2: int, r2: int, index: int)
    requires
        cfg.wf(),
        0 <= c1 < cfg.width,
        0 <= r1 < cfg.height,
        0 <= c2 < cfg.width,
        0 <= r2 < cfg.height,
        0 <= index < cfg.width * cfg.height,
    ensures
        0 <= cfg.slot_spec(c1, r1) < cfg.width * cfg.height,
        cfg.slot_spec(c1, r1) == cfg.slot_spec(c2, r2) ==> c1 == c2 && r1 == r2,
        exists|c: int, r: int|
            0 <= c < cfg.width && 0 <= r < cfg.height && cfg.slot_spec(c, r) == index,
{
    let w = cfg.width as int;
    let h = cfg.height as int;
    let u1 = h - 1 - r1;
    let u2 = h - 1 - r2;
    assert(0 <= u1 * w + c1 < w * h) by (nonlinear_arith)
        requires
            0 <= u1 < h,
            0 <= c1 < w,
    ;
    if u1 * w + c1 == u2 * w + c2 {
        assert(u1 == u2 && c1 == c2) by (nonlinear_arith)
            requires
                u1 * w + c1 == u2 * w + c2,
                0 <= c1 < w,
                0 <= c2 < w,
                0 <= u1,
                0 <= u2,
        ;
    }
    let q = index / w;
    let c = index % w;
    assert(index == q * w + c && 0 <= c < w && 0 <= q < h) by (nonlinear_arith)
        requires
            w > 0,
            q == index / w,
            c == index % w,
            0 <= index < w * h,
    ;
    assert(cfg.slot_spec(c, h - 1 - q) == index);
}

} // verus!
