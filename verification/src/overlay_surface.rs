//! The pixel cache of a full-screen overlay surface: the overlay's pixels are filled once per
//! size and content version, and only presented again while neither changes.
use vstd::prelude::*;

verus! {

/// The cached pixels of an overlay, with the size and content version they were filled for.
/// `B` is one pixel (`u32`) or one byte of a pixel (`u8`).
pub struct OverlaySurfaceImp<B> {
    pub pixel_cache: Vec<B>,
    pub texture_size: (u32, u32),
    pub cached_version: u64,
    pub cache_valid: bool,
    /// A failure to load the X11 libraries was reported already.
    pub logged_open_error: bool,
}

/// The cache holds the pixels for size (`w`, `h`) and content version `version`.
pub open spec fn cache_fresh<B>(s: OverlaySurfaceImp<B>, w: u32, h: u32, version: u64) -> bool {
    s.cache_valid && s.texture_size == (w, h) && s.cached_version == version
}

impl<B: Copy> OverlaySurfaceImp<B> {
    /// An empty cache; the size is taken at the first paint.
    pub fn new(w: u32, h: u32) -> (s: Self)
        ensures
            s.pixel_cache@.len() == 0,
            s.texture_size == (0u32, 0u32),
            s.cached_version == 0,
            !s.cache_valid,
            !s.logged_open_error,
    {
        OverlaySurfaceImp {
            pixel_cache: Vec::new(),
            texture_size: (0, 0),
            cached_version: 0,
            cache_valid: false,
            logged_open_error: false,
        }
    }

    /// Prepares a paint at size (`w`, `h`) of content `version`. When the cache is stale it is
    /// replaced by `w * h * per_pixel` copies of `blank`, recorded for this size and version, and
    /// true is returned: the caller must then fill it. Otherwise nothing changes.
    pub fn refresh(&mut self, w: u32, h: u32, version: u64, blank: B, per_pixel: u32) -> (refill: bool)
        requires
            1 <= per_pixel,
            w * h * per_pixel <= usize::MAX,
        ensures
            refill == !cache_fresh(*old(self), w, h, version),
            refill ==> final(self).pixel_cache@ == Seq::new((w * h * per_pixel) as nat, |i: int| blank),
            !refill ==> final(self).pixel_cache@ == old(self).pixel_cache@,
            cache_fresh(*final(self), w, h, version),
            final(self).logged_open_error == old(self).logged_open_error,
    {
        if self.cache_valid && self.texture_size.0 == w && self.texture_size.1 == h && self.cached_version == version {
            return false;
        }
        assert(w * h <= w * h * per_pixel) by (nonlinear_arith)
            requires
                1 <= per_pixel,
        ;
        let n = (w as usize) * (h as usize) * (per_pixel as usize);
        let mut cache: Vec<B> = Vec::new();
        let mut i: usize = 0;
        while i < n
            invariant
                i <= n,
                cache@ == Seq::new(i as nat, |k: int| blank),
            decreases n - i,
        {
            cache.push(blank);
            i = i + 1;
            assert(cache@ =~= Seq::new(i as nat, |k: int| blank));
        }
        self.pixel_cache = cache;
        self.texture_size = (w, h);
        self.cached_version = version;
        self.cache_valid = true;
        true
    }

    /// Records that a failure to load the X11 libraries is being reported; true only the first
    /// time.
    pub fn note_open_error(&mut self) -> (first: bool)
        ensures
            first == !old(self).logged_open_error,
            final(self).logged_open_error,
            final(self).pixel_cache@ == old(self).pixel_cache@,
            cache_fresh(*final(self), old(self).texture_size.0, old(self).texture_size.1, old(self).cached_version) == cache_fresh(
                *old(self),
                old(self).texture_size.0,
                old(self).texture_size.1,
                old(self).cached_version,
            ),
    {
        let first = !self.logged_open_error;
        self.logged_open_error = true;
        first
    }
}

} // verus!
