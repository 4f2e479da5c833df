//! Copy-move forgery detection: overlapping blocks of the grayscale
//! image are hashed perceptually, and far-apart blocks with colliding
//! hashes are reported as potential clones.

use vstd::prelude::*;

verus! {

/// A grayscale raster: one byte per pixel, row-major.
pub struct GrayGrid {
    /// Width in pixels.
    pub width: usize,
    /// Height in pixels.
    pub height: usize,
    /// `width * height` luminance bytes.
    pub data: Vec<u8>,
}

impl GrayGrid {
    /// The buffer holds exactly one byte per pixel.
    pub open spec fn wf(self) -> bool {
        self.data@.len() == self.width * self.height
    }

    /// The luminance at `(x, y)`.
    pub open spec fn spec_at(self, x: int, y: int) -> u8 {
        spec_gray_at(self.width as int, self.data@, x, y)
    }

    /// Wrap a raw luminance buffer; refused unless its length matches
    /// the dimensions exactly.
    pub fn from_raw(width: usize, height: usize, data: Vec<u8>) -> (r: Option<GrayGrid>)
        ensures
            r is Some <==> data@.len() == width * height,
            r is Some ==> r->0 == (GrayGrid { width, height, data }),
    {
        let expected: Option<usize> = width.checked_mul(height);
        let buf_len: usize = data.len();
        match expected {
            Some(n) if n == buf_len => Some(GrayGrid { width, height, data }),
            _ => None,
        }
    }

    /// Read the luminance at `(x, y)`.
    pub fn at(&self, x: usize, y: usize) -> (r: u8)
        requires
            self.wf(),
            x < self.width,
            y < self.height,
        ensures
            r == self.spec_at(x as int, y as int),
    {
        let buf_len: usize = self.data.len();
        proof {
            assert(y * self.width + x < self.width * self.height) by (nonlinear_arith)
                requires
                    x < self.width,
                    y < self.height,
            ;
        }
        let idx: usize = y * self.width + x;
        self.data[idx]
    }
}

/// One potential clone: two block origins and the block size.
#[derive(Debug)]
pub struct CloneMatch {
    /// Origin of the first block.
    pub source: (u32, u32),
    /// Origin of the second block.
    pub target: (u32, u32),
    /// Side length of the compared blocks.
    pub size: u32,
}

/// The grayscale image shrunk to half size with nearest-neighbor
/// sampling, as the performance guard applies it. Deterministic in the
/// input; its pixels are established only by the resampler itself.
pub uninterp spec fn spec_nearest_half(w: int, h: int, data: Seq<u8>) -> Seq<u8>;

/// Relies on `image::imageops::resize` with `FilterType::Nearest`: a
/// deterministic half-size resampling of the grayscale raster, with
/// exactly one byte per output pixel.
#[verifier::external_body]
fn shrink_half(g: &GrayGrid) -> (r: GrayGrid)
    requires
        g.wf(),
        2 <= g.width <= u32::MAX,
        2 <= g.height <= u32::MAX,
    ensures
        r.wf(),
        r.width == g.width / 2,
        r.height == g.height / 2,
        r.data@ == spec_nearest_half(g.width as int, g.height as int, g.data@),
{
    let img = image::GrayImage::from_raw(g.width as u32, g.height as u32, g.data.clone())
        .expect("dimensions match the buffer");
    let small = image::imageops::resize(
        &img,
        (g.width / 2) as u32,
        (g.height / 2) as u32,
        image::imageops::FilterType::Nearest,
    );
    GrayGrid { width: g.width / 2, height: g.height / 2, data: small.into_raw() }
}

/// The luminance at `(x, y)` of a raster of width `w`.
pub open spec fn spec_gray_at(w: int, data: Seq<u8>, x: int, y: int) -> u8 {
    data[y * w + x]
}

/// The sum of the first `n` cells of a block, row-major.
pub open spec fn spec_block_sum(w: int, data: Seq<u8>, x: int, y: int, size: int, n: int) -> int
    decreases n,
{
    if n <= 0 {
        0
    } else {
        spec_block_sum(w, data, x, y, size, n - 1) + spec_gray_at(
            w,
            data,
            x + (n - 1) % size,
            y + (n - 1) / size,
        )
    }
}

/// The mean brightness of a block.
pub open spec fn spec_block_avg(w: int, data: Seq<u8>, x: int, y: int, size: int) -> int {
    spec_block_sum(w, data, x, y, size, size * size) / (size * size)
}

/// The first `n` bits of the perceptual hash: one bit per cell,
/// brighter-than-average, shifted in row-major.
pub open spec fn spec_block_hash_upto(
    w: int,
    data: Seq<u8>,
    x: int,
    y: int,
    size: int,
    avg: int,
    n: int,
) -> u64
    decreases n,
{
    if n <= 0 {
        0
    } else {
        let prev = spec_block_hash_upto(w, data, x, y, size, avg, n - 1);
        if spec_gray_at(w, data, x + (n - 1) % size, y + (n - 1) / size) > avg {
            (prev << 1u64) | 1u64
        } else {
            prev << 1u64
        }
    }
}

/// The perceptual hash of the block at `(x, y)`.
pub open spec fn spec_block_hash(w: int, data: Seq<u8>, x: int, y: int, size: int) -> u64 {
    spec_block_hash_upto(
        w,
        data,
        x,
        y,
        size,
        spec_block_avg(w, data, x, y, size),
        size * size,
    )
}

/// Compute the perceptual hash of one block: mean brightness first, then
/// one brighter-than-average bit per cell.
pub fn compute_block_hash(g: &GrayGrid, x: u32, y: u32, size: u32) -> (r: u64)
    requires
        g.wf(),
        1 <= size <= 0xFFFF,
        g.width <= u32::MAX,
        g.height <= u32::MAX,
        x + size <= g.width,
        y + size <= g.height,
    ensures
        r == spec_block_hash(g.width as int, g.data@, x as int, y as int, size as int),
{
    proof {
        assert(size * size <= 0xFFFF * 0xFFFF && (size as u64) * (size as u64) == size * size)
            by (nonlinear_arith)
            requires
                1 <= size <= 0xFFFF,
        ;
    }
    let cells: u64 = (size as u64) * (size as u64);
    let mut sum: u64 = 0;
    let mut k: u32 = 0;
    while k < size * size
        invariant
            g.wf(),
            size >= 1,
            g.width <= u32::MAX,
            g.height <= u32::MAX,
            x + size <= g.width,
            y + size <= g.height,
            k <= size * size,
            size * size <= u32::MAX,
            sum as int == spec_block_sum(
                g.width as int,
                g.data@,
                x as int,
                y as int,
                size as int,
                k as int,
            ),
            sum <= 255 * (k as u64),
        decreases size * size - k,
    {
        let dx: u32 = k % size;
        let dy: u32 = k / size;
        proof {
            assert(k % size < size && (k < size * size ==> k / size < size)) by (nonlinear_arith)
                requires
                    size >= 1,
                    k < size * size,
            ;
            assert(255 * (k as u64) + 255 <= 255 * (k as u64 + 1)) by (nonlinear_arith);
            assert(255 * (k as u64 + 1) <= 255 * ((size as u64) * (size as u64)))
                by (nonlinear_arith)
                requires
                    k as u64 + 1 <= (size as u64) * (size as u64),
            ;
        }
        let v: u8 = g.at((x + dx) as usize, (y + dy) as usize);
        sum = sum + (v as u64);
        k = k + 1;
    }
    proof {
        assert(cells == size * size && cells > 0) by (nonlinear_arith)
            requires
                size >= 1,
                size <= 0xFFFF,
                cells == (size as u64) * (size as u64),
        ;
    }
    let avg: u64 = sum / cells;
    let mut hash: u64 = 0;
    let mut j: u32 = 0;
    while j < size * size
        invariant
            g.wf(),
            size >= 1,
            g.width <= u32::MAX,
            g.height <= u32::MAX,
            x + size <= g.width,
            y + size <= g.height,
            j <= size * size,
            size * size <= u32::MAX,
            avg as int == spec_block_avg(g.width as int, g.data@, x as int, y as int, size as int),
            hash == spec_block_hash_upto(
                g.width as int,
                g.data@,
                x as int,
                y as int,
                size as int,
                avg as int,
                j as int,
            ),
        decreases size * size - j,
    {
        let dx: u32 = j % size;
        let dy: u32 = j / size;
        proof {
            assert(j % size < size && (j < size * size ==> j / size < size)) by (nonlinear_arith)
                requires
                    size >= 1,
                    j < size * size,
            ;
        }
        let v: u8 = g.at((x + dx) as usize, (y + dy) as usize);
        if (v as u64) > avg {
            hash = (hash << 1u64) | 1u64;
        } else {
            hash = hash << 1u64;
        }
        j = j + 1;
    }
    hash
}

/// Width of the grid the detector actually scans: halved when the image
/// is wider than 2000 pixels.
pub open spec fn spec_p_w(g: GrayGrid) -> int {
    if g.width > 2000 {
        g.width as int / 2
    } else {
        g.width as int
    }
}

/// Height of the scanned grid.
pub open spec fn spec_p_h(g: GrayGrid) -> int {
    if g.width > 2000 {
        g.height as int / 2
    } else {
        g.height as int
    }
}

/// Luminance bytes of the scanned grid.
pub open spec fn spec_p_data(g: GrayGrid) -> Seq<u8> {
    if g.width > 2000 {
        spec_nearest_half(g.width as int, g.height as int, g.data@)
    } else {
        g.data@
    }
}

/// The block origins the scan visits, in raster order: both coordinates
/// start at zero and advance by `step` while a whole block still fits
/// strictly inside the scanned grid.
pub open spec fn spec_sites_at(
    p_w: int,
    p_h: int,
    bs: int,
    step: int,
    x: int,
    y: int,
) -> Seq<(int, int)>
    decreases p_h - y, p_w - x,
{
    if step <= 0 || bs <= 0 || x < 0 || y < 0 || y >= p_h - bs {
        Seq::empty()
    } else if x >= p_w - bs {
        spec_sites_at(p_w, p_h, bs, step, 0, if y + step <= p_h {
            y + step
        } else {
            p_h
        })
    } else {
        seq![(x, y)] + spec_sites_at(p_w, p_h, bs, step, if x + step <= p_w {
            x + step
        } else {
            p_w
        }, y)
    }
}

/// Two sites collide: equal perceptual hashes, centers farther apart
/// than four block sides.
pub open spec fn spec_pair_qualifies(
    pw: int,
    pdata: Seq<u8>,
    a: (int, int),
    b: (int, int),
    bs: int,
) -> bool {
    &&& spec_block_hash(pw, pdata, a.0, a.1, bs) == spec_block_hash(pw, pdata, b.0, b.1, bs)
    &&& (a.0 - b.0) * (a.0 - b.0) + (a.1 - b.1) * (a.1 - b.1) > (4 * bs) * (4 * bs)
}

/// The pairs the detector reports, walking site pairs `(i, j)` with
/// `i < j` in lexicographic order from state `(i, j)` having already
/// reported `n` pairs: every qualifying pair is appended, and the walk
/// stops for good once the fifty-first report is made.
pub open spec fn spec_scan_pairs(
    pw: int,
    pdata: Seq<u8>,
    sites: Seq<(int, int)>,
    bs: int,
    i: int,
    j: int,
    n: int,
) -> Seq<((int, int), (int, int))>
    decreases sites.len() - i, sites.len() + 1 - j,
{
    if i < 0 || j < i + 1 || i >= sites.len() {
        Seq::empty()
    } else if j >= sites.len() {
        spec_scan_pairs(pw, pdata, sites, bs, i + 1, i + 2, n)
    } else if spec_pair_qualifies(pw, pdata, sites[i], sites[j], bs) {
        if n >= 50 {
            seq![(sites[i], sites[j])]
        } else {
            seq![(sites[i], sites[j])] + spec_scan_pairs(pw, pdata, sites, bs, i, j + 1, n + 1)
        }
    } else {
        spec_scan_pairs(pw, pdata, sites, bs, i, j + 1, n)
    }
}

/// Everything the detector reports for a grid and block size, as pairs
/// of site positions, in order.
pub open spec fn spec_clone_matches(g: GrayGrid, bs: int) -> Seq<((int, int), (int, int))> {
    spec_scan_pairs(
        spec_p_w(g),
        spec_p_data(g),
        spec_sites_at(spec_p_w(g), spec_p_h(g), bs, bs / 2, 0, 0),
        bs,
        0,
        1,
        0,
    )
}

/// The positions held by a site-with-hash list.
pub open spec fn spec_positions_of(s: Seq<(u64, u32, u32)>) -> Seq<(int, int)> {
    Seq::new(s.len(), |i: int| (s[i].1 as int, s[i].2 as int))
}

/// The position pairs held by a match list.
pub open spec fn spec_match_positions(m: Seq<CloneMatch>) -> Seq<((int, int), (int, int))> {
    Seq::new(
        m.len(),
        |k: int|
            (
                (m[k].source.0 as int, m[k].source.1 as int),
                (m[k].target.0 as int, m[k].target.1 as int),
            ),
    )
}

/// A reported pair is genuine: two in-range blocks of the scanned grid
/// with identical perceptual hashes, far enough apart that overlap
/// cannot explain the collision.
pub open spec fn spec_clone_pair(g: GrayGrid, m: CloneMatch, block_size: int) -> bool {
    &&& m.size == block_size
    &&& m.source.0 + block_size <= spec_p_w(g) && m.source.1 + block_size <= spec_p_h(g)
    &&& m.target.0 + block_size <= spec_p_w(g) && m.target.1 + block_size <= spec_p_h(g)
    &&& spec_block_hash(spec_p_w(g), spec_p_data(g), m.source.0 as int, m.source.1 as int, block_size)
        == spec_block_hash(spec_p_w(g), spec_p_data(g), m.target.0 as int, m.target.1 as int, block_size)
    &&& (m.source.0 - m.target.0) * (m.source.0 - m.target.0) + (m.source.1 - m.target.1) * (
    m.source.1 - m.target.1) > (4 * block_size) * (4 * block_size)
}

/// Detect copy-move forgery by block hashing.
///
/// The scan and its findings are pinned exactly: the sites visited are
/// the raster walk of [`spec_sites_at`], and the reported pairs are
/// precisely [`spec_clone_matches`] — every far-apart hash collision
/// among site pairs in lexicographic order, cut off for good once the
/// list exceeds fifty. Every reported pair is in particular a genuine
/// collision of the scanned grid.
#[verifier::rlimit(80)]
pub fn detect_copy_move(img: &GrayGrid, block_size: u32) -> (r: Vec<CloneMatch>)
    requires
        img.wf(),
        img.width <= u32::MAX,
        img.height <= u32::MAX,
        img.width > 2000 ==> img.height >= 2,
        2 <= block_size <= 0xFFFF,
        block_size as int <= spec_p_w(*img),
        block_size as int <= spec_p_h(*img),
    ensures
        forall|k: int|
            0 <= k < r@.len() ==> spec_clone_pair(*img, r@[k], block_size as int),
        forall|k: int| 0 <= k < r@.len() ==> r@[k].size == block_size,
        r@.len() <= 51,
        spec_match_positions(r@) == spec_clone_matches(*img, block_size as int),
{
    let pg: GrayGrid = if img.width > 2000 {
        shrink_half(img)
    } else {
        GrayGrid { width: img.width, height: img.height, data: copy_gray(&img.data) }
    };
    proof {
        assert(pg.width == spec_p_w(*img));
        assert(pg.height == spec_p_h(*img));
        assert(pg.data@ == spec_p_data(*img));
    }
    let step: u32 = block_size / 2;
    let p_w: u32 = pg.width as u32;
    let p_h: u32 = pg.height as u32;
    let ghost all_sites = spec_sites_at(
        p_w as int,
        p_h as int,
        block_size as int,
        step as int,
        0,
        0,
    );
    let mut sites: Vec<(u64, u32, u32)> = Vec::new();
    proof {
        assert(spec_positions_of(sites@) =~= Seq::<(int, int)>::empty());
        assert(spec_positions_of(sites@) + all_sites =~= all_sites);
    }
    let mut y: u32 = 0;
    while y < p_h - block_size
        invariant
            pg.wf(),
            pg.width == spec_p_w(*img),
            pg.height == spec_p_h(*img),
            pg.data@ == spec_p_data(*img),
            p_w == pg.width,
            p_h == pg.height,
            2 <= block_size <= p_w,
            block_size <= p_h,
            block_size <= 0xFFFF,
            pg.width <= u32::MAX,
            pg.height <= u32::MAX,
            step == block_size / 2,
            step >= 1,
            all_sites == spec_sites_at(
                p_w as int,
                p_h as int,
                block_size as int,
                step as int,
                0,
                0,
            ),
            spec_positions_of(sites@) + spec_sites_at(
                p_w as int,
                p_h as int,
                block_size as int,
                step as int,
                0,
                y as int,
            ) == all_sites,
            forall|k: int|
                #![trigger sites@[k]]
                0 <= k < sites@.len() ==> {
                    let s = sites@[k];
                    &&& s.1 + block_size <= p_w && s.2 + block_size <= p_h
                    &&& s.0 == spec_block_hash(
                        pg.width as int,
                        pg.data@,
                        s.1 as int,
                        s.2 as int,
                        block_size as int,
                    )
                },
        decreases p_h - y,
    {
        let mut x: u32 = 0;
        while x < p_w - block_size
            invariant
                pg.wf(),
                pg.width == spec_p_w(*img),
                pg.height == spec_p_h(*img),
                pg.data@ == spec_p_data(*img),
                p_w == pg.width,
                p_h == pg.height,
                2 <= block_size <= p_w,
                block_size <= p_h,
                block_size <= 0xFFFF,
                pg.width <= u32::MAX,
                pg.height <= u32::MAX,
                y < p_h - block_size,
                step == block_size / 2,
                step >= 1,
                all_sites == spec_sites_at(
                    p_w as int,
                    p_h as int,
                    block_size as int,
                    step as int,
                    0,
                    0,
                ),
                spec_positions_of(sites@) + spec_sites_at(
                    p_w as int,
                    p_h as int,
                    block_size as int,
                    step as int,
                    x as int,
                    y as int,
                ) == all_sites,
                forall|k: int|
                    #![trigger sites@[k]]
                    0 <= k < sites@.len() ==> {
                        let s = sites@[k];
                        &&& s.1 + block_size <= p_w && s.2 + block_size <= p_h
                        &&& s.0 == spec_block_hash(
                            pg.width as int,
                            pg.data@,
                            s.1 as int,
                            s.2 as int,
                            block_size as int,
                        )
                    },
            decreases p_w - x,
        {
            let hash: u64 = compute_block_hash(&pg, x, y, block_size);
            let ghost before = sites@;
            sites.push((hash, x, y));
            proof {
                let pwi = p_w as int;
                let phi = p_h as int;
                let bsi = block_size as int;
                let sti = step as int;
                assert(spec_positions_of(sites@) =~= spec_positions_of(before).push(
                    (x as int, y as int),
                ));
                assert(spec_sites_at(pwi, phi, bsi, sti, x as int, y as int) == seq![
                    (x as int, y as int),
                ] + spec_sites_at(pwi, phi, bsi, sti, x as int + sti, y as int));
                assert(spec_positions_of(sites@) + spec_sites_at(
                    pwi,
                    phi,
                    bsi,
                    sti,
                    x as int + sti,
                    y as int,
                ) =~= spec_positions_of(before) + spec_sites_at(
                    pwi,
                    phi,
                    bsi,
                    sti,
                    x as int,
                    y as int,
                ));
            }
            x = x + step;
        }
        proof {
            let pwi = p_w as int;
            let phi = p_h as int;
            let bsi = block_size as int;
            let sti = step as int;
            assert(spec_sites_at(pwi, phi, bsi, sti, x as int, y as int) == spec_sites_at(
                pwi,
                phi,
                bsi,
                sti,
                0,
                y as int + sti,
            ));
        }
        y = y + step;
    }
    proof {
        assert(spec_sites_at(
            p_w as int,
            p_h as int,
            block_size as int,
            step as int,
            0,
            y as int,
        ) =~= Seq::<(int, int)>::empty());
        assert(spec_positions_of(sites@) =~= all_sites);
    }
    let ghost total = spec_clone_matches(*img, block_size as int);
    proof {
        assert(total == spec_scan_pairs(
            pg.width as int,
            pg.data@,
            spec_positions_of(sites@),
            block_size as int,
            0,
            1,
            0,
        ));
    }
    let mut matches: Vec<CloneMatch> = Vec::new();
    proof {
        assert(spec_match_positions(matches@) =~= Seq::<((int, int), (int, int))>::empty());
        assert(spec_match_positions(matches@) + total =~= total);
    }
    let mut i: usize = 0;
    while i < sites.len()
        invariant
            pg.width == spec_p_w(*img),
            pg.height == spec_p_h(*img),
            pg.data@ == spec_p_data(*img),
            2 <= block_size <= 0xFFFF,
            total == spec_clone_matches(*img, block_size as int),
            forall|k: int|
                #![trigger sites@[k]]
                0 <= k < sites@.len() ==> {
                    let s = sites@[k];
                    &&& s.1 + block_size <= pg.width && s.2 + block_size <= pg.height
                    &&& s.0 == spec_block_hash(
                        pg.width as int,
                        pg.data@,
                        s.1 as int,
                        s.2 as int,
                        block_size as int,
                    )
                },
            forall|k: int|
                0 <= k < matches@.len() ==> spec_clone_pair(*img, matches@[k], block_size as int),
            forall|k: int| 0 <= k < matches@.len() ==> matches@[k].size == block_size,
            matches@.len() <= 50,
            spec_match_positions(matches@) + spec_scan_pairs(
                pg.width as int,
                pg.data@,
                spec_positions_of(sites@),
                block_size as int,
                i as int,
                i as int + 1,
                matches@.len() as int,
            ) == total,
        decreases sites@.len() - i,
    {
        let mut j: usize = i + 1;
        while j < sites.len()
            invariant
                pg.width == spec_p_w(*img),
                pg.height == spec_p_h(*img),
                pg.data@ == spec_p_data(*img),
                2 <= block_size <= 0xFFFF,
                total == spec_clone_matches(*img, block_size as int),
                i < sites@.len(),
                i < j,
                forall|k: int|
                    #![trigger sites@[k]]
                    0 <= k < sites@.len() ==> {
                        let s = sites@[k];
                        &&& s.1 + block_size <= pg.width && s.2 + block_size <= pg.height
                        &&& s.0 == spec_block_hash(
                            pg.width as int,
                            pg.data@,
                            s.1 as int,
                            s.2 as int,
                            block_size as int,
                        )
                    },
                forall|k: int|
                    0 <= k < matches@.len() ==> spec_clone_pair(
                        *img,
                        matches@[k],
                        block_size as int,
                    ),
                forall|k: int| 0 <= k < matches@.len() ==> matches@[k].size == block_size,
                matches@.len() <= 50,
                spec_match_positions(matches@) + spec_scan_pairs(
                    pg.width as int,
                    pg.data@,
                    spec_positions_of(sites@),
                    block_size as int,
                    i as int,
                    j as int,
                    matches@.len() as int,
                ) == total,
            decreases sites@.len() - j,
        {
            let a: (u64, u32, u32) = sites[i];
            let b: (u64, u32, u32) = sites[j];
            let ghost spos = spec_positions_of(sites@);
            proof {
                assert(spos[i as int] == (a.1 as int, a.2 as int));
                assert(spos[j as int] == (b.1 as int, b.2 as int));
            }
            if a.0 == b.0 {
                let dx: i64 = (a.1 as i64) - (b.1 as i64);
                let dy: i64 = (a.2 as i64) - (b.2 as i64);
                proof {
                    assert(-0xFFFF_FFFFi64 <= dx <= 0xFFFF_FFFFi64);
                    assert(-0xFFFF_FFFFi64 <= dy <= 0xFFFF_FFFFi64);
                    assert((dx as i128) * (dx as i128) <= 0xFFFF_FFFFi128 * 0xFFFF_FFFFi128
                        && (dx as i128) * (dx as i128) >= 0) by (nonlinear_arith)
                        requires
                            -0xFFFF_FFFFi64 <= dx <= 0xFFFF_FFFFi64,
                    ;
                    assert((dy as i128) * (dy as i128) <= 0xFFFF_FFFFi128 * 0xFFFF_FFFFi128
                        && (dy as i128) * (dy as i128) >= 0) by (nonlinear_arith)
                        requires
                            -0xFFFF_FFFFi64 <= dy <= 0xFFFF_FFFFi64,
                    ;
                    assert((4 * (block_size as i128)) * (4 * (block_size as i128))
                        <= 0x4_0000i128 * 0x4_0000i128) by (nonlinear_arith)
                        requires
                            block_size <= 0xFFFF,
                    ;
                }
                let dist2: i128 = (dx as i128) * (dx as i128) + (dy as i128) * (dy as i128);
                let md: i128 = (4 * (block_size as i128)) * (4 * (block_size as i128));
                if dist2 > md && matches.len() <= 50 {
                    let ghost before = matches@;
                    matches.push(
                        CloneMatch { source: (a.1, a.2), target: (b.1, b.2), size: block_size },
                    );
                    proof {
                        lemma_step_qualifying(
                            *img,
                            spos,
                            block_size as int,
                            i as int,
                            j as int,
                            before,
                            matches@,
                            total,
                        );
                    }
                    if matches.len() > 50 {
                        return matches;
                    }
                } else {
                    proof {
                        assert(!spec_pair_qualifies(
                            pg.width as int,
                            pg.data@,
                            spos[i as int],
                            spos[j as int],
                            block_size as int,
                        ));
                    }
                }
            } else {
                proof {
                    assert(!spec_pair_qualifies(
                        pg.width as int,
                        pg.data@,
                        spos[i as int],
                        spos[j as int],
                        block_size as int,
                    ));
                }
            }
            j = j + 1;
        }
        proof {
            assert(spec_scan_pairs(
                pg.width as int,
                pg.data@,
                spec_positions_of(sites@),
                block_size as int,
                i as int,
                j as int,
                matches@.len() as int,
            ) == spec_scan_pairs(
                pg.width as int,
                pg.data@,
                spec_positions_of(sites@),
                block_size as int,
                i as int + 1,
                i as int + 2,
                matches@.len() as int,
            ));
        }
        i = i + 1;
    }
    proof {
        assert(spec_scan_pairs(
            pg.width as int,
            pg.data@,
            spec_positions_of(sites@),
            block_size as int,
            i as int,
            i as int + 1,
            matches@.len() as int,
        ) =~= Seq::<((int, int), (int, int))>::empty());
        assert(spec_match_positions(matches@) =~= total);
    }
    matches
}

/// One qualifying step of the pair walk: appending the pair keeps the
/// walk aligned with the model, whether it continues or the cut is
/// reached.
proof fn lemma_step_qualifying(
    img: GrayGrid,
    spos: Seq<(int, int)>,
    bs: int,
    i: int,
    j: int,
    before: Seq<CloneMatch>,
    after: Seq<CloneMatch>,
    total: Seq<((int, int), (int, int))>,
)
    requires
        0 <= i < j < spos.len(),
        before.len() <= 50,
        after == before.push(
            CloneMatch {
                source: ((spos[i].0) as u32, (spos[i].1) as u32),
                target: ((spos[j].0) as u32, (spos[j].1) as u32),
                size: bs as u32,
            },
        ),
        0 <= spos[i].0 <= u32::MAX && 0 <= spos[i].1 <= u32::MAX,
        0 <= spos[j].0 <= u32::MAX && 0 <= spos[j].1 <= u32::MAX,
        spec_pair_qualifies(spec_p_w(img), spec_p_data(img), spos[i], spos[j], bs),
        spec_match_positions(before) + spec_scan_pairs(
            spec_p_w(img),
            spec_p_data(img),
            spos,
            bs,
            i,
            j,
            before.len() as int,
        ) == total,
    ensures
        after.len() <= 50 ==> spec_match_positions(after) + spec_scan_pairs(
            spec_p_w(img),
            spec_p_data(img),
            spos,
            bs,
            i,
            j + 1,
            after.len() as int,
        ) == total,
        after.len() > 50 ==> spec_match_positions(after) == total,
{
    let pw = spec_p_w(img);
    let pd = spec_p_data(img);
    let n = before.len() as int;
    let pair = (spos[i], spos[j]);
    assert(spec_match_positions(after) =~= spec_match_positions(before).push(pair));
    if n >= 50 {
        assert(spec_scan_pairs(pw, pd, spos, bs, i, j, n) == seq![pair]);
        assert(spec_match_positions(after) =~= spec_match_positions(before) + seq![pair]);
        assert(spec_match_positions(after) =~= total);
    } else {
        assert(spec_scan_pairs(pw, pd, spos, bs, i, j, n) == seq![pair] + spec_scan_pairs(
            pw,
            pd,
            spos,
            bs,
            i,
            j + 1,
            n + 1,
        ));
        assert(spec_match_positions(after) + spec_scan_pairs(pw, pd, spos, bs, i, j + 1, n + 1)
            =~= spec_match_positions(before) + (seq![pair] + spec_scan_pairs(
            pw,
            pd,
            spos,
            bs,
            i,
            j + 1,
            n + 1,
        )));
    }
}

/// Copy a luminance buffer.
fn copy_gray(data: &Vec<u8>) -> (r: Vec<u8>)
    ensures
        r@ == data@,
{
    let mut out: Vec<u8> = Vec::new();
    let mut i: usize = 0;
    while i < data.len()
        invariant
            i <= data@.len(),
            out@ == data@.take(i as int),
        decreases data@.len() - i,
    {
        out.push(data[i]);
        proof {
            assert(data@.take(i + 1) =~= data@.take(i as int).push(data@[i as int]));
        }
        i = i + 1;
    }
    proof {
        assert(data@.take(data@.len() as int) =~= data@);
    }
    out
}

} // verus!
