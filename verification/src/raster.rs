use vstd::prelude::*;

verus! {

/// An RGBA image held as plain values: `pixels` holds 4 bytes per pixel, row
/// by row from the top.
#[derive(Debug, Clone)]
pub struct Raster {
    pub width: u32,
    pub height: u32,
    pub pixels: Vec<u8>,
}

/// The model of a [`Raster`].
pub struct RasterView {
    pub width: u32,
    pub height: u32,
    pub pixels: Seq<u8>,
}

impl View for Raster {
    type V = RasterView;

    open spec fn view(&self) -> RasterView {
        RasterView { width: self.width, height: self.height, pixels: self.pixels@ }
    }
}

/// The byte length of an RGBA image of `width` by `height` pixels.
pub open spec fn rgba_len(width: u32, height: u32) -> int {
    width as int * height as int * 4
}

/// An RGBA image of the given size fits in memory.
pub open spec fn rgba_fits(width: u32, height: u32) -> bool {
    rgba_len(width, height) <= usize::MAX
}

impl Raster {
    /// The pixel buffer holds exactly four bytes per pixel.
    pub open spec fn wf(&self) -> bool {
        self.pixels.len() == rgba_len(self.width, self.height)
    }
}

/// `n` pixels, every one `pixel`.
pub open spec fn solid_pixels(n: nat, pixel: Seq<u8>) -> Seq<u8> {
    Seq::new(n * 4, |i: int| pixel[i % 4])
}

/// What `image::imageops::resize` with the Lanczos3 filter gives for `image`
/// scaled to `nwidth` by `nheight`, as RGBA bytes.
pub uninterp spec fn lanczos3_resized(image: RasterView, nwidth: u32, nheight: u32) -> Seq<u8>;

/// What `image::imageops::overlay` leaves in `bottom` after alpha-blending
/// `top` onto it with its top-left corner at `(x, y)`, as RGBA bytes.
pub uninterp spec fn overlaid(bottom: RasterView, top: RasterView, x: i64, y: i64) -> Seq<u8>;

/// Calls `image::imageops::resize` with `FilterType::Lanczos3`. Its result is
/// named [`lanczos3_resized`]; the crate's source builds the result with
/// `ImageBuffer::new(nwidth, nheight)` (or a copy of the same size), so it is
/// `nwidth` by `nheight` pixels.
#[verifier::external_body]
fn resize_lanczos3(image: &Raster, nwidth: u32, nheight: u32) -> (r: Raster)
    requires
        image.wf(),
        rgba_fits(nwidth, nheight),
    ensures
        r.width == nwidth,
        r.height == nheight,
        r.wf(),
        r.pixels@ == lanczos3_resized(image@, nwidth, nheight),
{
    let src: image::RgbaImage = image::ImageBuffer::from_raw(image.width, image.height, image.pixels.clone()).unwrap();
    let out = image::imageops::resize(&src, nwidth, nheight, image::imageops::FilterType::Lanczos3);
    Raster { width: nwidth, height: nheight, pixels: out.into_raw() }
}

/// The 4 bytes of pixel (`px`, `py`) in RGBA data `width` pixels wide.
pub open spec fn pixel_at(pixels: Seq<u8>, width: u32, px: int, py: int) -> Seq<u8> {
    pixels.subrange(4 * (py * width + px), 4 * (py * width + px) + 4)
}

/// Pixel (`tx`, `ty`) lies inside a `width` by `height` image.
pub open spec fn inside(width: u32, height: u32, tx: int, ty: int) -> bool {
    0 <= tx < width && 0 <= ty < height
}

/// What overlaying `top` onto `bottom` at (`x`, `y`) leaves in each pixel
/// (`px`, `py`) of the result `out`: the bottom pixel where the top image
/// does not cover it or its covering pixel is fully transparent, and the top
/// pixel where that is fully opaque.
pub open spec fn overlay_keeps_and_covers(bottom: RasterView, top: RasterView, x: i64, y: i64, out: Seq<u8>) -> bool {
    forall|px: int, py: int|
        inside(bottom.width, bottom.height, px, py) ==> {
            let over = pixel_at(top.pixels, top.width, px - x, py - y);
            let under = pixel_at(bottom.pixels, bottom.width, px, py);
            let result = #[trigger] pixel_at(out, bottom.width, px, py);
            &&& !inside(top.width, top.height, px - x, py - y) ==> result == under
            &&& inside(top.width, top.height, px - x, py - y) && over[3] == 0 ==> result == under
            &&& inside(top.width, top.height, px - x, py - y) && over[3] == 255 ==> result == over
        }
}

/// `out`, a square of side `side`, holds `image` centred on a transparent
/// canvas: image pixel (`tx`, `ty`) lies at (`tx + (side - width) / 2`,
/// `ty + (side - height) / 2`); pixels the image does not cover, or covers
/// with a fully transparent pixel, are transparent black, and those it
/// covers with a fully opaque pixel are that pixel.
pub open spec fn centred_on_transparent(image: RasterView, side: u32, out: Seq<u8>) -> bool {
    forall|px: int, py: int|
        inside(side, side, px, py) ==> {
            let tx = px - (side - image.width) / 2;
            let ty = py - (side - image.height) / 2;
            let result = #[trigger] pixel_at(out, side, px, py);
            let src = pixel_at(image.pixels, image.width, tx, ty);
            &&& !inside(image.width, image.height, tx, ty) ==> result == seq![0u8, 0u8, 0u8, 0u8]
            &&& inside(image.width, image.height, tx, ty) && src[3] == 0 ==> result == seq![0u8, 0u8, 0u8, 0u8]
            &&& inside(image.width, image.height, tx, ty) && src[3] == 255 ==> result == src
        }
}

/// `out` holds the `size` by `size` image `own` drawn over a `background`
/// square: every fully opaque pixel of `own` keeps its colour, and the
/// background shows where `own` is fully transparent.
pub open spec fn drawn_over_background(own: Seq<u8>, size: u32, background: Seq<u8>, out: Seq<u8>) -> bool {
    forall|px: int, py: int|
        inside(size, size, px, py) ==> {
            let mine = pixel_at(own, size, px, py);
            let result = #[trigger] pixel_at(out, size, px, py);
            &&& mine[3] == 255 ==> result == mine
            &&& mine[3] == 0 ==> result == background
        }
}

/// Calls `image::imageops::overlay`. Its result is named [`overlaid`]; the
/// crate's source only writes pixels of `bottom` in place, so the size stays.
/// The source blends top pixel (`px - x`, `py - y`) into each bottom pixel
/// (`px`, `py`) that it covers and leaves the others as they were; the RGBA
/// blend keeps the bottom pixel where the top one is fully transparent and
/// takes the top pixel where it is fully opaque. What a partly transparent
/// top pixel blends to (a float computation) is left to the name.
#[verifier::external_body]
fn overlay_image(bottom: Raster, top: &Raster, x: i64, y: i64) -> (r: Raster)
    requires
        bottom.wf(),
        top.wf(),
    ensures
        r.width == bottom.width,
        r.height == bottom.height,
        r.wf(),
        r.pixels@ == overlaid(bottom@, top@, x, y),
        overlay_keeps_and_covers(bottom@, top@, x, y, r.pixels@),
{
    let mut base: image::RgbaImage = image::ImageBuffer::from_raw(bottom.width, bottom.height, bottom.pixels).unwrap();
    let over: image::RgbaImage = image::ImageBuffer::from_raw(top.width, top.height, top.pixels.clone()).unwrap();
    image::imageops::overlay(&mut base, &over, x, y);
    Raster { width: bottom.width, height: bottom.height, pixels: base.into_raw() }
}

/// Every pixel of a solid image is its colour.
proof fn lemma_solid_pixel(width: u32, height: u32, pixel: Seq<u8>, px: int, py: int)
    requires
        pixel.len() == 4,
        inside(width, height, px, py),
    ensures
        pixel_at(solid_pixels((width as nat) * (height as nat), pixel), width, px, py) == pixel,
{
    let m = py * width + px;
    assert(0 <= m && 4 * m + 4 <= 4 * ((width as nat) * (height as nat))) by (nonlinear_arith)
        requires
            m == py * width + px,
            0 <= px < width,
            0 <= py < height,
    ;
    let all = solid_pixels((width as nat) * (height as nat), pixel);
    assert forall|k: int| 0 <= k < 4 implies all[4 * m + k] == pixel[k] by {
        assert((4 * m + k) % 4 == k) by (nonlinear_arith)
            requires
                0 <= k < 4,
                m >= 0,
        ;
    }
    assert(pixel_at(all, width, px, py) =~= pixel);
}

/// An image of `width` by `height` pixels, all of them `pixel`.
pub fn solid_raster(width: u32, height: u32, pixel: [u8; 4]) -> (r: Raster)
    requires
        rgba_fits(width, height),
    ensures
        r.width == width,
        r.height == height,
        r.wf(),
        r.pixels@ == solid_pixels((width as nat) * (height as nat), pixel@),
{
    assert(width as int * height as int <= usize::MAX) by (nonlinear_arith)
        requires
            width as int * height as int * 4 <= usize::MAX,
    ;
    let n: usize = (width as usize) * (height as usize);
    let mut pixels: Vec<u8> = Vec::new();
    let mut k: usize = 0;
    while k < n
        invariant
            k <= n,
            n == width as int * height as int,
            pixels@ =~= solid_pixels(k as nat, pixel@),
        decreases n - k,
    {
        pixels.push(pixel[0]);
        pixels.push(pixel[1]);
        pixels.push(pixel[2]);
        pixels.push(pixel[3]);
        k = k + 1;
    }
    Raster { width, height, pixels }
}

/// The side of the square canvas that padding by `pad` puts an image of
/// `width` by `height` in.
pub open spec fn padded_side(width: u32, height: u32, pad: u32) -> int {
    (if width >= height { width } else { height }) + 2 * pad
}

/// `image` centred on a transparent square canvas whose side is its longer
/// side plus `pad` on each edge.
pub open spec fn padded_pixels(image: RasterView, pad: u32) -> Seq<u8> {
    let side = padded_side(image.width, image.height, pad) as u32;
    overlaid(
        RasterView {
            width: side,
            height: side,
            pixels: solid_pixels((side as nat) * (side as nat), seq![0u8, 0u8, 0u8, 0u8]),
        },
        image,
        ((side - image.width) / 2) as i64,
        ((side - image.height) / 2) as i64,
    )
}

/// Centres `image` on a transparent square canvas, `pad` pixels wider than
/// its longer side on every edge.
pub fn pad_square(image: &Raster, pad: u32) -> (r: Raster)
    requires
        image.wf(),
        padded_side(image.width, image.height, pad) <= u32::MAX,
        rgba_fits(
            padded_side(image.width, image.height, pad) as u32,
            padded_side(image.width, image.height, pad) as u32,
        ),
    ensures
        r.width == padded_side(image.width, image.height, pad),
        r.height == r.width,
        r.wf(),
        r.pixels@ == padded_pixels(image@, pad),
        centred_on_transparent(image@, r.width, r.pixels@),
{
    let w = image.width;
    let h = image.height;
    let longer = if w >= h { w } else { h };
    let side = longer + pad * 2;
    let canvas = solid_raster(side, side, [0, 0, 0, 0]);
    assert(seq![0u8, 0u8, 0u8, 0u8] =~= [0u8, 0u8, 0u8, 0u8]@);
    let x = (side - w) / 2;
    let y = (side - h) / 2;
    let ghost under = canvas@;
    let r = overlay_image(canvas, image, x as i64, y as i64);
    assert(overlay_keeps_and_covers(under, image@, x as i64, y as i64, r.pixels@));
    assert(centred_on_transparent(image@, side, r.pixels@)) by {
        assert forall|px: int, py: int| inside(side, side, px, py) implies ({
            let tx = px - (side - w) / 2;
            let ty = py - (side - h) / 2;
            let result = pixel_at(r.pixels@, side, px, py);
            let src = pixel_at(image.pixels@, w, tx, ty);
            &&& !inside(w, h, tx, ty) ==> result == seq![0u8, 0u8, 0u8, 0u8]
            &&& inside(w, h, tx, ty) && src[3] == 0 ==> result == seq![0u8, 0u8, 0u8, 0u8]
            &&& inside(w, h, tx, ty) && src[3] == 255 ==> result == src
        }) by {
            lemma_solid_pixel(side, side, seq![0u8, 0u8, 0u8, 0u8], px, py);
            assert(under.pixels == solid_pixels((side as nat) * (side as nat), seq![0u8, 0u8, 0u8, 0u8]));
            assert(pixel_at(under.pixels, under.width, px, py) == seq![0u8, 0u8, 0u8, 0u8]);
            assert(px - (x as i64) == px - (side - w) / 2);
            assert(py - (y as i64) == py - (side - h) / 2);
            let _unused = pixel_at(r.pixels@, under.width, px, py);
        }
    }
    r
}

/// The background fill is skipped when transparency is kept and the chosen
/// background is itself fully transparent.
pub open spec fn keeps_alpha(keep_transparency: bool, background: Seq<u8>) -> bool {
    keep_transparency && background[3] == 0
}

/// A slot's raster: `padded` resized to `size` by `size` with Lanczos3, laid
/// over a `background`-coloured square unless the background is skipped.
pub open spec fn rendered_pixels(
    padded: RasterView,
    size: u32,
    keep_transparency: bool,
    background: Seq<u8>,
) -> Seq<u8> {
    let resized = lanczos3_resized(padded, size, size);
    if keeps_alpha(keep_transparency, background) {
        resized
    } else {
        overlaid(
            RasterView {
                width: size,
                height: size,
                pixels: solid_pixels((size as nat) * (size as nat), background),
            },
            RasterView { width: size, height: size, pixels: resized },
            0,
            0,
        )
    }
}

/// Renders one slot of `size` pixels from the padded master.
pub fn render_slot(padded: &Raster, size: u32, keep_transparency: bool, background: [u8; 4]) -> (r: Raster)
    requires
        padded.wf(),
        rgba_fits(size, size),
    ensures
        r.width == size,
        r.height == size,
        r.wf(),
        r.pixels@ == rendered_pixels(padded@, size, keep_transparency, background@),
        keeps_alpha(keep_transparency, background@) ==> r.pixels@ == lanczos3_resized(padded@, size, size),
        !keeps_alpha(keep_transparency, background@) ==> drawn_over_background(
            lanczos3_resized(padded@, size, size),
            size,
            background@,
            r.pixels@,
        ),
{
    let resized = resize_lanczos3(padded, size, size);
    if keep_transparency && background[3] == 0 {
        return resized;
    }
    let canvas = solid_raster(size, size, background);
    let ghost under = canvas@;
    let r = overlay_image(canvas, &resized, 0, 0);
    let ghost own = lanczos3_resized(padded@, size, size);
    assert(overlay_keeps_and_covers(under, resized@, 0, 0, r.pixels@));
    assert(drawn_over_background(own, size, background@, r.pixels@)) by {
        assert forall|px: int, py: int| inside(size, size, px, py) implies ({
            let mine = pixel_at(own, size, px, py);
            let result = pixel_at(r.pixels@, size, px, py);
            &&& mine[3] == 255 ==> result == mine
            &&& mine[3] == 0 ==> result == background@
        }) by {
            lemma_solid_pixel(size, size, background@, px, py);
            assert(pixel_at(under.pixels, under.width, px, py) == background@);
            assert(inside(resized.width, resized.height, px - 0i64, py - 0i64));
            assert(pixel_at(resized@.pixels, resized.width, px - 0i64, py - 0i64) == pixel_at(own, size, px, py));
            let _unused = pixel_at(r.pixels@, under.width, px, py);
        }
    }
    r
}

} // verus!
