use shadow_icon_factory::raster::{pad_square, render_slot, solid_raster, Raster};

fn gradient(w: u32, h: u32) -> Raster {
    let mut pixels = Vec::new();
    for y in 0..h {
        for x in 0..w {
            pixels.extend_from_slice(&[(x * 40) as u8, (y * 40) as u8, 160, 255]);
        }
    }
    Raster { width: w, height: h, pixels }
}

#[test]
fn solid_raster_fills_every_pixel() {
    let r = solid_raster(3, 2, [1, 2, 3, 4]);
    assert_eq!((r.width, r.height), (3, 2));
    assert_eq!(r.pixels.len(), 24);
    assert!(r.pixels.chunks(4).all(|p| p == [1, 2, 3, 4]));
}

#[test]
fn padding_centres_on_a_square() {
    let img = gradient(4, 2);
    let padded = pad_square(&img, 1);
    assert_eq!((padded.width, padded.height), (6, 6));
    let px = |x: usize, y: usize| padded.pixels[(y * 6 + x) * 4..(y * 6 + x) * 4 + 4].to_vec();
    assert_eq!(px(0, 0), vec![0, 0, 0, 0]);
    assert_eq!(px(1, 2), vec![0, 0, 160, 255]);
    assert_eq!(px(4, 3), vec![120, 40, 160, 255]);
    assert_eq!(px(1, 1), vec![0, 0, 0, 0]);
}

#[test]
fn no_padding_keeps_a_square_master() {
    let img = gradient(3, 3);
    let padded = pad_square(&img, 0);
    assert_eq!(padded.pixels, img.pixels);
}

#[test]
fn render_resizes_to_the_slot() {
    let img = gradient(8, 8);
    let out = render_slot(&img, 4, true, [0, 0, 0, 0]);
    assert_eq!((out.width, out.height), (4, 4));
    assert_eq!(out.pixels.len(), 64);
    assert_ne!(out.pixels, img.pixels);
}

#[test]
fn render_fills_the_background_of_transparent_pixels() {
    let clear = Raster { width: 2, height: 2, pixels: vec![0; 16] };
    let kept = render_slot(&clear, 2, true, [0, 0, 0, 0]);
    assert!(kept.pixels.iter().all(|b| *b == 0));
    let white = render_slot(&clear, 2, true, [255, 255, 255, 255]);
    assert!(white.pixels.chunks(4).all(|p| p == [255, 255, 255, 255]));
    let flat = render_slot(&clear, 2, false, [0, 0, 0, 0]);
    assert!(flat.pixels.iter().all(|b| *b == 0));
}
