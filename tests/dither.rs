use mapdither::colors::get_color_tree;
use mapdither::convert::{distribute_rgb_channels, Acc, Converter};
use mapdither::convert::{DOWN_LEFT_WEIGHT, DOWN_RIGHT_WEIGHT, DOWN_WEIGHT, RIGHT_WEIGHT, WEIGHT_TOTAL};
use mapdither::convert_channels::{spawns_successor, ChannelConverter, RowWorker};
use mapdither::convert_mutex::{forward_targets, MutexConverter};
use mapdither::convert_single_threaded::SingleThreadedConverter;
use mapdither::image::{Image, Rgb};
use mapdither::palette::{palette_entry, PALETTE_LEN};

fn palette() -> Vec<Rgb> {
    (0..PALETTE_LEN).map(palette_entry).collect()
}

fn dist2(a: Rgb, b: Rgb) -> i32 {
    let dr = a.r as i32 - b.r as i32;
    let dg = a.g as i32 - b.g as i32;
    let db = a.b as i32 - b.b as i32;
    dr * dr + dg * dg + db * db
}

/// A deterministic pseudo-random image.
fn noise_image(width: u32, height: u32, seed: u64) -> Image {
    let mut state = seed;
    let mut pixels = Vec::new();
    for _ in 0..(width * height) {
        let mut channel = || {
            state = state.wrapping_mul(6364136223846793005).wrapping_add(1442695040888963407);
            (state >> 33) as u8
        };
        pixels.push(Rgb::new(channel(), channel(), channel()));
    }
    Image::from_pixels(width, height, pixels).unwrap()
}

fn run_all(image: &Image) -> (Image, Image, Image) {
    let pixels = image.as_pixels().clone();
    let (w, h) = image.dimensions();
    let a = SingleThreadedConverter::new().convert(Image::from_pixels(w, h, pixels.clone()).unwrap());
    let b = MutexConverter::new().convert(Image::from_pixels(w, h, pixels.clone()).unwrap());
    let c = ChannelConverter::new().convert(Image::from_pixels(w, h, pixels).unwrap());
    (a, b, c)
}

#[test]
fn palette_has_244_colors_with_dark_gray_at_112() {
    assert_eq!(PALETTE_LEN, 244);
    assert_eq!(palette_entry(112), Rgb::new(17, 17, 17));
    assert_eq!(palette_entry(0), Rgb::new(89, 125, 39));
    assert_eq!(palette_entry(243), Rgb::new(67, 88, 79));
}

#[test]
fn palette_colors_are_their_own_nearest() {
    let tree = get_color_tree();
    assert!(tree.palette_is_fixed());
    for c in palette() {
        let (closest, diff) = tree.find_closest(&c);
        assert_eq!(closest, c);
        assert_eq!(diff, [0, 0, 0]);
    }
}

#[test]
fn nearest_is_a_palette_color_at_least_distance() {
    let tree = get_color_tree();
    let pal = palette();
    let queries = [Rgb::new(1, 2, 3), Rgb::new(0, 0, 0), Rgb::new(255, 255, 255), Rgb::new(200, 10, 77), Rgb::new(128, 128, 128)];
    for q in queries {
        let (closest, diff) = tree.find_closest(&q);
        assert!(pal.contains(&closest));
        let best = pal.iter().map(|p| dist2(q, *p)).min().unwrap();
        assert_eq!(dist2(q, closest), best);
        assert_eq!(diff[0], q.r as i16 - closest.r as i16);
        assert_eq!(diff[1], q.g as i16 - closest.g as i16);
        assert_eq!(diff[2], q.b as i16 - closest.b as i16);
    }
}

#[test]
fn nearest_changes_a_color_outside_the_palette() {
    let tree = get_color_tree();
    let q = Rgb::new(1, 2, 3);
    let (closest, diff) = tree.find_closest(&q);
    assert_ne!(closest, q);
    assert_ne!(diff, [0, 0, 0]);
}

#[test]
fn black_is_nearest_to_darkest_gray() {
    // (17, 17, 17) at index 112 is a palette entry, but (13, 13, 13) at
    // index 115 lies closer to black.
    let tree = get_color_tree();
    assert_eq!(palette_entry(112), Rgb::new(17, 17, 17));
    assert_eq!(palette_entry(115), Rgb::new(13, 13, 13));
    let (closest, diff) = tree.find_closest(&Rgb::new(0, 0, 0));
    assert_eq!(closest, Rgb::new(13, 13, 13));
    assert_eq!(diff, [-13, -13, -13]);
}

#[test]
fn equidistant_color_gets_the_same_answer_every_time() {
    let tree = get_color_tree();
    let pal = palette();
    // Find a color exactly halfway between two palette entries that no other entry beats.
    let mut tie = None;
    'search: for i in 0..pal.len() {
        for j in (i + 1)..pal.len() {
            let (a, b) = (pal[i], pal[j]);
            if (a.r as i32 + b.r as i32) % 2 != 0 || (a.g as i32 + b.g as i32) % 2 != 0 || (a.b as i32 + b.b as i32) % 2 != 0 || a == b {
                continue;
            }
            let m = Rgb::new(((a.r as u16 + b.r as u16) / 2) as u8, ((a.g as u16 + b.g as u16) / 2) as u8, ((a.b as u16 + b.b as u16) / 2) as u8);
            let best = pal.iter().map(|p| dist2(m, *p)).min().unwrap();
            if dist2(m, a) == best && dist2(m, b) == best {
                tie = Some((m, a, b));
                break 'search;
            }
        }
    }
    let (m, a, b) = tie.expect("some color is equidistant from two palette entries");
    let (first, _) = tree.find_closest(&m);
    assert!(first == a || first == b);
    // Query again, interleaved with other colors in a scrambled order.
    let mut state: u64 = 12345;
    for _ in 0..200 {
        state = state.wrapping_mul(6364136223846793005).wrapping_add(1442695040888963407);
        let other = Rgb::new((state >> 40) as u8, (state >> 48) as u8, (state >> 56) as u8);
        if state % 3 == 0 {
            let _ = tree.find_closest(&other);
        }
        assert_eq!(tree.find_closest(&m).0, first);
    }
}

#[test]
fn weights_sum_to_the_whole_residual() {
    assert_eq!(RIGHT_WEIGHT + DOWN_LEFT_WEIGHT + DOWN_WEIGHT + DOWN_RIGHT_WEIGHT, WEIGHT_TOTAL);
    assert_eq!(WEIGHT_TOTAL, 16);
    // A single step from zero incoming residual: the four shares add back to the residual.
    let tree = get_color_tree();
    let c = Rgb::new(200, 10, 77);
    assert_eq!(distribute_rgb_channels(c, Acc::zero()), c);
    let (_, d) = tree.find_closest(&c);
    for k in 0..3 {
        let d = d[k] as i32;
        let shares = RIGHT_WEIGHT * d + DOWN_LEFT_WEIGHT * d + DOWN_WEIGHT * d + DOWN_RIGHT_WEIGHT * d;
        assert_eq!(shares, WEIGHT_TOTAL * d);
    }
}

#[test]
fn residual_application_saturates() {
    let c = Rgb::new(100, 0, 250);
    assert_eq!(distribute_rgb_channels(c, Acc { r: 160, g: -16, b: 160 }), Rgb::new(110, 0, 255));
    assert_eq!(distribute_rgb_channels(c, Acc { r: -1600, g: 32, b: -15 }), Rgb::new(0, 2, 249));
    assert_eq!(distribute_rgb_channels(c, Acc { r: 7, g: 15, b: 95 }), Rgb::new(100, 0, 255));
    assert_eq!(distribute_rgb_channels(Rgb::new(1, 1, 1), Acc { r: -16, g: -17, b: -15 }), Rgb::new(0, 0, 0));
}

#[test]
fn all_black_becomes_darkest_gray() {
    // Every pixel collapses to the palette entry closest to black.
    let image = Image::new(3, 3, Rgb::new(0, 0, 0));
    let (a, b, c) = run_all(&image);
    for out in [a, b, c] {
        assert_eq!(out.dimensions(), (3, 3));
        assert!(out.as_pixels().iter().all(|p| *p == Rgb::new(13, 13, 13)));
    }
}

#[test]
fn all_white_stays_white() {
    let image = Image::new(3, 3, Rgb::new(255, 255, 255));
    let (a, b, c) = run_all(&image);
    for out in [a, b, c] {
        assert!(out.as_pixels().iter().all(|p| *p == Rgb::new(255, 255, 255)));
    }
}

#[test]
fn schedulers_agree_on_noise() {
    for (w, h, seed) in [(7, 5, 1), (16, 9, 2), (1, 6, 3), (6, 1, 4), (2, 2, 5), (13, 2, 6), (2, 13, 7)] {
        let image = noise_image(w, h, seed);
        let (a, b, c) = run_all(&image);
        assert_eq!(a.dimensions(), (w, h));
        assert_eq!(a.as_pixels(), b.as_pixels());
        assert_eq!(a.as_pixels(), c.as_pixels());
    }
}

#[test]
fn output_pixels_are_palette_colors() {
    let pal = palette();
    let image = noise_image(11, 7, 42);
    let (a, b, c) = run_all(&image);
    for out in [a, b, c] {
        assert!(out.as_pixels().iter().all(|p| pal.contains(p)));
    }
}

#[test]
fn palette_image_is_unchanged() {
    let pal = palette();
    let pixels: Vec<Rgb> = (0..40).map(|i| pal[(i * 37) % pal.len()]).collect();
    let image = Image::from_pixels(8, 5, pixels.clone()).unwrap();
    let (a, b, c) = run_all(&image);
    for out in [a, b, c] {
        assert_eq!(out.as_pixels(), &pixels);
    }
}

#[test]
fn single_pixel_becomes_its_nearest_color() {
    let tree = get_color_tree();
    for q in [Rgb::new(1, 2, 3), Rgb::new(250, 3, 100), Rgb::new(60, 60, 200)] {
        let image = Image::new(1, 1, q);
        let (a, b, c) = run_all(&image);
        let expected = tree.find_closest(&q).0;
        for out in [a, b, c] {
            assert_eq!(out.as_pixels(), &vec![expected]);
        }
    }
}

#[test]
fn two_rows_convert() {
    let image = noise_image(9, 2, 99);
    let (a, b, c) = run_all(&image);
    assert_eq!(a.dimensions(), (9, 2));
    assert_eq!(a.as_pixels(), b.as_pixels());
    assert_eq!(a.as_pixels(), c.as_pixels());
}

#[test]
fn empty_images_convert() {
    for (w, h) in [(0, 0), (0, 4), (4, 0)] {
        let image = Image::new(w, h, Rgb::new(5, 5, 5));
        let (a, b, c) = run_all(&image);
        for out in [a, b, c] {
            assert_eq!(out.dimensions(), (w, h));
            assert!(out.as_pixels().is_empty());
        }
    }
}

#[test]
fn diffusion_reaches_the_second_pixel() {
    // Black quantizes to (13, 13, 13); its residual of -13 pushes the right
    // neighbour of a mid-gray pixel down by 7/16 of 13 steps.
    let pixels = vec![Rgb::new(0, 0, 0), Rgb::new(90, 90, 90)];
    let image = Image::from_pixels(2, 1, pixels).unwrap();
    let (a, _, _) = run_all(&image);
    let tree = get_color_tree();
    let shifted = distribute_rgb_channels(Rgb::new(90, 90, 90), Acc { r: -13 * 7, g: -13 * 7, b: -13 * 7 });
    assert_eq!(shifted, Rgb::new(84, 84, 84));
    assert_eq!(a.as_pixels()[1], tree.find_closest(&shifted).0);
}

#[test]
fn image_accessors() {
    let mut image = Image::new(3, 2, Rgb::new(1, 2, 3));
    assert_eq!(image.dimensions(), (3, 2));
    assert_eq!(image.width(), 3);
    assert_eq!(image.height(), 2);
    image.put_pixel(2, 1, Rgb::new(9, 9, 9));
    assert_eq!(image.get_pixel(2, 1), Rgb::new(9, 9, 9));
    assert_eq!(image.get_pixel(0, 1), Rgb::new(1, 2, 3));
    assert_eq!(image.as_pixels()[5], Rgb::new(9, 9, 9));
    assert!(Image::from_pixels(2, 2, vec![Rgb::new(0, 0, 0); 3]).is_none());
    assert_eq!(image.into_pixels().len(), 6);
}

#[test]
fn targets_inside_and_at_edges() {
    assert_eq!(forward_targets(1, 1, 4, 4), vec![(2, 1, 7), (0, 2, 3), (1, 2, 5), (2, 2, 1)]);
    assert_eq!(forward_targets(0, 0, 4, 4), vec![(1, 0, 7), (0, 1, 5), (1, 1, 1)]);
    assert_eq!(forward_targets(3, 0, 4, 4), vec![(2, 1, 3), (3, 1, 5)]);
    assert_eq!(forward_targets(1, 3, 4, 4), vec![(2, 3, 7)]);
    assert_eq!(forward_targets(0, 0, 1, 1), vec![]);
}

#[test]
fn row_worker_sends_one_message_per_column() {
    let tree = get_color_tree();
    let width = 5;
    let mut worker = RowWorker::new(width);
    let mut sent = Vec::new();
    for x in 0..width {
        let (color, message) = worker.step(&tree, Rgb::new(30 * x as u8, 100, 200), Acc::zero());
        assert_eq!(message.is_some(), x >= 1);
        assert!(palette().contains(&color));
        sent.extend(message);
    }
    sent.push(worker.finish());
    assert_eq!(sent.len(), width as usize);
    assert_eq!(worker.x, width);
}

#[test]
fn successor_starts_after_second_column() {
    assert!(spawns_successor(1, 0, 5, 3));
    assert!(!spawns_successor(0, 0, 5, 3));
    assert!(!spawns_successor(2, 0, 5, 3));
    assert!(!spawns_successor(1, 2, 5, 3));
    assert!(spawns_successor(0, 1, 1, 3));
    assert!(!spawns_successor(0, 2, 1, 3));
}
