use invisible_ptt::icon::{bgra, Status, APP};
use invisible_ptt::resource::{dib, mask, record, resource_file};

const ALL: [Status; 4] = [
    Status::Waiting,
    Status::Ready,
    Status::Talking,
    Status::Paused,
];

fn alpha(bits: &[u8], size: u32, x: u32, y: u32) -> u8 {
    bits[((y * size + x) * 4 + 3) as usize]
}

#[test]
fn every_shape_is_symmetric() {
    for status in ALL {
        for size in [16, 32, 47] {
            let bits = bgra(size, status);
            for y in 0..size {
                for x in 0..size {
                    let here = alpha(&bits, size, x, y);
                    assert_eq!(here, alpha(&bits, size, size - 1 - x, y));
                    assert_eq!(here, alpha(&bits, size, x, size - 1 - y));
                }
            }
        }
    }
}

#[test]
fn the_states_differ_by_shape() {
    const N: u32 = 32;
    // A point in the gap between the dot and the ring, and one on the
    // left-hand bar of the pause glyph.
    let gap = (N / 2, N / 2 - 9);
    let bar = (N / 2 - 4, N / 2);
    for (status, centre, in_gap, on_bar) in [
        (Status::Waiting, false, false, false),
        (Status::Ready, true, false, true),
        (Status::Talking, true, true, true),
        (Status::Paused, false, false, true),
    ] {
        let bits = bgra(N, status);
        assert_eq!(
            alpha(&bits, N, N / 2, N / 2) > 0,
            centre,
            "{status:?}: centre"
        );
        assert_eq!(alpha(&bits, N, gap.0, gap.1) > 0, in_gap, "{status:?}: gap");
        assert_eq!(alpha(&bits, N, bar.0, bar.1) > 0, on_bar, "{status:?}: bar");
    }
}

#[test]
fn edges_are_antialiased() {
    let bits = bgra(64, APP);
    assert!(bits.chunks(4).any(|px| px[3] > 0 && px[3] < 255));
}

/// The same shapes in floating point, as a plain rasteriser would have them.
fn sampled(size: u32, status: Status) -> Vec<u8> {
    let (r, g, b) = status.rgb();
    let scale = size as f32 / 32.0;
    let centre = size as f32 / 2.0;
    let mut out = vec![0u8; (size * size * 4) as usize];
    for y in 0..size {
        for x in 0..size {
            let mut hits = 0u32;
            for sy in 0..4 {
                for sx in 0..4 {
                    let dx = x as f32 + (sx as f32 + 0.5) * 0.25 - centre;
                    let dy = y as f32 + (sy as f32 + 0.5) * 0.25 - centre;
                    let dist = (dx * dx + dy * dy).sqrt() / scale;
                    let ring = (11.0..=14.5).contains(&dist);
                    let bars = (2.0..=5.0).contains(&(dx / scale).abs())
                        && (dy / scale).abs() <= 7.0;
                    let ink = match status {
                        Status::Waiting => ring,
                        Status::Ready => ring || dist <= 7.0,
                        Status::Talking => dist <= 14.5,
                        Status::Paused => ring || bars,
                    };
                    hits += u32::from(ink);
                }
            }
            if hits > 0 {
                let px = ((y * size + x) * 4) as usize;
                out[px] = b;
                out[px + 1] = g;
                out[px + 2] = r;
                out[px + 3] = (hits * 255 / 16) as u8;
            }
        }
    }
    out
}

#[test]
fn whole_numbers_draw_what_floating_point_does() {
    for status in ALL {
        for size in [1, 2, 3, 16, 20, 24, 32, 47, 48, 64, 100, 128, 256] {
            assert_eq!(bgra(size, status), sampled(size, status), "{status:?} {size}");
        }
    }
}

#[test]
fn colours_are_those_of_the_status() {
    for (status, colour) in [
        (Status::Waiting, [0x8a, 0x8a, 0x8a]),
        (Status::Ready, [0xf0, 0x9b, 0x2e]),
        (Status::Talking, [0x5f, 0xc2, 0x3d]),
        (Status::Paused, [0x2b, 0x99, 0xe0]),
    ] {
        let bits = bgra(32, status);
        for px in bits.chunks(4) {
            if px[3] == 0 {
                assert_eq!(px, [0, 0, 0, 0]);
            } else {
                assert_eq!(px[..3], colour);
            }
        }
        // The top of the ring, and a corner.
        assert_eq!(alpha(&bits, 32, 16, 3), 255);
        assert_eq!(alpha(&bits, 32, 0, 0), 0);
    }
}

#[test]
fn an_image_of_no_size_is_empty() {
    assert!(bgra(0, Status::Talking).is_empty());
    assert!(mask(Status::Talking, 0).is_empty());
}

#[test]
fn the_mask_leaves_the_background_alone() {
    for status in ALL {
        for size in [16u32, 20, 32, 48] {
            let bits = bgra(size, status);
            let rows = mask(status, size);
            let stride = (size.div_ceil(32) * 4) as usize;
            assert_eq!(rows.len(), stride * size as usize);
            for y in 0..size {
                let row = &rows[(size - 1 - y) as usize * stride..][..stride];
                for x in 0..(stride * 8) as u32 {
                    let drawn = x < size && alpha(&bits, size, x, y) != 0;
                    let bit = row[(x / 8) as usize] >> (7 - x % 8) & 1;
                    assert_eq!(bit == 0, drawn, "{status:?} {size} ({x}, {y})");
                }
            }
        }
    }
}

#[test]
fn a_record_has_its_header_and_is_padded() {
    let mut out: Vec<u8> = Vec::new();
    record(&mut out, 3, 7, 0x1010, 0x0409, &[1, 2, 3, 4, 5]);
    assert_eq!(
        out,
        vec![
            5, 0, 0, 0, 32, 0, 0, 0, 0xff, 0xff, 3, 0, 0xff, 0xff, 7, 0, 0, 0, 0, 0, 0x10, 0x10,
            0x09, 0x04, 0, 0, 0, 0, 0, 0, 0, 0, 1, 2, 3, 4, 5, 0, 0, 0
        ]
    );
    record(&mut out, 0, 0, 0, 0, &[]);
    assert_eq!(out.len(), 72);
}

#[test]
fn an_image_is_a_header_colours_and_a_mask() {
    let image = dib(16);
    assert_eq!(image.len(), 40 + 16 * 16 * 4 + 16 * 4);
    assert_eq!(
        image[..16],
        [40, 0, 0, 0, 16, 0, 0, 0, 32, 0, 0, 0, 1, 0, 32, 0]
    );
    assert!(image[16..40].iter().all(|&b| b == 0));
    // Symmetric, so bottom-up is top-down.
    assert_eq!(image[40..40 + 1024], bgra(16, APP)[..]);
    assert_eq!(image[40 + 1024..], mask(APP, 16)[..]);
}

#[test]
fn the_resource_file_holds_every_size_and_the_group() {
    let file = resource_file();
    let mut at = 0;
    let mut records = Vec::new();
    while at < file.len() {
        let word = |i: usize| u16::from_le_bytes([file[at + i], file[at + i + 1]]);
        let len = u32::from(word(0)) | u32::from(word(2)) << 16;
        assert_eq!(word(4), 32);
        records.push((word(10), word(14), word(20), word(22), at + 32, len as usize));
        at += 32 + (len as usize).div_ceil(4) * 4;
    }
    assert_eq!(at, file.len());
    assert_eq!(records.len(), 10);
    assert_eq!(records[0], (0, 0, 0, 0, 32, 0));
    for (i, size) in [16u32, 20, 24, 32, 48, 64, 128, 256].into_iter().enumerate() {
        let (ty, name, flags, lang, from, len) = records[i + 1];
        assert_eq!((ty, name, flags, lang), (3, i as u16 + 1, 0x1010, 0x0409));
        assert_eq!(file[from..from + len], dib(size)[..]);
        // The group's entry for it.
        let (.., group, _) = records[9];
        let entry = &file[group + 6 + 14 * i..][..14];
        assert_eq!(entry[0], size as u8);
        assert_eq!(entry[1], size as u8);
        assert_eq!(entry[2..8], [0, 0, 1, 0, 32, 0]);
        assert_eq!(entry[8..12], (len as u32).to_le_bytes());
        assert_eq!(entry[12..], (i as u16 + 1).to_le_bytes());
    }
    let (ty, name, flags, lang, group, len) = records[9];
    assert_eq!((ty, name, flags, lang), (14, 1, 0x1030, 0x0409));
    assert_eq!(len, 6 + 8 * 14);
    assert_eq!(file[group..group + 6], [0, 0, 1, 0, 8, 0]);
}
