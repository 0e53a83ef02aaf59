use boot_video::blit::{blit, can_blit, required_len, row_skip, x_offset, y_offset};
use boot_video::display::{DisplayMode, PixelFormat};
use boot_video::{BYTES_PER_PIXEL, FRAME_HEIGHT, FRAME_SIZE, FRAME_WIDTH};

const UNTOUCHED: u8 = 0xA5;

fn mode(width: usize, height: usize, stride: usize) -> DisplayMode {
    DisplayMode::new(width, height, stride, PixelFormat::Supported).unwrap()
}

/// A frame in which neighbouring pixels, and pixels one row apart, differ,
/// and in which no pixel has the value of an untouched byte.
fn test_frame() -> Vec<u8> {
    let mut frame = vec![0u8; FRAME_SIZE];
    for y in 0..FRAME_HEIGHT {
        for x in 0..FRAME_WIDTH {
            frame[y * FRAME_WIDTH + x] = ((x * 7 + y * 13) % 160) as u8;
        }
    }
    frame
}

/// What the frame buffer must hold after a blit, written pixel by pixel from
/// the place of each pixel in the frame buffer.
fn expected(len: usize, first_pixel: usize, pitch: usize, frame: &[u8]) -> Vec<u8> {
    let mut surface = vec![UNTOUCHED; len];
    for y in 0..FRAME_HEIGHT {
        for x in 0..FRAME_WIDTH {
            let at = (first_pixel + y * pitch + x) * 4;
            for channel in 0..4 {
                surface[at + channel] = frame[y * FRAME_WIDTH + x];
            }
        }
    }
    surface
}

#[test]
fn bytes_per_pixel_is_four() {
    assert_eq!(BYTES_PER_PIXEL, 4);
}

#[test]
fn frame_is_centred_horizontally() {
    assert_eq!(x_offset(&mode(800, 600, 800)), 160);
}

#[test]
fn frame_is_centred_vertically() {
    assert_eq!(y_offset(&mode(800, 600, 800)), 120);
}

#[test]
fn offsets_round_down() {
    let odd = mode(483, 365, 483);
    assert_eq!(x_offset(&odd), 1);
    assert_eq!(y_offset(&odd), 2);
    let exact = mode(480, 360, 480);
    assert_eq!(x_offset(&exact), 0);
    assert_eq!(y_offset(&exact), 0);
    let one_more = mode(481, 361, 481);
    assert_eq!(x_offset(&one_more), 0);
    assert_eq!(y_offset(&one_more), 0);
}

#[test]
fn row_skip_is_rest_of_row_plus_twice_the_margin() {
    assert_eq!(row_skip(&mode(800, 600, 800)), 320);
    assert_eq!(row_skip(&mode(800, 600, 832)), 352);
    assert_eq!(row_skip(&mode(480, 360, 480)), 0);
    assert_eq!(row_skip(&mode(481, 360, 481)), 0);
    assert_eq!(row_skip(&mode(483, 360, 512)), 31);
}

#[test]
fn required_len_reaches_the_last_pixel() {
    assert_eq!(required_len(&mode(480, 360, 480)), Some(480 * 360 * 4));
    // origin 160 + 120 * 800, then 359 rows of 800 and one of 480
    assert_eq!(
        required_len(&mode(800, 600, 800)),
        Some((160 + 120 * 800 + 359 * 800 + 480) * 4)
    );
    assert_eq!(
        required_len(&mode(800, 600, 832)),
        Some((160 + 120 * 832 + 359 * 832 + 480) * 4)
    );
    // odd margin: rows follow each other after 480 pixels
    assert_eq!(
        required_len(&mode(481, 360, 481)),
        Some((359 * 480 + 480) * 4)
    );
}

#[test]
fn required_len_of_modes_that_cannot_hold_a_frame() {
    assert_eq!(required_len(&mode(479, 360, 479)), None);
    assert_eq!(required_len(&mode(480, 359, 480)), None);
    assert_eq!(required_len(&mode(0, 0, 0)), None);
}

#[test]
fn required_len_beyond_the_address_space() {
    assert_eq!(required_len(&mode(usize::MAX, usize::MAX, usize::MAX)), None);
    assert_eq!(required_len(&mode(480, usize::MAX, usize::MAX / 2)), None);
    assert_eq!(required_len(&mode(480, 360, usize::MAX / 4)), None);
}

#[test]
fn can_blit_needs_room_for_the_last_pixel() {
    let exact = mode(480, 360, 480);
    assert!(can_blit(&exact, FRAME_SIZE * 4));
    assert!(can_blit(&exact, FRAME_SIZE * 4 + 1));
    assert!(!can_blit(&exact, FRAME_SIZE * 4 - 1));
    assert!(!can_blit(&exact, 0));
    let svga = mode(800, 600, 800);
    assert!(can_blit(&svga, 800 * 600 * 4));
    assert!(!can_blit(&svga, (160 + 120 * 800 + 359 * 800 + 480) * 4 - 1));
    assert!(!can_blit(&mode(320, 240, 320), usize::MAX));
}

#[test]
fn blit_fills_an_exactly_fitting_surface() {
    let frame = test_frame();
    let exact = mode(480, 360, 480);
    let mut surface = vec![UNTOUCHED; FRAME_SIZE * 4];
    blit(&mut surface, &exact, &frame);
    for (i, byte) in surface.iter().enumerate() {
        assert_eq!(*byte, frame[i / 4]);
    }
}

#[test]
fn blit_replicates_each_pixel_at_its_centred_place() {
    let frame = test_frame();
    let svga = mode(800, 600, 800);
    let mut surface = vec![UNTOUCHED; 800 * 600 * 4];
    blit(&mut surface, &svga, &frame);
    for y in 0..FRAME_HEIGHT {
        for x in 0..FRAME_WIDTH {
            let at = ((120 + y) * 800 + 160 + x) * 4;
            let pixel = frame[y * FRAME_WIDTH + x];
            assert_eq!(&surface[at..at + 4], &[pixel; 4]);
        }
    }
    assert_eq!(surface, expected(800 * 600 * 4, 120 * 800 + 160, 800, &frame));
}

#[test]
fn blit_leaves_the_margins_alone() {
    let frame = test_frame();
    let svga = mode(800, 600, 800);
    let mut surface = vec![UNTOUCHED; 800 * 600 * 4];
    blit(&mut surface, &svga, &frame);
    let mut untouched = 0usize;
    for row in 0..600 {
        for column in 0..800 {
            let inside = (120..480).contains(&row) && (160..640).contains(&column);
            let at = (row * 800 + column) * 4;
            if !inside {
                assert_eq!(&surface[at..at + 4], &[UNTOUCHED; 4]);
                untouched += 1;
            }
        }
    }
    assert_eq!(untouched, 800 * 600 - FRAME_SIZE);
}

#[test]
fn blit_honours_a_stride_wider_than_the_mode() {
    let frame = test_frame();
    let padded = mode(800, 600, 832);
    let mut surface = vec![UNTOUCHED; 832 * 600 * 4];
    blit(&mut surface, &padded, &frame);
    assert_eq!(surface, expected(832 * 600 * 4, 120 * 832 + 160, 832, &frame));
}

#[test]
fn blit_with_an_odd_margin_advances_by_one_pixel_less_per_row() {
    let frame = test_frame();
    let odd = mode(483, 362, 483);
    // offsets 1 and 1; the row skip is 0 + 2, so rows are 482 pixels apart
    assert_eq!(row_skip(&odd), 2);
    let mut surface = vec![UNTOUCHED; 483 * 362 * 4];
    blit(&mut surface, &odd, &frame);
    assert_eq!(surface, expected(483 * 362 * 4, 483 + 1, 482, &frame));
}

#[test]
fn blit_overwrites_what_was_shown_before() {
    let first = test_frame();
    let second: Vec<u8> = first.iter().map(|byte| byte.wrapping_add(50)).collect();
    let svga = mode(800, 600, 800);
    let mut surface = vec![UNTOUCHED; 800 * 600 * 4];
    blit(&mut surface, &svga, &first);
    blit(&mut surface, &svga, &second);
    assert_eq!(surface, expected(800 * 600 * 4, 120 * 800 + 160, 800, &second));
}

#[test]
fn blit_into_the_smallest_sufficient_surface() {
    let frame = test_frame();
    let svga = mode(800, 600, 800);
    let len = required_len(&svga).unwrap();
    assert!(len < 800 * 600 * 4);
    let mut surface = vec![UNTOUCHED; len];
    blit(&mut surface, &svga, &frame);
    assert_eq!(surface, expected(len, 120 * 800 + 160, 800, &frame));
    assert_eq!(surface[len - 1], frame[FRAME_SIZE - 1]);
}
