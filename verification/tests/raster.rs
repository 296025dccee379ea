use game_of_life::grid::create_empty_grid;
use game_of_life::render::{generate_image, render_rgba, row_glyphs, scaled_index};

const LIVE: [u8; 4] = [63, 3, 3, 255];
const DEAD: [u8; 4] = [0, 0, 0, 255];

#[test]
fn scaling_is_floor_division_clamped_high() {
    assert_eq!(scaled_index(0, 1920, 250), 0);
    assert_eq!(scaled_index(960, 1920, 250), 125);
    assert_eq!(scaled_index(1919, 1920, 250), 249);
    assert_eq!(scaled_index(7, 8, 2), 1);
    // Past the nominal size the result clamps at the last cell.
    assert_eq!(scaled_index(10, 10, 5), 4);
    assert_eq!(scaled_index(1000, 10, 5), 4);
}

#[test]
fn rendering_colors_each_pixel_from_its_cell() {
    let mut g = create_empty_grid(2, 1);
    g.set(0, 0, true);
    // One-to-one scale: first pixel live, second dead.
    let bytes = render_rgba(&g, 2, 1);
    assert_eq!(bytes, vec![63, 3, 3, 255, 0, 0, 0, 255]);
    // Doubled in both directions: the left half shows the live cell.
    let bytes = render_rgba(&g, 4, 2);
    assert_eq!(bytes.len(), 32);
    for y in 0..2u32 {
        for x in 0..4u32 {
            let start = (4 * (y * 4 + x)) as usize;
            let expected = if x < 2 { LIVE } else { DEAD };
            assert_eq!(&bytes[start..start + 4], &expected, "pixel ({}, {})", x, y);
        }
    }
}

#[test]
fn generated_image_has_the_rendered_pixels() {
    let mut g = create_empty_grid(2, 2);
    g.set(0, 0, true);
    g.set(1, 1, true);
    let img = generate_image(&g, 4, 4);
    assert_eq!(img.buffer.dimensions(), (4, 4));
    for y in 0..4u32 {
        for x in 0..4u32 {
            let alive = (x < 2) == (y < 2);
            let expected = if alive { LIVE } else { DEAD };
            assert_eq!(img.buffer.get_pixel(x, y).0, expected, "pixel ({}, {})", x, y);
        }
    }
}

#[test]
fn row_glyphs_draws_live_and_dead_cells() {
    let mut g = create_empty_grid(3, 2);
    g.set(0, 1, true);
    g.set(1, 0, true);
    assert_eq!(row_glyphs(&g, 0, '@', ' '), vec![' ', '@', ' ']);
    assert_eq!(row_glyphs(&g, 1, '@', ' '), vec!['@', ' ', ' ']);
    assert_eq!(row_glyphs(&g, 0, '#', '.'), vec!['.', '#', '.']);
}
