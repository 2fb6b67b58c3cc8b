use doom_fire::console_fire_renderer::cell_colors;
use doom_fire::fire_engine::FireBuffer;
use doom_fire::fire_palette::bgra_bytes;
use doom_fire::fire_palette::palette_color;
use doom_fire::fire_palette::MAX_PALETTE_ENTRIES;

#[test]
fn palette_ends_are_black_smoke_and_white_heat() {
    assert_eq!(MAX_PALETTE_ENTRIES, 37);
    assert_eq!(palette_color(0), (7, 7, 7));
    assert_eq!(palette_color(36), (255, 255, 255));
}

#[test]
fn palette_midrange_entries_match_the_table() {
    assert_eq!(palette_color(2), (47, 15, 7));
    assert_eq!(palette_color(9), (175, 63, 7));
    assert_eq!(palette_color(18), (207, 111, 15));
}

#[test]
fn cell_colors_maps_every_intensity_through_the_palette() {
    let fire_buffer = FireBuffer {
        height: 2,
        width: 2,
        buffer: vec![0, 2, 9, 36],
    };
    let colors = cell_colors(&fire_buffer);
    assert_eq!(
        colors,
        vec![(7, 7, 7), (47, 15, 7), (175, 63, 7), (255, 255, 255)]
    );
}

#[test]
fn bgra_bytes_packs_blue_green_red_zero_per_cell() {
    let fire_buffer = FireBuffer {
        height: 1,
        width: 2,
        buffer: vec![2, 9],
    };
    let bytes = bgra_bytes(&fire_buffer);
    assert_eq!(bytes, vec![7, 15, 47, 0, 7, 63, 175, 0]);
}
