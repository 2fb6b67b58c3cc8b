use doom_fire::fire_engine::FireBuffer;

#[test]
fn initialising_a_buffer_fills_the_last_row_with_specified_value() {
    let width = 3;
    let height = 3;
    let buffer: Vec<i32> = vec![0; (width * height) as usize];
    let mut fire_buffer = FireBuffer {
        height: height,
        width: width,
        buffer: buffer,
    };
    let ignition_value = 5;
    fire_buffer.initialise_buffer(ignition_value);
    let expected_buffer = [
        0,
        0,
        0,
        0,
        0,
        0,
        ignition_value,
        ignition_value,
        ignition_value,
    ];
    for i in 0..expected_buffer.len() {
        assert_eq!(
            expected_buffer[i], fire_buffer.buffer[i],
            "Failed at index {}",
            i
        );
    }
}

#[test]
fn initialising_leaves_cells_above_the_ignition_row_unchanged() {
    let mut fire_buffer = FireBuffer {
        height: 2,
        width: 2,
        buffer: vec![7, 8, 0, 0],
    };
    fire_buffer.initialise_buffer(3);
    assert_eq!(fire_buffer.buffer, vec![7, 8, 3, 3]);
}

#[test]
fn one_step_with_zero_decay_gives_the_derived_frame() {
    // width 4, height 3, ignition value 3, every decay drawn as 0.
    let mut fire_buffer = FireBuffer {
        height: 3,
        width: 4,
        buffer: vec![0; 12],
    };
    fire_buffer.initialise_buffer(3);
    assert_eq!(
        fire_buffer.buffer,
        vec![0, 0, 0, 0, 0, 0, 0, 0, 3, 3, 3, 3]
    );
    let decays = vec![0; 8];
    fire_buffer.step_fire_with_decays(&decays);
    // Derived from the rule: columns are processed left to right, rows top
    // to bottom within a column, each burning cell writing itself one row
    // up and one column right; writes made earlier in the same step are
    // read by later columns, and the rightmost column's write wraps to the
    // start of its own row.
    assert_eq!(
        fire_buffer.buffer,
        vec![0, 0, 3, 3, 3, 3, 3, 3, 3, 3, 3, 3]
    );
}

#[test]
fn extinguished_cell_writes_zero_to_the_cell_above() {
    let mut fire_buffer = FireBuffer {
        height: 3,
        width: 3,
        buffer: vec![1, 1, 1, 1, 0, 1, 1, 1, 1],
    };
    // The cell at column 1, row 1 reads 0, so processing it must zero the
    // cell directly above, whatever the decay draw would have been.
    fire_buffer.spread_fire(4, 2);
    assert_eq!(fire_buffer.buffer, vec![1, 0, 1, 1, 0, 1, 1, 1, 1]);
}

#[test]
fn decay_draw_zero_carries_the_intensity_one_column_right() {
    let mut fire_buffer = FireBuffer {
        height: 2,
        width: 3,
        buffer: vec![0, 0, 0, 3, 3, 3],
    };
    fire_buffer.spread_fire(4, 0);
    assert_eq!(fire_buffer.buffer, vec![0, 0, 3, 3, 3, 3]);
}

#[test]
fn decay_draw_one_lowers_the_intensity_by_one_straight_up() {
    let mut fire_buffer = FireBuffer {
        height: 2,
        width: 3,
        buffer: vec![0, 0, 0, 3, 3, 3],
    };
    fire_buffer.spread_fire(4, 1);
    assert_eq!(fire_buffer.buffer, vec![0, 2, 0, 3, 3, 3]);
}

#[test]
fn decay_draw_two_carries_the_intensity_one_column_left() {
    let mut fire_buffer = FireBuffer {
        height: 2,
        width: 3,
        buffer: vec![0, 0, 0, 3, 3, 3],
    };
    fire_buffer.spread_fire(4, 2);
    assert_eq!(fire_buffer.buffer, vec![3, 0, 0, 3, 3, 3]);
}

#[test]
fn left_edge_draw_of_two_in_row_one_is_clipped() {
    let mut fire_buffer = FireBuffer {
        height: 2,
        width: 3,
        buffer: vec![9, 9, 9, 3, 3, 3],
    };
    // Column 0, row 1: the destination would fall before the start of the
    // grid, so no write happens at all.
    fire_buffer.spread_fire(3, 2);
    assert_eq!(fire_buffer.buffer, vec![9, 9, 9, 3, 3, 3]);
}

#[test]
fn left_edge_draw_of_one_reaches_only_column_zero_of_the_row_above() {
    let mut fire_buffer = FireBuffer {
        height: 2,
        width: 3,
        buffer: vec![9, 9, 9, 3, 3, 3],
    };
    fire_buffer.spread_fire(3, 1);
    assert_eq!(fire_buffer.buffer, vec![2, 9, 9, 3, 3, 3]);
}

#[test]
fn left_edge_draw_of_two_below_row_one_misses_the_row_above() {
    let mut fire_buffer = FireBuffer {
        height: 3,
        width: 3,
        buffer: vec![9, 9, 9, 9, 9, 9, 3, 3, 3],
    };
    // Column 0, row 2: the flat destination index wraps to the last column
    // of the row two above; the row directly above stays untouched.
    fire_buffer.spread_fire(6, 2);
    assert_eq!(fire_buffer.buffer, vec![9, 9, 3, 9, 9, 9, 3, 3, 3]);
}

#[test]
fn many_random_steps_keep_every_cell_inside_the_palette_range() {
    let mut fire_buffer = FireBuffer {
        height: 8,
        width: 6,
        buffer: vec![0; 48],
    };
    fire_buffer.initialise_buffer(36);
    for _ in 0..200 {
        fire_buffer.step_fire();
        for &cell in fire_buffer.buffer.iter() {
            assert!((0..=36).contains(&cell));
        }
        // The uniform ignition row is the fire's fuel: no step erodes it.
        for x in 0..6 {
            assert_eq!(fire_buffer.buffer[7 * 6 + x], 36);
        }
    }
}

#[test]
fn deterministic_steps_keep_every_cell_inside_the_palette_range() {
    let mut fire_buffer = FireBuffer {
        height: 5,
        width: 4,
        buffer: vec![0; 20],
    };
    fire_buffer.initialise_buffer(36);
    let decays: Vec<usize> = (0..16).map(|k| k % 3).collect();
    for _ in 0..50 {
        fire_buffer.step_fire_with_decays(&decays);
        for &cell in fire_buffer.buffer.iter() {
            assert!((0..=36).contains(&cell));
        }
    }
}
