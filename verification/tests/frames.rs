use create_image::frame::{frame_schedule, FrameState, Phase};
use create_image::names::{
    data_file_name, data_file_path, image_file_name, image_file_path, step_label,
};

#[test]
fn run_starts_one_step_below_zero() {
    let state = FrameState::new();
    assert_eq!(state.step, -1);
    assert_eq!(state.max_step, 100);
    assert_eq!(state.label_height, 30);
    assert_eq!(state.phase(), Phase::Initializing);
}

#[test]
fn first_tick_lands_on_step_zero() {
    let mut state = FrameState::new();
    let quit = state.advance();
    assert!(!quit);
    assert_eq!(state.step, 0);
    assert_eq!(state.phase(), Phase::Rendering);
}

#[test]
fn run_quits_exactly_at_the_bound() {
    let mut state = FrameState { step: -1, max_step: 3, label_height: 30 };
    assert!(!state.advance());
    assert!(!state.advance());
    assert!(!state.advance());
    assert!(state.advance());
    assert_eq!(state.step, 3);
    assert_eq!(state.phase(), Phase::Terminated);
}

#[test]
fn zero_bound_quits_before_any_frame() {
    let mut state = FrameState { step: -1, max_step: 0, label_height: 30 };
    assert!(state.advance());
    assert_eq!(frame_schedule(0), Vec::<u32>::new());
}

#[test]
fn schedule_counts_every_step_once_in_order() {
    assert_eq!(frame_schedule(5), vec![0, 1, 2, 3, 4]);
}

#[test]
fn default_run_renders_exactly_one_hundred_frames() {
    let state = FrameState::new();
    let steps = frame_schedule(state.max_step);
    assert_eq!(steps.len(), 100);
    assert_eq!(steps[0], 0);
    assert_eq!(steps[99], 99);
}

#[test]
fn file_names_embed_the_padded_step() {
    assert_eq!(data_file_name(0), "cells_00000");
    assert_eq!(data_file_name(7), "cells_00007");
    assert_eq!(image_file_name(7), "cells_00007.png");
    assert_eq!(image_file_name(99), "cells_00099.png");
    assert_eq!(image_file_name(12345), "cells_12345.png");
    assert_eq!(image_file_name(123456), "cells_123456.png");
}

#[test]
fn file_paths_point_into_the_fixed_directories() {
    assert_eq!(data_file_path(7), "../../../result/cells_00007");
    assert_eq!(image_file_path(7), "../../../image/cells_00007.png");
    assert_eq!(data_file_path(123456), "../../../result/cells_123456");
}

#[test]
fn schedule_and_names_cover_a_run_without_collisions() {
    let steps = frame_schedule(100);
    let mut names: Vec<String> = steps.iter().map(|s| image_file_name(*s)).collect();
    names.sort();
    names.dedup();
    assert_eq!(names.len(), 100);
}

#[test]
fn label_shows_the_padded_step() {
    assert_eq!(step_label(0), "step: 00000");
    assert_eq!(step_label(42), "step: 00042");
}
