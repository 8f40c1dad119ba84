use bun_core::animation::{
    animate_sprite, get_texture_atlas_layout, AnimationDir, AnimationIndices, AnimationMode,
    SpriteScale,
};

fn frames(indices: &mut AnimationIndices, n: usize) -> Vec<usize> {
    (0..n).map(|_| indices.next()).collect()
}

#[test]
fn new_starts_on_first_frame_forward() {
    let a = AnimationIndices::new(12, 13, AnimationMode::Cycle);
    assert_eq!(a.current(), 12);
    assert_eq!(a.first(), 12);
    assert_eq!(a.last(), 13);
    assert_eq!(a.mode(), AnimationMode::Cycle);
    assert_eq!(a.direction(), AnimationDir::Forward);
}

#[test]
fn cycle_wraps_with_period_of_range() {
    let mut a = AnimationIndices::new(4, 7, AnimationMode::Cycle);
    assert_eq!(frames(&mut a, 9), vec![5, 6, 7, 4, 5, 6, 7, 4, 5]);
}

#[test]
fn cycle_of_two_frames_alternates() {
    let mut a = AnimationIndices::new(68, 69, AnimationMode::Cycle);
    assert_eq!(frames(&mut a, 4), vec![69, 68, 69, 68]);
}

#[test]
fn bounce_is_palindromic_without_repeated_endpoints() {
    let mut a = AnimationIndices::new(1, 3, AnimationMode::Bounce);
    assert_eq!(frames(&mut a, 8), vec![2, 3, 2, 1, 2, 3, 2, 1]);
}

#[test]
fn bounce_flips_direction_at_endpoints() {
    let mut a = AnimationIndices::new(1, 3, AnimationMode::Bounce);
    assert_eq!(a.next(), 2);
    assert_eq!(a.direction(), AnimationDir::Forward);
    assert_eq!(a.next(), 3);
    assert_eq!(a.direction(), AnimationDir::Backward);
    assert_eq!(a.next(), 2);
    assert_eq!(a.direction(), AnimationDir::Backward);
    assert_eq!(a.next(), 1);
    assert_eq!(a.direction(), AnimationDir::Forward);
}

#[test]
fn bounce_over_two_frames_alternates() {
    let mut a = AnimationIndices::new(5, 6, AnimationMode::Bounce);
    assert_eq!(frames(&mut a, 5), vec![6, 5, 6, 5, 6]);
}

#[test]
fn bounce_over_one_frame_stays() {
    let mut a = AnimationIndices::new(9, 9, AnimationMode::Bounce);
    assert_eq!(frames(&mut a, 3), vec![9, 9, 9]);
}

#[test]
fn once_plays_through_then_holds_past_last() {
    let mut a = AnimationIndices::new(8, 15, AnimationMode::Once);
    for _ in 0..7 {
        a.next();
    }
    assert_eq!(a.current(), 15);
    assert_eq!(a.next(), 16);
    for _ in 0..5 {
        assert_eq!(a.next(), 16);
    }
    assert_eq!(a.current(), 16);
}

#[test]
fn animate_sprite_advances_only_when_timer_finished() {
    let mut a = AnimationIndices::new(12, 13, AnimationMode::Cycle);
    assert_eq!(animate_sprite(&mut a, false), None);
    assert_eq!(a.current(), 12);
    assert_eq!(animate_sprite(&mut a, true), Some(13));
    assert_eq!(animate_sprite(&mut a, false), None);
    assert_eq!(a.current(), 13);
    assert_eq!(animate_sprite(&mut a, true), Some(12));
}

#[test]
fn atlas_grids_per_scale() {
    let g = get_texture_atlas_layout(SpriteScale::X8);
    assert_eq!((g.cell_size, g.columns, g.rows), (8, 16, 16));
    let g = get_texture_atlas_layout(SpriteScale::X16);
    assert_eq!((g.cell_size, g.columns, g.rows), (16, 8, 8));
    let g = get_texture_atlas_layout(SpriteScale::X32);
    assert_eq!((g.cell_size, g.columns, g.rows), (32, 4, 4));
}
