use iv::loader::{CacheState, DecodedImage, ViewMode, WorkKind};

fn image_of(width: u32, height: u32) -> DecodedImage {
    let bytes = vec![0u8; width as usize * height as usize * 4];
    DecodedImage::new(bytes, width, height, 99, String::from("JPG")).expect("a buffer of the right length")
}

fn four_million_bytes() -> DecodedImage {
    image_of(1000, 1000)
}

#[test]
fn first_work_is_the_current_index() {
    let mut state = CacheState::new(10_000_000, 10);
    state.set_current_idx(2);
    assert_eq!(state.find_work(), Some((2, WorkKind::Full)));
}

#[test]
fn scan_stops_in_both_directions_once_over_budget() {
    let mut state = CacheState::new(10_000_000, 10);
    state.set_current_idx(2);
    assert_eq!(state.find_work(), Some((2, WorkKind::Full)));
    state.insert(2, four_million_bytes(), WorkKind::Full);
    assert_eq!(state.used_bytes(), 4_000_000);
    assert_eq!(state.find_work(), Some((3, WorkKind::Full)));
    state.insert(3, four_million_bytes(), WorkKind::Full);
    assert_eq!(state.used_bytes(), 8_000_000);
    assert_eq!(state.find_work(), None);
    assert_eq!(state.find_work(), None);
    assert!(state.get(2).is_some());
    assert!(state.get(3).is_some());
}

#[test]
fn moving_reopens_the_search() {
    let mut state = CacheState::new(10_000_000, 10);
    state.set_current_idx(2);
    state.insert(2, four_million_bytes(), WorkKind::Full);
    state.insert(3, four_million_bytes(), WorkKind::Full);
    state.insert(1, four_million_bytes(), WorkKind::Full);
    assert!(state.is_saturated(1));
    assert_eq!(state.find_work(), None);

    state.set_current_idx(5);
    assert!(!state.is_saturated(1));
    assert_eq!(state.find_work(), Some((5, WorkKind::Full)));
    state.mark_in_progress(5, WorkKind::Full);
    assert_eq!(state.find_work(), Some((6, WorkKind::Full)));
    state.mark_in_progress(6, WorkKind::Full);
    assert_eq!(state.find_work(), Some((4, WorkKind::Full)));
    state.mark_in_progress(4, WorkKind::Full);
    assert_eq!(state.find_work(), Some((7, WorkKind::Full)));
    state.mark_in_progress(7, WorkKind::Full);
    assert_eq!(state.find_work(), None);
    assert!(state.is_available(1, WorkKind::Full));
}

#[test]
fn current_index_is_scheduled_even_over_budget() {
    let mut state = CacheState::new(0, 10);
    state.set_current_idx(7);
    assert!(state.over_budget());
    assert_eq!(state.find_work(), Some((7, WorkKind::Full)));
    state.mark_in_progress(7, WorkKind::Full);
    assert_eq!(state.find_work(), None);
}

#[test]
fn single_view_goes_two_forward_one_backward() {
    let mut state = CacheState::new(u64::MAX, 100);
    state.set_current_idx(50);
    let mut order = Vec::new();
    for _ in 0..12 {
        let (idx, kind) = state.find_work().expect("work");
        assert_eq!(kind, WorkKind::Full);
        order.push(idx);
        state.insert(idx, image_of(1, 1), WorkKind::Full);
    }
    assert_eq!(order, vec![50, 51, 49, 52, 53, 48, 54, 55, 47, 56, 57, 46]);
}

#[test]
fn single_view_covers_a_short_list_entirely() {
    let mut state = CacheState::new(u64::MAX, 6);
    state.set_current_idx(4);
    let mut order = Vec::new();
    while let Some((idx, _)) = state.find_work() {
        order.push(idx);
        state.insert(idx, image_of(1, 1), WorkKind::Full);
    }
    assert_eq!(order, vec![4, 5, 3, 2, 1, 0]);
}

#[test]
fn scan_skips_what_is_cached_in_flight_or_failed() {
    let mut state = CacheState::new(u64::MAX, 20);
    state.set_current_idx(10);
    state.insert(10, image_of(1, 1), WorkKind::Full);
    state.insert(11, image_of(1, 1), WorkKind::Full);
    state.mark_in_progress(9, WorkKind::Full);
    state.record_error(12, WorkKind::Full, String::from("broken"));
    assert_eq!(state.find_work(), Some((13, WorkKind::Full)));
    state.mark_in_progress(13, WorkKind::Full);
    assert_eq!(state.find_work(), Some((8, WorkKind::Full)));
}

#[test]
fn a_saturated_index_ends_its_direction() {
    let mut state = CacheState::new(10_000, 20);
    state.set_current_idx(10);
    state.insert(10, image_of(10, 10), WorkKind::Full);
    state.insert(11, image_of(10, 10), WorkKind::Full);
    state.insert(12, image_of(50, 50), WorkKind::Full);
    assert!(state.is_saturated(12));
    assert!(!state.over_budget());
    assert!(state.is_available(13, WorkKind::Full));
    let mut order = Vec::new();
    while let Some((idx, kind)) = state.claim_work() {
        assert_eq!(kind, WorkKind::Full);
        order.push(idx);
    }
    assert_eq!(order, vec![9, 8, 7, 6, 5, 4, 3, 2, 1, 0]);
    assert!(!state.over_budget());
    assert!(state.is_available(13, WorkKind::Full));
}

#[test]
fn a_rejected_index_ends_its_direction() {
    let mut state = CacheState::new(1_000, 20);
    state.set_current_idx(10);
    state.insert(10, image_of(10, 10), WorkKind::Full);
    state.insert(13, image_of(10, 10), WorkKind::Full);
    state.mark_in_progress(11, WorkKind::Full);
    assert!(state.over_budget());
    assert_eq!(state.get_farthest_cached(), Some((13, 3)));
    assert_eq!(state.claim_work(), Some((9, WorkKind::Full)));
    assert_eq!(state.claim_work(), Some((12, WorkKind::Full)));
    assert_eq!(state.claim_work(), Some((8, WorkKind::Full)));
    assert_eq!(state.claim_work(), None);
    assert!(state.is_available(7, WorkKind::Full));
    assert!(state.is_available(14, WorkKind::Full));
}

#[test]
fn over_budget_takes_only_what_is_nearer_than_the_farthest_cached() {
    let mut state = CacheState::new(1_200, 40);
    state.set_current_idx(20);
    state.insert(20, image_of(10, 10), WorkKind::Full);
    state.insert(25, image_of(10, 10), WorkKind::Full);
    state.insert(21, image_of(10, 10), WorkKind::Full);
    assert!(state.over_budget());
    assert_eq!(state.get_farthest_cached(), Some((25, 5)));
    assert_eq!(state.claim_work(), Some((19, WorkKind::Full)));
    assert_eq!(state.claim_work(), Some((22, WorkKind::Full)));
    assert_eq!(state.claim_work(), Some((23, WorkKind::Full)));
    assert_eq!(state.claim_work(), Some((18, WorkKind::Full)));
    assert_eq!(state.claim_work(), Some((24, WorkKind::Full)));
    assert_eq!(state.claim_work(), Some((17, WorkKind::Full)));
    assert_eq!(state.claim_work(), Some((16, WorkKind::Full)));
    assert_eq!(state.claim_work(), None);
}

#[test]
fn forward_scan_gives_up_at_two_thousand_once_backward_has_ended() {
    let mut state = CacheState::new(u64::MAX, 5_000);
    state.mark_in_progress(0, WorkKind::Full);
    for idx in 1..1_999 {
        state.mark_in_progress(idx, WorkKind::Full);
    }
    assert_eq!(state.find_work(), Some((1_999, WorkKind::Full)));
    state.mark_in_progress(1_999, WorkKind::Full);
    assert_eq!(state.find_work(), None);
    assert!(state.is_available(2_000, WorkKind::Full));
}

#[test]
fn forward_scan_goes_on_while_backward_is_still_looking() {
    let mut state = CacheState::new(u64::MAX, 10_000);
    state.set_current_idx(3_000);
    for idx in 0..=5_500 {
        state.mark_in_progress(idx, WorkKind::Full);
    }
    assert_eq!(state.find_work(), Some((5_501, WorkKind::Full)));

    let mut far = CacheState::new(u64::MAX, 10_000);
    far.set_current_idx(3_000);
    for idx in 0..=6_997 {
        far.mark_in_progress(idx, WorkKind::Full);
    }
    assert_eq!(far.find_work(), None);
    for idx in 6_990..=6_997 {
        far.clear_in_progress(idx, WorkKind::Full);
    }
    assert_eq!(far.find_work(), Some((6_990, WorkKind::Full)));
}

#[test]
fn backward_scan_gives_up_at_two_thousand() {
    let mut state = CacheState::new(u64::MAX, 3_001);
    state.set_current_idx(3_000);
    for idx in 1_002..=3_000 {
        state.mark_in_progress(idx, WorkKind::Full);
    }
    assert_eq!(state.find_work(), Some((1_001, WorkKind::Full)));
    state.mark_in_progress(1_001, WorkKind::Full);
    assert_eq!(state.find_work(), None);
    assert!(state.is_available(1_000, WorkKind::Full));
}

#[test]
fn no_files_means_no_work() {
    let mut state = CacheState::new(10_000_000, 0);
    assert_eq!(state.find_work(), None);
    state.set_mode(ViewMode::Grid);
    assert_eq!(state.find_work(), None);
    state.set_current_idx(5);
    assert_eq!(state.find_work(), None);
    state.set_mode(ViewMode::Single);
    assert_eq!(state.find_work(), None);
    assert_eq!(state.claim_work(), None);
}

#[test]
fn found_work_is_always_available() {
    let mut state = CacheState::new(2_000, 30);
    state.set_current_idx(12);
    state.record_error(13, WorkKind::Full, String::from("bad"));
    state.record_error(11, WorkKind::Thumbnail, String::from("bad"));
    for round in 0..80 {
        if round == 25 {
            state.set_mode(ViewMode::Grid);
        }
        if round == 50 {
            state.set_current_idx(3);
            state.set_mode(ViewMode::Single);
        }
        match state.find_work() {
            Some((idx, kind)) => {
                assert!(state.is_available(idx, kind));
                state.insert(idx, image_of(10, 5), kind);
            }
            None => {}
        }
    }
}

#[test]
fn grid_spirals_backward_first() {
    let mut state = CacheState::new(10_000_000, 7);
    state.set_current_idx(3);
    state.set_mode(ViewMode::Grid);
    let mut order = Vec::new();
    while let Some((idx, kind)) = state.claim_work() {
        assert_eq!(kind, WorkKind::Thumbnail);
        order.push(idx);
    }
    assert_eq!(order, vec![3, 2, 4, 1, 5, 0, 6]);
}

#[test]
fn grid_reaches_the_whole_list_from_either_end() {
    let mut state = CacheState::new(0, 5);
    state.set_mode(ViewMode::Grid);
    let mut order = Vec::new();
    while let Some((idx, _)) = state.claim_work() {
        order.push(idx);
    }
    assert_eq!(order, vec![0, 1, 2, 3, 4]);

    let mut beyond = CacheState::new(0, 4);
    beyond.set_mode(ViewMode::Grid);
    beyond.set_current_idx(1_000_000);
    let mut order = Vec::new();
    while let Some((idx, _)) = beyond.claim_work() {
        order.push(idx);
    }
    assert_eq!(order, vec![3, 2, 1, 0]);
}

#[test]
fn grid_skips_thumbnails_that_are_cached_or_failed() {
    let mut state = CacheState::new(0, 7);
    state.set_current_idx(3);
    state.set_mode(ViewMode::Grid);
    state.insert(3, image_of(2, 2), WorkKind::Thumbnail);
    state.record_error(2, WorkKind::Thumbnail, String::from("bad"));
    state.insert(4, image_of(2, 2), WorkKind::Full);
    assert_eq!(state.find_work(), Some((4, WorkKind::Thumbnail)));
}
