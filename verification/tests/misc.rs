use iv::cli::{default_budget, memory_budget, unit_of, MemoryUnit, GIGABYTE, MEGABYTE};
use iv::files::{
    announces, is_image_file, is_known_extension, is_whitespace, list_fields, split_words,
    IMAGE_EXTENSIONS,
};
use iv::loader::ViewMode;
use iv::ui::nav::{
    grid_step, rotated, single_step, target_index, toggle_mode, GridLayout, NavKeys, GRID_COLS,
};

fn keys() -> NavKeys {
    NavKeys { forward: false, backward: false, up: false, down: false, page_down: false, page_up: false }
}

#[test]
fn unit_is_read_from_the_suffix() {
    assert_eq!(unit_of("2GB"), ("2", MemoryUnit::Gigabytes));
    assert_eq!(unit_of("512MB"), ("512", MemoryUnit::Megabytes));
    assert_eq!(unit_of("1.5 GB"), ("1.5 ", MemoryUnit::Gigabytes));
    assert_eq!(unit_of("300"), ("300", MemoryUnit::Megabytes));
    assert_eq!(unit_of(""), ("", MemoryUnit::Megabytes));
    assert_eq!(unit_of("GB"), ("", MemoryUnit::Gigabytes));
    assert_eq!(unit_of("2gb"), ("2gb", MemoryUnit::Megabytes));
    assert_eq!(unit_of("2GBMB"), ("2GB", MemoryUnit::Megabytes));
}

#[test]
fn budget_is_amount_times_unit() {
    assert_eq!(MEGABYTE, 1024 * 1024);
    assert_eq!(GIGABYTE, 1024 * 1024 * 1024);
    assert_eq!(memory_budget(Some(2), MemoryUnit::Gigabytes), Some(2_147_483_648));
    assert_eq!(memory_budget(Some(512), MemoryUnit::Megabytes), Some(536_870_912));
    assert_eq!(memory_budget(Some(0), MemoryUnit::Megabytes), Some(0));
}

#[test]
fn budget_falls_back_to_the_default_amount() {
    assert_eq!(memory_budget(None, MemoryUnit::Gigabytes), Some(1_073_741_824));
    assert_eq!(memory_budget(None, MemoryUnit::Megabytes), Some(536_870_912));
    assert_eq!(MemoryUnit::Gigabytes.default_amount(), 1);
    assert_eq!(MemoryUnit::Megabytes.default_amount(), 512);
}

#[test]
fn default_budget_is_a_tenth_of_memory() {
    assert_eq!(default_budget(16_000_000_000), 1_600_000_000);
    assert_eq!(default_budget(9), 0);
    assert_eq!(default_budget(u64::MAX), u64::MAX / 10);
}

#[test]
fn budget_that_does_not_fit_is_none() {
    assert_eq!(memory_budget(Some(u64::MAX), MemoryUnit::Megabytes), None);
    assert_eq!(memory_budget(Some(1 << 34), MemoryUnit::Gigabytes), None);
    assert_eq!(memory_budget(Some((1 << 34) - 1), MemoryUnit::Gigabytes), Some(u64::MAX - GIGABYTE + 1));
}

#[test]
fn image_files_are_known_by_extension() {
    assert_eq!(IMAGE_EXTENSIONS.len(), 20);
    for ext in IMAGE_EXTENSIONS {
        assert!(is_known_extension(ext));
        assert!(is_image_file(Some(ext)));
    }
    assert!(!is_known_extension("txt"));
    assert!(!is_known_extension(""));
    assert!(!is_known_extension("jp"));
    assert!(!is_known_extension("jpgg"));
    assert!(!is_known_extension("JPG"));
}

#[test]
fn extension_case_does_not_matter() {
    assert!(is_image_file(Some("JPG")));
    assert!(is_image_file(Some("Png")));
    assert!(is_image_file(Some("wEbP")));
    assert!(!is_image_file(Some("TXT")));
    assert!(!is_image_file(Some("")));
    assert!(!is_image_file(None));
}

#[test]
fn grid_steps_add_up() {
    assert_eq!(GRID_COLS, 20);
    assert_eq!(grid_step(keys()), 0);
    assert_eq!(grid_step(NavKeys { forward: true, ..keys() }), 1);
    assert_eq!(grid_step(NavKeys { backward: true, ..keys() }), -1);
    assert_eq!(grid_step(NavKeys { down: true, ..keys() }), 20);
    assert_eq!(grid_step(NavKeys { up: true, ..keys() }), -20);
    assert_eq!(grid_step(NavKeys { page_down: true, ..keys() }), 300);
    assert_eq!(grid_step(NavKeys { page_up: true, ..keys() }), -300);
    assert_eq!(grid_step(NavKeys { forward: true, down: true, page_up: true, ..keys() }), -279);
    assert_eq!(grid_step(NavKeys { forward: true, backward: true, ..keys() }), 0);
}

#[test]
fn single_view_moves_by_one() {
    assert_eq!(single_step(keys()), 0);
    assert_eq!(single_step(NavKeys { forward: true, ..keys() }), 1);
    assert_eq!(single_step(NavKeys { backward: true, ..keys() }), -1);
    assert_eq!(single_step(NavKeys { page_down: true, ..keys() }), 1);
    assert_eq!(single_step(NavKeys { page_up: true, ..keys() }), -1);
    assert_eq!(single_step(NavKeys { up: true, down: true, ..keys() }), 0);
    assert_eq!(single_step(NavKeys { forward: true, backward: true, ..keys() }), -1);
    assert_eq!(single_step(NavKeys { backward: true, page_down: true, ..keys() }), 1);
    assert_eq!(single_step(NavKeys { page_down: true, page_up: true, ..keys() }), -1);
}

#[test]
fn target_index_stays_within_the_list() {
    assert_eq!(target_index(5, 1, 10), 6);
    assert_eq!(target_index(5, -1, 10), 4);
    assert_eq!(target_index(9, 1, 10), 9);
    assert_eq!(target_index(0, -1, 10), 0);
    assert_eq!(target_index(5, 300, 10), 9);
    assert_eq!(target_index(5, -300, 10), 0);
    assert_eq!(target_index(5, 0, 10), 5);
    assert_eq!(target_index(50, 0, 10), 9);
    assert_eq!(target_index(50, -45, 10), 5);
    assert_eq!(target_index(5, 1, 0), 0);
    assert_eq!(target_index(usize::MAX, i32::MAX, usize::MAX), usize::MAX - 1);
    assert_eq!(target_index(0, i32::MIN, 3), 0);
}

#[test]
fn toggling_switches_between_the_two_modes() {
    assert_eq!(toggle_mode(ViewMode::Single), ViewMode::Grid);
    assert_eq!(toggle_mode(ViewMode::Grid), ViewMode::Single);
}

#[test]
fn rotation_counts_quarter_turns() {
    assert_eq!(rotated(0, 1), 1);
    assert_eq!(rotated(3, 1), 0);
    assert_eq!(rotated(0, 3), 3);
    assert_eq!(rotated(1, 3), 0);
    assert_eq!(rotated(255, 255), 2);
}

#[test]
fn grid_layout_centres_the_selected_row() {
    assert_eq!(GridLayout::new(19, 100, 0), None);
    let g = GridLayout::new(800, 600, 0).expect("layout");
    assert_eq!(g, GridLayout { cell: 40, rows_visible: 16, start_row: 0 });
    let g = GridLayout::new(800, 600, 415).expect("layout");
    assert_eq!(g, GridLayout { cell: 40, rows_visible: 16, start_row: 12 });
    assert_eq!(g.position(415), Some((15, 8)));
    assert_eq!(g.position(240), Some((0, 0)));
    assert_eq!(g.position(239), None);
    let g = GridLayout::new(20, 0, 45).expect("layout");
    assert_eq!(g, GridLayout { cell: 1, rows_visible: 1, start_row: 2 });
    let g = GridLayout::new(810, 601, 100).expect("layout");
    assert_eq!(g, GridLayout { cell: 40, rows_visible: 17, start_row: 0 });
}

/// The fields of a line, by way of the standard library.
fn fields_by_std(line: &str) -> Vec<&str> {
    line.split('\t')
        .flat_map(|part| part.split("  "))
        .map(|part| part.trim())
        .filter(|part| !part.is_empty())
        .collect()
}

const LINES: [&str; 14] = [
    "",
    " ",
    "   ",
    "a.png",
    "  a.png  ",
    "a.png\tb.png",
    "a.png  b.png",
    "a.png   b.png",
    "a.png    b.png",
    "my file.png  other file.jpg\t third.gif ",
    "\t\t  \t",
    " \t ",
    "\u{a0}x.png\u{3000}  \u{2003}y.png",
    "caf\u{e9}.png \u{1f600}.jpg  z",
];

#[test]
fn list_line_is_split_at_tabs_and_double_spaces() {
    assert_eq!(list_fields("a.png\tb.png  c d.png   e.png "), vec!["a.png", "b.png", "c d.png", "e.png"]);
    assert_eq!(list_fields("one two"), vec!["one two"]);
    assert_eq!(list_fields("  lead\t\ttrail  "), vec!["lead", "trail"]);
    assert!(list_fields("").is_empty());
    assert!(list_fields("  \t ").is_empty());
    assert_eq!(list_fields("\u{a0}x.png\u{3000}"), vec!["x.png"]);
}

#[test]
fn list_fields_agree_with_split_and_trim() {
    for line in LINES {
        assert_eq!(list_fields(line), fields_by_std(line));
    }
}

#[test]
fn words_are_what_white_space_sets_apart() {
    assert_eq!(split_words("a.png b.png"), vec!["a.png", "b.png"]);
    assert_eq!(split_words("  a \t b\n"), vec!["a", "b"]);
    assert_eq!(split_words("one"), vec!["one"]);
    assert!(split_words("").is_empty());
    assert!(split_words(" \u{2028} ").is_empty());
    for line in LINES {
        assert_eq!(split_words(line), line.split_whitespace().collect::<Vec<_>>());
    }
}

#[test]
fn white_space_is_what_unicode_says() {
    for code in 0..=0x11_0000u32 {
        if let Some(c) = char::from_u32(code) {
            assert_eq!(is_whitespace(c), c.is_whitespace());
        }
    }
}

#[test]
fn first_and_every_hundredth_file_is_announced() {
    assert!(announces(1));
    assert!(announces(100));
    assert!(announces(200));
    assert!(announces(0));
    assert!(!announces(2));
    assert!(!announces(99));
    assert!(!announces(101));
}
