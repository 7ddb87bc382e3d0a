use combat_overlay::format::format_damage;
use combat_overlay::palette::{get_character_color, Rgb, PALETTE_SIZE};
use combat_overlay::wrap::wrap_character_name;

#[test]
fn magnitude_plain_tier_truncates() {
    assert_eq!(format_damage(0), "0");
    assert_eq!(format_damage(7), "7");
    assert_eq!(format_damage(999), "999");
}

#[test]
fn magnitude_thousands_tier_truncates() {
    assert_eq!(format_damage(1_000), "1K");
    assert_eq!(format_damage(1_500), "1K");
    assert_eq!(format_damage(999_999), "999K");
}

#[test]
fn magnitude_millions_tier_one_decimal() {
    assert_eq!(format_damage(1_000_000), "1.0M");
    assert_eq!(format_damage(1_500_000), "1.5M");
    assert_eq!(format_damage(999_900_000), "999.9M");
}

#[test]
fn magnitude_billions_tier_whole_millions() {
    assert_eq!(format_damage(1_000_000_000), "1000M");
    assert_eq!(format_damage(2_000_000_000), "2000M");
    assert_eq!(format_damage(99_999_000_000), "99999M");
}

#[test]
fn magnitude_hundred_billions_tier_one_decimal() {
    assert_eq!(format_damage(100_000_000_000), "100.0G");
    assert_eq!(format_damage(150_000_000_000), "150.0G");
    assert_eq!(format_damage(150_550_000_000), "150.6G");
}

#[test]
fn wrap_splits_between_words() {
    assert_eq!(wrap_character_name("Silver Wolf", 6), "Silver\nWolf");
}

#[test]
fn wrap_returns_short_names_verbatim() {
    assert_eq!(wrap_character_name("March", 6), "March");
    assert_eq!(wrap_character_name("", 6), "");
    assert_eq!(wrap_character_name("Silver Wolf", 11), "Silver Wolf");
}

#[test]
fn wrap_keeps_long_single_word_unsplit() {
    assert_eq!(wrap_character_name("Trailblazer", 8), "Trailblazer");
}

#[test]
fn wrap_greedy_fills_each_line() {
    assert_eq!(
        wrap_character_name("Dan Heng Imbibitor Lunae", 10),
        "Dan Heng\nImbibitor\nLunae"
    );
}

#[test]
fn wrap_whitespace_only_name_is_returned_verbatim() {
    assert_eq!(wrap_character_name("      ", 3), "      ");
}

#[test]
fn palette_is_deterministic() {
    for i in 0..32usize {
        assert_eq!(get_character_color(i), get_character_color(i));
    }
}

#[test]
fn palette_cycles_after_palette_size() {
    for i in 0..32usize {
        assert_eq!(get_character_color(i), get_character_color(i + PALETTE_SIZE));
    }
}

#[test]
fn palette_first_colors_are_distinct() {
    let colors: Vec<Rgb> = (0..PALETTE_SIZE).map(get_character_color).collect();
    for a in 0..colors.len() {
        for b in 0..a {
            assert_ne!(colors[a], colors[b]);
        }
    }
    assert_eq!(colors[0], Rgb { r: 255, g: 99, b: 132 });
    assert_eq!(colors[1], Rgb { r: 54, g: 162, b: 235 });
}
