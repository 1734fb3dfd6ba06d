use procedural_city_gen::decimal::decimal_string;
use procedural_city_gen::panel::{
    export_event, generation_mode_for, open_space_counts, parse_seed, seed_after_edit, Dirty,
};
use procedural_city_gen::types::{GenerationMode, OpenSpaceKind, UiVisible};

#[test]
fn dirty_starts_clean() {
    let d = Dirty::default();
    assert!(!d.regenerate && !d.rebuild_skeleton);
    assert!(d.regenerate_event(7).is_none());
}

#[test]
fn cheap_change_regenerates_without_rebuilding() {
    let mut d = Dirty::default();
    d.cheap(false);
    assert!(!d.regenerate);
    d.cheap(true);
    assert!(d.regenerate && !d.rebuild_skeleton);
    d.cheap(false);
    assert!(d.regenerate, "a later unchanged slider must not clear the flag");
    let e = d.regenerate_event(42).unwrap();
    assert_eq!(e.seed, 42);
    assert!(!e.user_edit);
    assert!(!e.rebuild_skeleton);
}

#[test]
fn structural_change_rebuilds_the_skeleton() {
    let mut d = Dirty::default();
    d.structural(false);
    assert!(!d.regenerate && !d.rebuild_skeleton);
    d.structural(true);
    d.cheap(false);
    d.structural(false);
    assert!(d.regenerate && d.rebuild_skeleton);
    let e = d.regenerate_event(9).unwrap();
    assert!(e.rebuild_skeleton);
    assert!(!e.user_edit);
}

#[test]
fn export_file_is_named_after_the_seed() {
    assert_eq!(export_event(1512086461918454205).filename, "city_1512086461918454205.obj");
    assert_eq!(export_event(0).filename, "city_0.obj");
}

#[test]
fn decimal_text_matches_display() {
    for n in [0u64, 7, 10, 99, 100, 12345, u64::MAX] {
        assert_eq!(decimal_string(n), n.to_string());
    }
}

#[test]
fn checkbox_picks_generation_mode() {
    assert_eq!(generation_mode_for(true), GenerationMode::Auto);
    assert_eq!(generation_mode_for(false), GenerationMode::Manual);
    assert_eq!(GenerationMode::default(), GenerationMode::Auto);
}

#[test]
fn open_space_stats_split_parks_and_plazas() {
    let kinds = vec![OpenSpaceKind::Park, OpenSpaceKind::Plaza, OpenSpaceKind::Park];
    assert_eq!(open_space_counts(&kinds), (2, 1));
    assert_eq!(open_space_counts(&vec![]), (0, 0));
}

#[test]
fn seed_text_parses_like_u64() {
    for text in ["0", "42", "+42", "0042", "18446744073709551615", "18446744073709551616", "", "+", "-1", "4 2", "x", "١"] {
        assert_eq!(parse_seed(text), text.parse::<u64>().ok(), "text {text:?}");
    }
}

#[test]
fn bad_seed_text_keeps_the_seed() {
    assert_eq!(seed_after_edit(5, "17"), 17);
    assert_eq!(seed_after_edit(5, "seventeen"), 5);
    assert_eq!(seed_after_edit(5, ""), 5);
}

#[test]
fn f1_toggles_the_panel() {
    let mut v = UiVisible(true);
    v.handle_toggle_key(false);
    assert!(v.0);
    v.handle_toggle_key(true);
    assert!(!v.0);
    v.handle_toggle_key(true);
    assert!(v.0);
}

#[test]
fn randomize_asks_for_a_full_rebuild() {
    let mut seed = procedural_city_gen::types::Seed(3);
    let mut d = Dirty::default();
    procedural_city_gen::panel::randomize(&mut seed, &mut d);
    assert!(d.regenerate && d.rebuild_skeleton);
    let e = d.regenerate_event(seed.0).unwrap();
    assert_eq!(e.seed, seed.0);
}

#[test]
fn reseed_takes_the_drawn_value() {
    let mut seed = procedural_city_gen::types::Seed(3);
    let mut d = Dirty::default();
    procedural_city_gen::panel::reseed(&mut seed, &mut d, 99);
    assert_eq!(seed.0, 99);
    assert!(d.regenerate && d.rebuild_skeleton);
}
