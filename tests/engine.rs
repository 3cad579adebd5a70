use wallpaperd::history::History;
use wallpaperd::selection::{fresh_candidates, pick_linear, pick_random, NextImage};
use wallpaperd::path::expand_home;
use wallpaperd::state::{ChangeImageDirection, State, WallpaperCommands};

fn s(x: &str) -> String {
    x.to_string()
}

fn commands() -> WallpaperCommands {
    WallpaperCommands {
        wallpaper_cmd: s("feh --bg-fill %wallpaper%"),
        wallpaper_post_cmd: None,
        wallpaper_post_offset: None,
    }
}

fn state_with(mode: NextImage, start: &str, capacity: usize) -> State {
    State::new(60, s("/pics"), s(start), mode, commands(), capacity, &s("/home/u"))
}

#[test]
fn history_never_exceeds_capacity_and_drops_oldest() {
    let mut h = History::new(s("a"), 3);
    for name in ["b", "c", "d", "e"] {
        h.push_back(s(name));
    }
    // "a" and "b" were evicted first; the newest three remain.
    assert!(!h.contains(&s("a")));
    assert!(!h.contains(&s("b")));
    assert!(h.contains(&s("c")));
    assert!(h.contains(&s("e")));
    assert_eq!(h.current(), &s("e"));
    assert_eq!(h.nth_back(2), Some(&s("c")));
    assert_eq!(h.nth_back(3), None);
}

#[test]
fn previous_then_next_restores_image() {
    let mut h = History::new(s("a"), 5);
    h.push_back(s("b"));
    h.push_back(s("c"));
    h.go_previous();
    assert_eq!(h.current(), &s("b"));
    assert!(h.has_next());
    h.go_next();
    assert_eq!(h.current(), &s("c"));
    assert!(!h.has_next());
}

#[test]
fn single_image_has_no_previous() {
    let mut h = History::new(s("a"), 5);
    assert!(!h.has_previous());
    h.go_previous();
    assert_eq!(h.current(), &s("a"));
    assert!(!h.has_next());
    h.push_back(s("b"));
    assert!(h.has_previous());
}

#[test]
fn go_next_without_redo_does_nothing() {
    let mut h = History::new(s("a"), 2);
    h.go_next();
    assert_eq!(h.current(), &s("a"));
    assert!(!h.has_previous());
}

#[test]
fn fallback_round_trip_restores_mode_and_image() {
    let mut st = state_with(NextImage::Linear, "a", 4);
    st.update_action(NextImage::Linear, Some(s("b")));
    st.save();
    assert!(st.get_fallback());
    assert_eq!(st.get_action(), NextImage::Static);
    assert_eq!(st.get_current_image(), &s("a"));
    st.save();
    assert!(!st.get_fallback());
    assert_eq!(st.get_action(), NextImage::Linear);
    assert_eq!(st.get_current_image(), &s("b"));
}

#[test]
fn fallback_freezes_navigation() {
    let entries = vec![s("x"), s("y")];
    let mut st = state_with(NextImage::Random, "a", 4);
    st.save();
    assert!(!st.change_image(ChangeImageDirection::Next, &entries));
    assert!(!st.change_image(ChangeImageDirection::Previous, &entries));
    assert_eq!(st.get_current_image(), &s("a"));
}

#[test]
fn static_mode_freezes_until_explicit_image() {
    let entries = vec![s("x"), s("y"), s("z")];
    let mut st = state_with(NextImage::Static, "a", 4);
    for _ in 0..3 {
        assert!(!st.change_image(ChangeImageDirection::Next, &entries));
        assert!(!st.change_image(ChangeImageDirection::Previous, &entries));
    }
    assert_eq!(st.get_current_image(), &s("a"));
    assert!(st.update_action(NextImage::Static, Some(s("/p/img.png"))));
    assert_eq!(st.get_current_image(), &s("/p/img.png"));
    assert!(!st.change_image(ChangeImageDirection::Next, &entries));
    assert_eq!(st.get_current_image(), &s("/p/img.png"));
}

#[test]
fn random_pick_never_repeats_window() {
    let entries: Vec<String> = (0..7).map(|i| format!("img{i}")).collect();
    let mut st = state_with(NextImage::Random, "img0", 3);
    for _ in 0..200 {
        let before: Vec<String> = (0..3)
            .filter_map(|k| st.shown_history().nth_back(k).cloned())
            .collect();
        assert!(st.change_image(ChangeImageDirection::Next, &entries));
        let now = st.get_current_image().clone();
        assert!(entries.contains(&now));
        assert!(!before.contains(&now));
    }
}

#[test]
fn random_pick_small_directory_accepts_repeats() {
    let entries = vec![s("a")];
    let h = History::new(s("a"), 3);
    assert_eq!(pick_random(&entries, &h), Some(s("a")));
    assert_eq!(pick_random(&Vec::new(), &h), None);
}

#[test]
fn fresh_candidates_skip_shown_images() {
    let entries = vec![s("a"), s("b"), s("c"), s("d")];
    let mut h = History::new(s("a"), 2);
    h.push_back(s("c"));
    assert_eq!(fresh_candidates(&entries, &h), vec![s("b"), s("d")]);
    let small = History::new(s("a"), 4);
    assert_eq!(fresh_candidates(&entries, &small), entries);
}

#[test]
fn linear_scenario_with_redo() {
    let entries = vec![s("a"), s("b"), s("c")];
    let mut st = state_with(NextImage::Linear, "a", 2);
    assert!(st.change_image(ChangeImageDirection::Next, &entries));
    assert_eq!(st.get_current_image(), &s("b"));
    assert!(st.change_image(ChangeImageDirection::Next, &entries));
    assert_eq!(st.get_current_image(), &s("c"));
    // Capacity 2: "a" was evicted by the third push.
    assert!(!st.shown_history().contains(&s("a")));
    assert!(st.change_image(ChangeImageDirection::Previous, &entries));
    assert_eq!(st.get_current_image(), &s("b"));
    assert!(st.shown_history().has_next());
    assert!(st.change_image(ChangeImageDirection::Next, &entries));
    assert_eq!(st.get_current_image(), &s("c"));
    assert!(!st.shown_history().has_next());
}

#[test]
fn linear_skips_images_in_window() {
    let entries = vec![s("a"), s("b"), s("c"), s("d")];
    let mut h = History::new(s("b"), 2);
    h.push_back(s("a"));
    // After "a" comes "b", which is shown; "c" is next free.
    assert_eq!(pick_linear(&entries, &h), Some(s("c")));
}

#[test]
fn linear_starts_at_one_when_current_unlisted() {
    let entries = vec![s("a"), s("b"), s("c")];
    let h = History::new(s("zzz"), 1);
    assert_eq!(pick_linear(&entries, &h), Some(s("b")));
    assert_eq!(pick_linear(&Vec::new(), &h), None);
}

#[test]
fn empty_listing_aborts_fresh_pick() {
    let mut st = state_with(NextImage::Linear, "a", 3);
    assert!(!st.change_image(ChangeImageDirection::Next, &Vec::new()));
    assert_eq!(st.get_current_image(), &s("a"));
}

#[test]
fn previous_without_history_is_noop() {
    let entries = vec![s("x")];
    let mut st = state_with(NextImage::Linear, "a", 3);
    assert!(!st.change_image(ChangeImageDirection::Previous, &entries));
    assert_eq!(st.get_current_image(), &s("a"));
}

#[test]
fn tilde_paths_are_expanded() {
    assert_eq!(expand_home(s("~/Pictures/w.png"), &s("/home/u")), s("/home/u/Pictures/w.png"));
    assert_eq!(expand_home(s("~/x"), &s("/home/u/")), s("/home/u/x"));
    assert_eq!(expand_home(s("/abs/x"), &s("/home/u")), s("/abs/x"));
    assert_eq!(expand_home(s("~/x"), &s("")), s("x"));
    let st = State::new(5, s("~/walls"), s("~/d.png"), NextImage::Random, commands(), 3, &s("/h"));
    assert_eq!(st.get_image_dir(), &s("/h/walls"));
    assert_eq!(st.get_current_image(), &s("/h/d.png"));
}

#[test]
fn setter_commands_substitute_paths() {
    let cmds = WallpaperCommands {
        wallpaper_cmd: s("set %wallpaper% and %wallpaper%"),
        wallpaper_post_cmd: Some(s("post %wallpaper%")),
        wallpaper_post_offset: Some(1),
    };
    let mut st = State::new(5, s("/d"), s("a"), NextImage::Linear, cmds, 4, &s("/h"));
    assert_eq!(st.setter_commands(), vec![s("set a and a")]);
    st.update_action(NextImage::Linear, Some(s("b")));
    assert_eq!(st.setter_commands(), vec![s("set b and b"), s("post a")]);
}

#[test]
fn interval_and_directory_setters() {
    let mut st = state_with(NextImage::Linear, "a", 3);
    st.change_interval(30);
    assert_eq!(st.get_change_interval(), 30);
    st.set_image_dir(s("/other"));
    assert_eq!(st.get_image_dir(), &s("/other"));
}

#[test]
fn zero_capacity_keeps_one_image() {
    let mut h = History::new(s("a"), 0);
    h.push_back(s("b"));
    h.push_back(s("c"));
    assert_eq!(h.current(), &s("c"));
    assert!(!h.has_previous());
    assert!(!h.contains(&s("b")));
}

#[test]
fn fallback_with_single_slot_window_keeps_default() {
    let mut st = state_with(NextImage::Linear, "a", 1);
    st.update_action(NextImage::Random, Some(s("b")));
    st.save();
    assert_eq!(st.get_current_image(), &s("a"));
    st.save();
    // The window held one image only: the one shown before the fallback is gone.
    assert_eq!(st.get_current_image(), &s("a"));
    assert_eq!(st.get_action(), NextImage::Random);
    assert!(!st.get_fallback());
}

#[test]
fn fresh_pick_keeps_stale_redo_entries() {
    let entries = vec![s("x"), s("y"), s("z")];
    let mut st = state_with(NextImage::Linear, "x", 5);
    st.change_image(ChangeImageDirection::Next, &entries);
    st.change_image(ChangeImageDirection::Previous, &entries);
    st.update_action(NextImage::Linear, Some(s("z")));
    assert!(st.shown_history().has_next());
    st.change_image(ChangeImageDirection::Next, &entries);
    assert_eq!(st.get_current_image(), &s("y"));
}

#[test]
fn random_pick_fresh_over_many_listings() {
    for capacity in 1..5usize {
        for extra in 1..6usize {
            let k = capacity + extra;
            let entries: Vec<String> = (0..k).map(|i| format!("/d/{capacity}-{i}.png")).collect();
            let mut st = state_with(NextImage::Random, &entries[0], capacity);
            for _ in 0..50 {
                let window: Vec<String> = (0..capacity)
                    .filter_map(|b| st.shown_history().nth_back(b).cloned())
                    .collect();
                assert!(st.change_image(ChangeImageDirection::Next, &entries));
                let now = st.get_current_image().clone();
                assert!(!window.contains(&now));
                assert!(entries.contains(&now));
            }
        }
    }
}
