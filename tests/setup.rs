use wallpaperd::config::Config;
use wallpaperd::daemon::{config_file_path, initial_state, socket_path, DaemonArgs};
use wallpaperd::path::join_path;
use wallpaperd::protocol::{announced_length, decode_frame, encode_request};
use wallpaperd::selection::NextImage;
use wallpaperd::state::WallpaperCommands;

fn s(x: &str) -> String {
    x.to_string()
}

fn no_args() -> DaemonArgs {
    DaemonArgs {
        config: None,
        default: None,
        socket: None,
        wallpaper_directory: None,
        interval: 60,
        fd: None,
        history_length: None,
        mode: None,
        wallpaper_change_command: None,
        wallpaper_post_change_command: None,
        wallpaper_post_change_offset: None,
    }
}

#[test]
fn default_config() {
    let c = Config::default();
    assert_eq!(c.default_image, "~/Pictures/wallpaper.png");
    assert_eq!(c.wallpaper_directory, "~/Pictures/wallpapers/");
    assert_eq!(c.interval, 60);
    assert_eq!(c.history_length, 25);
    assert_eq!(c.mode, NextImage::Random);
    assert_eq!(c.wallpaper_change_command, "feh -r %wallpaper%");
    assert_eq!(c.wallpaper_post_change_command, None);
    assert_eq!(c.wallpaper_post_change_offset, None);
}

#[test]
fn config_file_settings() {
    let text = "default_image = \"/p/d.png\"\r\n\
                wallpaper_directory=/p/walls\n\
                interval = 15\n\
                history_length = 4\n\
                mode = Linear\n\
                wallpaper_change_command = \"swaybg -i %wallpaper%\"\n\
                wallpaper_post_change_command = notify %wallpaper%\n\
                wallpaper_post_change_offset = 2\n";
    let c = Config::from_str(text).unwrap();
    assert_eq!(c.default_image, "/p/d.png");
    assert_eq!(c.wallpaper_directory, "/p/walls");
    assert_eq!(c.interval, 15);
    assert_eq!(c.history_length, 4);
    assert_eq!(c.mode, NextImage::Linear);
    assert_eq!(c.wallpaper_change_command, "swaybg -i %wallpaper%");
    assert_eq!(c.wallpaper_post_change_command, Some(s("notify %wallpaper%")));
    assert_eq!(c.wallpaper_post_change_offset, Some(2));
}

#[test]
fn config_bad_values_are_skipped() {
    let c = Config::from_str("interval = soon\nmode = Sideways\nunknown = 3\nhistory_length = -1").unwrap();
    assert_eq!(c.interval, 60);
    assert_eq!(c.mode, NextImage::Random);
    assert_eq!(c.history_length, 25);
}

#[test]
fn config_second_equals_cuts_value() {
    let c = Config::from_str("wallpaper_change_command = a=b").unwrap();
    assert_eq!(c.wallpaper_change_command, "a");
}

#[test]
fn config_line_without_equals_is_error() {
    assert!(Config::from_str("interval = 5\njust words").is_err());
    assert!(Config::from_str("").is_ok());
}

#[test]
fn commands_prefer_arguments() {
    let mut args = no_args();
    args.wallpaper_post_change_offset = Some(3);
    args.wallpaper_change_command = Some(s("xsetbg %wallpaper%"));
    let mut config = Config::default();
    config.wallpaper_post_change_command = Some(s("post"));
    config.wallpaper_post_change_offset = Some(1);
    let w = WallpaperCommands::new(&args, &config);
    assert_eq!(w.wallpaper_cmd, "xsetbg %wallpaper%");
    assert_eq!(w.wallpaper_post_cmd, Some(s("post")));
    assert_eq!(w.wallpaper_post_offset, Some(3));
}

#[test]
fn initial_state_merges_settings() {
    let mut args = no_args();
    args.interval = 10;
    args.mode = Some(NextImage::Static);
    args.default = Some(s("~/x.png"));
    let config = Config::default();
    let st = initial_state(&args, &config, &s("/home/u"));
    assert_eq!(st.get_current_image(), &s("/home/u/x.png"));
    assert_eq!(st.get_image_dir(), &s("/home/u/Pictures/wallpapers/"));
    assert_eq!(st.get_action(), NextImage::Static);
    assert_eq!(st.get_change_interval(), 10);
    assert_eq!(st.shown_history().history_max_size(), 25);
    assert!(!st.get_fallback());
}

#[test]
fn default_paths() {
    assert_eq!(config_file_path(&Some(s("/c.toml")), &None, &s("/h")), "/c.toml");
    assert_eq!(config_file_path(&None, &Some(s("/xdg")), &s("/h")), "/xdg/wallpaperd/wallpaperd.toml");
    assert_eq!(config_file_path(&None, &None, &s("/h")), "/h/.config/wallpaperd/wallpaperd.toml");
    assert_eq!(socket_path(&None, &Some(s("/run/user/1/"))), "/run/user/1/wallpaperd");
    assert_eq!(socket_path(&None, &None), "/tmp/wallpaperd");
    assert_eq!(socket_path(&Some(s("/s")), &None), "/s");
    assert_eq!(join_path(&s("a"), "b"), "a/b");
    assert_eq!(join_path(&s(""), "b"), "b");
    assert_eq!(config_file_path(&None, &Some(s("")), &s("/h")), "wallpaperd/wallpaperd.toml");
    assert_eq!(socket_path(&None, &Some(s(""))), "wallpaperd");
}

#[test]
fn request_encoding_round_trip() {
    let r = encode_request("get wallpaper");
    assert_eq!(&r[..8], &[13, 0, 0, 0, 0, 0, 0, 0]);
    assert_eq!(&r[8..], b"get wallpaper");
    assert_eq!(announced_length(&r), 13);
    assert_eq!(decode_frame(&r), Ok(s("get wallpaper")));
    let long = "x".repeat(70000);
    let r = encode_request(&long);
    assert_eq!(announced_length(&r), 70000);
    assert_eq!(decode_frame(&r), Ok(long));
    assert_eq!(announced_length(&[1, 2, 3, 4, 5, 6, 7, 8]), 0x0807060504030201);
}

#[test]
fn config_trims_unicode_white_space() {
    let c = Config::from_str("\u{3000}interval\t= \u{a0}42\u{2003}\nmode = \" Linear\"").unwrap();
    assert_eq!(c.interval, 42);
    assert_eq!(c.mode, NextImage::Linear);
}
