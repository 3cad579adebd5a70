use wallpaperd::command::{parse_command, Command, GetArgs, Image, IntervalDuration, ModeArgs, WallpaperDirectory};
use wallpaperd::number::{parse_u64, to_decimal};
use wallpaperd::protocol::{decode_frame, handle_request, request_needs_listing, FrameError};
use wallpaperd::selection::NextImage;
use wallpaperd::state::{State, WallpaperCommands};

fn s(x: &str) -> String {
    x.to_string()
}

fn daemon(current: &str) -> State {
    let cmds = WallpaperCommands {
        wallpaper_cmd: s("feh %wallpaper%"),
        wallpaper_post_cmd: None,
        wallpaper_post_offset: None,
    };
    State::new(60, s("/walls"), s(current), NextImage::Linear, cmds, 5, &s("/home/u"))
}

fn frame(line: &str) -> Vec<u8> {
    let mut v = (line.len() as u64).to_le_bytes().to_vec();
    v.extend_from_slice(line.as_bytes());
    v
}

#[test]
fn get_wallpaper_request() {
    let mut st = daemon("/tmp/a.png");
    let request = b"\x0d\x00\x00\x00\x00\x00\x00\x00get wallpaper";
    let reply = handle_request(&mut st, request, &Vec::new());
    assert_eq!(reply.response, "/tmp/a.png");
    assert!(!reply.stop);
}

#[test]
fn body_is_exactly_the_announced_length() {
    let mut st = daemon("/tmp/a.png");
    // Eight bytes announced: the body is "get wall", which names no command.
    let request = b"\x08\x00\x00\x00\x00\x00\x00\x00get wallpaper";
    assert_eq!(decode_frame(request), Ok(s("get wall")));
    let reply = handle_request(&mut st, request, &Vec::new());
    assert_eq!(reply.response, "");
    // Bytes after the announced body are ignored.
    let mut long = frame("get wallpaper");
    long.extend_from_slice(b" trailing");
    assert_eq!(handle_request(&mut st, &long, &Vec::new()).response, "/tmp/a.png");
}

#[test]
fn listing_needed_only_for_fresh_pick() {
    let mut st = daemon("/tmp/a.png");
    assert!(request_needs_listing(&st, &frame("next")));
    assert!(!request_needs_listing(&st, &frame("get wallpaper")));
    assert!(!request_needs_listing(&st, &frame("previous")));
    assert!(!request_needs_listing(&st, b"\x01"));
    let listing = vec![s("/walls/1"), s("/walls/2")];
    handle_request(&mut st, &frame("next"), &listing);
    handle_request(&mut st, &frame("previous"), &listing);
    // A redo is pending: the next advance replays it without a listing.
    assert!(!st.needs_listing());
    assert!(!request_needs_listing(&st, &frame("next")));
    handle_request(&mut st, &frame("mode static"), &listing);
    assert!(!request_needs_listing(&st, &frame("next")));
}

#[test]
fn interval_then_get_duration() {
    let mut st = daemon("/tmp/a.png");
    let reply = handle_request(&mut st, &frame("interval 30"), &Vec::new());
    assert_eq!(reply.response, "");
    let reply = handle_request(&mut st, &frame("get duration"), &Vec::new());
    assert_eq!(reply.response, "30");
}

#[test]
fn queries_report_state() {
    let mut st = daemon("/tmp/a.png");
    assert_eq!(handle_request(&mut st, &frame("get mode"), &Vec::new()).response, "Linear");
    assert_eq!(handle_request(&mut st, &frame("get fallback"), &Vec::new()).response, "false");
    assert_eq!(handle_request(&mut st, &frame("get wp-dir"), &Vec::new()).response, "/walls");
    let r = handle_request(&mut st, &frame("fallback"), &Vec::new());
    assert!(r.apply);
    assert_eq!(handle_request(&mut st, &frame("get fallback"), &Vec::new()).response, "true");
    assert_eq!(handle_request(&mut st, &frame("get mode"), &Vec::new()).response, "Static");
}

#[test]
fn commands_change_state() {
    let mut st = daemon("/tmp/a.png");
    let listing = vec![s("/walls/1"), s("/walls/2")];
    let r = handle_request(&mut st, &frame("next"), &listing);
    assert!(r.apply);
    // The shown image is not listed: a linear pick starts at index one.
    assert_eq!(st.get_current_image(), &s("/walls/2"));
    let r = handle_request(&mut st, &frame("previous"), &listing);
    assert!(r.apply);
    assert_eq!(st.get_current_image(), &s("/tmp/a.png"));
    handle_request(&mut st, &frame("mode random"), &listing);
    assert_eq!(st.get_action(), NextImage::Random);
    let r = handle_request(&mut st, &frame("mode static /x/y.png"), &listing);
    assert!(r.apply);
    assert_eq!(st.get_action(), NextImage::Static);
    assert_eq!(st.get_current_image(), &s("/x/y.png"));
    handle_request(&mut st, &frame("wp-dir /elsewhere"), &listing);
    assert_eq!(st.get_image_dir(), &s("/elsewhere"));
    let r = handle_request(&mut st, &frame("stop"), &listing);
    assert!(r.stop);
}

#[test]
fn unreadable_requests_get_empty_answer() {
    let mut st = daemon("/tmp/a.png");
    for bad in [frame("dance"), frame("get"), frame("interval x"), b"\x01\x02".to_vec()] {
        let r = handle_request(&mut st, &bad, &Vec::new());
        assert_eq!(r.response, "");
        assert!(!r.stop && !r.apply);
    }
    assert_eq!(st.get_current_image(), &s("/tmp/a.png"));
    assert_eq!(st.get_change_interval(), 60);
}

#[test]
fn frame_errors() {
    assert_eq!(decode_frame(b"\x01\x00"), Err(FrameError::MissingPrefix));
    assert_eq!(decode_frame(b"\x09\x00\x00\x00\x00\x00\x00\x00next"), Err(FrameError::Incomplete));
    assert_eq!(decode_frame(b"\x02\x00\x00\x00\x00\x00\x00\x00\xff\xfe"), Err(FrameError::NotUtf8));
    assert_eq!(decode_frame(&frame("next")), Ok(s("next")));
    assert_eq!(decode_frame(&frame("é")), Ok(s("é")));
}

#[test]
fn grammar() {
    assert_eq!(parse_command("next"), Some(Command::Next));
    assert_eq!(parse_command("previous"), Some(Command::Previous));
    assert_eq!(parse_command("stop"), Some(Command::Stop));
    assert_eq!(parse_command("fallback"), Some(Command::Fallback));
    assert_eq!(parse_command("mode linear"), Some(Command::Mode(ModeArgs::Linear)));
    assert_eq!(parse_command("mode static"), Some(Command::Mode(ModeArgs::Static(Image { path: None }))));
    assert_eq!(
        parse_command("mode static /a b"),
        None
    );
    assert_eq!(
        parse_command("interval +45"),
        Some(Command::Interval(IntervalDuration { duration: 45 }))
    );
    assert_eq!(
        parse_command("wp-dir /w"),
        Some(Command::WpDir(WallpaperDirectory { path: s("/w") }))
    );
    assert_eq!(parse_command("get wp-dir"), Some(Command::Get(GetArgs::WpDir)));
    assert_eq!(parse_command("get  mode"), None);
    assert_eq!(parse_command("Next"), None);
}

#[test]
fn command_lines_round_trip() {
    let cmds = vec![
        Command::Next,
        Command::Mode(ModeArgs::Random),
        Command::Mode(ModeArgs::Static(Image { path: Some(s("/p.png")) })),
        Command::Interval(IntervalDuration { duration: 1234 }),
        Command::WpDir(WallpaperDirectory { path: s("/d") }),
        Command::Get(GetArgs::Duration),
    ];
    for c in cmds {
        let line = c.to_line();
        assert_eq!(parse_command(&line), Some(c));
    }
    assert_eq!(Command::Interval(IntervalDuration { duration: 7 }).to_line(), "interval 7");
}

#[test]
fn numbers() {
    assert_eq!(parse_u64("0"), Some(0));
    assert_eq!(parse_u64("18446744073709551615"), Some(u64::MAX));
    assert_eq!(parse_u64("18446744073709551616"), None);
    assert_eq!(parse_u64(""), None);
    assert_eq!(parse_u64("+"), None);
    assert_eq!(parse_u64("-1"), None);
    assert_eq!(to_decimal(0), "0");
    assert_eq!(to_decimal(907), "907");
    assert_eq!(to_decimal(u64::MAX), "18446744073709551615");
}
