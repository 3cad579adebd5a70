use crate::config::Config;
use crate::path::{expanded, join_path, joined};
use crate::selection::NextImage;
use crate::state::{State, WallpaperCommands};
use vstd::prelude::*;

verus! {

/// The daemon's command-line options; each one given overrides the
/// configuration file.
pub struct DaemonArgs {
    /// Configuration file
    pub config: Option<String>,
    /// Image to show by default
    pub default: Option<String>,
    /// Socket for communication
    pub socket: Option<String>,
    /// Directory to search for images
    pub wallpaper_directory: Option<String>,
    /// Time in seconds between wallpaper changes
    pub interval: u64,
    /// File descriptor to write to to signal readiness
    pub fd: Option<i32>,
    /// Maximum size of the history (used for getting the previous wallpaper)
    pub history_length: Option<usize>,
    pub mode: Option<NextImage>,
    /// Command to call to change the wallpaper
    pub wallpaper_change_command: Option<String>,
    /// Command to call after changing the wallpaper
    pub wallpaper_post_change_command: Option<String>,
    /// How many cycles of delay to keep
    pub wallpaper_post_change_offset: Option<usize>,
}

/// The text of an optional string.
pub open spec fn opt_view(o: Option<String>) -> Option<Seq<char>> {
    match o {
        Some(s) => Some(s@),
        None => None,
    }
}

/// The option given on the command line, else the one from the file.
pub open spec fn first_of<T>(a: Option<T>, b: Option<T>) -> Option<T> {
    match a {
        Some(x) => Some(x),
        None => b,
    }
}

fn pick_string(arg: &Option<String>, fallback: &String) -> (r: String)
    ensures
        r@ == match arg {
            Some(a) => a@,
            None => fallback@,
        },
{
    match arg {
        Some(a) => a.clone(),
        None => fallback.clone(),
    }
}

impl WallpaperCommands {
    /// The display commands: each one from the command line if given there,
    /// else from the configuration file.
    pub fn new(args: &DaemonArgs, config: &Config) -> (r: WallpaperCommands)
        ensures
            r.wallpaper_cmd@ == match args.wallpaper_change_command {
                Some(a) => a@,
                None => config.wallpaper_change_command@,
            },
            opt_view(r.wallpaper_post_cmd) == first_of(
                opt_view(args.wallpaper_post_change_command),
                opt_view(config.wallpaper_post_change_command),
            ),
            r.wallpaper_post_offset == first_of(args.wallpaper_post_change_offset, config.wallpaper_post_change_offset),
    {
        let wallpaper_cmd = pick_string(&args.wallpaper_change_command, &config.wallpaper_change_command);
        let wallpaper_post_cmd = match &args.wallpaper_post_change_command {
            Some(c) => Some(c.clone()),
            None => match &config.wallpaper_post_change_command {
                Some(c) => Some(c.clone()),
                None => None,
            },
        };
        let wallpaper_post_offset = match args.wallpaper_post_change_offset {
            Some(o) => Some(o),
            None => config.wallpaper_post_change_offset,
        };
        WallpaperCommands { wallpaper_cmd, wallpaper_post_cmd, wallpaper_post_offset }
    }
}

/// The state that the daemon starts with: each setting from the command line
/// if given there, else from the configuration file, with `~/` replaced by
/// `home`.
pub fn initial_state(args: &DaemonArgs, config: &Config, home: &String) -> (s: State)
    ensures
        s.wf(),
        s.shown() == seq![expanded(
            match args.default {
                Some(a) => a@,
                None => config.default_image@,
            },
            home@,
        )],
        s.history().next_view() == Seq::<Seq<char>>::empty(),
        s.history().capacity() == match args.history_length {
            Some(n) => n,
            None => config.history_length,
        } as nat,
        s.mode() == match args.mode {
            Some(m) => m,
            None => config.mode,
        },
        s.interval() == args.interval,
        s.image_dir_view() == expanded(
            match args.wallpaper_directory {
                Some(a) => a@,
                None => config.wallpaper_directory@,
            },
            home@,
        ),
        !s.fallback(),
        s.default_image_view() == expanded(
            match args.default {
                Some(a) => a@,
                None => config.default_image@,
            },
            home@,
        ),
        s.remembered_mode() == s.mode(),
        s.command_view() == match args.wallpaper_change_command {
            Some(a) => a@,
            None => config.wallpaper_change_command@,
        },
        s.post_command_view() == first_of(
            opt_view(args.wallpaper_post_change_command),
            opt_view(config.wallpaper_post_change_command),
        ),
        s.post_offset() == first_of(args.wallpaper_post_change_offset, config.wallpaper_post_change_offset),
{
    let cmds = WallpaperCommands::new(args, config);
    let dir = pick_string(&args.wallpaper_directory, &config.wallpaper_directory);
    let default = pick_string(&args.default, &config.default_image);
    let mode = match args.mode {
        Some(m) => m,
        None => config.mode,
    };
    let length = match args.history_length {
        Some(n) => n,
        None => config.history_length,
    };
    State::new(args.interval, dir, default, mode, cmds, length, home)
}

/// Where the configuration file is: the path given, else
/// `wallpaperd/wallpaperd.toml` in the user's configuration directory, which
/// is `xdg_config_home` if set, else `.config` in `home`.
pub fn config_file_path(given: &Option<String>, xdg_config_home: &Option<String>, home: &String) -> (r: String)
    ensures
        r@ == match given {
            Some(g) => g@,
            None => {
                let base = match xdg_config_home {
                    Some(x) => x@,
                    None => joined(home@, ".config"@),
                };
                joined(joined(base, "wallpaperd"@), "wallpaperd.toml"@)
            },
        },
{
    match given {
        Some(g) => g.clone(),
        None => {
            let base = match xdg_config_home {
                Some(x) => x.clone(),
                None => join_path(home, ".config"),
            };
            join_path(&join_path(&base, "wallpaperd"), "wallpaperd.toml")
        },
    }
}

/// Where the socket is: the path given, else `wallpaperd` in
/// `xdg_runtime_dir` if set, else `/tmp/wallpaperd`.
pub fn socket_path(given: &Option<String>, xdg_runtime_dir: &Option<String>) -> (r: String)
    ensures
        r@ == match given {
            Some(g) => g@,
            None => match xdg_runtime_dir {
                Some(x) => joined(x@, "wallpaperd"@),
                None => "/tmp/wallpaperd"@,
            },
        },
{
    match given {
        Some(g) => g.clone(),
        None => match xdg_runtime_dir {
            Some(x) => join_path(x, "wallpaperd"),
            None => String::from_str("/tmp/wallpaperd"),
        },
    }
}

} // verus!
