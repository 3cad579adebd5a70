use crate::number::{decimal, lemma_decimal_parses, parse_u64, parses_u64, to_decimal};
use vstd::prelude::*;

verus! {

/// A request that a client sends to the daemon.
#[derive(Debug, PartialEq, Eq)]
pub enum Command {
    /// Show the next image
    Next,
    /// Exit the daemon
    Stop,
    /// Show the previous image
    Previous,
    /// Set the mode
    Mode(ModeArgs),
    /// Display the fallback wallpaper; if called again, display the previous image
    Fallback,
    /// Change the directory from which images are sourced
    WpDir(WallpaperDirectory),
    /// Set the interval for new images in seconds
    Interval(IntervalDuration),
    /// Query information about the current state
    Get(GetArgs),
}

/// An interval between automatic advances.
#[derive(Debug, PartialEq, Eq)]
pub struct IntervalDuration {
    /// In seconds.
    pub duration: u64,
}

/// A directory to pick images from.
#[derive(Debug, PartialEq, Eq)]
pub struct WallpaperDirectory {
    pub path: String,
}

/// The selection mode that a client asks for.
#[derive(Debug, PartialEq, Eq)]
pub enum ModeArgs {
    Linear,
    Random,
    Static(Image),
}

/// An image to show, if any.
#[derive(Debug, PartialEq, Eq)]
pub struct Image {
    pub path: Option<String>,
}

/// What a client can query.
#[derive(Clone, Copy, Debug, PartialEq, Eq, Structural)]
pub enum GetArgs {
    Wallpaper,
    Duration,
    Mode,
    Fallback,
    WpDir,
}

/// Whether `s` can stand as one argument of a command line: not empty, and
/// without spaces.
pub open spec fn is_arg(s: Seq<char>) -> bool {
    s.len() > 0 && !s.contains(' ')
}

/// The word that names a query.
pub open spec fn get_word(g: GetArgs) -> Seq<char> {
    match g {
        GetArgs::Wallpaper => "wallpaper"@,
        GetArgs::Duration => "duration"@,
        GetArgs::Mode => "mode"@,
        GetArgs::Fallback => "fallback"@,
        GetArgs::WpDir => "wp-dir"@,
    }
}

/// Whether the command line `t` asks for `c`.
pub open spec fn denotes(t: Seq<char>, c: Command) -> bool {
    match c {
        Command::Next => t == "next"@,
        Command::Stop => t == "stop"@,
        Command::Previous => t == "previous"@,
        Command::Fallback => t == "fallback"@,
        Command::Mode(ModeArgs::Linear) => t == "mode linear"@,
        Command::Mode(ModeArgs::Random) => t == "mode random"@,
        Command::Mode(ModeArgs::Static(img)) => match img.path {
            None => t == "mode static"@,
            Some(p) => is_arg(p@) && t == "mode static "@ + p@,
        },
        Command::Interval(d) => exists|u: Seq<char>| t == "interval "@ + u && parses_u64(u, d.duration),
        Command::WpDir(w) => is_arg(w.path@) && t == "wp-dir "@ + w.path@,
        Command::Get(g) => t == "get "@ + get_word(g),
    }
}

/// The command line that asks for `c`.
pub open spec fn line_of(c: Command) -> Seq<char> {
    match c {
        Command::Next => "next"@,
        Command::Stop => "stop"@,
        Command::Previous => "previous"@,
        Command::Fallback => "fallback"@,
        Command::Mode(ModeArgs::Linear) => "mode linear"@,
        Command::Mode(ModeArgs::Random) => "mode random"@,
        Command::Mode(ModeArgs::Static(img)) => match img.path {
            None => "mode static"@,
            Some(p) => "mode static "@ + p@,
        },
        Command::Interval(d) => "interval "@ + decimal(d.duration as nat),
        Command::WpDir(w) => "wp-dir "@ + w.path@,
        Command::Get(g) => "get "@ + get_word(g),
    }
}

proof fn lemma_prefix_cancel(a: Seq<char>, u: Seq<char>, v: Seq<char>)
    requires
        a + u == a + v,
    ensures
        u == v,
{
    assert(u =~= (a + u).subrange(a.len() as int, (a + u).len() as int));
    assert(v =~= (a + v).subrange(a.len() as int, (a + v).len() as int));
}

/// The rest of `t` after `lit`, if `t` starts with `lit`.
fn strip_prefix<'a>(t: &'a str, lit: &str) -> (r: Option<&'a str>)
    ensures
        r matches Some(rest) ==> t@ == lit@ + rest@,
        r is None ==> forall|rest: Seq<char>| t@ != lit@ + rest,
{
    let n = t.unicode_len();
    let m = lit.unicode_len();
    if m > n {
        assert forall|rest: Seq<char>| t@ != lit@ + rest by {
            if t@ == lit@ + rest {
                assert((lit@ + rest).len() >= m);
            }
        }
        return None;
    }
    let mut i: usize = 0;
    while i < m
        invariant
            m == lit@.len(),
            n == t@.len(),
            m <= n,
            i <= m,
            forall|j: int| 0 <= j < i ==> t@[j] == lit@[j],
        decreases m - i,
    {
        if t.get_char(i) != lit.get_char(i) {
            assert forall|rest: Seq<char>| t@ != lit@ + rest by {
                if t@ == lit@ + rest {
                    assert((lit@ + rest)[i as int] == lit@[i as int]);
                }
            }
            return None;
        }
        i += 1;
    }
    let rest = t.substring_char(m, n);
    assert(t@ =~= lit@ + rest@);
    Some(rest)
}

/// Whether `t` is `lit`.
pub(crate) fn is_word(t: &str, lit: &str) -> (r: bool)
    ensures
        r == (t@ == lit@),
{
    match strip_prefix(t, lit) {
        Some(rest) => {
            if rest.unicode_len() == 0 {
                assert(t@ =~= lit@);
                true
            } else {
                false
            }
        },
        None => {
            assert(lit@ =~= lit@ + Seq::<char>::empty());
            false
        },
    }
}

/// Whether `s` can stand as one argument of a command line.
fn check_arg(s: &str) -> (r: bool)
    ensures
        r == is_arg(s@),
{
    let n = s.unicode_len();
    if n == 0 {
        return false;
    }
    let mut i: usize = 0;
    while i < n
        invariant
            n == s@.len(),
            i <= n,
            forall|j: int| 0 <= j < i ==> s@[j] != ' ',
        decreases n - i,
    {
        if s.get_char(i) == ' ' {
            assert(s@.contains(' '));
            return false;
        }
        i += 1;
    }
    true
}

/// The query named by `w`, if any.
fn parse_get(w: &str) -> (r: Option<GetArgs>)
    ensures
        r matches Some(g) ==> w@ == get_word(g),
        r is None ==> forall|g: GetArgs| w@ != get_word(g),
{
    if is_word(w, "wallpaper") {
        Some(GetArgs::Wallpaper)
    } else if is_word(w, "duration") {
        Some(GetArgs::Duration)
    } else if is_word(w, "mode") {
        Some(GetArgs::Mode)
    } else if is_word(w, "fallback") {
        Some(GetArgs::Fallback)
    } else if is_word(w, "wp-dir") {
        Some(GetArgs::WpDir)
    } else {
        assert forall|g: GetArgs| w@ != get_word(g) by {
            match g {
                GetArgs::Wallpaper => {},
                GetArgs::Duration => {},
                GetArgs::Mode => {},
                GetArgs::Fallback => {},
                GetArgs::WpDir => {},
            }
        }
        None
    }
}

/// Parses a command line: `next`, `previous`, `stop`, `fallback`,
/// `mode linear|random|static [path]`, `interval <seconds>`, `wp-dir <path>`
/// or `get wallpaper|duration|mode|fallback|wp-dir`, with single spaces
/// between the words. `None` for any other text.
pub fn parse_command(t: &str) -> (r: Option<Command>)
    ensures
        r matches Some(c) ==> denotes(t@, c),
        r is None ==> forall|c: Command| !denotes(t@, c),
{
    if is_word(t, "next") {
        return Some(Command::Next);
    }
    if is_word(t, "stop") {
        return Some(Command::Stop);
    }
    if is_word(t, "previous") {
        return Some(Command::Previous);
    }
    if is_word(t, "fallback") {
        return Some(Command::Fallback);
    }
    if is_word(t, "mode linear") {
        return Some(Command::Mode(ModeArgs::Linear));
    }
    if is_word(t, "mode random") {
        return Some(Command::Mode(ModeArgs::Random));
    }
    if is_word(t, "mode static") {
        return Some(Command::Mode(ModeArgs::Static(Image { path: None })));
    }
    let stat = strip_prefix(t, "mode static ");
    if let Some(p) = stat {
        if check_arg(p) {
            return Some(Command::Mode(ModeArgs::Static(Image { path: Some(String::from_str(p)) })));
        }
    }
    let interval = strip_prefix(t, "interval ");
    if let Some(u) = interval {
        if let Some(v) = parse_u64(u) {
            return Some(Command::Interval(IntervalDuration { duration: v }));
        }
    }
    let dir = strip_prefix(t, "wp-dir ");
    if let Some(p) = dir {
        if check_arg(p) {
            return Some(Command::WpDir(WallpaperDirectory { path: String::from_str(p) }));
        }
    }
    let get = strip_prefix(t, "get ");
    if let Some(w) = get {
        if let Some(g) = parse_get(w) {
            return Some(Command::Get(g));
        }
    }
    assert forall|c: Command| !denotes(t@, c) by {
        match c {
            Command::Mode(ModeArgs::Static(img)) => {
                if let Some(p) = img.path {
                    if let Some(q) = stat {
                        if t@ == "mode static "@ + p@ {
                            lemma_prefix_cancel("mode static "@, p@, q@);
                        }
                    }
                }
            },
            Command::Interval(d) => {
                if let Some(q) = interval {
                    if exists|u: Seq<char>| t@ == "interval "@ + u && parses_u64(u, d.duration) {
                        let u = choose|u: Seq<char>| t@ == "interval "@ + u && parses_u64(u, d.duration);
                        lemma_prefix_cancel("interval "@, u, q@);
                    }
                }
            },
            Command::WpDir(w) => {
                if let Some(q) = dir {
                    if t@ == "wp-dir "@ + w.path@ {
                        lemma_prefix_cancel("wp-dir "@, w.path@, q@);
                    }
                }
            },
            Command::Get(g) => {
                if let Some(q) = get {
                    if t@ == "get "@ + get_word(g) {
                        lemma_prefix_cancel("get "@, get_word(g), q@);
                    }
                }
            },
            _ => {},
        }
    }
    None
}

impl Command {
    /// The command line that asks for this command.
    pub fn to_line(&self) -> (r: String)
        ensures
            r@ == line_of(*self),
    {
        match self {
            Command::Next => String::from_str("next"),
            Command::Stop => String::from_str("stop"),
            Command::Previous => String::from_str("previous"),
            Command::Fallback => String::from_str("fallback"),
            Command::Mode(ModeArgs::Linear) => String::from_str("mode linear"),
            Command::Mode(ModeArgs::Random) => String::from_str("mode random"),
            Command::Mode(ModeArgs::Static(img)) => match &img.path {
                None => String::from_str("mode static"),
                Some(p) => String::from_str("mode static ").concat(p.as_str()),
            },
            Command::Interval(d) => String::from_str("interval ").concat(to_decimal(d.duration).as_str()),
            Command::WpDir(w) => String::from_str("wp-dir ").concat(w.path.as_str()),
            Command::Get(g) => {
                let word = match g {
                    GetArgs::Wallpaper => "wallpaper",
                    GetArgs::Duration => "duration",
                    GetArgs::Mode => "mode",
                    GetArgs::Fallback => "fallback",
                    GetArgs::WpDir => "wp-dir",
                };
                String::from_str("get ").concat(word)
            },
        }
    }
}

/// Whether every path that `c` carries can stand as one argument of a
/// command line.
pub open spec fn has_arg_paths(c: Command) -> bool {
    match c {
        Command::Mode(ModeArgs::Static(img)) => match img.path {
            Some(p) => is_arg(p@),
            None => true,
        },
        Command::WpDir(w) => is_arg(w.path@),
        _ => true,
    }
}

/// The command line of a command asks for that command again.
pub proof fn lemma_line_round_trip(c: Command)
    requires
        has_arg_paths(c),
    ensures
        denotes(line_of(c), c),
{
    if let Command::Interval(d) = c {
        lemma_decimal_parses(d.duration);
        assert("interval "@ + decimal(d.duration as nat) == line_of(c));
    }
}

/// Whether `a` and `b` are the same request: the same variant, with the
/// same number and the same path text.
pub open spec fn same_request(a: Command, b: Command) -> bool {
    match (a, b) {
        (Command::Next, Command::Next) => true,
        (Command::Stop, Command::Stop) => true,
        (Command::Previous, Command::Previous) => true,
        (Command::Fallback, Command::Fallback) => true,
        (Command::Mode(ModeArgs::Linear), Command::Mode(ModeArgs::Linear)) => true,
        (Command::Mode(ModeArgs::Random), Command::Mode(ModeArgs::Random)) => true,
        (Command::Mode(ModeArgs::Static(i)), Command::Mode(ModeArgs::Static(j))) => match (i.path, j.path) {
            (None, None) => true,
            (Some(p), Some(q)) => p@ == q@,
            _ => false,
        },
        (Command::Interval(d), Command::Interval(e)) => d.duration == e.duration,
        (Command::WpDir(v), Command::WpDir(w)) => v.path@ == w.path@,
        (Command::Get(g), Command::Get(h)) => g == h,
        _ => false,
    }
}

/// A command line asks for one request at most.
pub proof fn lemma_denotes_unique(t: Seq<char>, a: Command, b: Command)
    requires
        denotes(t, a),
        denotes(t, b),
    ensures
        same_request(a, b),
{
    reveal_strlit("next");
    reveal_strlit("stop");
    reveal_strlit("previous");
    reveal_strlit("fallback");
    reveal_strlit("mode linear");
    reveal_strlit("mode random");
    reveal_strlit("mode static");
    reveal_strlit("mode static ");
    reveal_strlit("interval ");
    reveal_strlit("wp-dir ");
    reveal_strlit("get ");
    reveal_strlit("wallpaper");
    reveal_strlit("duration");
    reveal_strlit("mode");
    reveal_strlit("fallback");
    reveal_strlit("wp-dir");
    let n = t.len();
    let c0 = t[0];
    let c1 = t[1];
    let c2 = t[2];
    let c3 = t[3];
    let c4 = t[4];
    let c5 = t[5];
    let c6 = t[6];
    let c11 = t[11];
    match (a, b) {
        (Command::Interval(d), Command::Interval(e)) => {
            let u = choose|u: Seq<char>| t == "interval "@ + u && parses_u64(u, d.duration);
            let v = choose|v: Seq<char>| t == "interval "@ + v && parses_u64(v, e.duration);
            lemma_prefix_cancel("interval "@, u, v);
        },
        (Command::WpDir(v), Command::WpDir(w)) => {
            lemma_prefix_cancel("wp-dir "@, v.path@, w.path@);
        },
        (Command::Mode(ModeArgs::Static(i)), Command::Mode(ModeArgs::Static(j))) => {
            if let (Some(p), Some(q)) = (i.path, j.path) {
                lemma_prefix_cancel("mode static "@, p@, q@);
            }
        },
        (Command::Get(g), Command::Get(h)) => {
            lemma_prefix_cancel("get "@, get_word(g), get_word(h));
        },
        _ => {},
    }
}

} // verus!
