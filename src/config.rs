use crate::command::is_word;
use crate::number::{all_digits, digits_value, parse_u64, parses_u64, unsigned_part};
use crate::selection::NextImage;
use vstd::prelude::*;

verus! {

/// The daemon's settings, as a configuration file gives them.
pub struct Config {
    /// Image to show by default
    pub default_image: String,
    /// Directory to search for images
    pub wallpaper_directory: String,
    /// Time in seconds between wallpaper changes
    pub interval: u64,
    /// Maximum size of the history (used for getting the previous wallpaper)
    pub history_length: usize,
    pub mode: NextImage,
    /// Command to call to change the wallpaper; `%wallpaper%` is replaced
    /// with the path to the wallpaper
    pub wallpaper_change_command: String,
    /// Command to call after changing the wallpaper
    pub wallpaper_post_change_command: Option<String>,
    /// How many cycles of delay to keep
    pub wallpaper_post_change_offset: Option<usize>,
}

/// The settings of a configuration, with paths and commands as text.
pub struct ConfigView {
    pub default_image: Seq<char>,
    pub wallpaper_directory: Seq<char>,
    pub interval: u64,
    pub history_length: usize,
    pub mode: NextImage,
    pub wallpaper_change_command: Seq<char>,
    pub wallpaper_post_change_command: Option<Seq<char>>,
    pub wallpaper_post_change_offset: Option<usize>,
}

impl Config {
    pub open spec fn view(&self) -> ConfigView {
        ConfigView {
            default_image: self.default_image@,
            wallpaper_directory: self.wallpaper_directory@,
            interval: self.interval,
            history_length: self.history_length,
            mode: self.mode,
            wallpaper_change_command: self.wallpaper_change_command@,
            wallpaper_post_change_command: match self.wallpaper_post_change_command {
                Some(c) => Some(c@),
                None => None,
            },
            wallpaper_post_change_offset: self.wallpaper_post_change_offset,
        }
    }
}

/// The settings used where no configuration file says otherwise.
pub open spec fn default_view() -> ConfigView {
    ConfigView {
        default_image: "~/Pictures/wallpaper.png"@,
        wallpaper_directory: "~/Pictures/wallpapers/"@,
        interval: 60,
        history_length: 25,
        mode: NextImage::Random,
        wallpaper_change_command: "feh -r %wallpaper%"@,
        wallpaper_post_change_command: None,
        wallpaper_post_change_offset: None,
    }
}

impl Default for Config {
    fn default() -> (r: Config)
        ensures
            r.view() == default_view(),
    {
        Config {
            default_image: String::from_str("~/Pictures/wallpaper.png"),
            wallpaper_directory: String::from_str("~/Pictures/wallpapers/"),
            interval: 60,
            history_length: 25,
            mode: NextImage::Random,
            wallpaper_change_command: String::from_str("feh -r %wallpaper%"),
            wallpaper_post_change_command: None,
            wallpaper_post_change_offset: None,
        }
    }
}

/// The index of the first `c` in `s` at or after `i`, or the length of `s`.
pub open spec fn index_of_from(s: Seq<char>, c: char, i: int) -> int
    decreases s.len() - i,
{
    if i < 0 || i >= s.len() {
        s.len() as int
    } else if s[i] == c {
        i
    } else {
        index_of_from(s, c, i + 1)
    }
}

/// The index of the first `c` in `s`, or the length of `s`.
pub open spec fn index_of(s: Seq<char>, c: char) -> int {
    index_of_from(s, c, 0)
}

proof fn lemma_index_of_from(s: Seq<char>, c: char, i: int)
    requires
        0 <= i <= s.len(),
    ensures
        i <= index_of_from(s, c, i) <= s.len(),
        index_of_from(s, c, i) < s.len() ==> s[index_of_from(s, c, i)] == c,
        forall|j: int| i <= j < index_of_from(s, c, i) ==> s[j] != c,
    decreases s.len() - i,
{
    if i < s.len() && s[i] != c {
        lemma_index_of_from(s, c, i + 1);
    }
}

/// The lines of `s`: split at each `\n`, with a `\r` just before the `\n`
/// dropped, and no line after a final `\n`.
pub open spec fn lines_of(s: Seq<char>) -> Seq<Seq<char>>
    decreases s.len(),
{
    if s.len() == 0 {
        seq![]
    } else {
        let k = index_of(s, '\n');
        if 0 <= k < s.len() {
            let line = s.subrange(0, k);
            let line = if line.len() > 0 && line.last() == '\r' {
                line.drop_last()
            } else {
                line
            };
            seq![line] + lines_of(s.subrange(k + 1, s.len() as int))
        } else {
            seq![s]
        }
    }
}

/// Whether `c` has the Unicode property White_Space.
pub open spec fn is_white_space(c: char) -> bool {
    ||| '\u{9}' <= c && c <= '\u{D}'
    ||| c == ' '
    ||| c == '\u{85}'
    ||| c == '\u{A0}'
    ||| c == '\u{1680}'
    ||| '\u{2000}' <= c && c <= '\u{200A}'
    ||| c == '\u{2028}'
    ||| c == '\u{2029}'
    ||| c == '\u{202F}'
    ||| c == '\u{205F}'
    ||| c == '\u{3000}'
}

/// `s` without its leading white space.
pub open spec fn trimmed_start(s: Seq<char>) -> Seq<char>
    decreases s.len(),
{
    if s.len() > 0 && is_white_space(s[0]) {
        trimmed_start(s.drop_first())
    } else {
        s
    }
}

/// `s` without its trailing white space.
pub open spec fn trimmed_end(s: Seq<char>) -> Seq<char>
    decreases s.len(),
{
    if s.len() > 0 && is_white_space(s.last()) {
        trimmed_end(s.drop_last())
    } else {
        s
    }
}

/// `s` without leading and trailing white space.
pub open spec fn trimmed(s: Seq<char>) -> Seq<char> {
    trimmed_end(trimmed_start(s))
}

/// Relies on `str::lines`: the lines of `s`, split at `\n` or `\r\n`, with no
/// empty line after a final line ending.
#[verifier::external_body]
fn text_lines(s: &str) -> (r: Vec<&str>)
    ensures
        r@.len() == lines_of(s@).len(),
        forall|i: int| 0 <= i < r@.len() ==> #[trigger] r@[i]@ == lines_of(s@)[i],
{
    s.lines().collect()
}

/// Relies on `str::trim`: `s` without leading and trailing characters that
/// have the Unicode property White_Space.
#[verifier::external_body]
fn trim(s: &str) -> (r: &str)
    ensures
        r@ == trimmed(s@),
{
    s.trim()
}

/// `s` without its leading double quotes.
pub open spec fn without_leading_quotes(s: Seq<char>) -> Seq<char>
    decreases s.len(),
{
    if s.len() > 0 && s[0] == '"' {
        without_leading_quotes(s.drop_first())
    } else {
        s
    }
}

/// `s` without its trailing double quotes.
pub open spec fn without_trailing_quotes(s: Seq<char>) -> Seq<char>
    decreases s.len(),
{
    if s.len() > 0 && s.last() == '"' {
        without_trailing_quotes(s.drop_last())
    } else {
        s
    }
}

/// The key of a `key = value` line: what precedes the first `=`, trimmed.
pub open spec fn line_key(line: Seq<char>) -> Seq<char> {
    trimmed(line.subrange(0, index_of(line, '=')))
}

/// The value of a `key = value` line: what lies between the first `=` and the
/// next one, trimmed, without surrounding double quotes, trimmed again.
pub open spec fn line_value(line: Seq<char>) -> Seq<char> {
    let rest = line.subrange(index_of(line, '=') + 1, line.len() as int);
    let part = rest.subrange(0, index_of(rest, '='));
    trimmed(without_trailing_quotes(without_leading_quotes(trimmed(part))))
}

/// The number that `s` spells in decimal, if it spells one.
pub open spec fn number_of(s: Seq<char>) -> Option<nat> {
    if all_digits(unsigned_part(s)) {
        Some(digits_value(unsigned_part(s)))
    } else {
        None
    }
}

/// What the setting `key` with the text `value` makes of `c`. Unknown keys,
/// and values that do not parse, leave it as it is.
pub open spec fn with_setting(c: ConfigView, key: Seq<char>, value: Seq<char>) -> ConfigView {
    if key == "default_image"@ {
        ConfigView { default_image: value, ..c }
    } else if key == "wallpaper_directory"@ {
        ConfigView { wallpaper_directory: value, ..c }
    } else if key == "interval"@ {
        match number_of(value) {
            Some(n) => if n <= u64::MAX {
                ConfigView { interval: n as u64, ..c }
            } else {
                c
            },
            None => c,
        }
    } else if key == "history_length"@ {
        match number_of(value) {
            Some(n) => if n <= usize::MAX {
                ConfigView { history_length: n as usize, ..c }
            } else {
                c
            },
            None => c,
        }
    } else if key == "mode"@ {
        if value == "Random"@ {
            ConfigView { mode: NextImage::Random, ..c }
        } else if value == "Linear"@ {
            ConfigView { mode: NextImage::Linear, ..c }
        } else if value == "Static"@ {
            ConfigView { mode: NextImage::Static, ..c }
        } else {
            c
        }
    } else if key == "wallpaper_change_command"@ {
        ConfigView { wallpaper_change_command: value, ..c }
    } else if key == "wallpaper_post_change_command"@ {
        ConfigView { wallpaper_post_change_command: Some(value), ..c }
    } else if key == "wallpaper_post_change_offset"@ {
        match number_of(value) {
            Some(n) => if n <= usize::MAX {
                ConfigView { wallpaper_post_change_offset: Some(n as usize), ..c }
            } else {
                c
            },
            None => c,
        }
    } else {
        c
    }
}

/// The settings after the first `n` lines of a configuration file.
pub open spec fn config_after(lines: Seq<Seq<char>>, n: int) -> ConfigView
    decreases n,
{
    if n <= 0 {
        default_view()
    } else {
        let line = lines[n - 1];
        with_setting(config_after(lines, n - 1), line_key(line), line_value(line))
    }
}

/// The index of the first `c` in `s` at or after `from`, or the length of `s`.
fn find_char(s: &str, c: char, from: usize) -> (r: usize)
    requires
        from <= s@.len(),
    ensures
        r as int == index_of_from(s@, c, from as int),
{
    let n = s.unicode_len();
    let mut i = from;
    while i < n
        invariant
            n == s@.len(),
            from <= i <= n,
            index_of_from(s@, c, from as int) == index_of_from(s@, c, i as int),
        decreases n - i,
    {
        if s.get_char(i) == c {
            return i;
        }
        i += 1;
    }
    i
}

/// `s` without leading and trailing double quotes.
fn strip_quotes(s: &str) -> (r: &str)
    ensures
        r@ == without_trailing_quotes(without_leading_quotes(s@)),
{
    let n = s.unicode_len();
    let mut start: usize = 0;
    assert(s@.subrange(0, n as int) =~= s@);
    while start < n && s.get_char(start) == '"'
        invariant
            n == s@.len(),
            start <= n,
            without_leading_quotes(s@) == without_leading_quotes(s@.subrange(start as int, n as int)),
        decreases n - start,
    {
        assert(s@.subrange(start as int, n as int).drop_first() =~= s@.subrange(start + 1, n as int));
        start += 1;
    }
    let ghost lead = s@.subrange(start as int, n as int);
    assert(without_leading_quotes(lead) == lead);
    let mut end: usize = n;
    while end > start && s.get_char(end - 1) == '"'
        invariant
            n == s@.len(),
            start <= end <= n,
            lead == s@.subrange(start as int, n as int),
            without_trailing_quotes(lead) == without_trailing_quotes(s@.subrange(start as int, end as int)),
        decreases end,
    {
        assert(s@.subrange(start as int, end as int).drop_last() =~= s@.subrange(start as int, end - 1));
        end -= 1;
    }
    s.substring_char(start, end)
}

/// The number that `s` spells in decimal, if it spells one that fits a `usize`.
fn parse_usize(s: &str) -> (r: Option<usize>)
    ensures
        r == match number_of(s@) {
            Some(n) => if n <= usize::MAX {
                Some(n as usize)
            } else {
                None
            },
            None => None::<usize>,
        },
{
    match parse_u64(s) {
        Some(v) => {
            if v <= usize::MAX as u64 {
                Some(v as usize)
            } else {
                None
            }
        },
        None => {
            proof {
                if all_digits(unsigned_part(s@)) && digits_value(unsigned_part(s@)) <= u64::MAX {
                    assert(parses_u64(s@, digits_value(unsigned_part(s@)) as u64));
                }
            }
            None
        },
    }
}

/// The number that `s` spells in decimal, if it spells one that fits a `u64`.
fn parse_number(s: &str) -> (r: Option<u64>)
    ensures
        r == match number_of(s@) {
            Some(n) => if n <= u64::MAX {
                Some(n as u64)
            } else {
                None
            },
            None => None::<u64>,
        },
{
    let r = parse_u64(s);
    proof {
        if r is None && all_digits(unsigned_part(s@)) && digits_value(unsigned_part(s@)) <= u64::MAX {
            assert(parses_u64(s@, digits_value(unsigned_part(s@)) as u64));
        }
    }
    r
}

impl Config {
    /// Applies the setting `key` with the text `value`.
    fn apply_setting(&mut self, key: &str, value: &str)
        ensures
            final(self).view() == with_setting(old(self).view(), key@, value@),
    {
        if is_word(key, "default_image") {
            self.default_image = String::from_str(value);
        } else if is_word(key, "wallpaper_directory") {
            self.wallpaper_directory = String::from_str(value);
        } else if is_word(key, "interval") {
            if let Some(seconds) = parse_number(value) {
                self.interval = seconds;
            }
        } else if is_word(key, "history_length") {
            if let Some(length) = parse_usize(value) {
                self.history_length = length;
            }
        } else if is_word(key, "mode") {
            if is_word(value, "Random") {
                self.mode = NextImage::Random;
            } else if is_word(value, "Linear") {
                self.mode = NextImage::Linear;
            } else if is_word(value, "Static") {
                self.mode = NextImage::Static;
            }
        } else if is_word(key, "wallpaper_change_command") {
            self.wallpaper_change_command = String::from_str(value);
        } else if is_word(key, "wallpaper_post_change_command") {
            self.wallpaper_post_change_command = Some(String::from_str(value));
        } else if is_word(key, "wallpaper_post_change_offset") {
            if let Some(offset) = parse_usize(value) {
                self.wallpaper_post_change_offset = Some(offset);
            }
        }
    }

    /// Reads a configuration file of `key = value` lines over the defaults.
    /// A value may be quoted; the text after a second `=` is ignored; unknown
    /// keys and values that do not parse are skipped. A line without `=` is
    /// an error.
    pub fn from_str(s: &str) -> (r: Result<Config, ()>)
        ensures
            r is Err <==> exists|i: int| 0 <= i < lines_of(s@).len() && !(#[trigger] lines_of(s@)[i]).contains('='),
            r matches Ok(c) ==> c.view() == config_after(lines_of(s@), lines_of(s@).len() as int),
    {
        let lines = text_lines(s);
        let ghost ls = lines_of(s@);
        let mut config = Config::default();
        let count = lines.len();
        let mut i: usize = 0;
        while i < count
            invariant
                count == lines@.len(),
                count == ls.len(),
                ls == lines_of(s@),
                i <= count,
                forall|k: int| 0 <= k < lines@.len() ==> #[trigger] lines@[k]@ == ls[k],
                forall|j: int| 0 <= j < i ==> (#[trigger] ls[j]).contains('='),
                config.view() == config_after(ls, i as int),
            decreases count - i,
        {
            let line = lines[i];
            assert(line@ == ls[i as int]);
            let n = line.unicode_len();
            let eq = find_char(line, '=', 0);
            proof {
                lemma_index_of_from(line@, '=', 0);
            }
            if eq == n {
                assert(!ls[i as int].contains('='));
                return Err(());
            }
            assert(ls[i as int].contains('=')) by {
                assert(line@[eq as int] == '=');
            }
            let key = trim(line.substring_char(0, eq));
            let rest = line.substring_char(eq + 1, n);
            let eq2 = find_char(rest, '=', 0);
            proof {
                lemma_index_of_from(rest@, '=', 0);
            }
            let part = rest.substring_char(0, eq2);
            let value = trim(strip_quotes(trim(part)));
            config.apply_setting(key, value);
            i += 1;
        }
        Ok(config)
    }
}

} // verus!
