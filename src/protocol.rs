use crate::command::{denotes, lemma_denotes_unique, parse_command, same_request, Command, GetArgs, ModeArgs};
use crate::history::paths_view;
use crate::number::{decimal, to_decimal};
use crate::selection::NextImage;
use crate::state::{ChangeImageDirection, State};
use vstd::prelude::*;
use vstd::utf8::{decode_utf8, encode_utf8, valid_utf8};

verus! {

broadcast use
    vstd::utf8::encode_utf8_decode_utf8,
    vstd::utf8::decode_utf8_encode_utf8,
    vstd::utf8::encode_utf8_valid_utf8,
;

/// Why a request could not be read.
#[derive(Clone, Copy, Debug, PartialEq, Eq, Structural)]
pub enum FrameError {
    /// Fewer than eight bytes arrived.
    MissingPrefix,
    /// The body is shorter than the prefix announces.
    Incomplete,
    /// The body is not UTF-8.
    NotUtf8,
}

/// The number of bytes in a request's length prefix.
pub const PREFIX_LEN: usize = 8;

/// The body length that a request announces: its first eight bytes, read as
/// an unsigned little-endian integer.
pub open spec fn length_prefix(b: Seq<u8>) -> nat {
    b[0] as nat + 0x100 * (b[1] as nat) + 0x10000 * (b[2] as nat) + 0x1000000 * (b[3] as nat)
        + 0x100000000 * (b[4] as nat) + 0x10000000000 * (b[5] as nat) + 0x1000000000000 * (
    b[6] as nat) + 0x100000000000000 * (b[7] as nat)
}

/// The body of a request: the announced number of bytes after the length
/// prefix. Bytes beyond it are no part of the request.
pub open spec fn frame_body(b: Seq<u8>) -> Seq<u8> {
    b.subrange(PREFIX_LEN as int, PREFIX_LEN + length_prefix(b))
}

/// The command line that a request carries: its body, which must be complete
/// and UTF-8.
pub open spec fn frame_text(b: Seq<u8>) -> Option<Seq<char>> {
    if b.len() < PREFIX_LEN || b.len() - PREFIX_LEN < length_prefix(b) {
        None
    } else if valid_utf8(frame_body(b)) {
        Some(decode_utf8(frame_body(b)))
    } else {
        None
    }
}

/// Relies on `std::str::from_utf8`: the text whose UTF-8 encoding is `b`, or
/// nothing when `b` is not UTF-8.
#[verifier::external_body]
fn utf8_text(b: &[u8]) -> (r: Option<&str>)
    ensures
        r matches Some(s) ==> encode_utf8(s@) == b@,
        r is None ==> forall|t: Seq<char>| encode_utf8(t) != b@,
{
    std::str::from_utf8(b).ok()
}

/// The body length that a request announces, read from its first eight bytes.
pub fn announced_length(b: &[u8]) -> (r: u64)
    requires
        b@.len() >= PREFIX_LEN,
    ensures
        r as nat == length_prefix(b@),
{
    (b[0] as u64) + 0x100 * (b[1] as u64) + 0x10000 * (b[2] as u64) + 0x1000000 * (b[3] as u64)
        + 0x100000000 * (b[4] as u64) + 0x10000000000 * (b[5] as u64) + 0x1000000000000 * (
    b[6] as u64) + 0x100000000000000 * (b[7] as u64)
}

/// The eight-byte little-endian prefix that announces a body of `n` bytes.
fn length_bytes(n: u64) -> (r: Vec<u8>)
    ensures
        r@.len() == PREFIX_LEN,
        length_prefix(r@) == n as nat,
{
    let q1 = n / 0x100;
    let q2 = q1 / 0x100;
    let q3 = q2 / 0x100;
    let q4 = q3 / 0x100;
    let q5 = q4 / 0x100;
    let q6 = q5 / 0x100;
    let q7 = q6 / 0x100;
    assert(q7 < 0x100);
    let r = vec![
        (n % 0x100) as u8,
        (q1 % 0x100) as u8,
        (q2 % 0x100) as u8,
        (q3 % 0x100) as u8,
        (q4 % 0x100) as u8,
        (q5 % 0x100) as u8,
        (q6 % 0x100) as u8,
        q7 as u8,
    ];
    assert(length_prefix(r@) == n as nat);
    r
}

/// The request that carries the command line `line`: the byte length of its
/// UTF-8 encoding as an eight-byte little-endian prefix, then that encoding.
pub fn encode_request(line: &str) -> (r: Vec<u8>)
    requires
        encode_utf8(line@).len() <= u64::MAX,
    ensures
        r@.len() >= PREFIX_LEN,
        length_prefix(r@) == encode_utf8(line@).len(),
        frame_body(r@) == encode_utf8(line@),
        frame_text(r@) == Some(line@),
{
    let bytes = line.as_bytes();
    let mut r = length_bytes(bytes.len() as u64);
    let ghost prefix = r@;
    let n = bytes.len();
    let mut i: usize = 0;
    while i < n
        invariant
            n == bytes@.len(),
            bytes@ == encode_utf8(line@),
            i <= n,
            r@ == prefix + bytes@.subrange(0, i as int),
            prefix.len() == PREFIX_LEN,
        decreases n - i,
    {
        r.push(bytes[i]);
        assert(r@ =~= prefix + bytes@.subrange(0, i + 1));
        i += 1;
    }
    assert(bytes@.subrange(0, n as int) =~= bytes@);
    assert(frame_body(r@) =~= bytes@);
    assert(length_prefix(r@) == length_prefix(prefix)) by {
        assert(forall|k: int| 0 <= k < 8 ==> r@[k] == prefix[k]);
    }
    r
}

/// Reads the command line out of a request: an eight-byte little-endian
/// length, then a UTF-8 body of exactly that many bytes. Bytes after the
/// body are ignored.
pub fn decode_frame(request: &[u8]) -> (r: Result<String, FrameError>)
    ensures
        request@.len() < PREFIX_LEN ==> r == Err::<String, FrameError>(FrameError::MissingPrefix),
        request@.len() >= PREFIX_LEN && request@.len() - PREFIX_LEN < length_prefix(request@) ==> r
            == Err::<String, FrameError>(FrameError::Incomplete),
        request@.len() >= PREFIX_LEN && request@.len() - PREFIX_LEN >= length_prefix(request@) ==> {
            &&& !valid_utf8(frame_body(request@)) <==> r == Err::<String, FrameError>(FrameError::NotUtf8)
            &&& r matches Ok(s) ==> frame_text(request@) == Some(s@)
        },
        r is Ok <==> frame_text(request@) is Some,
{
    let n = request.len();
    if n < PREFIX_LEN {
        return Err(FrameError::MissingPrefix);
    }
    let announced = announced_length(request);
    if ((n - PREFIX_LEN) as u64) < announced {
        return Err(FrameError::Incomplete);
    }
    let end = PREFIX_LEN + announced as usize;
    let mut body: Vec<u8> = Vec::new();
    let mut i: usize = PREFIX_LEN;
    while i < end
        invariant
            n == request@.len(),
            end == PREFIX_LEN + length_prefix(request@),
            end <= n,
            PREFIX_LEN <= i <= end,
            body@ == request@.subrange(PREFIX_LEN as int, i as int),
        decreases end - i,
    {
        body.push(request[i]);
        assert(body@ =~= request@.subrange(PREFIX_LEN as int, i + 1));
        i += 1;
    }
    match utf8_text(body.as_slice()) {
        Some(s) => {
            assert(body@ == frame_body(request@));
            assert(decode_utf8(encode_utf8(s@)) == s@);
            Ok(String::from_str(s))
        },
        None => {
            assert(!valid_utf8(frame_body(request@))) by {
                if valid_utf8(frame_body(request@)) {
                    assert(encode_utf8(decode_utf8(body@)) == body@);
                }
            }
            Err(FrameError::NotUtf8)
        },
    }
}

/// What the daemon answers to a request.
#[derive(Debug)]
pub struct Reply {
    /// The text sent back to the client.
    pub response: String,
    /// Whether the daemon is to stop.
    pub stop: bool,
    /// Whether the shown image changed and must be displayed.
    pub apply: bool,
}

/// The name of a mode as a query reports it.
pub open spec fn mode_name(m: NextImage) -> Seq<char> {
    match m {
        NextImage::Linear => "Linear"@,
        NextImage::Static => "Static"@,
        NextImage::Random => "Random"@,
    }
}

/// What a query answers in the state `a`.
pub open spec fn answer(a: State, g: GetArgs) -> Seq<char> {
    match g {
        GetArgs::Wallpaper => a.current_view(),
        GetArgs::Duration => decimal(a.interval() as nat),
        GetArgs::Mode => mode_name(a.mode()),
        GetArgs::Fallback => if a.fallback() {
            "true"@
        } else {
            "false"@
        },
        GetArgs::WpDir => a.image_dir_view(),
    }
}

/// The mode that a mode request selects.
pub open spec fn mode_of(m: ModeArgs) -> NextImage {
    match m {
        ModeArgs::Linear => NextImage::Linear,
        ModeArgs::Random => NextImage::Random,
        ModeArgs::Static(_) => NextImage::Static,
    }
}

/// The image that a mode request shows, if any.
pub open spec fn image_of(m: ModeArgs) -> Option<Seq<char>> {
    match m {
        ModeArgs::Static(img) => match img.path {
            Some(p) => Some(p@),
            None => None,
        },
        _ => None,
    }
}

/// What performing `c` on `a` makes of it, given the listing `entries` of the
/// image directory, and what the daemon answers.
pub open spec fn performed(a: State, b: State, c: Command, entries: Seq<Seq<char>>, r: Reply) -> bool {
    match c {
        Command::Next => State::navigated(a, b, ChangeImageDirection::Next, entries, r.apply)
            && r.response@.len() == 0 && !r.stop,
        Command::Previous => State::navigated(a, b, ChangeImageDirection::Previous, entries, r.apply)
            && r.response@.len() == 0 && !r.stop,
        Command::Stop => b == a && r.stop && !r.apply && r.response@.len() == 0,
        Command::Fallback => State::toggled(a, b) && r.apply && !r.stop && r.response@.len() == 0,
        Command::Mode(m) => State::mode_set(a, b, mode_of(m), image_of(m)) && r.apply == image_of(m) is Some
            && !r.stop && r.response@.len() == 0,
        Command::Interval(d) => {
            &&& b.interval() == d.duration
            &&& State::same_navigation(a, b)
            &&& b.image_dir_view() == a.image_dir_view()
            &&& !r.apply && !r.stop && r.response@.len() == 0
        },
        Command::WpDir(w) => {
            &&& b.image_dir_view() == w.path@
            &&& State::same_navigation(a, b)
            &&& b.interval() == a.interval()
            &&& !r.apply && !r.stop && r.response@.len() == 0
        },
        Command::Get(g) => b == a && r.response@ == answer(a, g) && !r.apply && !r.stop,
    }
}

/// The answer to a request that asks for nothing: the state is left alone.
pub open spec fn ignored(a: State, b: State, r: Reply) -> bool {
    b == a && r.response@.len() == 0 && !r.stop && !r.apply
}

fn empty_reply() -> (r: Reply)
    ensures
        r.response@.len() == 0,
        !r.stop,
        !r.apply,
{
    Reply { response: String::new(), stop: false, apply: false }
}

/// Performs the command `c` on `state`, given the listing `entries` of the
/// image directory.
pub fn perform(state: &mut State, c: Command, entries: &Vec<String>) -> (r: Reply)
    requires
        old(state).wf(),
    ensures
        final(state).wf(),
        performed(*old(state), *final(state), c, paths_view(entries@), r),
{
    match c {
        Command::Next => {
            let apply = state.change_image(ChangeImageDirection::Next, entries);
            Reply { response: String::new(), stop: false, apply }
        },
        Command::Previous => {
            let apply = state.change_image(ChangeImageDirection::Previous, entries);
            Reply { response: String::new(), stop: false, apply }
        },
        Command::Stop => Reply { response: String::new(), stop: true, apply: false },
        Command::Fallback => {
            state.save();
            Reply { response: String::new(), stop: false, apply: true }
        },
        Command::Mode(m) => {
            let apply = match m {
                ModeArgs::Linear => state.update_action(NextImage::Linear, None),
                ModeArgs::Random => state.update_action(NextImage::Random, None),
                ModeArgs::Static(img) => state.update_action(NextImage::Static, img.path),
            };
            Reply { response: String::new(), stop: false, apply }
        },
        Command::Interval(d) => {
            state.change_interval(d.duration);
            empty_reply()
        },
        Command::WpDir(w) => {
            state.set_image_dir(w.path);
            empty_reply()
        },
        Command::Get(g) => {
            let response = match g {
                GetArgs::Wallpaper => state.get_current_image().clone(),
                GetArgs::Duration => to_decimal(state.get_change_interval()),
                GetArgs::Mode => match state.get_action() {
                    NextImage::Linear => String::from_str("Linear"),
                    NextImage::Static => String::from_str("Static"),
                    NextImage::Random => String::from_str("Random"),
                },
                GetArgs::Fallback => if state.get_fallback() {
                    String::from_str("true")
                } else {
                    String::from_str("false")
                },
                GetArgs::WpDir => state.get_image_dir().clone(),
            };
            Reply { response, stop: false, apply: false }
        },
    }
}

proof fn lemma_same_request_performed(a: State, b: State, c: Command, d: Command, entries: Seq<Seq<char>>, r: Reply)
    requires
        same_request(c, d),
        performed(a, b, c, entries, r),
    ensures
        performed(a, b, d, entries, r),
{
}

proof fn lemma_answered(a: State, b: State, t: Seq<char>, c: Command, entries: Seq<Seq<char>>, r: Reply)
    requires
        denotes(t, c),
        forall|d: Command| #[trigger] denotes(t, d) ==> performed(a, b, d, entries, r),
    ensures
        answered_line(a, b, t, entries, r),
{
    assert(exists|d: Command| denotes(t, d));
}

/// What answering a request that carries the command line `t` makes of `a`:
/// the command that the line names is performed; a line that names no
/// command is ignored.
pub open spec fn answered_line(a: State, b: State, t: Seq<char>, entries: Seq<Seq<char>>, r: Reply) -> bool {
    ||| (exists|c: Command| denotes(t, c)) && forall|c: Command| #[trigger] denotes(t, c) ==> performed(a, b, c, entries, r)
    ||| (forall|c: Command| !denotes(t, c)) && ignored(a, b, r)
}

/// What answering a request that carries the command line `text`, if any,
/// makes of `a`; a request without a line is ignored.
pub open spec fn answered(a: State, b: State, text: Option<Seq<char>>, entries: Seq<Seq<char>>, r: Reply) -> bool {
    match text {
        None => ignored(a, b, r),
        Some(t) => answered_line(a, b, t, entries, r),
    }
}

/// Whether answering `request` on `state` reads the listing of the image
/// directory: the request asks for the next image, and that image is to be
/// picked afresh.
pub fn request_needs_listing(state: &State, request: &[u8]) -> (r: bool)
    ensures
        r == (state.fresh_pick_due() && (frame_text(request@) matches Some(t) && denotes(t, Command::Next))),
{
    if !state.needs_listing() {
        return false;
    }
    let text = match decode_frame(request) {
        Ok(t) => t,
        Err(_) => return false,
    };
    match parse_command(text.as_str()) {
        Some(Command::Next) => true,
        Some(c) => {
            proof {
                if denotes(text@, Command::Next) {
                    lemma_denotes_unique(text@, c, Command::Next);
                }
            }
            false
        },
        None => false,
    }
}

/// Answers one request: reads its command line, performs the command it
/// names on `state`, given the listing `entries` of the image directory, and
/// says what to send back. A request that cannot be read, or names no
/// command, leaves the state alone and gets an empty answer.
pub fn handle_request(state: &mut State, request: &[u8], entries: &Vec<String>) -> (r: Reply)
    requires
        old(state).wf(),
    ensures
        final(state).wf(),
        answered(*old(state), *final(state), frame_text(request@), paths_view(entries@), r),
{
    let text = match decode_frame(request) {
        Ok(t) => t,
        Err(_) => return empty_reply(),
    };
    match parse_command(text.as_str()) {
        Some(c) => {
            let ghost cv = c;
            let r = perform(state, c, entries);
            assert(denotes(text@, cv) && performed(*old(state), *state, cv, paths_view(entries@), r));
            assert forall|c: Command| #[trigger] denotes(text@, c) implies performed(
                *old(state),
                *state,
                c,
                paths_view(entries@),
                r,
            ) by {
                lemma_denotes_unique(text@, cv, c);
                lemma_same_request_performed(*old(state), *state, cv, c, paths_view(entries@), r);
            }
            assert(frame_text(request@) == Some(text@));
            proof {
                lemma_answered(*old(state), *state, text@, cv, paths_view(entries@), r);
            }
            r
        },
        None => {
            empty_reply()
        },
    }
}

} // verus!
