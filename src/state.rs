use crate::history::{paths_view, pushed, History};
use crate::path::{expand_home, expanded};
use crate::selection::{acceptable, linear_choice, pick_linear, pick_random, some_acceptable, NextImage};
use vstd::prelude::*;

verus! {

/// Which way a navigation goes.
#[derive(Clone, Copy, Debug, PartialEq, Eq, Structural)]
pub enum ChangeImageDirection {
    Next,
    Previous,
}

/// The external commands that display an image. In each, the placeholder
/// `%wallpaper%` stands for the path of the image.
#[derive(Debug)]
pub struct WallpaperCommands {
    pub wallpaper_cmd: String,
    pub wallpaper_post_cmd: Option<String>,
    pub wallpaper_post_offset: Option<usize>,
}

/// The daemon's state: what is shown, how the next image is chosen, and the
/// settings that clients may query or change.
#[derive(Debug)]
pub struct State {
    history: History,
    action: NextImage,
    previous_action: NextImage,
    change_interval: u64,
    image_dir: String,
    use_fallback: bool,
    default_image: String,
    wallpaper_cmds: WallpaperCommands,
}

impl State {
    /// The record of shown images.
    pub closed spec fn history(&self) -> History {
        self.history
    }

    /// The active selection mode.
    pub closed spec fn mode(&self) -> NextImage {
        self.action
    }

    /// The mode to restore when the fallback image is left.
    pub closed spec fn remembered_mode(&self) -> NextImage {
        self.previous_action
    }

    /// Seconds between automatic advances.
    pub closed spec fn interval(&self) -> u64 {
        self.change_interval
    }

    /// The directory that images are picked from.
    pub closed spec fn image_dir_view(&self) -> Seq<char> {
        self.image_dir@
    }

    /// Whether the fallback image is forced.
    pub closed spec fn fallback(&self) -> bool {
        self.use_fallback
    }

    /// The image shown at start and while in fallback.
    pub closed spec fn default_image_view(&self) -> Seq<char> {
        self.default_image@
    }

    /// The command that displays an image.
    pub closed spec fn command_view(&self) -> Seq<char> {
        self.wallpaper_cmds.wallpaper_cmd@
    }

    /// The command run after a change, if any.
    pub closed spec fn post_command_view(&self) -> Option<Seq<char>> {
        match self.wallpaper_cmds.wallpaper_post_cmd {
            Some(c) => Some(c@),
            None => None,
        }
    }

    /// How far back in the shown images the post-change command looks, if set.
    pub closed spec fn post_offset(&self) -> Option<usize> {
        self.wallpaper_cmds.wallpaper_post_offset
    }

    /// The shown images, oldest first.
    pub open spec fn shown(&self) -> Seq<Seq<char>> {
        self.history().previous_view()
    }

    /// The shown image.
    pub open spec fn current_view(&self) -> Seq<char> {
        self.history().current_view()
    }

    /// The shown images form a well-formed window.
    pub open spec fn wf(&self) -> bool {
        self.history().wf()
    }

    /// Everything but the history is the same in `a` and `b`.
    pub open spec fn same_settings(a: State, b: State) -> bool {
        &&& b.mode() == a.mode()
        &&& b.remembered_mode() == a.remembered_mode()
        &&& b.interval() == a.interval()
        &&& b.image_dir_view() == a.image_dir_view()
        &&& b.fallback() == a.fallback()
        &&& b.default_image_view() == a.default_image_view()
        &&& b.command_view() == a.command_view()
        &&& b.post_command_view() == a.post_command_view()
        &&& b.post_offset() == a.post_offset()
        &&& b.history().capacity() == a.history().capacity()
    }

    /// `b` shows `path` after `a`, with the redo stack kept.
    pub open spec fn shows_next(a: State, b: State, path: Seq<char>) -> bool {
        &&& b.shown() == pushed(a.shown(), a.history().capacity(), path)
        &&& b.history().next_view() == a.history().next_view()
    }

    /// What a navigation in `direction` makes of `a`, given the listing
    /// `entries` of the image directory; `applied` tells whether the shown
    /// image changed and must be displayed.
    pub open spec fn navigated(
        a: State,
        b: State,
        direction: ChangeImageDirection,
        entries: Seq<Seq<char>>,
        applied: bool,
    ) -> bool {
        let prev = a.shown();
        let next = a.history().next_view();
        let cap = a.history().capacity();
        &&& State::same_settings(a, b)
        &&& if a.fallback() || a.mode() == NextImage::Static {
            b == a && !applied
        } else {
            match direction {
                ChangeImageDirection::Previous => if prev.len() >= 2 {
                    &&& applied
                    &&& b.shown() == prev.drop_last()
                    &&& b.history().next_view() == next.push(prev.last())
                } else {
                    b == a && !applied
                },
                ChangeImageDirection::Next => if next.len() > 0 {
                    &&& applied
                    &&& b.shown() == pushed(prev, cap, next.last())
                    &&& b.history().next_view() == next.drop_last()
                } else if entries.len() == 0 {
                    b == a && !applied
                } else if a.mode() == NextImage::Linear {
                    applied && State::shows_next(a, b, linear_choice(entries, prev, cap))
                } else {
                    &&& applied
                    &&& exists|p: Seq<char>|
                        {
                            &&& #[trigger] State::shows_next(a, b, p)
                            &&& entries.contains(p)
                            &&& some_acceptable(entries, prev, cap) ==> acceptable(p, prev, entries.len(), cap)
                            &&& entries.no_duplicates() && cap >= 1 && entries.len() > cap ==> !prev.contains(p)
                        }
                },
            }
        }
    }

    /// What setting the mode to `action`, and showing `image` if given, makes of `a`.
    pub open spec fn mode_set(a: State, b: State, action: NextImage, image: Option<Seq<char>>) -> bool {
        &&& b.mode() == action
        &&& b.remembered_mode() == a.remembered_mode()
        &&& b.interval() == a.interval()
        &&& b.image_dir_view() == a.image_dir_view()
        &&& b.fallback() == a.fallback()
        &&& b.default_image_view() == a.default_image_view()
        &&& b.command_view() == a.command_view()
        &&& b.post_command_view() == a.post_command_view()
        &&& b.post_offset() == a.post_offset()
        &&& b.history().capacity() == a.history().capacity()
        &&& match image {
            Some(p) => State::shows_next(a, b, p),
            None => b.history() == a.history(),
        }
    }

    /// What toggling the fallback makes of `a`.
    pub open spec fn toggled(a: State, b: State) -> bool {
        let cap = a.history().capacity();
        &&& b.fallback() == !a.fallback()
        &&& b.interval() == a.interval()
        &&& b.image_dir_view() == a.image_dir_view()
        &&& b.default_image_view() == a.default_image_view()
        &&& b.command_view() == a.command_view()
        &&& b.post_command_view() == a.post_command_view()
        &&& b.post_offset() == a.post_offset()
        &&& b.history().capacity() == cap
        &&& b.history().next_view() == a.history().next_view()
        &&& if !a.fallback() {
            &&& b.remembered_mode() == a.mode()
            &&& b.mode() == NextImage::Static
            &&& b.shown() == pushed(a.shown(), cap, a.default_image_view())
        } else {
            &&& b.remembered_mode() == a.remembered_mode()
            &&& b.mode() == a.remembered_mode()
            &&& b.shown() == if a.shown().len() >= 2 {
                a.shown().drop_last()
            } else {
                a.shown()
            }
        }
    }

    /// Nothing that navigation reads or changes differs between `a` and `b`.
    pub open spec fn same_navigation(a: State, b: State) -> bool {
        &&& b.history() == a.history()
        &&& b.mode() == a.mode()
        &&& b.remembered_mode() == a.remembered_mode()
        &&& b.fallback() == a.fallback()
        &&& b.default_image_view() == a.default_image_view()
        &&& b.command_view() == a.command_view()
        &&& b.post_command_view() == a.post_command_view()
        &&& b.post_offset() == a.post_offset()
    }

    /// A state that shows the default image, with `~/` in the image directory
    /// and in the default image replaced by `home`.
    pub fn new(
        change_interval: u64,
        image_dir: String,
        default_image: String,
        action: NextImage,
        wallpaper_cmds: WallpaperCommands,
        history_max_size: usize,
        home: &String,
    ) -> (s: State)
        ensures
            s.wf(),
            s.shown() == seq![expanded(default_image@, home@)],
            s.history().next_view() == Seq::<Seq<char>>::empty(),
            s.history().capacity() == history_max_size as nat,
            s.mode() == action,
            s.remembered_mode() == action,
            s.interval() == change_interval,
            s.image_dir_view() == expanded(image_dir@, home@),
            !s.fallback(),
            s.default_image_view() == expanded(default_image@, home@),
            s.command_view() == wallpaper_cmds.wallpaper_cmd@,
            s.post_command_view() == match wallpaper_cmds.wallpaper_post_cmd {
                Some(c) => Some(c@),
                None => None::<Seq<char>>,
            },
            s.post_offset() == wallpaper_cmds.wallpaper_post_offset,
    {
        let image_dir = expand_home(image_dir, home);
        let default_image = expand_home(default_image, home);
        let history = History::new(default_image.clone(), history_max_size);
        State {
            history,
            action,
            previous_action: action,
            change_interval,
            image_dir,
            use_fallback: false,
            default_image,
            wallpaper_cmds,
        }
    }

    /// Advances or rewinds the shown image, given the listing `entries` of the
    /// image directory. Nothing moves while the fallback image is forced or
    /// the mode is static; an advance replays the redo stack before it picks
    /// afresh, and an advance that must pick from an empty listing does
    /// nothing. Returns whether the shown image changed.
    pub fn change_image(&mut self, direction: ChangeImageDirection, entries: &Vec<String>) -> (applied: bool)
        requires
            old(self).wf(),
        ensures
            final(self).wf(),
            State::navigated(*old(self), *final(self), direction, paths_view(entries@), applied),
    {
        if self.use_fallback {
            return false;
        }
        if self.action == NextImage::Static {
            return false;
        }
        match direction {
            ChangeImageDirection::Next => {
                if self.history.has_next() {
                    self.history.go_next();
                    true
                } else {
                    let random = self.action == NextImage::Random;
                    let pick = if random {
                        pick_random(entries, &self.history)
                    } else {
                        pick_linear(entries, &self.history)
                    };
                    match pick {
                        None => false,
                        Some(p) => {
                            let ghost pv = p@;
                            self.history.push_back(p);
                            assert(State::shows_next(*old(self), *self, pv));
                            true
                        },
                    }
                }
            },
            ChangeImageDirection::Previous => {
                if self.history.has_previous() {
                    self.history.go_previous();
                    true
                } else {
                    false
                }
            },
        }
    }

    /// Sets the selection mode, and shows `image` when one is given. Returns
    /// whether the shown image changed.
    pub fn update_action(&mut self, action: NextImage, image: Option<String>) -> (applied: bool)
        requires
            old(self).wf(),
        ensures
            final(self).wf(),
            applied == image.is_some(),
            State::mode_set(
                *old(self),
                *final(self),
                action,
                match image {
                    Some(p) => Some(p@),
                    None => None,
                },
            ),
    {
        self.action = action;
        match image {
            Some(p) => {
                self.history.push_back(p);
                true
            },
            None => false,
        }
    }

    /// Toggles the fallback image. Entering it remembers the mode, switches
    /// to static and shows the default image; leaving it restores the mode and
    /// drops the shown image, unless it is the only one.
    pub fn save(&mut self)
        requires
            old(self).wf(),
        ensures
            final(self).wf(),
            State::toggled(*old(self), *final(self)),
    {
        self.use_fallback = !self.use_fallback;
        if self.use_fallback {
            self.previous_action = self.action;
            self.action = NextImage::Static;
            self.history.push_back(self.default_image.clone());
        } else {
            self.action = self.previous_action;
            self.history.pop_back();
        }
    }

    /// Whether an advance now would pick afresh from the image directory.
    pub open spec fn fresh_pick_due(&self) -> bool {
        !self.fallback() && self.mode() != NextImage::Static && self.history().next_view().len() == 0
    }

    /// Whether an advance now would pick afresh, and so read the listing of
    /// the image directory; any other navigation ignores the listing.
    pub fn needs_listing(&self) -> (r: bool)
        ensures
            r == self.fresh_pick_due(),
    {
        !self.use_fallback && self.action != NextImage::Static && !self.history.has_next()
    }

    /// The shown image.
    pub fn get_current_image(&self) -> (r: &String)
        requires
            self.wf(),
        ensures
            r@ == self.current_view(),
    {
        self.history.current()
    }

    /// The record of shown images.
    pub fn shown_history(&self) -> (r: &History)
        ensures
            *r == self.history(),
    {
        &self.history
    }

    /// The command that displays an image.
    pub fn wallpaper_command(&self) -> (r: &String)
        ensures
            r@ == self.command_view(),
    {
        &self.wallpaper_cmds.wallpaper_cmd
    }

    /// The command run after a change, if any.
    pub fn wallpaper_post_command(&self) -> (r: Option<&String>)
        ensures
            r matches Some(c) ==> self.post_command_view() == Some(c@),
            r is None ==> self.post_command_view() is None,
    {
        match &self.wallpaper_cmds.wallpaper_post_cmd {
            Some(c) => Some(c),
            None => None,
        }
    }

    /// How far back the post-change command looks, if set.
    pub fn wallpaper_post_offset(&self) -> (r: Option<usize>)
        ensures
            r == self.post_offset(),
    {
        self.wallpaper_cmds.wallpaper_post_offset
    }

    /// The selection mode.
    pub fn get_action(&self) -> (r: NextImage)
        ensures
            r == self.mode(),
    {
        self.action
    }

    /// Sets the seconds between automatic advances.
    pub fn change_interval(&mut self, i: u64)
        ensures
            final(self).interval() == i,
            State::same_navigation(*old(self), *final(self)),
            final(self).image_dir_view() == old(self).image_dir_view(),
    {
        self.change_interval = i;
    }

    /// The seconds between automatic advances.
    pub fn get_change_interval(&self) -> (r: u64)
        ensures
            r == self.interval(),
    {
        self.change_interval
    }

    /// Whether the fallback image is forced.
    pub fn get_fallback(&self) -> (r: bool)
        ensures
            r == self.fallback(),
    {
        self.use_fallback
    }

    /// The directory that images are picked from.
    pub fn get_image_dir(&self) -> (r: &String)
        ensures
            r@ == self.image_dir_view(),
    {
        &self.image_dir
    }

    /// Sets the directory that images are picked from.
    pub fn set_image_dir(&mut self, dir: String)
        ensures
            final(self).image_dir_view() == dir@,
            State::same_navigation(*old(self), *final(self)),
            final(self).interval() == old(self).interval(),
    {
        self.image_dir = dir;
    }
}

/// Entering the fallback and leaving it again, with nothing in between,
/// restores the mode and the shown image, provided the window holds at least
/// two images.
pub proof fn lemma_fallback_round_trip(s0: State, s1: State, s2: State)
    requires
        s0.wf(),
        !s0.fallback(),
        s0.history().capacity() >= 2,
        State::toggled(s0, s1),
        State::toggled(s1, s2),
    ensures
        !s2.fallback(),
        s2.mode() == s0.mode(),
        s2.current_view() == s0.current_view(),
        s0.shown().len() < s0.history().capacity() ==> s2.shown() == s0.shown(),
{
    let prev = s0.shown();
    let cap = s0.history().capacity();
    let d = s0.default_image_view();
    if prev.len() >= cap {
        assert(s1.shown().drop_last() =~= prev.drop_first());
    } else {
        assert(s1.shown().drop_last() =~= prev);
    }
}

/// In static mode, or while the fallback image is forced, navigation changes
/// nothing, whatever its direction and the listing.
pub proof fn lemma_frozen_navigation(
    a: State,
    b: State,
    direction: ChangeImageDirection,
    entries: Seq<Seq<char>>,
    applied: bool,
)
    requires
        a.mode() == NextImage::Static || a.fallback(),
        State::navigated(a, b, direction, entries, applied),
    ensures
        b == a,
        b.current_view() == a.current_view(),
        !applied,
{
}

/// Showing an explicit image makes it the shown image.
pub proof fn lemma_explicit_image_shown(a: State, b: State, path: Seq<char>)
    requires
        State::shows_next(a, b, path),
    ensures
        b.current_view() == path,
{
}

/// A random advance that must pick afresh, from a listing of distinct
/// entries larger than the window, shows a listed image that was not in the
/// window before.
pub proof fn lemma_random_advance_is_fresh(a: State, b: State, entries: Seq<Seq<char>>, applied: bool)
    requires
        a.wf(),
        a.mode() == NextImage::Random,
        !a.fallback(),
        a.history().next_view().len() == 0,
        entries.no_duplicates(),
        a.history().capacity() >= 1,
        entries.len() > a.history().capacity(),
        State::navigated(a, b, ChangeImageDirection::Next, entries, applied),
    ensures
        applied,
        entries.contains(b.current_view()),
        !a.shown().contains(b.current_view()),
        b.shown() == pushed(a.shown(), a.history().capacity(), b.current_view()),
        b.history().next_view() == a.history().next_view(),
{
    let p = choose|p: Seq<char>|
        {
            &&& #[trigger] State::shows_next(a, b, p)
            &&& entries.contains(p)
            &&& some_acceptable(entries, a.shown(), a.history().capacity()) ==> acceptable(
                p,
                a.shown(),
                entries.len(),
                a.history().capacity(),
            )
            &&& entries.no_duplicates() && a.history().capacity() >= 1 && entries.len() > a.history().capacity()
                ==> !a.shown().contains(p)
        };
    assert(b.current_view() == p);
}

/// A well-formed state, which every operation on a state keeps well-formed,
/// shows at least one image and never more than the capacity of its window.
pub proof fn lemma_window_bounded(s: State)
    requires
        s.wf(),
        s.history().capacity() >= 1,
    ensures
        1 <= s.shown().len() <= s.history().capacity(),
{
}

/// Whether `b` follows from `a` by one navigation, in some direction and
/// over some listing.
pub open spec fn navigates_to(a: State, b: State) -> bool {
    exists|d: ChangeImageDirection, e: Seq<Seq<char>>, applied: bool|
        #[trigger] State::navigated(a, b, d, e, applied)
}

/// Whether each state of `run` follows from the one before it by a navigation.
pub open spec fn navigation_run(run: Seq<State>) -> bool {
    &&& run.len() >= 1
    &&& forall|i: int| 0 <= i < run.len() - 1 ==> #[trigger] navigates_to(run[i], run[i + 1])
}

proof fn lemma_frozen_run(run: Seq<State>, k: int)
    requires
        navigation_run(run),
        run[0].fallback(),
        0 <= k < run.len(),
    ensures
        run[k] == run[0],
    decreases k,
{
    if k > 0 {
        lemma_frozen_run(run, k - 1);
        let i = k - 1;
        assert(0 <= i < run.len() - 1);
        assert(navigates_to(run[i], run[i + 1]));
        assert(i + 1 == k);
        let (d, e, applied) = choose|d: ChangeImageDirection, e: Seq<Seq<char>>, applied: bool|
            #[trigger] State::navigated(run[k - 1], run[k], d, e, applied);
        lemma_frozen_navigation(run[k - 1], run[k], d, e, applied);
    }
}

/// Entering the fallback, navigating any number of times, and leaving the
/// fallback restores the mode and the shown image, provided the window holds
/// at least two images; when the window was not full, all the shown images
/// come back as they were.
pub proof fn lemma_fallback_round_trip_after_navigation(s0: State, run: Seq<State>, s2: State)
    requires
        s0.wf(),
        !s0.fallback(),
        s0.history().capacity() >= 2,
        navigation_run(run),
        State::toggled(s0, run[0]),
        State::toggled(run.last(), s2),
    ensures
        !s2.fallback(),
        s2.mode() == s0.mode(),
        s2.current_view() == s0.current_view(),
        s0.shown().len() < s0.history().capacity() ==> s2.shown() == s0.shown(),
{
    lemma_frozen_run(run, run.len() - 1);
    lemma_fallback_round_trip(s0, run[0], s2);
}

} // verus!
