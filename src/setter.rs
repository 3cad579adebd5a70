use crate::state::State;
use vstd::prelude::*;

verus! {

/// `s` with every occurrence of `from`, found left to right and without
/// overlap, replaced by `to`.
pub open spec fn replaced(s: Seq<char>, from: Seq<char>, to: Seq<char>) -> Seq<char>
    decreases s.len(),
{
    if from.len() == 0 || s.len() < from.len() {
        s
    } else if s.subrange(0, from.len() as int) == from {
        to + replaced(s.subrange(from.len() as int, s.len() as int), from, to)
    } else {
        seq![s[0]] + replaced(s.drop_first(), from, to)
    }
}

/// The token that a command template holds in place of an image path.
pub open spec fn placeholder() -> Seq<char> {
    "%wallpaper%"@
}

/// Relies on `str::replace`: every match of `from`, found left to right
/// without overlap, is replaced by `to`.
#[verifier::external_body]
fn replace_all(s: &str, from: &str, to: &str) -> (r: String)
    requires
        from@.len() > 0,
    ensures
        r@ == replaced(s@, from@, to@),
{
    s.replace(from, to)
}

impl State {
    /// The image that the post-change command is run with, if that command and
    /// its offset are set and the window reaches back that far.
    pub open spec fn post_image(&self) -> Option<Seq<char>> {
        match (self.post_offset(), self.post_command_view()) {
            (Some(back), Some(_)) => if (back as int) < self.shown().len() {
                Some(self.shown()[self.shown().len() - 1 - back])
            } else {
                None
            },
            _ => None,
        }
    }

    /// The shell commands that display the shown image: the change command
    /// with the shown image in place of the placeholder, then the post-change
    /// command with the image `offset` steps back, when there is one.
    pub fn setter_commands(&self) -> (r: Vec<String>)
        requires
            self.wf(),
        ensures
            r@.len() == if self.post_image() is Some { 2int } else { 1int },
            r@[0]@ == replaced(self.command_view(), placeholder(), self.current_view()),
            self.post_image() matches Some(p) ==> (self.post_command_view() matches Some(c) && r@[1]@
                == replaced(c, placeholder(), p)),
    {
        proof {
            reveal_strlit("%wallpaper%");
        }
        let current = self.get_current_image();
        let mut r: Vec<String> = Vec::new();
        r.push(replace_all(self.wallpaper_command().as_str(), "%wallpaper%", current.as_str()));
        match (self.wallpaper_post_offset(), self.wallpaper_post_command()) {
            (Some(back), Some(command)) => {
                match self.shown_history().nth_back(back) {
                    Some(p) => {
                        r.push(replace_all(command.as_str(), "%wallpaper%", p.as_str()));
                    },
                    None => {},
                }
            },
            _ => {},
        }
        r
    }
}

} // verus!
