use vstd::prelude::*;

verus! {

/// The character view of every path in a vector of strings.
pub open spec fn paths_view(v: Seq<String>) -> Seq<Seq<char>> {
    v.map_values(|s: String| s@)
}

/// What `push_back` makes of the shown images: the new path goes to the back,
/// and the oldest entry leaves first once the window is full.
pub open spec fn pushed(prev: Seq<Seq<char>>, cap: nat, path: Seq<char>) -> Seq<Seq<char>> {
    if prev.len() >= cap {
        prev.drop_first().push(path)
    } else {
        prev.push(path)
    }
}

/// The longest that the window of shown images may grow: the capacity, but
/// never less than one, since the shown image always stays.
pub open spec fn window(cap: nat) -> nat {
    if cap == 0 {
        1
    } else {
        cap
    }
}

/// A bounded record of the images shown so far, oldest first, with a redo
/// stack of images stepped away from by going back.
#[derive(Debug)]
pub struct History {
    previous: std::collections::VecDeque<String>,
    next: Vec<String>,
    history_max_size: usize,
}

impl History {
    /// The images shown so far, oldest first; the last one is the current image.
    pub closed spec fn previous_view(&self) -> Seq<Seq<char>> {
        paths_view(self.previous@)
    }

    /// The redo stack, bottom first; its last element is replayed first.
    pub closed spec fn next_view(&self) -> Seq<Seq<char>> {
        paths_view(self.next@)
    }

    /// The capacity of the window of shown images.
    pub closed spec fn capacity(&self) -> nat {
        self.history_max_size as nat
    }

    /// The shown image.
    pub open spec fn current_view(&self) -> Seq<char> {
        self.previous_view().last()
    }

    /// At least one image is shown, and no more than the window holds.
    pub open spec fn wf(&self) -> bool {
        &&& self.previous_view().len() >= 1
        &&& self.previous_view().len() <= window(self.capacity())
    }

    /// A history that shows `seed` alone.
    pub fn new(seed: String, history_max_size: usize) -> (h: History)
        ensures
            h.wf(),
            h.previous_view() == seq![seed@],
            h.next_view() == Seq::<Seq<char>>::empty(),
            h.capacity() == history_max_size as nat,
    {
        let mut previous = std::collections::VecDeque::new();
        previous.push_back(seed);
        let h = History { previous, next: Vec::new(), history_max_size };
        assert(h.previous_view() =~= seq![h.previous@[0]@]);
        assert(h.next_view() =~= Seq::<Seq<char>>::empty());
        h
    }

    /// The capacity of the window of shown images.
    pub fn history_max_size(&self) -> (r: usize)
        ensures
            r as nat == self.capacity(),
    {
        self.history_max_size
    }

    /// Whether a redo is possible.
    pub fn has_next(&self) -> (r: bool)
        ensures
            r == (self.next_view().len() > 0),
    {
        self.next.len() > 0
    }

    /// Whether a rewind is possible: an image was shown before the current one.
    pub fn has_previous(&self) -> (r: bool)
        ensures
            r == (self.previous_view().len() >= 2),
    {
        self.previous.len() >= 2
    }

    /// The shown image.
    pub fn current(&self) -> (r: &String)
        requires
            self.wf(),
        ensures
            r@ == self.current_view(),
    {
        let n = self.previous.len();
        &self.previous[n - 1]
    }

    /// Shows `path`, dropping the oldest entry first when the window is full.
    /// The redo stack is left as it is.
    pub fn push_back(&mut self, path: String)
        requires
            old(self).wf(),
        ensures
            final(self).wf(),
            final(self).previous_view() == pushed(old(self).previous_view(), old(self).capacity(), path@),
            final(self).next_view() == old(self).next_view(),
            final(self).capacity() == old(self).capacity(),
    {
        let ghost p = path@;
        if self.previous.len() >= self.history_max_size {
            self.previous.pop_front();
        }
        self.previous.push_back(path);
        assert(self.previous_view() =~= pushed(old(self).previous_view(), old(self).capacity(), p));
    }

    /// Replays the image on top of the redo stack; does nothing when it is empty.
    pub fn go_next(&mut self)
        requires
            old(self).wf(),
        ensures
            final(self).wf(),
            final(self).capacity() == old(self).capacity(),
            old(self).next_view().len() > 0 ==> {
                &&& final(self).next_view() == old(self).next_view().drop_last()
                &&& final(self).previous_view() == pushed(
                    old(self).previous_view(),
                    old(self).capacity(),
                    old(self).next_view().last(),
                )
            },
            old(self).next_view().len() == 0 ==> *final(self) == *old(self),
    {
        if self.has_next() {
            let image = self.next.pop().unwrap();
            assert(self.next_view() =~= old(self).next_view().drop_last());
            self.push_back(image);
        }
    }

    /// Steps back to the image shown before the current one, keeping the
    /// current one on the redo stack; does nothing when there is none.
    pub fn go_previous(&mut self)
        requires
            old(self).wf(),
        ensures
            final(self).wf(),
            final(self).capacity() == old(self).capacity(),
            old(self).previous_view().len() >= 2 ==> {
                &&& final(self).previous_view() == old(self).previous_view().drop_last()
                &&& final(self).next_view() == old(self).next_view().push(old(self).current_view())
            },
            old(self).previous_view().len() < 2 ==> *final(self) == *old(self),
    {
        if self.has_previous() {
            let image = self.previous.pop_back().unwrap();
            self.next.push(image);
            assert(self.previous_view() =~= old(self).previous_view().drop_last());
            assert(self.next_view() =~= old(self).next_view().push(old(self).current_view()));
        }
    }

    /// Removes the shown image when an earlier one remains to be shown; does
    /// nothing otherwise. The redo stack is left as it is.
    pub fn pop_back(&mut self)
        requires
            old(self).wf(),
        ensures
            final(self).wf(),
            final(self).capacity() == old(self).capacity(),
            final(self).next_view() == old(self).next_view(),
            old(self).previous_view().len() >= 2 ==> final(self).previous_view()
                == old(self).previous_view().drop_last(),
            old(self).previous_view().len() < 2 ==> *final(self) == *old(self),
    {
        if self.previous.len() >= 2 {
            self.previous.pop_back();
            assert(self.previous_view() =~= old(self).previous_view().drop_last());
        }
    }

    /// The image shown `back` steps before the current one (the current one
    /// at zero steps), if the window reaches that far.
    pub fn nth_back(&self, back: usize) -> (r: Option<&String>)
        ensures
            back < self.previous_view().len() ==> (r matches Some(p) && p@ == self.previous_view()[
                self.previous_view().len() - 1 - back]),
            back >= self.previous_view().len() ==> r is None,
    {
        let n = self.previous.len();
        if back < n {
            Some(&self.previous[n - 1 - back])
        } else {
            None
        }
    }

    /// Whether `path` is among the images shown so far.
    pub fn contains(&self, path: &String) -> (r: bool)
        ensures
            r == self.previous_view().contains(path@),
    {
        let n = self.previous.len();
        let mut i: usize = 0;
        while i < n
            invariant
                n == self.previous@.len(),
                i <= n,
                forall|j: int| 0 <= j < i ==> self.previous_view()[j] != path@,
            decreases n - i,
        {
            if self.previous[i] == *path {
                assert(self.previous_view()[i as int] == path@);
                return true;
            }
            i += 1;
        }
        false
    }
}

/// However many images are shown, the window never holds more than its
/// capacity, and a full window loses its oldest entry first: what stays is
/// the newest part of the old window followed by the new image.
pub proof fn lemma_push_stays_bounded(prev: Seq<Seq<char>>, cap: nat, path: Seq<char>)
    requires
        cap >= 1,
        1 <= prev.len() <= cap,
    ensures
        pushed(prev, cap, path).len() <= cap,
        pushed(prev, cap, path).last() == path,
        prev.len() == cap ==> pushed(prev, cap, path) == prev.subrange(1, prev.len() as int).push(path),
        prev.len() < cap ==> pushed(prev, cap, path) == prev.push(path),
{
    if prev.len() == cap {
        assert(prev.drop_first() =~= prev.subrange(1, prev.len() as int));
    }
}

/// Going back and then forward, with nothing shown in between, restores the
/// shown images and the redo stack exactly.
pub proof fn lemma_back_then_forward(prev: Seq<Seq<char>>, next: Seq<Seq<char>>, cap: nat)
    requires
        2 <= prev.len() <= window(cap),
    ensures
        ({
            let back_prev = prev.drop_last();
            let back_next = next.push(prev.last());
            &&& back_next.drop_last() == next
            &&& pushed(back_prev, cap, back_next.last()) == prev
        }),
{
    let back_prev = prev.drop_last();
    let back_next = next.push(prev.last());
    assert(back_next.drop_last() =~= next);
    assert(pushed(back_prev, cap, back_next.last()) =~= prev);
}

/// In a well-formed history a rewind is impossible exactly when one image
/// alone is shown.
pub proof fn lemma_no_previous_iff_single(h: History)
    requires
        h.wf(),
    ensures
        (h.previous_view().len() >= 2) == !(h.previous_view().len() == 1),
{
}

} // verus!
