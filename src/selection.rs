use crate::history::{paths_view, History};
use rand::Rng;
use vstd::prelude::*;

verus! {

/// How an advance chooses the next image.
#[derive(Clone, Copy, Debug, PartialEq, Eq, Structural)]
pub enum NextImage {
    Random,
    Linear,
    Static,
}

/// Whether `entry` may be picked from a listing of `count` entries while
/// `prev` is shown: images still in the window are avoided, unless the
/// listing is no larger than the window.
pub open spec fn acceptable(entry: Seq<char>, prev: Seq<Seq<char>>, count: nat, cap: nat) -> bool {
    count <= cap || !prev.contains(entry)
}

/// Whether some entry of the listing may be picked.
pub open spec fn some_acceptable(entries: Seq<Seq<char>>, prev: Seq<Seq<char>>, cap: nat) -> bool {
    exists|i: int| 0 <= i < entries.len() && acceptable(entries[i], prev, entries.len(), cap)
}

/// The index of the first occurrence of `x` in `s` at or after `i`, or -1.
pub open spec fn position_from(s: Seq<Seq<char>>, x: Seq<char>, i: int) -> int
    decreases s.len() - i,
{
    if i < 0 || i >= s.len() {
        -1
    } else if s[i] == x {
        i
    } else {
        position_from(s, x, i + 1)
    }
}

/// Where a linear advance starts looking: just after the shown image in the
/// listing, or at index 1 when the shown image is not listed.
pub open spec fn linear_start(entries: Seq<Seq<char>>, current: Seq<char>) -> int {
    let p = position_from(entries, current, 0);
    if p < 0 {
        1int % (entries.len() as int)
    } else {
        (p + 1) % (entries.len() as int)
    }
}

/// The index that a linear walk settles on, trying `start + k`, `start + k + 1`,
/// ... around the listing; `start` itself if no entry is acceptable.
pub open spec fn linear_walk(
    entries: Seq<Seq<char>>,
    prev: Seq<Seq<char>>,
    cap: nat,
    start: int,
    k: int,
) -> int
    decreases entries.len() - k,
{
    if k < 0 || k >= entries.len() {
        start
    } else if acceptable(entries[(start + k) % (entries.len() as int)], prev, entries.len(), cap) {
        (start + k) % (entries.len() as int)
    } else {
        linear_walk(entries, prev, cap, start, k + 1)
    }
}

/// The image that a linear advance shows.
pub open spec fn linear_choice(entries: Seq<Seq<char>>, prev: Seq<Seq<char>>, cap: nat) -> Seq<char> {
    entries[linear_walk(entries, prev, cap, linear_start(entries, prev.last()), 0)]
}

proof fn lemma_linear_walk_in_range(
    entries: Seq<Seq<char>>,
    prev: Seq<Seq<char>>,
    cap: nat,
    start: int,
    k: int,
)
    requires
        0 <= start < entries.len(),
    ensures
        0 <= linear_walk(entries, prev, cap, start, k) < entries.len(),
    decreases entries.len() - k,
{
    let n = entries.len() as int;
    if 0 <= k < n {
        assert(0 <= (start + k) % n < n) by (nonlinear_arith)
            requires
                n > 0,
                start + k >= 0,
        ;
        lemma_linear_walk_in_range(entries, prev, cap, start, k + 1);
    }
}

/// A linear walk settles on an entry that may be picked whenever the listing
/// holds one.
proof fn lemma_linear_walk_acceptable(entries: Seq<Seq<char>>, prev: Seq<Seq<char>>, cap: nat, start: int)
    requires
        0 <= start < entries.len(),
        some_acceptable(entries, prev, cap),
    ensures
        acceptable(entries[linear_walk(entries, prev, cap, start, 0)], prev, entries.len(), cap),
{
    let i = choose|i: int| 0 <= i < entries.len() && acceptable(entries[i], prev, entries.len(), cap);
    let n = entries.len() as int;
    let d = if i >= start { i - start } else { i + n - start };
    assert((start + d) % n == i) by (nonlinear_arith)
        requires
            0 <= start < n,
            0 <= i < n,
            d == if i >= start { i - start } else { i + n - start },
    ;
    lemma_walk_finds(entries, prev, cap, start, 0, d);
}

proof fn lemma_walk_finds(
    entries: Seq<Seq<char>>,
    prev: Seq<Seq<char>>,
    cap: nat,
    start: int,
    k: int,
    d: int,
)
    requires
        0 <= start < entries.len(),
        0 <= k <= d < entries.len(),
        acceptable(entries[(start + d) % (entries.len() as int)], prev, entries.len(), cap),
    ensures
        acceptable(entries[linear_walk(entries, prev, cap, start, k)], prev, entries.len(), cap),
    decreases d - k,
{
    let n = entries.len() as int;
    assert(0 <= (start + k) % n < n) by (nonlinear_arith)
        requires
            n > 0,
            start + k >= 0,
    ;
    if k < d {
        if !acceptable(entries[(start + k) % n], prev, entries.len(), cap) {
            lemma_walk_finds(entries, prev, cap, start, k + 1, d);
        }
    }
}

/// A listing of distinct entries that is larger than the window always holds
/// an entry that is not shown.
pub proof fn lemma_fresh_entry_exists(entries: Seq<Seq<char>>, prev: Seq<Seq<char>>, cap: nat)
    requires
        entries.no_duplicates(),
        entries.len() > cap,
        prev.len() <= cap,
    ensures
        some_acceptable(entries, prev, cap),
{
    if !some_acceptable(entries, prev, cap) {
        assert forall|x: Seq<char>| entries.to_set().contains(x) implies prev.to_set().contains(x) by {
            let i = choose|i: int| 0 <= i < entries.len() && entries[i] == x;
            assert(!acceptable(entries[i], prev, entries.len(), cap));
        }
        entries.unique_seq_to_set();
        prev.lemma_cardinality_of_set();
        vstd::set_lib::lemma_len_subset(entries.to_set(), prev.to_set());
    }
}

/// Relies on rand's `Rng::gen_range` over the thread-local generator: a
/// uniformly drawn index below `n`; it panics on an empty range.
#[verifier::external_body]
fn random_index(n: usize) -> (r: usize)
    requires
        n > 0,
    ensures
        r < n,
{
    rand::thread_rng().gen_range(0..n)
}

/// The entries that may be picked while `history` is shown: those not in its
/// window, or all of them when the listing is no larger than the window.
pub fn fresh_candidates(entries: &Vec<String>, history: &History) -> (r: Vec<String>)
    ensures
        forall|i: int|
            0 <= i < r@.len() ==> {
                &&& paths_view(entries@).contains(#[trigger] r@[i]@)
                &&& acceptable(r@[i]@, history.previous_view(), entries@.len(), history.capacity())
            },
        forall|i: int|
            0 <= i < entries@.len() && acceptable(
                #[trigger] entries@[i]@,
                history.previous_view(),
                entries@.len(),
                history.capacity(),
            ) ==> paths_view(r@).contains(entries@[i]@),
{
    let ghost ev = paths_view(entries@);
    let n = entries.len();
    let small = n <= history.history_max_size();
    let mut r: Vec<String> = Vec::new();
    let mut i: usize = 0;
    while i < n
        invariant
            n == entries@.len(),
            ev == paths_view(entries@),
            small == (n <= history.capacity()),
            i <= n,
            forall|j: int|
                0 <= j < r@.len() ==> {
                    &&& ev.contains(#[trigger] r@[j]@)
                    &&& acceptable(r@[j]@, history.previous_view(), n as nat, history.capacity())
                },
            forall|j: int|
                0 <= j < i && acceptable(
                    #[trigger] entries@[j]@,
                    history.previous_view(),
                    n as nat,
                    history.capacity(),
                ) ==> paths_view(r@).contains(entries@[j]@),
        decreases n - i,
    {
        let e = &entries[i];
        if small || !history.contains(e) {
            let ghost before = r@;
            r.push(e.clone());
            assert(ev[i as int] == e@);
            assert(paths_view(r@)[r@.len() - 1] == e@);
            assert forall|j: int|
                0 <= j < i && acceptable(
                    #[trigger] entries@[j]@,
                    history.previous_view(),
                    n as nat,
                    history.capacity(),
                ) implies paths_view(r@).contains(entries@[j]@) by {
                let k = choose|k: int| 0 <= k < before.len() && paths_view(before)[k] == entries@[j]@;
                assert(paths_view(r@)[k] == entries@[j]@);
            }
        }
        i += 1;
    }
    r
}

/// A random advance: an entry drawn uniformly from those that may be
/// picked, or from the whole listing when none may. `None` on an empty listing.
pub fn pick_random(entries: &Vec<String>, history: &History) -> (r: Option<String>)
    requires
        history.wf(),
    ensures
        r is None <==> entries@.len() == 0,
        r matches Some(s) ==> paths_view(entries@).contains(s@),
        r matches Some(s) ==> some_acceptable(paths_view(entries@), history.previous_view(), history.capacity())
            ==> acceptable(s@, history.previous_view(), entries@.len(), history.capacity()),
        r matches Some(s) ==> paths_view(entries@).no_duplicates() && history.capacity() >= 1
            && entries@.len() > history.capacity() ==> !history.previous_view().contains(s@),
{
    let ghost ev = paths_view(entries@);
    let ghost prev = history.previous_view();
    let ghost cap = history.capacity();
    let n = entries.len();
    if n == 0 {
        return None;
    }
    let candidates = fresh_candidates(entries, history);
    let m = candidates.len();
    proof {
        if ev.no_duplicates() && cap >= 1 && n > cap {
            lemma_fresh_entry_exists(ev, prev, cap);
        }
        if some_acceptable(ev, prev, cap) {
            let i = choose|i: int| 0 <= i < ev.len() && acceptable(ev[i], prev, ev.len(), cap);
            assert(acceptable(entries@[i]@, prev, entries@.len(), cap));
            assert(paths_view(candidates@).contains(entries@[i]@));
        }
    }
    if m == 0 {
        let idx = random_index(n);
        assert(ev[idx as int] == entries@[idx as int]@);
        Some(entries[idx].clone())
    } else {
        let idx = random_index(m);
        let s = candidates[idx].clone();
        assert(acceptable(candidates@[idx as int]@, prev, entries@.len(), cap));
        Some(s)
    }
}

/// A linear advance: the entry after the shown image in the listing, skipping
/// those that may not be picked. `None` on an empty listing.
pub fn pick_linear(entries: &Vec<String>, history: &History) -> (r: Option<String>)
    requires
        history.wf(),
    ensures
        r is None <==> entries@.len() == 0,
        r matches Some(s) ==> s@ == linear_choice(paths_view(entries@), history.previous_view(), history.capacity()),
        r matches Some(s) ==> paths_view(entries@).contains(s@),
        r matches Some(s) ==> some_acceptable(paths_view(entries@), history.previous_view(), history.capacity())
            ==> acceptable(s@, history.previous_view(), entries@.len(), history.capacity()),
{
    let ghost ev = paths_view(entries@);
    let ghost prev = history.previous_view();
    let ghost cap = history.capacity();
    let n = entries.len();
    if n == 0 {
        return None;
    }
    let current = history.current();
    let mut pos: usize = 0;
    let mut found = false;
    while pos < n
        invariant_except_break
            !found,
        invariant
            n == entries@.len(),
            ev == paths_view(entries@),
            pos <= n,
            position_from(ev, current@, 0) == position_from(ev, current@, pos as int),
        ensures
            found ==> pos < n && ev[pos as int] == current@,
            !found ==> pos == n,
            position_from(ev, current@, 0) == position_from(ev, current@, pos as int),
        decreases n - pos,
    {
        if entries[pos] == *current {
            assert(ev[pos as int] == entries@[pos as int]@);
            found = true;
            break;
        }
        pos += 1;
    }
    let start: usize = if found {
        if pos + 1 < n { pos + 1 } else { 0 }
    } else {
        if 1 < n { 1 } else { 0 }
    };
    assert(start as int == linear_start(ev, prev.last())) by {
        assert(current@ == prev.last());
        if found {
            assert(position_from(ev, current@, pos as int) == pos as int);
            assert(start as int == (pos + 1) % (n as int)) by (nonlinear_arith)
                requires
                    pos < n,
                    start == if pos + 1 < n { pos + 1 } else { 0 },
            ;
        } else {
            assert(position_from(ev, current@, n as int) == -1);
            assert(start as int == 1int % (n as int)) by (nonlinear_arith)
                requires
                    0 < n,
                    start == if 1 < n { 1int } else { 0int },
            ;
        }
    }
    proof {
        lemma_linear_walk_in_range(ev, prev, cap, start as int, 0);
        if some_acceptable(ev, prev, cap) {
            lemma_linear_walk_acceptable(ev, prev, cap, start as int);
        }
    }
    let small = n <= history.history_max_size();
    let mut k: usize = 0;
    while k < n
        invariant
            n == entries@.len(),
            ev == paths_view(entries@),
            start < n,
            small == (n <= cap),
            k <= n,
            prev == history.previous_view(),
            cap == history.capacity(),
            history.wf(),
            start as int == linear_start(ev, prev.last()),
            linear_walk(ev, prev, cap, start as int, 0) == linear_walk(ev, prev, cap, start as int, k as int),
        decreases n - k,
    {
        let idx: usize = if k < n - start { start + k } else { k - (n - start) };
        assert(idx as int == (start + k) % (n as int)) by (nonlinear_arith)
            requires
                start < n,
                k < n,
                idx == if k < n - start { start + k } else { k - (n - start) },
        ;
        assert(ev[idx as int] == entries@[idx as int]@);
        if small || !history.contains(&entries[idx]) {
            return Some(entries[idx].clone());
        }
        k += 1;
    }
    assert(ev[start as int] == entries@[start as int]@);
    Some(entries[start].clone())
}

} // verus!
