//! Tracking the most recent change of each pixel between two flushes.

use vstd::prelude::*;

use crate::color::Color;
use crate::pixmap::max_pixels;

verus! {

/// A change to a certain pixel inside a certain pixmap that can be tracked using a
/// [`Tracker`]. Two changes of the same pixel (the same `pixmap_index`) are equal.
#[derive(Debug, Copy, Clone)]
pub struct TrackedChange {
    /// The index of the changed pixel inside the pixmap (`y * width + x`).
    pub pixmap_index: usize,
    /// `(x, y)` coordinates of this change.
    pub coordinates: (usize, usize),
    /// The color to which the pixel was changed.
    pub color: Color,
}

impl PartialEq for TrackedChange {
    fn eq(&self, other: &TrackedChange) -> (r: bool) {
        self.pixmap_index == other.pixmap_index
    }
}

impl vstd::std_specs::cmp::PartialEqSpecImpl for TrackedChange {
    open spec fn obeys_eq_spec() -> bool {
        true
    }

    open spec fn eq_spec(&self, other: &TrackedChange) -> bool {
        self.pixmap_index == other.pixmap_index
    }
}

impl Eq for TrackedChange {}

/// The change that a write of `c` to `(x, y)` makes on a pixmap of width `w`.
pub open spec fn change_of(w: int, x: usize, y: usize, c: Color) -> TrackedChange {
    TrackedChange { pixmap_index: (y * w + x) as usize, coordinates: (x, y), color: c }
}

/// No two entries of `s` concern the same pixel.
pub open spec fn distinct_pixels(s: Seq<TrackedChange>) -> bool {
    forall|i: int, j: int|
        0 <= i < s.len() && 0 <= j < s.len() && i != j ==> s[i].pixmap_index
            != s[j].pixmap_index
}

/// `s` holds exactly the changes of `m`, each once.
pub open spec fn lists_changes(s: Seq<TrackedChange>, m: Map<nat, TrackedChange>) -> bool {
    &&& distinct_pixels(s)
    &&& forall|i: int|
        0 <= i < s.len() ==> m.contains_key(#[trigger] s[i].pixmap_index as nat)
            && m[s[i].pixmap_index as nat] == s[i]
    &&& forall|p: nat|
        #[trigger] m.contains_key(p) ==> exists|i: int| 0 <= i < s.len() && s[i].pixmap_index == p
}

/// A type that keeps track of the most recent update of each pixel of a pixmap.
pub struct Tracker {
    /// The size of the pixmap whose changes are tracked.
    pixmap_size: (usize, usize),
    /// The changes since they were last retrieved, at most one per pixel.
    changes: Vec<TrackedChange>,
    /// For each pixel index, one more than the position of its change in `changes`,
    /// or zero where the pixel has no change.
    slots: Vec<usize>,
}

impl View for Tracker {
    type V = Map<nat, TrackedChange>;

    /// The tracked changes, keyed by pixel index.
    closed spec fn view(&self) -> Map<nat, TrackedChange> {
        Map::new(
            |p: nat| p < self.slots@.len() && self.slots@[p as int] != 0,
            |p: nat| self.changes@[self.slots@[p as int] - 1],
        )
    }
}

impl Tracker {
    pub closed spec fn width(&self) -> nat {
        self.pixmap_size.0 as nat
    }

    pub closed spec fn height(&self) -> nat {
        self.pixmap_size.1 as nat
    }

    pub closed spec fn wf(&self) -> bool {
        let w = self.pixmap_size.0 as int;
        let h = self.pixmap_size.1 as int;
        &&& w * h <= max_pixels()
        &&& self.slots@.len() == w * h
        &&& forall|i: int|
            #![trigger self.changes@[i]]
            0 <= i < self.changes@.len() ==> {
                let c = self.changes@[i];
                &&& c.coordinates.0 < w
                &&& c.coordinates.1 < h
                &&& c.pixmap_index == c.coordinates.1 * w + c.coordinates.0
                &&& c.pixmap_index < self.slots@.len()
                &&& self.slots@[c.pixmap_index as int] == i + 1
            }
        &&& forall|p: int|
            #![trigger self.slots@[p]]
            0 <= p < self.slots@.len() && self.slots@[p] != 0 ==> self.slots@[p]
                <= self.changes@.len() && self.changes@[self.slots@[p] - 1].pixmap_index == p
    }

    proof fn lemma_view_changes(&self)
        requires
            self.wf(),
        ensures
            lists_changes(self.changes@, self@),
            forall|p: nat| #[trigger]
                self@.contains_key(p) ==> self@[p] == change_of(
                    self.width() as int,
                    self@[p].coordinates.0,
                    self@[p].coordinates.1,
                    self@[p].color,
                ) && self@[p].coordinates.0 < self.width() && self@[p].coordinates.1
                    < self.height() && self@[p].pixmap_index == p,
    {
        let s = self.changes@;
        assert forall|i: int, j: int|
            0 <= i < s.len() && 0 <= j < s.len() && i != j implies s[i].pixmap_index
            != s[j].pixmap_index by {
            assert(self.changes@[i] == s[i]);
            assert(self.changes@[j] == s[j]);
        }
        assert forall|i: int| 0 <= i < s.len() implies self@.contains_key(
            #[trigger] s[i].pixmap_index as nat,
        ) && self@[s[i].pixmap_index as nat] == s[i] by {
            assert(self.changes@[i] == s[i]);
        }
        assert forall|p: nat| #[trigger] self@.contains_key(p) implies exists|i: int|
            0 <= i < s.len() && s[i].pixmap_index == p by {
            assert(self.slots@[p as int] != 0);
            let i = self.slots@[p as int] - 1;
            assert(s[i].pixmap_index == p);
        }
        assert forall|p: nat| #[trigger] self@.contains_key(p) implies self@[p] == change_of(
            self.width() as int,
            self@[p].coordinates.0,
            self@[p].coordinates.1,
            self@[p].color,
        ) && self@[p].coordinates.0 < self.width() && self@[p].coordinates.1 < self.height()
            && self@[p].pixmap_index == p by {
            assert(self.slots@[p as int] != 0);
            let i = self.slots@[p as int] - 1;
            assert(self.changes@[i] == self@[p]);
        }
    }

    /// A tracker for the changes of a pixmap of the given size.
    pub fn new(pixmap_width: usize, pixmap_height: usize) -> (r: Tracker)
        requires
            pixmap_width * pixmap_height <= max_pixels(),
        ensures
            r.wf(),
            r.width() == pixmap_width,
            r.height() == pixmap_height,
            r@ == Map::<nat, TrackedChange>::empty(),
    {
        let n = pixmap_width * pixmap_height;
        let mut slots: Vec<usize> = Vec::new();
        let mut i: usize = 0;
        while i < n
            invariant
                i <= n,
                slots@.len() == i,
                forall|j: int| 0 <= j < i ==> slots@[j] == 0,
            decreases n - i,
        {
            slots.push(0);
            i = i + 1;
        }
        let r = Tracker { pixmap_size: (pixmap_width, pixmap_height), changes: Vec::new(), slots };
        assert(r@ =~= Map::<nat, TrackedChange>::empty());
        r
    }

    /// Track a change of pixel `(x, y)` to `color`, replacing an earlier change of the
    /// same pixel.
    pub fn add(&mut self, x: usize, y: usize, color: Color)
        requires
            old(self).wf(),
            x < old(self).width(),
            y < old(self).height(),
        ensures
            final(self).wf(),
            final(self).width() == old(self).width(),
            final(self).height() == old(self).height(),
            final(self)@ == old(self)@.insert(
                (y * old(self).width() + x) as nat,
                change_of(old(self).width() as int, x, y, color),
            ),
    {
        let w = self.pixmap_size.0;
        let h = self.pixmap_size.1;
        proof {
            crate::pixmap::lemma_index_in_range(w as int, h as int, x as int, y as int);
        }
        let p = y * w + x;
        let change = TrackedChange { pixmap_index: p, coordinates: (x, y), color };
        let ghost old_self = *self;
        let slot = self.slots[p];
        if slot != 0 {
            self.changes.set(slot - 1, change);
        } else {
            self.changes.push(change);
            let n = self.changes.len();
            self.slots.set(p, n);
        }
        proof {
            assert forall|i: int|
                #![trigger self.changes@[i]]
                0 <= i < self.changes@.len() implies {
                let c = self.changes@[i];
                &&& c.coordinates.0 < w
                &&& c.coordinates.1 < h
                &&& c.pixmap_index == c.coordinates.1 * w + c.coordinates.0
                &&& c.pixmap_index < self.slots@.len()
                &&& self.slots@[c.pixmap_index as int] == i + 1
            } by {
                if i < old_self.changes@.len() {
                    assert(old_self.changes@[i] == old_self.changes@[i]);
                }
            }
            assert forall|q: int|
                #![trigger self.slots@[q]]
                0 <= q < self.slots@.len() && self.slots@[q] != 0 implies self.slots@[q]
                <= self.changes@.len() && self.changes@[self.slots@[q] - 1].pixmap_index
                == q by {
                assert(old_self.slots@[q] == old_self.slots@[q]);
            }
            assert(self@ =~= old_self@.insert(p as nat, change));
        }
    }

    /// The dimensions of the pixmap whose changes are tracked.
    pub fn get_size(&self) -> (r: (usize, usize))
        ensures
            r.0 == self.width(),
            r.1 == self.height(),
    {
        self.pixmap_size
    }

    /// Take out all tracked changes, one per changed pixel in no particular order,
    /// leaving the tracker empty.
    pub fn get_changes(&mut self) -> (r: Vec<TrackedChange>)
        requires
            old(self).wf(),
        ensures
            final(self).wf(),
            final(self).width() == old(self).width(),
            final(self).height() == old(self).height(),
            final(self)@ == Map::<nat, TrackedChange>::empty(),
            lists_changes(r@, old(self)@),
    {
        proof {
            self.lemma_view_changes();
        }
        let mut out: Vec<TrackedChange> = Vec::new();
        std::mem::swap(&mut out, &mut self.changes);
        let ghost slots0 = self.slots@;
        let ghost size0 = self.pixmap_size;
        let mut i: usize = 0;
        while i < out.len()
            invariant
                self.pixmap_size == size0,
                size0.0 * size0.1 <= max_pixels(),
                slots0.len() == size0.0 * size0.1,
                self.changes@.len() == 0,
                self.slots@.len() == slots0.len(),
                i <= out@.len(),
                forall|j: int|
                    #![trigger out@[j]]
                    0 <= j < out@.len() ==> out@[j].pixmap_index < slots0.len()
                        && slots0[out@[j].pixmap_index as int] == j + 1,
                forall|q: int|
                    #![trigger self.slots@[q]]
                    0 <= q < self.slots@.len() && self.slots@[q] != 0 ==> self.slots@[q] - 1
                        >= i && self.slots@[q] <= out@.len() && self.slots@[q] == slots0[q]
                        && out@[self.slots@[q]
                        - 1].pixmap_index == q,
            decreases out@.len() - i,
        {
            let p = out[i].pixmap_index;
            self.slots.set(p, 0);
            i = i + 1;
        }
        proof {
            assert(self@ =~= Map::<nat, TrackedChange>::empty());
        }
        out
    }

    /// Forget all tracked changes.
    pub fn clear(&mut self)
        requires
            old(self).wf(),
        ensures
            final(self).wf(),
            final(self).width() == old(self).width(),
            final(self).height() == old(self).height(),
            final(self)@ == Map::<nat, TrackedChange>::empty(),
    {
        let _ = self.get_changes();
    }
}

/// The tracked changes after writing the colors `cs`, in order, to pixel `(x, y)` of
/// a pixmap of width `w`, starting from the tracked changes `m`.
pub open spec fn after_writes(
    m: Map<nat, TrackedChange>,
    w: int,
    x: usize,
    y: usize,
    cs: Seq<Color>,
) -> Map<nat, TrackedChange>
    decreases cs.len(),
{
    if cs.len() == 0 {
        m
    } else {
        after_writes(m, w, x, y, cs.drop_last()).insert(
            (y * w + x) as nat,
            change_of(w, x, y, cs.last()),
        )
    }
}

/// However often one pixel is written between two flushes, the flushed changes hold
/// exactly one entry for it, and that entry carries the color of the last write.
pub proof fn lemma_flush_keeps_last_write(
    m: Map<nat, TrackedChange>,
    w: int,
    x: usize,
    y: usize,
    cs: Seq<Color>,
    flushed: Seq<TrackedChange>,
)
    requires
        0 <= x < w,
        0 <= y * w + x <= usize::MAX,
        cs.len() > 0,
        lists_changes(flushed, after_writes(m, w, x, y, cs)),
    ensures
        exists|i: int|
            0 <= i < flushed.len() && flushed[i].pixmap_index == y * w + x
                && flushed[i].coordinates == (x, y),
        forall|i: int|
            0 <= i < flushed.len() && flushed[i].pixmap_index == y * w + x ==> flushed[i].color
                == cs.last(),
        forall|i: int, j: int|
            0 <= i < flushed.len() && 0 <= j < flushed.len() && flushed[i].pixmap_index == y
                * w + x && flushed[j].pixmap_index == y * w + x ==> i == j,
{
    let p = (y * w + x) as nat;
    let m2 = after_writes(m, w, x, y, cs);
    assert(m2.contains_key(p));
    assert(m2[p] == change_of(w, x, y, cs.last()));
    let i = choose|i: int| 0 <= i < flushed.len() && flushed[i].pixmap_index == p;
    assert(m2[flushed[i].pixmap_index as nat] == flushed[i]);
    assert forall|i: int|
        0 <= i < flushed.len() && flushed[i].pixmap_index == y * w + x implies flushed[i].color
        == cs.last() by {
        assert(m2[flushed[i].pixmap_index as nat] == flushed[i]);
    }
}

} // verus!
