//! The input bridge: the three shared cells that an event-dispatch context
//! writes and the render loop reads once per frame.
//!
//! This module holds the cells' data and their exact transitions — which
//! keys are held, the pointer-motion deltas accumulated since the last
//! frame, and the latest window size with its pending flag. Sharing the
//! cells between the two contexts (one lock per cell, a failed acquisition
//! skipped as "no update this frame") is the embedding program's concern;
//! under that single-writer/single-reader discipline,
//! [`lemma_no_lost_updates`] states that every delta written between two
//! frame reads is reflected, in full, in the next read.

use vstd::prelude::*;

verus! {

/// The keys the system reacts to. Everything else maps to `Other`.
#[derive(Clone, Copy, Debug, PartialEq, Eq, Structural)]
pub enum Key {
    /// Move along the view direction.
    W,
    /// Move against the view direction.
    S,
    /// Move right.
    D,
    /// Move left.
    A,
    /// Move up.
    Space,
    /// Move down.
    LShift,
    /// Turn right.
    Right,
    /// Turn left.
    Left,
    /// Look up.
    Up,
    /// Look down.
    Down,
    /// Reset the camera pose.
    R,
    /// Open every helicopter door (latching).
    K,
    /// Drop every bomb (latching).
    B,
    /// Any key without an effect here.
    Other,
}

/// The set of currently held keys: membership only, kept free of
/// duplicates, stored in press order.
pub struct KeySet {
    pub keys: Vec<Key>,
}

/// No key occurs twice.
pub open spec fn key_set_wf(ks: KeySet) -> bool {
    forall|i: int, j: int|
        0 <= i < j < ks.keys@.len() ==> #[trigger] ks.keys@[i] != #[trigger] ks.keys@[j]
}

impl KeySet {
    /// The empty set: nothing held.
    pub fn new() -> (ks: KeySet)
        ensures
            ks.keys@.len() == 0,
            key_set_wf(ks),
    {
        KeySet { keys: Vec::new() }
    }

    /// Whether `k` is currently held.
    pub fn contains(&self, k: Key) -> (r: bool)
        ensures
            r == self.keys@.contains(k),
    {
        let n = self.keys.len();
        let mut i: usize = 0;
        while i < n
            invariant
                i <= n,
                n == self.keys@.len(),
                forall|j: int| 0 <= j < i ==> self.keys@[j] != k,
            decreases n - i,
        {
            if self.keys[i] == k {
                return true;
            }
            i = i + 1;
        }
        false
    }

    /// Records a key press: the key is held afterward; a key already held
    /// is not duplicated.
    pub fn press(&mut self, k: Key)
        requires
            key_set_wf(*old(self)),
            old(self).keys@.len() < usize::MAX,
        ensures
            key_set_wf(*final(self)),
            final(self).keys@ == if old(self).keys@.contains(k) {
                old(self).keys@
            } else {
                old(self).keys@.push(k)
            },
            final(self).keys@.contains(k),
    {
        if !self.contains(k) {
            self.keys.push(k);
            proof {
                let ks = self.keys@;
                let prev = old(self).keys@;
                assert forall|i: int, j: int| 0 <= i < j < ks.len() implies #[trigger] ks[i]
                    != #[trigger] ks[j] by {
                    if j < prev.len() {
                        assert(ks[i] == prev[i] && ks[j] == prev[j]);
                    } else {
                        assert(ks[j] == k && ks[i] == prev[i]);
                        assert(!prev.contains(k));
                    }
                }
                assert(ks[ks.len() - 1] == k);
            }
        }
    }

    /// Records a key release: the key is no longer held; every other held
    /// key keeps its place.
    pub fn release(&mut self, k: Key)
        requires
            key_set_wf(*old(self)),
        ensures
            key_set_wf(*final(self)),
            final(self).keys@ == old(self).keys@.remove_value(k),
            !final(self).keys@.contains(k),
    {
        let ghost prev = self.keys@;
        let n = self.keys.len();
        let mut i: usize = 0;
        while i < n
            invariant
                i <= n,
                n == self.keys@.len(),
                self.keys@ == prev,
                prev == old(self).keys@,
                key_set_wf(*self),
                forall|j: int| 0 <= j < i ==> self.keys@[j] != k,
            decreases n - i,
        {
            if self.keys[i] == k {
                self.keys.remove(i);
                proof {
                    let ks = self.keys@;
                    assert(prev.contains(k)) by {
                        assert(prev[i as int] == k);
                    }
                    prev.index_of_first_ensures(k);
                    assert(prev.index_of_first(k) == Some(i as int)) by {
                        let idx = prev.index_of_first(k)->Some_0;
                        if idx < i as int {
                            assert(prev[idx] == k);
                        } else if idx > i as int {
                            assert(prev[i as int] != k);
                        }
                    }
                    assert(ks =~= prev.remove_value(k));
                    assert forall|a: int, b: int| 0 <= a < b < ks.len() implies #[trigger] ks[a]
                        != #[trigger] ks[b] by {
                        let a0 = if a < i as int { a } else { a + 1 };
                        let b0 = if b < i as int { b } else { b + 1 };
                        assert(ks[a] == prev[a0] && ks[b] == prev[b0]);
                    }
                    assert(!ks.contains(k)) by {
                        if ks.contains(k) {
                            let w = choose|w: int| 0 <= w < ks.len() && ks[w] == k;
                            let w0 = if w < i as int { w } else { w + 1 };
                            assert(prev[w0] == k && prev[i as int] == k);
                        }
                    }
                }
                return ;
            }
            i = i + 1;
        }
        proof {
            assert(!prev.contains(k)) by {
                if prev.contains(k) {
                    let w = choose|w: int| 0 <= w < prev.len() && prev[w] == k;
                }
            }
            prev.index_of_first_ensures(k);
            assert(prev.index_of_first(k) is None);
        }
    }
}

/// The pointer-motion cell: deltas accumulated since the last frame read.
#[derive(Clone, Copy, Debug, PartialEq, Eq, Structural)]
pub struct PointerDelta {
    pub dx: i64,
    pub dy: i64,
}

/// Accumulation bound: the cell accepts any sum of deltas within a million
/// units of motion per frame without overflow.
pub const MAX_POINTER: i64 = 1_000_000_000_000;

impl PointerDelta {
    /// The cell at rest: nothing accumulated.
    pub fn new() -> (p: PointerDelta)
        ensures
            p == (PointerDelta { dx: 0, dy: 0 }),
    {
        PointerDelta { dx: 0, dy: 0 }
    }

    /// Adds one motion event to the accumulator (the event context's write).
    pub fn accumulate(&mut self, dx: i64, dy: i64)
        requires
            -MAX_POINTER <= old(self).dx + dx <= MAX_POINTER,
            -MAX_POINTER <= old(self).dy + dy <= MAX_POINTER,
            -MAX_POINTER <= old(self).dx <= MAX_POINTER,
            -MAX_POINTER <= old(self).dy <= MAX_POINTER,
            -MAX_POINTER <= dx <= MAX_POINTER,
            -MAX_POINTER <= dy <= MAX_POINTER,
        ensures
            *final(self) == (PointerDelta {
                dx: (old(self).dx + dx) as i64,
                dy: (old(self).dy + dy) as i64,
            }),
    {
        self.dx = self.dx + dx;
        self.dy = self.dy + dy;
    }

    /// The frame read: hands the accumulated delta out and resets the cell
    /// to `(0, 0)` — exactly once per read.
    pub fn take(&mut self) -> (d: (i64, i64))
        ensures
            d == (old(self).dx, old(self).dy),
            *final(self) == (PointerDelta { dx: 0, dy: 0 }),
    {
        let d = (self.dx, self.dy);
        self.dx = 0;
        self.dy = 0;
        d
    }
}

/// The cell after a sequence of accumulating writes.
pub open spec fn deltas_after(d: (int, int), writes: Seq<(int, int)>) -> (int, int)
    decreases writes.len(),
{
    if writes.len() == 0 {
        d
    } else {
        deltas_after((d.0 + writes[0].0, d.1 + writes[0].1), writes.drop_first())
    }
}

/// The componentwise sum of a sequence of writes.
pub open spec fn sum_deltas(writes: Seq<(int, int)>) -> (int, int)
    decreases writes.len(),
{
    if writes.len() == 0 {
        (0, 0)
    } else {
        let rest = sum_deltas(writes.drop_first());
        (writes[0].0 + rest.0, writes[0].1 + rest.1)
    }
}

/// NO LOST UPDATES: starting from a freshly reset cell, any sequence of
/// writes leaves exactly their sum in the cell, so the next frame read
/// returns every delta written since the previous read.
pub proof fn lemma_no_lost_updates(writes: Seq<(int, int)>)
    ensures
        deltas_after((0, 0), writes) == sum_deltas(writes),
{
    lemma_deltas_linear((0, 0), writes);
}

/// Accumulation is linear in the starting state.
pub proof fn lemma_deltas_linear(d: (int, int), writes: Seq<(int, int)>)
    ensures
        deltas_after(d, writes) == (d.0 + sum_deltas(writes).0, d.1 + sum_deltas(writes).1),
    decreases writes.len(),
{
    if writes.len() == 0 {
    } else {
        lemma_deltas_linear((d.0 + writes[0].0, d.1 + writes[0].1), writes.drop_first());
    }
}

/// The window-size cell: the latest size and whether a resize is pending.
#[derive(Clone, Copy, Debug, PartialEq, Eq, Structural)]
pub struct WindowSize {
    pub width: u32,
    pub height: u32,
    pub pending: bool,
}

impl WindowSize {
    /// The initial cell: the given size, nothing pending.
    pub fn new(width: u32, height: u32) -> (w: WindowSize)
        ensures
            w == (WindowSize { width, height, pending: false }),
    {
        WindowSize { width, height, pending: false }
    }

    /// The event context's write: a new size, now pending.
    pub fn set(&mut self, width: u32, height: u32)
        ensures
            *final(self) == (WindowSize { width, height, pending: true }),
    {
        self.width = width;
        self.height = height;
        self.pending = true;
    }

    /// The frame read: the pending size if any, clearing the flag; `None`
    /// exactly when no resize arrived since the last read.
    pub fn take(&mut self) -> (r: Option<(u32, u32)>)
        ensures
            old(self).pending ==> r == Some((old(self).width, old(self).height)) && *final(self)
                == (WindowSize { pending: false, ..*old(self) }),
            !old(self).pending ==> r == None::<(u32, u32)> && *final(self) == *old(self),
    {
        if self.pending {
            self.pending = false;
            Some((self.width, self.height))
        } else {
            None
        }
    }
}

} // verus!
