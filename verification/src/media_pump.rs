//! Bridge media: the bounded reordering of RTP voice frames between the
//! two channels of a bridge.
use vstd::prelude::*;

verus! {

/// Most out-of-order voice frames kept per direction.
pub const REORDER_CAPACITY: usize = 4;

/// The RTP sequence number and timestamp a voice frame arrived with.
#[derive(Debug, Clone, Copy, PartialEq, Eq, Structural)]
pub struct RtpTiming {
    pub sequence: u16,
    pub timestamp: u32,
}

/// A media frame as the bridge passes it on: voice frames carry their RTP
/// timing, other frames none.
#[derive(Debug, Clone)]
pub struct MediaFrame {
    pub timing: Option<RtpTiming>,
    pub data: Vec<u8>,
}

/// The sequence number of a timed frame.
pub open spec fn seq_of(f: MediaFrame) -> u16 {
    f.timing.unwrap().sequence
}

/// `s` steps after `e`, round the 16-bit sequence space.
pub open spec fn seq_plus(e: u16, k: int) -> u16 {
    ((e + k) % 0x1_0000) as u16
}

/// How far `s` lies ahead of `e` round the 16-bit sequence space.
pub open spec fn seq_ahead(s: u16, e: u16) -> int {
    (s - e + 0x1_0000) % 0x1_0000
}

/// Some frame of `p` has sequence `s`.
pub open spec fn has_seq(p: Seq<MediaFrame>, s: u16) -> bool {
    exists|i: int| 0 <= i < p.len() && seq_of(#[trigger] p[i]) == s
}

/// Whether a frame of `p` is timed with the sequence number `s`.
pub open spec fn held_timed_seq(p: Seq<MediaFrame>, s: u16) -> bool {
    exists|i: int|
        0 <= i < p.len() && (#[trigger] p[i]).timing is Some && p[i].timing.unwrap().sequence == s
}

/// Every frame of `p` is timed and no two share a sequence number.
pub open spec fn distinct_timed(p: Seq<MediaFrame>) -> bool {
    &&& forall|i: int| 0 <= i < p.len() ==> (#[trigger] p[i]).timing is Some
    &&& forall|i: int, j: int| 0 <= i < p.len() && 0 <= j < p.len() && i != j ==> seq_of(#[trigger] p[i]) != seq_of(#[trigger] p[j])
}

/// Draining `p` from `e` gives `out`, leaving `p2` and `e2`: `out` is the
/// run of frames with sequences `e`, `e+1`, ... found in `p`, in that
/// order; `p2` holds the other frames of `p`; `e2` is the first sequence
/// of the run that is missing.
pub open spec fn drained(p: Seq<MediaFrame>, e: u16, out: Seq<MediaFrame>, p2: Seq<MediaFrame>, e2: u16) -> bool {
    &&& forall|j: int| 0 <= j < out.len() ==> p.contains(#[trigger] out[j]) && seq_of(out[j]) == seq_plus(e, j)
    &&& p2.len() + out.len() == p.len()
    &&& forall|f: MediaFrame| p2.contains(f) <==> (p.contains(f) && !out.contains(f))
    &&& e2 == seq_plus(e, out.len() as int)
    &&& !has_seq(p2, e2)
}

/// The sequence of `p` nearest ahead of `e`.
pub open spec fn nearest_ahead(p: Seq<MediaFrame>, e: u16, s: u16) -> bool {
    has_seq(p, s) && forall|i: int| 0 <= i < p.len() ==> seq_ahead(s, e) <= seq_ahead(#[trigger] seq_of(p[i]), e)
}

/// A reorder window for one direction of a bridge.
#[derive(Debug)]
pub struct VoiceReorderBuffer {
    /// The next sequence number to pass on, once one frame was seen.
    pub expected: Option<u16>,
    /// The frames held back, waiting for the ones before them.
    pub pending: Vec<MediaFrame>,
    /// The most frames held back at once.
    pub capacity: usize,
}

/// The buffer after `push(f)` returned `out`, from `b`. An untimed frame
/// passes through; the first timed one passes and sets the next expected
/// number; an old or duplicate frame is dropped; any other is held, and
/// when the window is full with the expected frame missing the buffer
/// skips ahead to the nearest number it holds; then every frame now in
/// order is passed on.
pub open spec fn pushed(b: VoiceReorderBuffer, f: MediaFrame, b2: VoiceReorderBuffer, out: Seq<MediaFrame>) -> bool {
    &&& b2.capacity == b.capacity
    &&& match f.timing {
        None => out == seq![f] && b2.expected == b.expected && b2.pending@ == b.pending@,
        Some(t) => match b.expected {
            None => out == seq![f] && b2.expected == Some(seq_plus(t.sequence, 1)) && b2.pending@
                == b.pending@,
            Some(e) => if seq_ahead(t.sequence, e) >= 0x8000 || has_seq(b.pending@, t.sequence) {
                out.len() == 0 && b2.expected == b.expected && b2.pending@ == b.pending@
            } else {
                let p = b.pending@.push(f);
                exists|e1: u16, e2: u16|
                    {
                        &&& (if p.len() == b.capacity && !has_seq(p, e) {
                            nearest_ahead(p, e, e1)
                        } else {
                            e1 == e
                        })
                        &&& b2.expected == Some(e2)
                        &&& drained(p, e1, out, b2.pending@, e2)
                    }
            },
        },
    }
}

/// A frame of `p` other than the one at `i` is one of what remains after
/// swapping out position `i`, and the other way round.
proof fn lemma_swap_remove(p: Seq<MediaFrame>, i: int)
    requires
        0 <= i < p.len(),
        distinct_timed(p),
    ensures
        p.update(i, p.last()).drop_last().len() == p.len() - 1,
        distinct_timed(p.update(i, p.last()).drop_last()),
        forall|f: MediaFrame| #[trigger] p.update(i, p.last()).drop_last().contains(f) <==> (p.contains(f) && f != p[i]),
{
    let q = p.update(i, p.last()).drop_last();
    let n = p.len();
    // position k of q holds p[k], except position i which holds the last of p
    assert forall|k: int| 0 <= k < q.len() implies #[trigger] q[k] == (if k == i { p[n - 1] } else { p[k] }) by {}
    assert forall|a: int, b: int| 0 <= a < q.len() && 0 <= b < q.len() && a != b implies seq_of(#[trigger] q[a]) != seq_of(#[trigger] q[b]) by {
        let ia = if a == i { n - 1 } else { a };
        let ib = if b == i { n - 1 } else { b };
        assert(q[a] == p[ia] && q[b] == p[ib]);
        assert(ia != ib);
    }
    assert forall|k: int| 0 <= k < q.len() implies (#[trigger] q[k]).timing is Some by {
        let ik = if k == i { n - 1 } else { k };
        assert(q[k] == p[ik]);
    }
    assert forall|f: MediaFrame| #[trigger] q.contains(f) <==> (p.contains(f) && f != p[i]) by {
        if q.contains(f) {
            let k = choose|k: int| 0 <= k < q.len() && q[k] == f;
            let ik = if k == i { n - 1 } else { k };
            assert(p[ik] == f);
            assert(ik != i);
            if f == p[i] {
                assert(seq_of(p[ik]) == seq_of(p[i]));
            }
        }
        if p.contains(f) && f != p[i] {
            let k = choose|k: int| 0 <= k < p.len() && p[k] == f;
            if k == n - 1 {
                assert(q[i] == f);
            } else {
                assert(q[k] == f);
            }
        }
    }
}

/// What a sequence holds after a push.
proof fn lemma_push_contains(s: Seq<MediaFrame>, x: MediaFrame, y: MediaFrame)
    ensures
        s.push(x).contains(y) <==> (s.contains(y) || y == x),
{
    let t = s.push(x);
    if t.contains(y) {
        let i = choose|i: int| 0 <= i < t.len() && t[i] == y;
        if i < s.len() {
            assert(s[i] == y);
        }
    }
    if s.contains(y) {
        let i = choose|i: int| 0 <= i < s.len() && s[i] == y;
        assert(t[i] == y);
    }
    if y == x {
        assert(t[s.len() as int] == y);
    }
}

impl VoiceReorderBuffer {
    /// The buffer is sound: it has room, holds timed frames with distinct
    /// numbers and none with the expected number, and has an expected
    /// number once it holds any.
    pub open spec fn wf(&self) -> bool {
        &&& self.capacity > 0
        &&& self.pending@.len() < self.capacity
        &&& distinct_timed(self.pending@)
        &&& self.pending@.len() > 0 ==> self.expected is Some
        &&& match self.expected {
            Some(e) => !has_seq(self.pending@, e),
            None => true,
        }
    }

    /// An empty window of the given size.
    pub fn new(capacity: usize) -> (r: Self)
        requires
            capacity > 0,
        ensures
            r.wf(),
            r.expected is None,
            r.pending@.len() == 0,
            r.capacity == capacity,
    {
        VoiceReorderBuffer { expected: None, pending: Vec::new(), capacity }
    }

    /// The frame's timing, for a voice frame that has one.
    pub fn timing(frame: &MediaFrame) -> (r: Option<RtpTiming>)
        ensures
            r == frame.timing,
    {
        frame.timing
    }

    /// Whether a held frame has the sequence number.
    pub fn contains_sequence(&self, sequence: u16) -> (r: bool)
        ensures
            r == held_timed_seq(self.pending@, sequence),
            distinct_timed(self.pending@) ==> r == has_seq(self.pending@, sequence),
    {
        let mut i: usize = 0;
        while i < self.pending.len()
            invariant
                i <= self.pending@.len(),
                forall|j: int|
                    0 <= j < i ==> !((#[trigger] self.pending@[j]).timing is Some
                        && self.pending@[j].timing.unwrap().sequence == sequence),
            decreases self.pending@.len() - i,
        {
            match self.pending[i].timing {
                Some(t) => {
                    if t.sequence == sequence {
                        return true;
                    }
                },
                None => {},
            }
            i = i + 1;
        }
        false
    }

    fn position_of(&self, sequence: u16) -> (r: Option<usize>)
        requires
            distinct_timed(self.pending@),
        ensures
            match r {
                Some(i) => i < self.pending@.len() && seq_of(self.pending@[i as int]) == sequence,
                None => !has_seq(self.pending@, sequence),
            },
    {
        let mut i: usize = 0;
        while i < self.pending.len()
            invariant
                i <= self.pending@.len(),
                distinct_timed(self.pending@),
                forall|j: int| 0 <= j < i ==> seq_of(self.pending@[j]) != sequence,
            decreases self.pending@.len() - i,
        {
            match self.pending[i].timing {
                Some(t) => {
                    if t.sequence == sequence {
                        return Some(i);
                    }
                },
                None => {},
            }
            i = i + 1;
        }
        None
    }

    /// Passes on, in order, every held frame whose turn has come.
    fn drain_contiguous(&mut self) -> (r: Vec<MediaFrame>)
        requires
            distinct_timed(old(self).pending@),
            old(self).expected is Some,
        ensures
            drained(old(self).pending@, old(self).expected.unwrap(), r@, final(self).pending@, final(self).expected.unwrap()),
            final(self).expected is Some,
            distinct_timed(final(self).pending@),
            final(self).capacity == old(self).capacity,
    {
        let ghost p0 = self.pending@;
        let ghost e0 = self.expected.unwrap();
        let mut ready: Vec<MediaFrame> = Vec::new();
        loop
            invariant
                self.expected is Some,
                distinct_timed(self.pending@),
                self.capacity == old(self).capacity,
                p0 == old(self).pending@,
                e0 == old(self).expected.unwrap(),
                forall|j: int| 0 <= j < ready@.len() ==> p0.contains(#[trigger] ready@[j]) && seq_of(ready@[j]) == seq_plus(e0, j),
                self.pending@.len() + ready@.len() == p0.len(),
                forall|f: MediaFrame| self.pending@.contains(f) <==> (p0.contains(f) && !ready@.contains(f)),
                self.expected.unwrap() == seq_plus(e0, ready@.len() as int),
            ensures
                !has_seq(self.pending@, self.expected.unwrap()),
                self.expected is Some,
                distinct_timed(self.pending@),
                self.capacity == old(self).capacity,
                forall|j: int| 0 <= j < ready@.len() ==> p0.contains(#[trigger] ready@[j]) && seq_of(ready@[j]) == seq_plus(e0, j),
                self.pending@.len() + ready@.len() == p0.len(),
                forall|f: MediaFrame| self.pending@.contains(f) <==> (p0.contains(f) && !ready@.contains(f)),
                self.expected.unwrap() == seq_plus(e0, ready@.len() as int),
            decreases self.pending@.len(),
        {
            let e = match self.expected {
                Some(e) => e,
                None => {
                    break;
                },
            };
            let idx = match self.position_of(e) {
                Some(i) => i,
                None => {
                    break;
                },
            };
            let ghost before = self.pending@;
            let ghost rb = ready@;
            proof {
                lemma_swap_remove(before, idx as int);
                assert(before.contains(before[idx as int]));
            }
            let x = self.pending.swap_remove(idx);
            ready.push(x);
            self.expected = Some(e.wrapping_add(1));
            proof {
                assert(self.pending@ == before.update(idx as int, before.last()).drop_last());
                assert forall|f: MediaFrame| self.pending@.contains(f) <==> (p0.contains(f) && !ready@.contains(f)) by {
                    lemma_push_contains(rb, x, f);
                }
                assert(p0.contains(x));
                assert(ready@[rb.len() as int] == x);
                assert(seq_plus(e0, rb.len() as int + 1) == seq_plus(e, 1)) by {
                    assert(e == seq_plus(e0, rb.len() as int));
                }
            }
        }
        proof {
            assert(forall|j: int| 0 <= j < ready@.len() ==> p0.contains(#[trigger] ready@[j]) && seq_of(ready@[j]) == seq_plus(e0, j));
        }
        ready
    }

    /// Takes one frame and returns every frame now safe to pass on. Old
    /// and duplicate voice frames are dropped, and a gap that persists is
    /// given up once the window is full, so memory and delay stay bounded.
    pub fn push(&mut self, frame: MediaFrame) -> (r: Vec<MediaFrame>)
        requires
            old(self).wf(),
        ensures
            final(self).wf(),
            pushed(*old(self), frame, *final(self), r@),
    {
        let t = match frame.timing {
            Some(t) => t,
            None => {
                let r = vec![frame];
                assert(r@ =~= seq![frame]);
                return r;
            },
        };
        let e = match self.expected {
            Some(e) => e,
            None => {
                self.expected = Some(t.sequence.wrapping_add(1));
                let r = vec![frame];
                assert(r@ =~= seq![frame]);
                return r;
            },
        };
        let distance = t.sequence.wrapping_sub(e);
        assert(distance == seq_ahead(t.sequence, e));
        if distance >= 0x8000 {
            return Vec::new();
        }
        if self.contains_sequence(t.sequence) {
            return Vec::new();
        }
        let ghost b0 = *self;
        let ghost p = self.pending@.push(frame);
        let mut held = Vec::new();
        std::mem::swap(&mut held, &mut self.pending);
        held.push(frame);
        proof {
            assert(held@ == p);
            assert forall|i: int, j: int| 0 <= i < p.len() && 0 <= j < p.len() && i != j implies seq_of(#[trigger] p[i]) != seq_of(#[trigger] p[j]) by {
                if i == p.len() - 1 {
                    assert(p[j] == b0.pending@[j]);
                    assert(!has_seq(b0.pending@, t.sequence));
                } else if j == p.len() - 1 {
                    assert(p[i] == b0.pending@[i]);
                    assert(!has_seq(b0.pending@, t.sequence));
                } else {
                    assert(p[i] == b0.pending@[i] && p[j] == b0.pending@[j]);
                }
            }
            assert forall|i: int| 0 <= i < p.len() implies (#[trigger] p[i]).timing is Some by {
                if i < p.len() - 1 {
                    assert(p[i] == b0.pending@[i]);
                }
            }
        }
        let mut e1 = e;
        let mut gap = VoiceReorderBuffer { expected: Some(e), pending: held, capacity: self.capacity };
        if gap.pending.len() == gap.capacity && !gap.contains_sequence(e) {
            let mut best: u16 = match gap.pending[0].timing {
                Some(t0) => t0.sequence,
                None => 0,
            };
            let mut k: usize = 1;
            while k < gap.pending.len()
                invariant
                    1 <= k <= gap.pending@.len(),
                    gap.pending@ == p,
                    distinct_timed(p),
                    has_seq(p, best),
                    forall|i: int| 0 <= i < k ==> seq_ahead(best, e) <= seq_ahead(#[trigger] seq_of(p[i]), e),
                decreases gap.pending@.len() - k,
            {
                let s = match gap.pending[k].timing {
                    Some(tk) => tk.sequence,
                    None => best,
                };
                assert(s == seq_of(p[k as int]));
                if s.wrapping_sub(e) < best.wrapping_sub(e) {
                    best = s;
                }
                k = k + 1;
            }
            e1 = best;
            gap.expected = Some(best);
        }
        let ghost g0 = gap;
        let out = gap.drain_contiguous();
        proof {
            assert(g0.pending@ == p);
            assert(g0.expected == Some(e1));
            if p.len() == b0.capacity && !has_seq(p, e) {
                assert(nearest_ahead(p, e, e1));
            }
            // the run is not empty when the window was full, so room is made
            if p.len() == b0.capacity {
                let w = choose|i: int| 0 <= i < p.len() && seq_of(#[trigger] p[i]) == e1;
                if out@.len() == 0 {
                    assert(gap.pending@.contains(p[w])) by {
                        assert(p.contains(p[w]));
                    }
                    let v = choose|i: int| 0 <= i < gap.pending@.len() && gap.pending@[i] == p[w];
                    assert(seq_of(gap.pending@[v]) == e1);
                    assert(seq_plus(e1, 0) == e1);
                }
            }
            let e2 = gap.expected.unwrap();
            assert(drained(p, e1, out@, gap.pending@, e2));
        }
        self.expected = gap.expected;
        self.pending = gap.pending;
        out
    }
}

} // verus!
