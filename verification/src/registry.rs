//! The append-only registry of admitted numbers.

use vstd::prelude::*;
use crate::primes::{is_prime, is_prime_spec};
use crate::view::{screen_x_spec, screen_y_spec, to_screen, visible_spec, Center};

verus! {

/// One admitted number: its value, its primality, and the screen position
/// and visibility computed most recently from the zoom coefficient.
#[derive(Clone, Copy, PartialEq, Eq, Structural, Debug)]
pub struct NumberRecord {
    pub value: u32,
    pub prime: bool,
    pub screen_x: i64,
    pub screen_y: i64,
    pub visible: bool,
}

/// A record's primality flag agrees with its value.
pub open spec fn record_wf(rec: NumberRecord) -> bool {
    rec.prime == is_prime_spec(rec.value as nat)
}

/// The record created when `value` is admitted at scaled offsets
/// `(ox, oy)`: admission happens only at a visible position.
pub open spec fn admitted_record(value: u32, center: Center, ox: int, oy: int) -> NumberRecord {
    NumberRecord {
        value,
        prime: is_prime_spec(value as nat),
        screen_x: screen_x_spec(center, ox) as i64,
        screen_y: screen_y_spec(center, oy) as i64,
        visible: true,
    }
}

/// `rec` with its screen position and visibility recomputed at scaled
/// offsets `(ox, oy)`; value and primality are untouched.
pub open spec fn refreshed_record(rec: NumberRecord, center: Center, ox: int, oy: int) -> NumberRecord {
    NumberRecord {
        value: rec.value,
        prime: rec.prime,
        screen_x: screen_x_spec(center, ox) as i64,
        screen_y: screen_y_spec(center, oy) as i64,
        visible: visible_spec(center, ox, oy),
    }
}

/// The registry contents after one admission attempt: a push of the new
/// record exactly when the projected point is visible, the unchanged
/// sequence otherwise.
pub open spec fn admit_outcome(
    s: Seq<NumberRecord>,
    value: u32,
    center: Center,
    ox: int,
    oy: int,
) -> Seq<NumberRecord> {
    if visible_spec(center, ox, oy) {
        s.push(admitted_record(value, center, ox, oy))
    } else {
        s
    }
}

/// `n` admission attempts of `value` at the same offsets, applied to the
/// stored sequence in turn.
pub open spec fn repeat_admit(
    s: Seq<NumberRecord>,
    value: u32,
    center: Center,
    ox: int,
    oy: int,
    n: nat,
) -> Seq<NumberRecord>
    decreases n,
{
    if n == 0 {
        s
    } else {
        admit_outcome(repeat_admit(s, value, center, ox, oy, (n - 1) as nat), value, center, ox, oy)
    }
}

/// An offscreen candidate never mutates the registry: however often the
/// same out-of-range value is retried, the stored sequence stays exactly
/// as it was.
pub proof fn lemma_offscreen_retry_never_grows(
    s: Seq<NumberRecord>,
    value: u32,
    center: Center,
    ox: int,
    oy: int,
    n: nat,
)
    requires
        !visible_spec(center, ox, oy),
    ensures
        repeat_admit(s, value, center, ox, oy, n) == s,
    decreases n,
{
    if n > 0 {
        lemma_offscreen_retry_never_grows(s, value, center, ox, oy, (n - 1) as nat);
    }
}

/// Whether a record is drawn: it must be on screen, and when the
/// prime-only filter is active it must also be prime.
pub open spec fn drawn(rec: NumberRecord, prime_only: bool) -> bool {
    rec.visible && (prime_only ==> rec.prime)
}

/// The draw list of a stored sequence: screen position and primality of
/// every drawn record, in insertion order.
pub open spec fn draw_list(s: Seq<NumberRecord>, prime_only: bool) -> Seq<(i64, i64, bool)>
    decreases s.len(),
{
    if s.len() == 0 {
        Seq::empty()
    } else {
        let rest = draw_list(s.drop_last(), prime_only);
        if drawn(s.last(), prime_only) {
            rest.push((s.last().screen_x, s.last().screen_y, s.last().prime))
        } else {
            rest
        }
    }
}

/// The ordered, append-only collection of admitted numbers. Records are
/// never evicted: one that scrolls off screen stays stored and may become
/// visible again when the coefficient shrinks.
pub struct NumberRegistry {
    records: Vec<NumberRecord>,
}

impl View for NumberRegistry {
    type V = Seq<NumberRecord>;

    closed spec fn view(&self) -> Seq<NumberRecord> {
        self.records@
    }
}

impl NumberRegistry {
    /// Every stored record's primality flag agrees with its value.
    pub open spec fn wf(self) -> bool {
        forall|i: int| 0 <= i < self@.len() ==> record_wf(#[trigger] self@[i])
    }

    /// An empty registry.
    pub fn new() -> (r: NumberRegistry)
        ensures
            r.wf(),
            r@ == Seq::<NumberRecord>::empty(),
    {
        NumberRegistry { records: Vec::new() }
    }

    /// How many numbers have been admitted so far.
    pub fn len(&self) -> (n: usize)
        ensures
            n == self@.len(),
    {
        self.records.len()
    }

    /// The value of the record at insertion position `i`.
    pub fn value_at(&self, i: usize) -> (v: u32)
        requires
            i < self@.len(),
        ensures
            v == self@[i as int].value,
    {
        self.records[i].value
    }

    /// A copy of the record at insertion position `i`.
    pub fn record_at(&self, i: usize) -> (rec: NumberRecord)
        requires
            i < self@.len(),
        ensures
            rec == self@[i as int],
    {
        self.records[i]
    }

    /// Admits `value` at scaled offsets `(ox, oy)` when its screen position
    /// is visible, classifying it by primality; an offscreen candidate is
    /// rejected and the registry is left exactly as it was.
    pub fn try_admit(&mut self, value: u32, ox: i32, oy: i32, center: Center) -> (admitted: bool)
        requires
            old(self).wf(),
        ensures
            final(self).wf(),
            admitted == visible_spec(center, ox as int, oy as int),
            final(self)@ == admit_outcome(old(self)@, value, center, ox as int, oy as int),
    {
        let (sx, sy, visible) = to_screen(center, ox, oy);
        if !visible {
            return false;
        }
        let prime = is_prime(value);
        let rec = NumberRecord { value, prime, screen_x: sx, screen_y: sy, visible: true };
        self.records.push(rec);
        proof {
            assert(rec == admitted_record(value, center, ox as int, oy as int));
            assert forall|i: int| 0 <= i < self@.len() implies record_wf(#[trigger] self@[i]) by {
                if i < self@.len() - 1 {
                    assert(self@[i] == old(self)@[i]);
                }
            }
        }
        true
    }

    /// Recomputes the screen position and visibility of the record at
    /// position `i` from the current scaled offsets; its value and
    /// primality never change.
    pub fn update_screen(&mut self, i: usize, ox: i32, oy: i32, center: Center) -> (vis: bool)
        requires
            old(self).wf(),
            i < old(self)@.len(),
        ensures
            final(self).wf(),
            vis == visible_spec(center, ox as int, oy as int),
            final(self)@ == old(self)@.update(
                i as int,
                refreshed_record(old(self)@[i as int], center, ox as int, oy as int),
            ),
    {
        let (sx, sy, vis) = to_screen(center, ox, oy);
        let mut rec = self.records[i];
        rec.screen_x = sx;
        rec.screen_y = sy;
        rec.visible = vis;
        self.records.set(i, rec);
        proof {
            assert(rec == refreshed_record(old(self)@[i as int], center, ox as int, oy as int));
            assert forall|j: int| 0 <= j < self@.len() implies record_wf(#[trigger] self@[j]) by {
                if j != i {
                    assert(self@[j] == old(self)@[j]);
                }
            }
        }
        vis
    }

    /// The draw list at the stored screen positions: position and primality
    /// of every visible record, in insertion order, with non-prime records
    /// additionally excluded when the prime-only filter is active.
    pub fn visible_points(&self, prime_only: bool) -> (out: Vec<(i64, i64, bool)>)
        ensures
            out@ == draw_list(self@, prime_only),
    {
        let mut out: Vec<(i64, i64, bool)> = Vec::new();
        let n = self.records.len();
        let mut i: usize = 0;
        while i < n
            invariant
                n == self@.len(),
                i <= n,
                out@ == draw_list(self@.subrange(0, i as int), prime_only),
            decreases n - i,
        {
            let rec = self.records[i];
            if rec.visible && (!prime_only || rec.prime) {
                out.push((rec.screen_x, rec.screen_y, rec.prime));
            }
            proof {
                let pre = self@.subrange(0, i as int);
                let post = self@.subrange(0, i as int + 1);
                assert(post.drop_last() =~= pre);
                assert(post.last() == self@[i as int]);
            }
            i += 1;
        }
        proof {
            assert(self@.subrange(0, n as int) =~= self@);
        }
        out
    }
}

} // verus!
