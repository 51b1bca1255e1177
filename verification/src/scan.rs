//! Driving one scan: which points reach the target artifact, which are
//! skipped, and whether the scan emits a station point.
//!
//! The caller owns the read cursor and the target writer; this module
//! owns every decision.  For each record the caller offers the point,
//! receives the transformed record to write (or nothing, for a record
//! flagged invalid at the container level), and reports whether the
//! write succeeded.  The converter accounts for every offered point and
//! remembers, in ghost state, exactly the points that were written: the
//! centroid of a scan is owed to precisely those.

use vstd::prelude::*;
use crate::point::SourcePoint;
use crate::point::TargetPoint;
use crate::point::spec_convert;
use crate::point::convert_point;

verus! {

/// Per-scan conversion state: how many records were offered, skipped as
/// container-invalid, written, and how many writes failed, together with
/// the (ghost) sequence of written positions and the position offered
/// but not yet resolved.
pub struct ScanConverter {
    pub seen: u64,
    pub skipped: u64,
    pub written: u64,
    pub failed: u64,
    pub written_points: Ghost<Seq<(u64, u64, u64)>>,
    pub pending: Ghost<Option<(u64, u64, u64)>>,
}

impl ScanConverter {
    /// The counts account for every offered record, and the written
    /// count is the length of the written history.
    pub open spec fn wf(self) -> bool {
        &&& self.written == self.written_points@.len()
        &&& self.seen == self.skipped + self.written + self.failed + (
            if self.pending@ is Some {
                1int
            } else {
                0int
            })
    }

    pub fn new() -> (r: ScanConverter)
        ensures
            r.wf(),
            r.seen == 0,
            r.skipped == 0,
            r.written == 0,
            r.failed == 0,
            r.written_points@ == Seq::<(u64, u64, u64)>::empty(),
            r.pending@ is None,
    {
        ScanConverter {
            seen: 0,
            skipped: 0,
            written: 0,
            failed: 0,
            written_points: Ghost(Seq::empty()),
            pending: Ghost(None),
        }
    }

    /// Offer one record.  A record flagged invalid at the container
    /// level is skipped before it reaches the transformer; every other
    /// record is transformed and handed back for writing, and stays
    /// pending until the write is resolved.
    pub fn offer(&mut self, p: &SourcePoint) -> (r: Option<TargetPoint>)
        requires
            old(self).wf(),
            old(self).pending@ is None,
            old(self).seen < u64::MAX,
        ensures
            final(self).wf(),
            final(self).seen == old(self).seen + 1,
            r is Some <==> p.cartesian_valid,
            final(self).written == old(self).written,
            final(self).failed == old(self).failed,
            final(self).written_points@ == old(self).written_points@,
            p.cartesian_valid ==> {
                &&& r == Some(spec_convert(*p))
                &&& final(self).pending@ == Some((p.x, p.y, p.z))
                &&& final(self).skipped == old(self).skipped
            },
            !p.cartesian_valid ==> {
                &&& final(self).pending@ is None
                &&& final(self).skipped == old(self).skipped + 1
            },
    {
        self.seen = self.seen + 1;
        if p.cartesian_valid {
            self.pending = Ghost(Some((p.x, p.y, p.z)));
            Some(convert_point(p))
        } else {
            self.skipped = self.skipped + 1;
            None
        }
    }

    /// Resolve the pending record: the write succeeded or failed.  A
    /// failed write skips the point and the scan goes on; only a written
    /// point enters the history the centroid is owed to.
    pub fn resolve(&mut self, wrote: bool)
        requires
            old(self).wf(),
            old(self).pending@ is Some,
        ensures
            final(self).wf(),
            final(self).pending@ is None,
            final(self).seen == old(self).seen,
            final(self).skipped == old(self).skipped,
            wrote ==> {
                &&& final(self).written == old(self).written + 1
                &&& final(self).failed == old(self).failed
                &&& final(self).written_points@ == old(self).written_points@.push(
                    old(self).pending@->Some_0)
            },
            !wrote ==> {
                &&& final(self).written == old(self).written
                &&& final(self).failed == old(self).failed + 1
                &&& final(self).written_points@ == old(self).written_points@
            },
    {
        if wrote {
            self.written = self.written + 1;
            self.written_points = Ghost(self.written_points@.push(self.pending@->Some_0));
        } else {
            self.failed = self.failed + 1;
        }
        self.pending = Ghost(None);
    }

    /// Whether the finished scan emits a station point: only a scan with
    /// at least one written point does; a scan with none contributes
    /// nothing, rather than a division of zero by zero.
    pub fn emits_station(&self) -> (r: bool)
        ensures
            r == (self.written > 0),
    {
        self.written > 0
    }
}

/// Law: a finished scan accounts for every record it was offered: the
/// written count is the offered count less the container-invalid records
/// and less the failed writes, and it equals the length of the written
/// history.
pub proof fn lemma_point_accounting(c: ScanConverter)
    requires
        c.wf(),
        c.pending@ is None,
    ensures
        c.written == c.seen - c.skipped - c.failed,
        c.written == c.written_points@.len(),
{
}

/// Decimal digits of `n`, most significant first.
pub open spec fn spec_decimal(n: nat) -> Seq<u8>
    decreases n,
{
    if n < 10 {
        seq![(48 + n) as u8]
    } else {
        spec_decimal(n / 10).push((48 + n % 10) as u8)
    }
}

/// The file name a scan's output artifact gets, from the scan's sequence
/// index: the index in decimal followed by `.las`.  Distinct indices give
/// distinct names, so sibling scans of one run never collide.
pub open spec fn spec_las_name(n: nat) -> Seq<u8> {
    spec_decimal(n) + seq![46u8, 108u8, 97u8, 115u8]
}

/// A decimal rendering has at least one digit.
proof fn lemma_decimal_len(n: nat)
    ensures
        spec_decimal(n).len() >= 1,
    decreases n,
{
    if n >= 10 {
        lemma_decimal_len(n / 10);
    }
}

/// Decimal renderings are one-to-one: equal digit strings come from
/// equal numbers.
proof fn lemma_decimal_injective(m: nat, n: nat)
    requires
        spec_decimal(m) == spec_decimal(n),
    ensures
        m == n,
    decreases m,
{
    lemma_decimal_len(m / 10);
    lemma_decimal_len(n / 10);
    if m < 10 && n < 10 {
        assert(spec_decimal(m) == seq![(48 + m) as u8]);
        assert(spec_decimal(n) == seq![(48 + n) as u8]);
        assert(seq![(48 + m) as u8][0] == seq![(48 + n) as u8][0]);
    } else if m < 10 {
        assert(spec_decimal(m).len() == 1);
        assert(spec_decimal(n).len() == spec_decimal(n / 10).len() + 1);
    } else if n < 10 {
        assert(spec_decimal(n).len() == 1);
        assert(spec_decimal(m).len() == spec_decimal(m / 10).len() + 1);
    } else {
        let p1 = spec_decimal(m / 10);
        let p2 = spec_decimal(n / 10);
        let d1 = (48 + m % 10) as u8;
        let d2 = (48 + n % 10) as u8;
        assert(spec_decimal(m) == p1.push(d1));
        assert(spec_decimal(n) == p2.push(d2));
        assert(p1.push(d1).len() == p1.len() + 1);
        assert(p1.len() == p2.len());
        assert(p1.push(d1)[p1.len() as int] == d1);
        assert(p2.push(d2)[p2.len() as int] == d2);
        assert(d1 == d2);
        assert(m % 10 == n % 10);
        assert(p1 =~= p2) by {
            assert(forall|idx: int|
                0 <= idx < p1.len() ==> #[trigger] p1[idx] == p1.push(d1)[idx] && p2[idx]
                    == p2.push(d2)[idx]);
        }
        lemma_decimal_injective(m / 10, n / 10);
    }
}

/// Law: output names never collide: distinct scan indices give distinct
/// artifact file names, so sibling scans of one run cannot overwrite one
/// another.
pub proof fn lemma_las_names_distinct(i: nat, j: nat)
    requires
        i != j,
    ensures
        spec_las_name(i) != spec_las_name(j),
{
    if spec_las_name(i) == spec_las_name(j) {
        let a = spec_decimal(i);
        let b = spec_decimal(j);
        let suffix = seq![46u8, 108u8, 97u8, 115u8];
        assert(suffix.len() == 4);
        assert((a + suffix).len() == a.len() + 4);
        assert((b + suffix).len() == b.len() + 4);
        assert(a.len() == b.len());
        assert(a =~= b) by {
            assert(forall|idx: int|
                0 <= idx < a.len() ==> #[trigger] a[idx] == (a + suffix)[idx] && b[idx] == (b
                    + suffix)[idx]);
        }
        lemma_decimal_injective(i, j);
    }
}

/// Decimal digits of `n`, most significant first.
pub fn decimal_digits(n: usize) -> (r: Vec<u8>)
    ensures
        r@ == spec_decimal(n as nat),
{
    if n == 0 {
        let mut v: Vec<u8> = Vec::new();
        v.push(48);
        proof {
            assert(v@ =~= spec_decimal(0));
        }
        return v;
    }
    let mut digits: Vec<u8> = Vec::new();
    let mut m: usize = n;
    while m > 0
        invariant
            m > 0 ==> spec_decimal(n as nat) == spec_decimal(m as nat) + digits@,
            m == 0 ==> spec_decimal(n as nat) == digits@,
        decreases m,
    {
        let d: u8 = 48 + (m % 10) as u8;
        let ghost prev = digits@;
        digits.insert(0, d);
        proof {
            let mn = m as nat;
            assert(digits@ =~= seq![d] + prev);
            if mn >= 10 {
                assert(spec_decimal(mn) == spec_decimal(mn / 10).push((48 + mn % 10) as u8));
                assert(spec_decimal(mn / 10) + digits@ =~= spec_decimal(mn) + prev);
            } else {
                assert(digits@ =~= spec_decimal(mn) + prev);
            }
        }
        m = m / 10;
    }
    digits
}

/// The output artifact's file name for the scan at `index`.
pub fn las_file_name(index: usize) -> (r: Vec<u8>)
    ensures
        r@ == spec_las_name(index as nat),
{
    let mut v = decimal_digits(index);
    v.push(46);
    v.push(108);
    v.push(97);
    v.push(115);
    proof {
        assert(v@ =~= spec_las_name(index as nat));
    }
    v
}

} // verus!
