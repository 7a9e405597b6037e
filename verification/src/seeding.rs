//! Start-up of the particle store.
//!
//! Particles are created once, blob by blob: every blob is a centre in the
//! unit square, a number of particles and the tag they all carry. This module
//! checks a list of blobs and says which blob each particle of the store
//! belongs to. Where exactly a particle lands around its centre is drawn at
//! random by the caller.

use crate::single::{at_most, less_eq, ONE, ZERO};
use vstd::prelude::*;

verus! {

/// A batch of particles scattered around one point.
#[derive(Clone, Copy, Debug, PartialEq, Eq, Structural)]
pub struct Blob {
    /// Bit pattern of the single-precision x-coordinate of the centre.
    pub center_x: u32,
    /// Bit pattern of the single-precision y-coordinate of the centre.
    pub center_y: u32,
    /// Number of particles.
    pub count: usize,
    /// Tag carried by every particle of the blob; the simulation never reads
    /// it.
    pub tag: u32,
}

/// Why a list of blobs cannot seed a particle store.
#[derive(Clone, Copy, Debug, PartialEq, Eq, Structural)]
pub enum SeedError {
    /// The list is empty.
    NoBlobs,
    /// A blob has no particles.
    EmptyBlob,
    /// The centre of a blob lies outside the unit square, or is not a number.
    CenterOutOfDomain,
    /// The particles of all blobs together cannot be counted in a `usize`.
    TooManyParticles,
}

/// Whether a coordinate lies in the closed interval from zero to one.
pub open spec fn in_domain(coordinate: u32) -> bool {
    at_most(ZERO, coordinate) && at_most(coordinate, ONE)
}

/// What is wrong with a single blob, if anything. An empty blob is reported
/// as such whatever its centre.
pub open spec fn blob_defect(blob: Blob) -> Option<SeedError> {
    if blob.count == 0 {
        Some(SeedError::EmptyBlob)
    } else if !in_domain(blob.center_x) || !in_domain(blob.center_y) {
        Some(SeedError::CenterOutOfDomain)
    } else {
        None
    }
}

/// The defect of the first defective blob of the list, if there is one.
pub open spec fn first_defect(blobs: Seq<Blob>) -> Option<SeedError>
    decreases blobs.len(),
{
    if blobs.len() == 0 {
        None
    } else {
        match first_defect(blobs.drop_last()) {
            Some(e) => Some(e),
            None => blob_defect(blobs.last()),
        }
    }
}

/// Number of particles of all blobs together.
pub open spec fn total_count(blobs: Seq<Blob>) -> nat
    decreases blobs.len(),
{
    if blobs.len() == 0 {
        0
    } else {
        total_count(blobs.drop_last()) + blobs.last().count as nat
    }
}

/// For every particle of the store, in order, the position in the list of
/// the blob it belongs to: the particles of the first blob come first, then
/// those of the second, and so on.
pub open spec fn owners_of(blobs: Seq<Blob>) -> Seq<usize>
    decreases blobs.len(),
{
    if blobs.len() == 0 {
        Seq::empty()
    } else {
        owners_of(blobs.drop_last()) + Seq::new(
            blobs.last().count as nat,
            |k: int| (blobs.len() - 1) as usize,
        )
    }
}

/// Why the list cannot seed a store, if it cannot. An empty list comes
/// first, then the first defective blob, then the total.
pub open spec fn seed_error(blobs: Seq<Blob>) -> Option<SeedError> {
    if blobs.len() == 0 {
        Some(SeedError::NoBlobs)
    } else if first_defect(blobs) is Some {
        first_defect(blobs)
    } else if total_count(blobs) > usize::MAX {
        Some(SeedError::TooManyParticles)
    } else {
        None
    }
}

/// Checks a single blob.
pub fn check_blob(blob: &Blob) -> (r: Result<(), SeedError>)
    ensures
        r == match blob_defect(*blob) {
            Some(e) => Err::<(), SeedError>(e),
            None => Ok(()),
        },
{
    if blob.count == 0 {
        Err(SeedError::EmptyBlob)
    } else if !(less_eq(ZERO, blob.center_x) && less_eq(blob.center_x, ONE)) || !(less_eq(
        ZERO,
        blob.center_y,
    ) && less_eq(blob.center_y, ONE)) {
        Err(SeedError::CenterOutOfDomain)
    } else {
        Ok(())
    }
}

/// Checks a list of blobs and lays out the particle store: the result says,
/// for every particle in store order, which blob it belongs to.
pub fn assign(blobs: &Vec<Blob>) -> (r: Result<Vec<usize>, SeedError>)
    ensures
        match r {
            Ok(owners) => seed_error(blobs@) is None && owners@ == owners_of(blobs@)
                && owners@.len() == total_count(blobs@),
            Err(e) => seed_error(blobs@) == Some(e),
        },
{
    if blobs.len() == 0 {
        return Err(SeedError::NoBlobs);
    }
    let mut i: usize = 0;
    while i < blobs.len()
        invariant
            i <= blobs.len(),
            first_defect(blobs@.take(i as int)) is None,
        decreases blobs.len() - i,
    {
        proof {
            assert(blobs@.take(i + 1).drop_last() =~= blobs@.take(i as int));
        }
        match check_blob(&blobs[i]) {
            Err(e) => {
                proof {
                    lemma_first_defect_stays(blobs@, i + 1);
                }
                return Err(e);
            },
            Ok(()) => {},
        }
        i += 1;
    }
    assert(blobs@.take(i as int) =~= blobs@);
    let mut total: usize = 0;
    let mut b: usize = 0;
    while b < blobs.len()
        invariant
            b <= blobs.len(),
            blobs@.len() > 0,
            first_defect(blobs@) is None,
            total == total_count(blobs@.take(b as int)),
        decreases blobs.len() - b,
    {
        proof {
            assert(blobs@.take(b + 1).drop_last() =~= blobs@.take(b as int));
            lemma_total_count_grows(blobs@, b + 1);
        }
        match total.checked_add(blobs[b].count) {
            None => {
                return Err(SeedError::TooManyParticles);
            },
            Some(sum) => {
                total = sum;
            },
        }
        b += 1;
    }
    assert(blobs@.take(b as int) =~= blobs@);
    let mut owners: Vec<usize> = Vec::new();
    b = 0;
    while b < blobs.len()
        invariant
            b <= blobs.len(),
            blobs@.len() > 0,
            first_defect(blobs@) is None,
            total_count(blobs@) <= usize::MAX,
            owners@ == owners_of(blobs@.take(b as int)),
            owners@.len() == total_count(blobs@.take(b as int)),
        decreases blobs.len() - b,
    {
        proof {
            assert(blobs@.take(b + 1).drop_last() =~= blobs@.take(b as int));
            lemma_total_count_grows(blobs@, b + 1);
        }
        let count = blobs[b].count;
        let ghost before = owners@;
        let mut k: usize = 0;
        while k < count
            invariant
                k <= count,
                owners@ == before + Seq::new(k as nat, |n: int| b),
            decreases count - k,
        {
            owners.push(b);
            k += 1;
            assert(owners@ =~= before + Seq::new(k as nat, |n: int| b));
        }
        assert(owners@ =~= owners_of(blobs@.take(b + 1))) by {
            assert(Seq::new(count as nat, |n: int| b) =~= Seq::new(
                blobs@.take(b + 1).last().count as nat,
                |n: int| (blobs@.take(b + 1).len() - 1) as usize,
            ));
        }
        b += 1;
    }
    assert(blobs@.take(b as int) =~= blobs@);
    Ok(owners)
}

/// A defect found among the first `n` blobs is the defect of the whole list.
proof fn lemma_first_defect_stays(blobs: Seq<Blob>, n: int)
    requires
        0 <= n <= blobs.len(),
        first_defect(blobs.take(n)) is Some,
    ensures
        first_defect(blobs) == first_defect(blobs.take(n)),
    decreases blobs.len() - n,
{
    if n < blobs.len() {
        assert(blobs.take(n + 1).drop_last() =~= blobs.take(n));
        lemma_first_defect_stays(blobs, n + 1);
    } else {
        assert(blobs.take(n) =~= blobs);
    }
}

/// The first `n` blobs hold no more particles than the whole list.
proof fn lemma_total_count_grows(blobs: Seq<Blob>, n: int)
    requires
        0 <= n <= blobs.len(),
    ensures
        total_count(blobs.take(n)) <= total_count(blobs),
    decreases blobs.len() - n,
{
    if n < blobs.len() {
        assert(blobs.take(n + 1).drop_last() =~= blobs.take(n));
        lemma_total_count_grows(blobs, n + 1);
    } else {
        assert(blobs.take(n) =~= blobs);
    }
}

} // verus!
