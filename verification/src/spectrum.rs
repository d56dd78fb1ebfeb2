use vstd::prelude::*;

verus! {

/// Number of bins in the spectrum snapshot.
pub const SPECTRUM_LEN: usize = 1024;

/// Calibration offset subtracted from each raw magnitude byte; it recenters
/// the unsigned byte data around zero and must be kept exactly for
/// compatibility with the sender.
pub const SPECTRUM_OFFSET: i32 = 160;

/// The latest frequency-spectrum sample: a fixed-length sequence of signed
/// magnitudes, overwritten element-wise by each spectrum message and read
/// by the renderer.
#[derive(Clone, Debug)]
pub struct Spectrum {
    bins: Vec<i32>,
}

impl View for Spectrum {
    type V = Seq<i32>;

    closed spec fn view(&self) -> Seq<i32> {
        self.bins@
    }
}

impl Spectrum {
    pub open spec fn wf(&self) -> bool {
        self@.len() == SPECTRUM_LEN
    }

    /// A snapshot with every bin at zero.
    pub fn new() -> (r: Spectrum)
        ensures
            r.wf(),
            forall|i: int| 0 <= i < SPECTRUM_LEN ==> r@[i] == 0,
    {
        let mut bins: Vec<i32> = Vec::new();
        let mut n: usize = 0;
        while n < SPECTRUM_LEN
            invariant
                n <= SPECTRUM_LEN,
                bins@.len() == n,
                forall|i: int| 0 <= i < n ==> bins@[i] == 0,
            decreases SPECTRUM_LEN - n,
        {
            bins.push(0);
            n = n + 1;
        }
        Spectrum { bins }
    }

    pub fn len(&self) -> (r: usize)
        ensures
            r == self@.len(),
    {
        self.bins.len()
    }

    pub fn get(&self, i: usize) -> (r: i32)
        requires
            i < self@.len(),
        ensures
            r == self@[i as int],
    {
        self.bins[i]
    }

    /// Overwrites the first `min(blob.len(), SPECTRUM_LEN)` bins with
    /// `byte - SPECTRUM_OFFSET` for each raw byte; every remaining bin
    /// keeps its previous value.
    pub fn apply_blob(&mut self, blob: &Vec<u8>)
        requires
            old(self).wf(),
        ensures
            final(self).wf(),
            forall|i: int|
                0 <= i < blob@.len() && i < SPECTRUM_LEN
                    ==> final(self)@[i] == blob@[i] - SPECTRUM_OFFSET,
            forall|i: int|
                blob@.len() <= i < SPECTRUM_LEN ==> final(self)@[i] == old(self)@[i],
    {
        let count: usize = if blob.len() < SPECTRUM_LEN {
            blob.len()
        } else {
            SPECTRUM_LEN
        };
        let mut n: usize = 0;
        while n < count
            invariant
                n <= count,
                count <= blob@.len(),
                count <= SPECTRUM_LEN,
                self.bins@.len() == SPECTRUM_LEN,
                forall|i: int| 0 <= i < n ==> self.bins@[i] == blob@[i] - SPECTRUM_OFFSET,
                forall|i: int| n <= i < SPECTRUM_LEN ==> self.bins@[i] == old(self)@[i],
            decreases count - n,
        {
            let v: i32 = blob[n] as i32 - SPECTRUM_OFFSET;
            self.bins.set(n, v);
            n = n + 1;
        }
    }
}

} // verus!
