//! Framing of the captured sample stream into analysis windows.
use vstd::prelude::*;

verus! {

/// Collects captured samples and cuts analysis frames of `fft_size`
/// samples out of them. Once a frame is cut, only the newest half frame of
/// samples is kept, so consecutive frames overlap by half a frame when the
/// samples arrive in small batches.
pub struct SampleAccumulator<T> {
    fft_size: usize,
    accum: Vec<T>,
}

/// Result of adding `incoming` to the held samples `held` with frames of
/// `f` samples: the frame cut, if the samples reach a full frame, and the
/// samples held afterwards (the newest `f / 2` of them after a cut).
pub open spec fn spec_accumulate<T>(held: Seq<T>, incoming: Seq<T>, f: nat) -> (Option<Seq<T>>, Seq<T>) {
    let all = held + incoming;
    if all.len() >= f {
        (Some(all.subrange(0, f as int)), all.subrange(all.len() - f / 2, all.len() as int))
    } else {
        (None, all)
    }
}

impl<T: Copy> SampleAccumulator<T> {
    /// Frame length in samples.
    pub closed spec fn spec_fft_size(&self) -> nat {
        self.fft_size as nat
    }

    /// Samples held for the next frame.
    pub closed spec fn held(&self) -> Seq<T> {
        self.accum@
    }

    /// Frames are non-empty and fewer than a frame's worth of samples is
    /// ever held between batches.
    pub open spec fn wf(&self) -> bool {
        self.spec_fft_size() > 0 && self.held().len() < self.spec_fft_size()
    }

    /// Starts with no samples held.
    pub fn new(fft_size: usize) -> (a: Self)
        requires
            fft_size > 0,
        ensures
            a.wf(),
            a.spec_fft_size() == fft_size,
            a.held() == Seq::<T>::empty(),
    {
        SampleAccumulator { fft_size, accum: Vec::new() }
    }

    /// Adds a batch of samples and returns the frame that became complete,
    /// if any.
    pub fn push_samples(&mut self, samples: &[T]) -> (frame: Option<Vec<T>>)
        requires
            old(self).wf(),
            old(self).held().len() + samples@.len() <= usize::MAX,
        ensures
            final(self).wf(),
            final(self).spec_fft_size() == old(self).spec_fft_size(),
            frame matches Some(v) ==> spec_accumulate(old(self).held(), samples@, old(self).spec_fft_size()).0 == Some(v@),
            frame is None ==> spec_accumulate(old(self).held(), samples@, old(self).spec_fft_size()).0 is None,
            final(self).held() == spec_accumulate(old(self).held(), samples@, old(self).spec_fft_size()).1,
    {
        let ghost all = self.accum@ + samples@;
        let n = samples.len();
        let mut i: usize = 0;
        while i < n
            invariant
                i <= n,
                n == samples@.len(),
                self.accum@ == old(self).accum@ + samples@.subrange(0, i as int),
                self.fft_size == old(self).fft_size,
            decreases n - i,
        {
            self.accum.push(samples[i]);
            i = i + 1;
            assert(samples@.subrange(0, i as int) =~= samples@.subrange(0, i - 1).push(samples@[i - 1]));
        }
        assert(samples@.subrange(0, n as int) =~= samples@);
        assert(self.accum@ == all);
        let len = self.accum.len();
        if len < self.fft_size {
            return None;
        }
        let f = self.fft_size;
        let mut out: Vec<T> = Vec::with_capacity(f);
        let mut j: usize = 0;
        while j < f
            invariant
                j <= f,
                f <= len,
                len == self.accum@.len(),
                self.accum@ == all,
                out@ == all.subrange(0, j as int),
            decreases f - j,
        {
            out.push(self.accum[j]);
            j = j + 1;
            assert(out@ =~= all.subrange(0, j as int));
        }
        let keep = f / 2;
        let start = len - keep;
        let mut rest: Vec<T> = Vec::with_capacity(keep);
        let mut k: usize = start;
        while k < len
            invariant
                start <= k <= len,
                len == self.accum@.len(),
                self.accum@ == all,
                rest@ == all.subrange(start as int, k as int),
            decreases len - k,
        {
            rest.push(self.accum[k]);
            k = k + 1;
            assert(rest@ =~= all.subrange(start as int, k as int));
        }
        self.accum = rest;
        Some(out)
    }
}


/// Once the held and incoming samples reach a frame, the frame is the
/// oldest `f` of them in order, and the newest `f / 2` of them are held
/// for the next frame; until then every sample is held.
pub proof fn lemma_accumulate_frames<T>(held: Seq<T>, incoming: Seq<T>, f: nat)
    requires
        f > 0,
    ensures
        ({
            let all = held + incoming;
            let (frame, kept) = spec_accumulate(held, incoming, f);
            &&& all.len() >= f ==> frame is Some && frame.unwrap().len() == f && forall|k: int|
                0 <= k < f ==> #[trigger] frame.unwrap()[k] == all[k]
            &&& all.len() >= f ==> kept.len() == f / 2 && forall|k: int|
                0 <= k < f / 2 ==> #[trigger] kept[k] == all[all.len() - f / 2 + k]
            &&& all.len() < f ==> frame is None && kept == all
        }),
{
}

} // verus!
