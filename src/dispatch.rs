use vstd::prelude::*;
use crate::config::Config;

verus! {

/// The most sample-bounces one dispatch may be given: a single dispatch is
/// sized so that pixels times samples times bounces stays under it.
pub const DISPATCH_BUDGET: u32 = 1024 * 10000;

/// One unit of device work: `num_pixels` pixels from pixel `index` on.
#[derive(Clone, Copy, Debug, PartialEq, Eq, Structural)]
pub struct Batch {
    pub index: u32,
    pub num_pixels: u32,
}

/// Why a configuration cannot be scheduled.
#[derive(Clone, Copy, Debug, PartialEq, Eq, Structural)]
pub enum DispatchError {
    /// The bounce budget is zero.
    ZeroBounces,
    /// The sample count is zero.
    ZeroSamples,
    /// One pixel alone costs more than a dispatch may do.
    TooManySamples,
    /// Three channels per pixel do not fit the 32-bit output buffer.
    ImageTooLarge,
}

/// The batches that cover pixels `from` up to `total`, `per` pixels each but
/// for a shorter last one, as (start, length) pairs.
pub open spec fn batch_plan(total: nat, per: nat, from: nat) -> Seq<(nat, nat)>
    decreases total - from,
{
    if from >= total || per == 0 {
        Seq::empty()
    } else {
        let n: nat = if per < total - from { per } else { (total - from) as nat };
        seq![(from, n)] + batch_plan(total, per, from + n)
    }
}

/// Samples one dispatch may take for the given bounce budget.
pub open spec fn samples_per_dispatch_of(max_bounces: u32) -> nat {
    (DISPATCH_BUDGET / max_bounces) as nat
}

/// Pixels one dispatch may take for the given bounce budget and sample count.
pub open spec fn pixels_per_dispatch_of(max_bounces: u32, sample_count: u32) -> nat {
    samples_per_dispatch_of(max_bounces) / (sample_count as nat)
}

/// The error, if any, that a configuration is refused with, checked in the
/// order bounces, samples, work per pixel, image size.
pub open spec fn schedule_error(c: Config) -> Option<DispatchError> {
    if c.max_bounces == 0 {
        Some(DispatchError::ZeroBounces)
    } else if c.sample_count == 0 {
        Some(DispatchError::ZeroSamples)
    } else if pixels_per_dispatch_of(c.max_bounces, c.sample_count) == 0 {
        Some(DispatchError::TooManySamples)
    } else if c.width * c.height * 3 > u32::MAX {
        Some(DispatchError::ImageTooLarge)
    } else {
        None
    }
}

/// Hands out the batches of one render in order; the caller submits each
/// and waits for it before asking for the next.
pub struct DispatchSchedule {
    total_pixels: u32,
    samples_per_dispatch: u32,
    pixels_per_dispatch: u32,
    next: u32,
}

impl DispatchSchedule {
    /// Pixels in the image.
    pub closed spec fn total(&self) -> nat {
        self.total_pixels as nat
    }

    /// Samples one dispatch may take.
    pub closed spec fn samples_per(&self) -> nat {
        self.samples_per_dispatch as nat
    }

    /// Pixels one dispatch may take.
    pub closed spec fn pixels_per(&self) -> nat {
        self.pixels_per_dispatch as nat
    }

    /// The first pixel not yet handed out.
    pub closed spec fn next_pixel(&self) -> nat {
        self.next as nat
    }

    /// The batches still to be handed out.
    pub open spec fn remaining(&self) -> Seq<(nat, nat)> {
        batch_plan(self.total(), self.pixels_per(), self.next_pixel())
    }

    pub closed spec fn wf(&self) -> bool {
        &&& self.pixels_per_dispatch > 0
        &&& self.next <= self.total_pixels
        &&& self.total_pixels * 3 <= u32::MAX
    }

    /// The schedule of a render with configuration `config`, or the reason
    /// it cannot be scheduled.
    pub fn new(config: &Config) -> (r: Result<DispatchSchedule, DispatchError>)
        ensures
            match r {
                Ok(s) => {
                    &&& schedule_error(*config) is None
                    &&& s.wf()
                    &&& s.total() == config.width * config.height
                    &&& s.samples_per() == samples_per_dispatch_of(config.max_bounces)
                    &&& s.pixels_per() == pixels_per_dispatch_of(config.max_bounces, config.sample_count)
                    &&& s.next_pixel() == 0
                },
                Err(e) => schedule_error(*config) == Some(e),
            },
    {
        if config.max_bounces == 0 {
            return Err(DispatchError::ZeroBounces);
        }
        if config.sample_count == 0 {
            return Err(DispatchError::ZeroSamples);
        }
        let samples_per_dispatch = DISPATCH_BUDGET / config.max_bounces;
        let pixels_per_dispatch = samples_per_dispatch / config.sample_count;
        if pixels_per_dispatch == 0 {
            return Err(DispatchError::TooManySamples);
        }
        assert(config.width as u64 * config.height as u64 <= u32::MAX as u64 * u32::MAX as u64) by (nonlinear_arith);
        let total: u64 = config.width as u64 * config.height as u64;
        if total > (u32::MAX / 3) as u64 {
            return Err(DispatchError::ImageTooLarge);
        }
        Ok(DispatchSchedule {
            total_pixels: total as u32,
            samples_per_dispatch,
            pixels_per_dispatch,
            next: 0,
        })
    }

    /// Pixels in the image.
    pub fn total_pixels(&self) -> (r: u32)
        ensures
            r == self.total(),
    {
        self.total_pixels
    }

    /// Samples one dispatch may take.
    pub fn samples_per_dispatch(&self) -> (r: u32)
        ensures
            r == self.samples_per(),
    {
        self.samples_per_dispatch
    }

    /// Pixels one dispatch may take.
    pub fn pixels_per_dispatch(&self) -> (r: u32)
        ensures
            r == self.pixels_per(),
    {
        self.pixels_per_dispatch
    }

    /// Length of the output buffer: three channels per pixel.
    pub fn channel_count(&self) -> (r: u32)
        requires
            self.wf(),
        ensures
            r == 3 * self.total(),
    {
        self.total_pixels * 3
    }

    /// The next batch, or `None` once every pixel has been handed out.
    pub fn next_batch(&mut self) -> (r: Option<Batch>)
        requires
            old(self).wf(),
        ensures
            final(self).wf(),
            final(self).total() == old(self).total(),
            final(self).samples_per() == old(self).samples_per(),
            final(self).pixels_per() == old(self).pixels_per(),
            match r {
                None => old(self).remaining().len() == 0 && final(self).remaining().len() == 0,
                Some(b) => {
                    &&& old(self).remaining().len() > 0
                    &&& (b.index as nat, b.num_pixels as nat) == old(self).remaining()[0]
                    &&& final(self).remaining() == old(self).remaining().drop_first()
                },
            },
    {
        if self.next >= self.total_pixels {
            return None;
        }
        let left = self.total_pixels - self.next;
        let n = if self.pixels_per_dispatch < left { self.pixels_per_dispatch } else { left };
        let b = Batch { index: self.next, num_pixels: n };
        let ghost before = self.remaining();
        self.next = self.next + n;
        assert(before =~= seq![(b.index as nat, b.num_pixels as nat)] + self.remaining());
        Some(b)
    }
}

/// The device's output words as 8-bit channels. `None` unless there are
/// exactly `expected` words and each is at most 255.
pub fn channels_to_bytes(data: &Vec<u32>, expected: u32) -> (r: Option<Vec<u8>>)
    ensures
        r is Some <==> data@.len() == expected && forall|i: int| 0 <= i < data@.len() ==> #[trigger] data@[i] <= 255,
        r matches Some(b) ==> b@.len() == data@.len()
            && forall|i: int| 0 <= i < data@.len() ==> #[trigger] b@[i] as u32 == data@[i],
{
    if data.len() != expected as usize {
        return None;
    }
    let mut out: Vec<u8> = Vec::new();
    let mut i: usize = 0;
    while i < data.len()
        invariant
            i <= data@.len(),
            out@.len() == i,
            forall|j: int| 0 <= j < i ==> #[trigger] data@[j] <= 255,
            forall|j: int| 0 <= j < i ==> #[trigger] out@[j] as u32 == data@[j],
        decreases data@.len() - i,
    {
        let w = data[i];
        if w > 255 {
            return None;
        }
        out.push(w as u8);
        assert(out@[i as int] as u32 == data@[i as int]);
        i = i + 1;
    }
    Some(out)
}

/// The batches of a schedule tile the pixels: each is non-empty and at most
/// `per` long, all but the last are exactly `per` long, each starts where the
/// one before it ends, the first starts at `from` and the last ends at
/// `total`; there are none only when nothing is left.
pub proof fn lemma_batch_plan_tiles(total: nat, per: nat, from: nat)
    requires
        per > 0,
        from <= total,
    ensures
        batch_plan(total, per, from).len() == 0 <==> from == total,
        forall|k: int| 0 <= k < batch_plan(total, per, from).len() ==>
            0 < (#[trigger] batch_plan(total, per, from)[k]).1 <= per,
        forall|k: int| 0 <= k < batch_plan(total, per, from).len() - 1 ==>
            (#[trigger] batch_plan(total, per, from)[k]).1 == per
            && batch_plan(total, per, from)[k + 1].0 == batch_plan(total, per, from)[k].0 + per,
        batch_plan(total, per, from).len() > 0 ==> {
            &&& batch_plan(total, per, from)[0].0 == from
            &&& batch_plan(total, per, from).last().0 + batch_plan(total, per, from).last().1 == total
        },
    decreases total - from,
{
    if from < total {
        let n: nat = if per < total - from { per } else { (total - from) as nat };
        lemma_batch_plan_tiles(total, per, from + n);
        let rest = batch_plan(total, per, from + n);
        let plan = batch_plan(total, per, from);
        assert(plan == seq![(from, n)] + rest);
        if rest.len() > 0 {
            assert(n == per);
        }
        assert forall|k: int| 0 <= k < plan.len() - 1 implies
            (#[trigger] plan[k]).1 == per && plan[k + 1].0 == plan[k].0 + per by {
            if k > 0 {
                assert(plan[k] == rest[k - 1]);
                assert(plan[k + 1] == rest[k]);
            }
        }
        assert forall|k: int| 0 <= k < plan.len() implies 0 < (#[trigger] plan[k]).1 <= per by {
            if k > 0 {
                assert(plan[k] == rest[k - 1]);
            }
        }
    }
}

} // verus!
