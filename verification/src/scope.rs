//! The goniometer's ring of samples, and the ring that collects a frame for the FFT.

use crate::level::Level;
use vstd::arithmetic::div_mod::{
    lemma_add_mod_noop, lemma_fundamental_div_mod, lemma_mod_add_multiples_vanish, lemma_mod_bound,
    lemma_mod_self_0, lemma_mod_twice, lemma_small_mod,
};
use vstd::prelude::*;

verus! {

/// A stereo sample.
pub type Frame = (Level, Level);

/// The ring of samples that the goniometer shows.
pub struct Scope {
    pub samples: Vec<Frame>,
    /// Where the next sample goes.
    pub write_pos: usize,
}

/// The position `k` places behind `start` in a ring of `len` places.
pub open spec fn ring_pos(start: int, k: int, len: int) -> int {
    (start + k) % len
}

/// The ring after the first `n` samples of a block.
pub open spec fn written(ring: Seq<Frame>, start: int, block: Seq<Frame>, n: nat) -> Seq<Frame>
    decreases n,
{
    if n == 0 {
        ring
    } else {
        written(ring, start, block, (n - 1) as nat).update(
            ring_pos(start, n - 1, ring.len() as int),
            block[n - 1],
        )
    }
}

proof fn lemma_next_pos(start: int, k: int, len: int)
    requires
        len > 0,
        start >= 0,
        k >= 0,
    ensures
        0 <= ring_pos(start, k, len) < len,
        ring_pos(start, k + 1, len) == (if ring_pos(start, k, len) + 1 == len {
            0
        } else {
            ring_pos(start, k, len) + 1
        }),
{
    lemma_mod_bound(start + k, len);
    let p = (start + k) % len;
    lemma_add_mod_noop(start + k, 1, len);
    lemma_mod_twice(start + k, len);
    lemma_add_mod_noop(p, 1, len);
    lemma_mod_twice(start + k, len);
    assert((start + k + 1) % len == (p + 1) % len);
    if p + 1 == len {
        lemma_mod_self_0(len);
    } else {
        lemma_small_mod((p + 1) as nat, len as nat);
    }
}

impl Scope {
    /// There is a place to write to.
    pub open spec fn wf(&self) -> bool {
        self.write_pos < self.samples@.len()
    }

    /// A ring of the given length that holds nothing.
    pub fn new(len: usize) -> (r: Scope)
        requires
            len > 0,
        ensures
            r.wf(),
            r.write_pos == 0,
            r.samples@ == Seq::new(len as nat, |i: int| (Level { bits: 0 }, Level { bits: 0 })),
    {
        let zero: Frame = (Level { bits: 0 }, Level { bits: 0 });
        let mut samples: Vec<Frame> = Vec::new();
        for i in 0..len
            invariant
                zero == (Level { bits: 0 }, Level { bits: 0 }),
                samples@ == Seq::new(i as nat, |k: int| (Level { bits: 0 }, Level { bits: 0 })),
        {
            samples.push(zero);
            proof {
                assert(samples@ =~= Seq::new(
                    i as nat + 1,
                    |k: int| (Level { bits: 0 }, Level { bits: 0 }),
                ));
            }
        }
        Scope { samples, write_pos: 0 }
    }

    /// Writes a block of samples behind those already there.
    pub fn write_block(&mut self, block: &Vec<Frame>)
        requires
            old(self).wf(),
        ensures
            final(self).wf(),
            final(self).samples@ == written(
                old(self).samples@,
                old(self).write_pos as int,
                block@,
                block@.len(),
            ),
            final(self).samples@.len() == old(self).samples@.len(),
            final(self).write_pos == ring_pos(
                old(self).write_pos as int,
                block@.len() as int,
                old(self).samples@.len() as int,
            ),
    {
        let len: usize = self.samples.len();
        let ghost start = self.write_pos as int;
        let mut pos: usize = self.write_pos;
        proof {
            lemma_small_mod(start as nat, len as nat);
        }
        for i in 0..block.len()
            invariant
                len == self.samples.len(),
                len == old(self).samples@.len(),
                start == old(self).write_pos,
                0 <= start < len,
                pos == ring_pos(start, i as int, len as int),
                pos < len,
                self.samples@ == written(old(self).samples@, start, block@, i as nat),
        {
            self.samples[pos] = block[i];
            proof {
                lemma_next_pos(start, i as int, len as int);
            }
            pos = if pos + 1 == len {
                0
            } else {
                pos + 1
            };
        }
        self.write_pos = pos;
    }
}

/// Where the sample of the given age lies: age 0 is the one written last.
pub open spec fn aged_pos(write_pos: int, age: int, len: int) -> int {
    (write_pos + len - age - 1) % len
}

/// One dot of the goniometer: which sample, and in which of the three shades.
#[derive(Clone, Copy, Debug, PartialEq, Eq, Structural)]
pub struct Dot {
    pub index: usize,
    pub shade: u8,
}

/// How many samples are drawn.
pub open spec fn draw_count(len: int, limit: int) -> int {
    if len < limit {
        len
    } else {
        limit
    }
}

/// The shade of the dot `k` of `count`: the oldest third is the faintest.
pub open spec fn shade_of(k: int, count: int) -> int {
    if k < count / 3 {
        0
    } else if k < 2 * (count / 3) {
        1
    } else {
        2
    }
}

/// The dot `k`, counted from the oldest, of `count` drawn from a ring.
pub open spec fn dot_at(write_pos: int, len: int, count: int, k: int) -> Dot {
    Dot {
        index: aged_pos(write_pos, count - 1 - k, len) as usize,
        shade: shade_of(k, count) as u8,
    }
}

/// The dots of the goniometer from the oldest to the newest, at most `limit` of them.
pub fn goniometer_dots(len: usize, write_pos: usize, limit: usize) -> (r: Vec<Dot>)
    ensures
        len == 0 ==> r.len() == 0,
        len > 0 ==> r@ == Seq::new(
            draw_count(len as int, limit as int) as nat,
            |k: int|
                dot_at(
                    write_pos as int % len as int,
                    len as int,
                    draw_count(len as int, limit as int),
                    k,
                ),
        ),
{
    let mut r: Vec<Dot> = Vec::new();
    if len == 0 {
        return r;
    }
    let count: usize = if len < limit {
        len
    } else {
        limit
    };
    let wp: usize = write_pos % len;
    let third: usize = count / 3;
    for k in 0..count
        invariant
            len > 0,
            count == draw_count(len as int, limit as int),
            count <= len,
            wp == write_pos as int % len as int,
            wp < len,
            third == count / 3,
            r@ == Seq::new(k as nat, |i: int| dot_at(wp as int, len as int, count as int, i)),
    {
        let age: usize = count - 1 - k;
        proof {
            lemma_aged(wp as int, age as int, len as int);
        }
        let index: usize = if wp > age {
            wp - age - 1
        } else {
            len - (age + 1 - wp)
        };
        let shade: u8 = if k < third {
            0
        } else if k - third < third {
            1
        } else {
            2
        };
        let ghost before = r@;
        r.push(Dot { index, shade });
        proof {
            assert(r@ =~= Seq::new(
                k as nat + 1,
                |i: int| dot_at(wp as int, len as int, count as int, i),
            ));
        }
    }
    r
}

proof fn lemma_aged(wp: int, age: int, len: int)
    requires
        0 <= wp < len,
        0 <= age < len,
    ensures
        aged_pos(wp, age, len) == (if wp > age {
            wp - age - 1
        } else {
            wp + len - age - 1
        }),
        0 <= aged_pos(wp, age, len) < len,
{
    if wp > age {
        lemma_mod_add_multiples_vanish(wp - age - 1, len);
        lemma_small_mod((wp - age - 1) as nat, len as nat);
        assert(wp + len - age - 1 == len + (wp - age - 1));
    } else {
        lemma_small_mod((wp + len - age - 1) as nat, len as nat);
    }
}

/// Two of the last `len` positions written are different places of the ring.
proof fn lemma_apart(start: int, i: int, j: int, len: int)
    requires
        len > 0,
        0 <= start,
        0 <= i < j,
        j - i < len,
    ensures
        ring_pos(start, i, len) != ring_pos(start, j, len),
{
    let a = start + i;
    let b = start + j;
    lemma_fundamental_div_mod(a, len);
    lemma_fundamental_div_mod(b, len);
    if a % len == b % len {
        let qa = a / len;
        let qb = b / len;
        assert(b - a == len * qb - len * qa);
        assert(len * qb - len * qa == len * (qb - qa)) by (nonlinear_arith);
        assert(0 < len * (qb - qa) < len);
        assert(qb - qa <= 0 || qb - qa >= 1);
        assert(false) by (nonlinear_arith)
            requires
                len > 0,
                0 < len * (qb - qa) < len,
        ;
    }
}

proof fn lemma_written_len(ring: Seq<Frame>, start: int, block: Seq<Frame>, n: nat)
    requires
        ring.len() > 0,
    ensures
        written(ring, start, block, n).len() == ring.len(),
    decreases n,
{
    if n > 0 {
        lemma_written_len(ring, start, block, (n - 1) as nat);
        lemma_mod_bound(start + n - 1, ring.len() as int);
    }
}

proof fn lemma_kept_sample(ring: Seq<Frame>, start: int, block: Seq<Frame>, n: nat, i: int)
    requires
        ring.len() > 0,
        0 <= start,
        0 <= i < n <= block.len(),
        n - i <= ring.len(),
    ensures
        written(ring, start, block, n)[ring_pos(start, i, ring.len() as int)] == block[i],
    decreases n,
{
    let len = ring.len() as int;
    lemma_written_len(ring, start, block, (n - 1) as nat);
    lemma_mod_bound(start + i, len);
    if i < n - 1 {
        lemma_kept_sample(ring, start, block, (n - 1) as nat, i);
        lemma_apart(start, i, n - 1, len);
    }
}

/// What was written is read back: after a block, the sample of age `a` is the one that many
/// places before the block's end.
pub proof fn law_scope_reads_back_what_was_written(
    ring: Seq<Frame>,
    start: int,
    block: Seq<Frame>,
    a: int,
)
    requires
        0 <= start < ring.len(),
        0 <= a < block.len(),
        a < ring.len(),
    ensures
        ({
            let len = ring.len() as int;
            let after = written(ring, start, block, block.len());
            let wp = ring_pos(start, block.len() as int, len);
            after[aged_pos(wp, a, len)] == block[block.len() - 1 - a]
        }),
{
    let len = ring.len() as int;
    let n = block.len() as int;
    let wp = ring_pos(start, n, len);
    let i = n - 1 - a;
    lemma_kept_sample(ring, start, block, block.len(), i);
    // (wp + len - a - 1) and (start + i) are the same place of the ring.
    lemma_mod_bound(start + n, len);
    lemma_add_mod_noop(start + n, len - a - 1, len);
    lemma_mod_twice(start + n, len);
    lemma_add_mod_noop(wp, len - a - 1, len);
    assert((wp + (len - a - 1)) % len == (start + n + (len - a - 1)) % len);
    lemma_mod_add_multiples_vanish(start + i, len);
    assert(start + n + (len - a - 1) == len + (start + i));
}

/// The newest dot is the sample written last.
pub proof fn law_last_dot_is_the_newest_sample(write_pos: int, len: int, limit: int)
    requires
        0 < len,
        0 < limit,
        0 <= write_pos < len,
    ensures
        ({
            let count = draw_count(len, limit);
            dot_at(write_pos, len, count, count - 1).index == aged_pos(write_pos, 0, len) as usize
        }),
{
}

/// Where the correlation of the channels stands.
#[derive(Clone, Copy, Debug, PartialEq, Eq, Structural)]
pub enum Correlation {
    Good,
    Fair,
    Bad,
}

/// Where the correlation stands: over 0.7, not below 0, or below it.
pub fn correlation_zone(corr: Level) -> (r: Correlation)
    ensures
        r == (if corr.above(Level { bits: 0x3f33_3333 }) {
            Correlation::Good
        } else if corr.at_least(Level { bits: 0 }) {
            Correlation::Fair
        } else {
            Correlation::Bad
        }),
{
    if corr.gt(Level { bits: 0x3f33_3333 }) {
        Correlation::Good
    } else if corr.ge(Level { bits: 0 }) {
        Correlation::Fair
    } else {
        Correlation::Bad
    }
}

/// Collects samples until a frame is full.
pub struct FrameBuffer {
    pub input: Vec<Level>,
    pub write_pos: usize,
}

impl FrameBuffer {
    /// There is a place to write to.
    pub open spec fn wf(&self) -> bool {
        self.write_pos < self.input@.len()
    }

    /// An empty buffer for frames of the given size.
    pub fn new(size: usize) -> (r: FrameBuffer)
        requires
            size > 0,
        ensures
            r.wf(),
            r.write_pos == 0,
            r.input@ == Seq::new(size as nat, |i: int| Level { bits: 0 }),
    {
        let r: FrameBuffer = FrameBuffer { input: vec![Level { bits: 0 }; size], write_pos: 0 };
        proof {
            assert(r.input@ =~= Seq::new(size as nat, |i: int| Level { bits: 0 }));
        }
        r
    }

    /// Takes in one sample; true where the frame is full with it, and the next one begins.
    pub fn push(&mut self, sample: Level) -> (full: bool)
        requires
            old(self).wf(),
        ensures
            final(self).wf(),
            final(self).input@ == old(self).input@.update(old(self).write_pos as int, sample),
            full == (old(self).write_pos + 1 == old(self).input@.len()),
            final(self).write_pos == (if full {
                0
            } else {
                old(self).write_pos + 1
            }),
    {
        let pos: usize = self.write_pos;
        let size: usize = self.input.len();
        self.input[pos] = sample;
        if pos + 1 >= size {
            self.write_pos = 0;
            true
        } else {
            self.write_pos = pos + 1;
            false
        }
    }
}

impl FrameBuffer {
    /// Takes in samples from a position on, until a frame is full or none is left.
    ///
    /// Gives the position behind the sample that filled the frame.
    pub fn fill(&mut self, samples: &Vec<Level>, from: usize) -> (r: Option<usize>)
        requires
            old(self).wf(),
            from <= samples.len(),
        ensures
            final(self).wf(),
            final(self).input@.len() == old(self).input@.len(),
            ({
                let room = old(self).input@.len() - old(self).write_pos;
                let left = samples@.len() - from;
                if left >= room {
                    &&& r is Some && r->0 == from + room
                    &&& final(self).write_pos == 0
                    &&& final(self).input@ == old(self).input@.take(old(self).write_pos as int)
                        + samples@.subrange(from as int, from + room)
                } else {
                    &&& r is None
                    &&& final(self).write_pos == old(self).write_pos + left
                    &&& final(self).input@ == old(self).input@.take(old(self).write_pos as int)
                        + samples@.subrange(from as int, samples@.len() as int)
                        + old(self).input@.skip(old(self).write_pos + left)
                }
            }),
    {
        let ghost start = self.write_pos as int;
        let ghost before = self.input@;
        let mut i: usize = from;
        while i < samples.len()
            invariant
                self.wf(),
                from <= i <= samples.len(),
                start == old(self).write_pos,
                before == old(self).input@,
                before.len() == self.input@.len(),
                0 <= start < before.len(),
                self.write_pos == start + (i - from),
                self.input@ == before.take(start) + samples@.subrange(from as int, i as int)
                    + before.skip(start + (i - from)),
            decreases samples.len() - i,
        {
            let ghost now = self.input@;
            let full: bool = self.push(samples[i]);
            proof {
                assert(samples@.subrange(from as int, i + 1) =~= samples@.subrange(
                    from as int,
                    i as int,
                ).push(samples@[i as int]));
                assert(self.input@ =~= before.take(start) + samples@.subrange(from as int, i + 1)
                    + before.skip(start + (i + 1 - from)));
            }
            i = i + 1;
            if full {
                proof {
                    assert(before.skip(before.len() as int) =~= Seq::<Level>::empty());
                    assert(self.input@ =~= before.take(start) + samples@.subrange(
                        from as int,
                        i as int,
                    ));
                }
                return Some(i);
            }
        }
        proof {
            assert(samples@.subrange(from as int, from as int) =~= Seq::<Level>::empty());
        }
        None
    }
}

/// Copies the input of each channel to its output.
pub fn pass_through(input: &Vec<Vec<Level>>) -> (output: Vec<Vec<Level>>)
    ensures
        output.len() == input.len(),
        forall|ch: int| 0 <= ch < input.len() ==> (#[trigger] output@[ch])@ == input@[ch]@,
{
    let mut output: Vec<Vec<Level>> = Vec::new();
    for ch in 0..input.len()
        invariant
            output.len() == ch,
            forall|k: int| 0 <= k < ch ==> (#[trigger] output@[k])@ == input@[k]@,
    {
        let mut channel: Vec<Level> = Vec::new();
        let len: usize = input[ch].len();
        for i in 0..len
            invariant
                ch < input.len(),
                len == input@[ch as int]@.len(),
                channel@ == input@[ch as int]@.take(i as int),
        {
            channel.push(input[ch][i]);
            proof {
                assert(input@[ch as int]@.take(i as int + 1) == input@[ch as int]@.take(
                    i as int,
                ).push(input@[ch as int]@[i as int]));
            }
        }
        proof {
            assert(input@[ch as int]@.take(input@[ch as int]@.len() as int) == input@[ch as int]@);
        }
        output.push(channel);
    }
    output
}

} // verus!
