//! Progress of a vectored write that the transport may take in parts.
use vstd::prelude::*;

verus! {

/// The sum of the lengths.
pub open spec fn seq_sum(s: Seq<usize>) -> int
    decreases s.len(),
{
    if s.len() == 0 {
        0
    } else {
        seq_sum(s.drop_last()) + s.last()
    }
}

/// The number of bytes in the buffers before buffer `i`.
pub open spec fn bytes_before(lens: Seq<usize>, i: int) -> int {
    seq_sum(lens.take(i))
}

/// How much of buffer `i` has been written once `w` bytes of the whole have
/// been: the buffers are written in order, each from its start.
pub open spec fn written_of(lens: Seq<usize>, i: int, w: int) -> int {
    let before = bytes_before(lens, i);
    if w <= before {
        0
    } else if w - before >= lens[i] {
        lens[i] as int
    } else {
        w - before
    }
}

/// The buffers that still hold bytes to write, among the first `n`, each with
/// the offset from which it is still to be written, in buffer order.
pub open spec fn pending_of(lens: Seq<usize>, starts: Seq<usize>, n: int) -> Seq<(usize, usize)>
    decreases n,
{
    if n <= 0 {
        Seq::empty()
    } else {
        let p = pending_of(lens, starts, n - 1);
        if starts[n - 1] < lens[n - 1] {
            p.push(((n - 1) as usize, starts[n - 1]))
        } else {
            p
        }
    }
}

proof fn lemma_bytes_before_step(lens: Seq<usize>, i: int)
    requires
        0 <= i < lens.len(),
    ensures
        bytes_before(lens, i + 1) == bytes_before(lens, i) + lens[i],
{
    assert(lens.take(i + 1).drop_last() =~= lens.take(i));
}

proof fn lemma_bytes_before_total(lens: Seq<usize>)
    ensures
        bytes_before(lens, lens.len() as int) == seq_sum(lens),
{
    assert(lens.take(lens.len() as int) =~= lens);
}

proof fn lemma_bytes_before_mono(lens: Seq<usize>, i: int, j: int)
    requires
        0 <= i <= j <= lens.len(),
    ensures
        bytes_before(lens, i) <= bytes_before(lens, j),
    decreases j - i,
{
    if i < j {
        lemma_bytes_before_mono(lens, i, j - 1);
        lemma_bytes_before_step(lens, j - 1);
    }
}

/// What comes of recording a write.
#[derive(Debug, Clone, Copy, PartialEq, Eq, Structural)]
pub enum WriteStep {
    /// Bytes were written; write again while any remain.
    Progressed,
    /// The write took no byte: the transport fails the send.
    WroteNothing,
}

/// The state of a vectored write: the length of each buffer, how far each
/// has been written, and how many bytes have been written in all.
pub struct WriteProgress {
    lens: Vec<usize>,
    starts: Vec<usize>,
    total: usize,
    written: usize,
}

impl WriteProgress {
    pub closed spec fn lens(&self) -> Seq<usize> {
        self.lens@
    }

    pub closed spec fn starts(&self) -> Seq<usize> {
        self.starts@
    }

    pub closed spec fn written(&self) -> int {
        self.written as int
    }

    /// The buffers are written in order: each one is written up to what the
    /// bytes written so far cover, and no more than the whole is written.
    pub closed spec fn wf(&self) -> bool {
        &&& self.starts@.len() == self.lens@.len()
        &&& self.total as int == seq_sum(self.lens@)
        &&& self.written <= self.total
        &&& forall|i: int|
            0 <= i < self.lens@.len() ==> #[trigger] self.starts@[i] as int == written_of(
                self.lens@,
                i,
                self.written as int,
            )
    }

    /// A write of buffers with the given lengths, none written yet.
    pub fn new(lens: Vec<usize>) -> (r: Self)
        requires
            seq_sum(lens@) <= usize::MAX,
        ensures
            r.wf(),
            r.lens() == lens@,
            r.written() == 0,
            forall|i: int| 0 <= i < lens@.len() ==> #[trigger] r.starts()[i] == 0,
    {
        let mut starts: Vec<usize> = Vec::new();
        let mut total: usize = 0;
        let mut i: usize = 0;
        while i < lens.len()
            invariant
                0 <= i <= lens.len(),
                starts@.len() == i,
                total as int == bytes_before(lens@, i as int),
                seq_sum(lens@) <= usize::MAX,
                forall|j: int| 0 <= j < i ==> #[trigger] starts@[j] == 0,
            decreases lens.len() - i,
        {
            proof {
                lemma_bytes_before_step(lens@, i as int);
                lemma_bytes_before_mono(lens@, i as int + 1, lens@.len() as int);
                lemma_bytes_before_total(lens@);
            }
            total = total + lens[i];
            starts.push(0);
            i += 1;
        }
        proof {
            lemma_bytes_before_total(lens@);
            assert forall|j: int| 0 <= j < lens@.len() implies #[trigger] starts@[j] as int == written_of(
                lens@,
                j,
                0,
            ) by {
                lemma_bytes_before_mono(lens@, 0, j);
                assert(lens@.take(0) =~= Seq::<usize>::empty());
            }
        }
        WriteProgress { lens, starts, total, written: 0 }
    }

    /// Whether every byte has been written.
    pub fn is_complete(&self) -> (r: bool)
        requires
            self.wf(),
        ensures
            r == (self.written() == seq_sum(self.lens())),
    {
        self.written >= self.total
    }

    /// The number of bytes still to write.
    pub fn remaining(&self) -> (r: usize)
        requires
            self.wf(),
        ensures
            r == seq_sum(self.lens()) - self.written(),
    {
        self.total - self.written
    }

    /// The buffers that still hold bytes to write, in order, each with the
    /// offset from which it is to be written.
    pub fn pending_segments(&self) -> (r: Vec<(usize, usize)>)
        requires
            self.wf(),
        ensures
            r@ == pending_of(self.lens(), self.starts(), self.lens().len() as int),
    {
        let mut r: Vec<(usize, usize)> = Vec::new();
        let mut i: usize = 0;
        while i < self.lens.len()
            invariant
                0 <= i <= self.lens@.len(),
                self.starts@.len() == self.lens@.len(),
                r@ == pending_of(self.lens@, self.starts@, i as int),
            decreases self.lens.len() - i,
        {
            if self.starts[i] < self.lens[i] {
                r.push((i, self.starts[i]));
            }
            i += 1;
        }
        r
    }

    /// Records a write that took `n` bytes: the buffers are consumed in
    /// order, each up to its end, until the bytes taken are used up. A write
    /// of more than what remains completes the whole. A write of no byte is
    /// reported and changes nothing.
    pub fn record_write(&mut self, n: usize) -> (r: WriteStep)
        requires
            old(self).wf(),
        ensures
            final(self).wf(),
            final(self).lens() == old(self).lens(),
            n == 0 ==> r == WriteStep::WroteNothing && final(self).written() == old(self).written(),
            n > 0 ==> r == WriteStep::Progressed && final(self).written() == if n as int
                > seq_sum(old(self).lens()) - old(self).written() {
                seq_sum(old(self).lens())
            } else {
                old(self).written() + n
            },
    {
        if n == 0 {
            return WriteStep::WroteNothing;
        }
        let remaining = self.total - self.written;
        let take = if n > remaining { remaining } else { n };
        let ghost w = self.written as int;
        let ghost w2 = w + take;
        let ghost lens = self.lens@;
        let ghost old_starts = self.starts@;
        let mut rem: usize = take;
        let mut i: usize = 0;
        while i < self.lens.len()
            invariant
                0 <= i <= self.lens@.len(),
                self.lens@ == lens,
                self.starts@.len() == lens.len(),
                old_starts.len() == lens.len(),
                self.total as int == seq_sum(lens),
                self.written as int == w,
                w2 == w + take,
                w2 <= seq_sum(lens),
                w <= w2,
                rem as int == (if w2 > bytes_before(lens, i as int) {
                    w2 - bytes_before(lens, i as int)
                } else {
                    0
                }) - (if w > bytes_before(lens, i as int) {
                    w - bytes_before(lens, i as int)
                } else {
                    0
                }),
                forall|j: int| 0 <= j < i ==> #[trigger] self.starts@[j] as int == written_of(lens, j, w2),
                forall|j: int|
                    i <= j < lens.len() ==> #[trigger] self.starts@[j] == old_starts[j],
                forall|j: int|
                    0 <= j < lens.len() ==> #[trigger] old_starts[j] as int == written_of(lens, j, w),
            decreases self.lens.len() - i,
        {
            proof {
                lemma_bytes_before_step(lens, i as int);
            }
            let available = self.lens[i] - self.starts[i];
            let consume = if rem < available { rem } else { available };
            let s = self.starts[i] + consume;
            self.starts.set(i, s);
            rem = rem - consume;
            i += 1;
        }
        self.written = self.written + take;
        proof {
            lemma_bytes_before_total(lens);
        }
        WriteStep::Progressed
    }
}

/// A write of every remaining byte completes the whole: afterwards nothing
/// is pending, whatever parts the earlier writes took.
pub proof fn law_complete_write_leaves_nothing_pending(p: WriteProgress)
    requires
        p.wf(),
        p.written() == seq_sum(p.lens()),
    ensures
        forall|i: int| 0 <= i < p.lens().len() ==> #[trigger] p.starts()[i] == p.lens()[i],
{
    assert forall|i: int| 0 <= i < p.lens().len() implies #[trigger] p.starts()[i] == p.lens()[i] by {
        lemma_bytes_before_mono(p.lens(), i + 1, p.lens().len() as int);
        lemma_bytes_before_step(p.lens(), i);
        lemma_bytes_before_total(p.lens());
        reveal(WriteProgress::wf);
        assert(p.starts()[i] as int == written_of(p.lens(), i, p.written()));
    }
}


/// The buffers' bytes, one buffer after the other.
pub open spec fn concat(bufs: Seq<Seq<u8>>) -> Seq<u8>
    decreases bufs.len(),
{
    if bufs.len() == 0 {
        Seq::empty()
    } else {
        concat(bufs.drop_last()) + bufs.last()
    }
}

/// The bytes of the first `n` buffers still to write: each buffer from the
/// offset it has been written to.
pub open spec fn unwritten(bufs: Seq<Seq<u8>>, starts: Seq<usize>, n: int) -> Seq<u8>
    decreases n,
{
    if n <= 0 {
        Seq::empty()
    } else {
        unwritten(bufs, starts, n - 1) + bufs[n - 1].skip(starts[n - 1] as int)
    }
}

proof fn lemma_concat_prefix_len(bufs: Seq<Seq<u8>>, lens: Seq<usize>, n: int)
    requires
        0 <= n <= bufs.len(),
        bufs.len() == lens.len(),
        forall|i: int| 0 <= i < bufs.len() ==> #[trigger] bufs[i].len() == lens[i],
    ensures
        concat(bufs.take(n)).len() == bytes_before(lens, n),
    decreases n,
{
    if n == 0 {
        assert(lens.take(0) =~= Seq::<usize>::empty());
    } else {
        lemma_concat_prefix_len(bufs, lens, n - 1);
        lemma_bytes_before_step(lens, n - 1);
        assert(bufs.take(n).drop_last() =~= bufs.take(n - 1));
    }
}

proof fn lemma_unwritten_prefix(p: WriteProgress, bufs: Seq<Seq<u8>>, n: int)
    requires
        p.wf(),
        0 <= n <= bufs.len(),
        bufs.len() == p.lens().len(),
        forall|i: int| 0 <= i < bufs.len() ==> #[trigger] bufs[i].len() == p.lens()[i],
    ensures
        unwritten(bufs, p.starts(), n) == concat(bufs.take(n)).skip(
            if p.written() <= bytes_before(p.lens(), n) { p.written() } else { bytes_before(p.lens(), n) },
        ),
    decreases n,
{
    let lens = p.lens();
    let w = p.written();
    if n == 0 {
        assert(bufs.take(0) =~= Seq::<Seq<u8>>::empty());
        assert(lens.take(0) =~= Seq::<usize>::empty());
        assert(concat(bufs.take(0)).skip(0) =~= Seq::<u8>::empty());
    } else {
        lemma_unwritten_prefix(p, bufs, n - 1);
        lemma_concat_prefix_len(bufs, lens, n - 1);
        lemma_bytes_before_step(lens, n - 1);
        assert(bufs.take(n).drop_last() =~= bufs.take(n - 1));
        assert(bufs.take(n).last() == bufs[n - 1]);
        let f = concat(bufs.take(n - 1));
        let b = bufs[n - 1];
        let bb = bytes_before(lens, n - 1);
        assert(concat(bufs.take(n)) == f + b);
        assert(p.starts()[n - 1] as int == written_of(lens, n - 1, w));
        if w <= bb {
            assert((f + b).skip(w) =~= f.skip(w) + b);
            assert(b.skip(0) =~= b);
        } else if w >= bb + lens[n - 1] {
            assert(f.skip(bb) =~= Seq::<u8>::empty());
            assert(b.skip(lens[n - 1] as int) =~= Seq::<u8>::empty());
            assert((f + b).skip(bb + lens[n - 1]) =~= Seq::<u8>::empty());
        } else {
            assert(f.skip(bb) =~= Seq::<u8>::empty());
            assert((f + b).skip(w) =~= b.skip(w - bb));
        }
    }
}

/// What remains to write is what has not been written: taking each buffer
/// from the offset it has been written to, the remaining bytes, in order,
/// are the buffers' bytes one after the other with the bytes written so far
/// dropped.
pub proof fn law_unwritten_is_rest_of_concat(p: WriteProgress, bufs: Seq<Seq<u8>>)
    requires
        p.wf(),
        bufs.len() == p.lens().len(),
        forall|i: int| 0 <= i < bufs.len() ==> #[trigger] bufs[i].len() == p.lens()[i],
    ensures
        unwritten(bufs, p.starts(), bufs.len() as int) == concat(bufs).skip(p.written()),
{
    lemma_unwritten_prefix(p, bufs, bufs.len() as int);
    lemma_bytes_before_total(p.lens());
    reveal(WriteProgress::wf);
    assert(bufs.take(bufs.len() as int) =~= bufs);
}

/// Writes take the bytes in order, none twice and none skipped: from a state
/// `p` to a later state `q` of the same write, what remains is what remained
/// with exactly the bytes written in between dropped from its front, and
/// those bytes are the next ones of the buffers' bytes.
pub proof fn law_writes_take_next_bytes(p: WriteProgress, q: WriteProgress, bufs: Seq<Seq<u8>>)
    requires
        p.wf(),
        q.wf(),
        q.lens() == p.lens(),
        p.written() <= q.written(),
        bufs.len() == p.lens().len(),
        forall|i: int| 0 <= i < bufs.len() ==> #[trigger] bufs[i].len() == p.lens()[i],
    ensures
        unwritten(bufs, q.starts(), bufs.len() as int)
            == unwritten(bufs, p.starts(), bufs.len() as int).skip(q.written() - p.written()),
        unwritten(bufs, p.starts(), bufs.len() as int).take(q.written() - p.written())
            == concat(bufs).subrange(p.written(), q.written()),
{
    law_unwritten_is_rest_of_concat(p, bufs);
    law_unwritten_is_rest_of_concat(q, bufs);
    lemma_concat_prefix_len(bufs, p.lens(), bufs.len() as int);
    lemma_bytes_before_total(p.lens());
    assert(bufs.take(bufs.len() as int) =~= bufs);
    reveal(WriteProgress::wf);
    let c = concat(bufs);
    assert(c.skip(p.written()).skip(q.written() - p.written()) =~= c.skip(q.written()));
    assert(c.skip(p.written()).take(q.written() - p.written()) =~= c.subrange(p.written(), q.written()));
}

} // verus!
