//! A capacity-bounded byte store built from one page per write, and cursors
//! that read it back without changing it.
use std::sync::Arc;
use vstd::prelude::*;
use vstd::seq_lib::lemma_flatten_concat;

verus! {

/// Number of bytes that a read starting at logical offset `pos` can hand out
/// before it reaches the end of the page holding `pos`; zero at or past the end.
pub open spec fn run_from(pages: Seq<Seq<u8>>, pos: int) -> int
    decreases pages.len(),
{
    if pages.len() == 0 {
        0
    } else if pos < pages[0].len() {
        pages[0].len() - pos
    } else {
        run_from(pages.drop_first(), pos - pages[0].len())
    }
}

/// Every page of the store holds at least one byte.
pub open spec fn pages_nonempty(pages: Seq<Seq<u8>>) -> bool {
    forall|i: int| 0 <= i < pages.len() ==> #[trigger] pages[i].len() > 0
}

/// Logical offset at which page `k` starts.
pub open spec fn page_start(pages: Seq<Seq<u8>>, k: int) -> int {
    pages.take(k).flatten().len() as int
}

/// The smaller of two integers.
pub open spec fn min_int(a: int, b: int) -> int {
    if a <= b {
        a
    } else {
        b
    }
}

proof fn lemma_take_succ(pages: Seq<Seq<u8>>, k: int)
    requires
        0 <= k < pages.len(),
    ensures
        pages.take(k + 1).flatten() == pages.take(k).flatten() + pages[k],
{
    assert(pages.take(k + 1) =~= pages.take(k).push(pages[k]));
    pages.take(k).lemma_flatten_push(pages[k]);
}

/// A cursor state `(k, off)` names the logical offset `page_start(k) + off`:
/// the bytes there are those of page `k` from `off` on, and a read there may
/// run to the end of that page.
proof fn lemma_cursor_position(pages: Seq<Seq<u8>>, k: int, off: int)
    requires
        pages_nonempty(pages),
        0 <= k <= pages.len(),
        0 <= off,
        k < pages.len() ==> off < pages[k].len(),
        k == pages.len() ==> off == 0,
    ensures
        run_from(pages, page_start(pages, k) + off) == (if k < pages.len() {
            pages[k].len() - off
        } else {
            0
        }),
        page_start(pages, k) + off <= pages.flatten().len(),
        k < pages.len() ==> page_start(pages, k) + pages[k].len() <= pages.flatten().len(),
        k < pages.len() ==> forall|j: int|
            0 <= j < pages[k].len() ==> pages.flatten()[page_start(pages, k) + j] == pages[k][j],
    decreases k,
{
    assert(pages =~= pages.take(k) + pages.skip(k));
    lemma_flatten_concat(pages.take(k), pages.skip(k));
    if k < pages.len() {
        assert(pages.skip(k).drop_first() =~= pages.skip(k + 1));
        assert(pages.skip(k).flatten() == pages[k] + pages.skip(k + 1).flatten());
    } else {
        assert(pages.take(k) =~= pages);
    }
    if k == 0 {
        assert(pages.take(0) =~= Seq::<Seq<u8>>::empty());
    } else {
        let rest = pages.drop_first();
        assert(pages.take(k).drop_first() =~= rest.take(k - 1));
        assert(pages.take(k).flatten() == pages[0] + rest.take(k - 1).flatten());
        assert(pages_nonempty(rest)) by {
            assert forall|i: int| 0 <= i < rest.len() implies #[trigger] rest[i].len() > 0 by {
                assert(rest[i] == pages[i + 1]);
            }
        }
        lemma_cursor_position(rest, k - 1, off);
    }
}

/// Content of a buffer of capacity `cap` holding `content` after `chunk` is
/// written into it: as much of the chunk as fits.
pub open spec fn write_step(cap: nat, content: Seq<u8>, chunk: Seq<u8>) -> Seq<u8> {
    content + chunk.take(min_int(cap - content.len(), chunk.len() as int))
}

/// Buffer that keeps the chunks written into it, one page per write, and never
/// holds more than its capacity: a write that would pass the capacity is cut
/// short.
pub struct LimitedBuffer {
    capacity: usize,
    buffer: Vec<Vec<u8>>,
    content_len: usize,
}

impl LimitedBuffer {
    /// The pages in the order they were written.
    pub closed spec fn pages(&self) -> Seq<Seq<u8>> {
        Seq::new(self.buffer@.len(), |i: int| self.buffer@[i]@)
    }

    /// The logical content: all pages, one after the other.
    pub open spec fn content(&self) -> Seq<u8> {
        self.pages().flatten()
    }

    /// The capacity the buffer was made with.
    pub closed spec fn cap(&self) -> nat {
        self.capacity as nat
    }

    pub closed spec fn wf(&self) -> bool {
        &&& self.content_len == self.content().len()
        &&& self.content_len <= self.capacity
        &&& pages_nonempty(self.pages())
    }

    /// How many bytes a read of at most `want` bytes at logical offset `pos`
    /// hands out: it stops at the end of the page holding `pos`.
    pub open spec fn read_len(&self, pos: int, want: int) -> int {
        min_int(want, run_from(self.pages(), pos))
    }

    pub fn new(capacity: usize) -> (r: Self)
        ensures
            r.wf(),
            r.cap() == capacity,
            r.pages() == Seq::<Seq<u8>>::empty(),
            r.content() == Seq::<u8>::empty(),
    {
        let r = LimitedBuffer { capacity, buffer: Vec::new(), content_len: 0 };
        assert(r.pages() =~= Seq::<Seq<u8>>::empty());
        r
    }

    /// Length of the content held.
    pub fn len(&self) -> (r: usize)
        requires
            self.wf(),
        ensures
            r == self.content().len(),
    {
        self.content_len
    }

    pub fn capacity(&self) -> (r: usize)
        ensures
            r == self.cap(),
    {
        self.capacity
    }

    /// Space left before the capacity is reached.
    pub fn remaining(&self) -> (r: usize)
        requires
            self.wf(),
        ensures
            r == self.cap() - self.content().len(),
    {
        self.capacity - self.content_len
    }

    /// Hands the buffer over to be shared by readers.
    pub fn into_arc(self) -> (r: Arc<LimitedBuffer>)
        ensures
            *r == self,
    {
        Arc::new(self)
    }

    /// Copies as much of `buf` as fits into a new page and returns the number
    /// of bytes copied; once the buffer is full every write copies nothing.
    pub fn write(&mut self, buf: &[u8]) -> (r: usize)
        requires
            old(self).wf(),
        ensures
            final(self).wf(),
            final(self).cap() == old(self).cap(),
            r == min_int(old(self).cap() - old(self).content().len(), buf@.len() as int),
            final(self).content() == write_step(old(self).cap(), old(self).content(), buf@),
            r > 0 ==> final(self).pages() == old(self).pages().push(buf@.take(r as int)),
            r == 0 ==> final(self).pages() == old(self).pages(),
    {
        let limit_len = self.capacity - self.content_len;
        let copy_len = if buf.len() < limit_len {
            buf.len()
        } else {
            limit_len
        };
        if copy_len == 0 {
            assert(buf@.take(0) =~= Seq::<u8>::empty());
            assert(write_step(self.cap(), self.content(), buf@) =~= self.content());
            return 0;
        }
        let page = vstd::slice::slice_to_vec(vstd::slice::slice_subrange(buf, 0, copy_len));
        let ghost old_pages = self.pages();
        self.buffer.push(page);
        self.content_len = self.content_len + copy_len;
        proof {
            assert(self.pages() =~= old_pages.push(page@));
            old_pages.lemma_flatten_push(page@);
            assert(page@ =~= buf@.take(copy_len as int));
        }
        copy_len
    }
}

/// A read cursor over a shared [`LimitedBuffer`]: it keeps its own position and
/// never changes the buffer, so any number of cursors can read one buffer.
pub struct LimitedBufferReader {
    buffer: Arc<LimitedBuffer>,
    page_index: usize,
    page_offset: usize,
    byte_offset: usize,
}

impl LimitedBufferReader {
    /// The buffer read from.
    pub closed spec fn source(&self) -> LimitedBuffer {
        *self.buffer
    }

    /// Logical offset of the next byte to read.
    pub closed spec fn offset(&self) -> nat {
        self.byte_offset as nat
    }

    pub closed spec fn wf(&self) -> bool {
        let pages = self.buffer.pages();
        &&& self.buffer.wf()
        &&& self.page_index <= pages.len()
        &&& self.page_index < pages.len() ==> self.page_offset < pages[self.page_index as int].len()
        &&& self.page_index == pages.len() ==> self.page_offset == 0
        &&& self.byte_offset == page_start(pages, self.page_index as int) + self.page_offset
    }

    pub fn new(buffer: Arc<LimitedBuffer>) -> (r: Self)
        requires
            buffer.wf(),
        ensures
            r.wf(),
            r.source() == *buffer,
            r.offset() == 0,
    {
        let r = LimitedBufferReader { buffer, page_index: 0, page_offset: 0, byte_offset: 0 };
        assert(r.buffer.pages().take(0) =~= Seq::<Seq<u8>>::empty());
        r
    }

    /// Logical offset of the cursor in the buffer.
    pub fn pos(&self) -> (r: usize)
        ensures
            r == self.offset(),
    {
        self.byte_offset
    }

    /// Bytes left between the cursor and the end of the content.
    pub fn remaining(&self) -> (r: usize)
        requires
            self.wf(),
        ensures
            r == self.source().content().len() - self.offset(),
    {
        proof {
            lemma_cursor_position(
                self.buffer.pages(),
                self.page_index as int,
                self.page_offset as int,
            );
        }
        self.buffer.content_len - self.byte_offset
    }

    /// Moves the cursor to logical offset `offset`, or to the end of the
    /// content where `offset` lies past it. The position is found by walking
    /// the pages from the first one.
    pub fn seek_to(&mut self, offset: usize)
        requires
            old(self).wf(),
        ensures
            final(self).wf(),
            final(self).source() == old(self).source(),
            final(self).offset() == min_int(offset as int, old(self).source().content().len() as int),
    {
        let ghost pages = self.buffer.pages();
        if offset >= self.buffer.content_len {
            self.page_index = self.buffer.buffer.len();
            self.page_offset = 0;
            self.byte_offset = self.buffer.content_len;
            assert(pages.take(pages.len() as int) =~= pages);
            return;
        }
        let mut advance: usize = offset;
        let mut index: usize = 0;
        proof {
            assert(pages.take(0) =~= Seq::<Seq<u8>>::empty());
            assert(pages.take(pages.len() as int) =~= pages);
        }
        loop
            invariant
                pages == self.buffer.pages(),
                self.buffer == old(self).buffer,
                self.buffer.wf(),
                offset < self.buffer.content().len(),
                page_start(pages, pages.len() as int) == self.buffer.content().len(),
                index <= pages.len(),
                advance + page_start(pages, index as int) == offset,
            decreases pages.len() - index,
        {
            if index == self.buffer.buffer.len() {
                assert(false);
            }
            let page_len = self.buffer.buffer[index].len();
            proof {
                lemma_take_succ(pages, index as int);
            }
            if advance >= page_len {
                index = index + 1;
                advance = advance - page_len;
            } else {
                self.page_index = index;
                self.page_offset = advance;
                self.byte_offset = offset;
                return;
            }
        }
    }

    /// Copies bytes from the cursor into `dst`, up to its length but not past
    /// the end of the current page, and moves the cursor past them. Returns the
    /// number copied: zero only when `dst` is empty or the content is used up.
    pub fn read(&mut self, dst: &mut [u8]) -> (r: usize)
        requires
            old(self).wf(),
        ensures
            final(self).wf(),
            final(self).source() == old(self).source(),
            r == old(self).source().read_len(old(self).offset() as int, old(dst)@.len() as int),
            final(self).offset() == old(self).offset() + r,
            final(dst)@.len() == old(dst)@.len(),
            final(dst)@.take(r as int) == old(self).source().content().subrange(
                old(self).offset() as int,
                old(self).offset() + r,
            ),
            final(dst)@.skip(r as int) == old(dst)@.skip(r as int),
    {
        let ghost pages = self.buffer.pages();
        proof {
            lemma_cursor_position(pages, self.page_index as int, self.page_offset as int);
        }
        if self.page_index == self.buffer.buffer.len() {
            assert(dst@.take(0) =~= Seq::<u8>::empty());
            assert(self.buffer.content().subrange(
                self.byte_offset as int,
                self.byte_offset as int,
            ) =~= Seq::<u8>::empty());
            return 0;
        }
        let page = &self.buffer.buffer[self.page_index];
        let start = self.page_offset;
        let page_len = page.len();
        let available = page_len - start;
        let copy_len = if dst.len() < available {
            dst.len()
        } else {
            available
        };
        let ghost dst0 = dst@;
        let ghost content = self.buffer.content();
        let ghost base = page_start(pages, self.page_index as int);
        let ghost pi = self.page_index as int;
        let mut i: usize = 0;
        while i < copy_len
            invariant
                i <= copy_len,
                copy_len <= dst0.len(),
                start + copy_len <= page_len,
                page@.len() == page_len,
                0 <= pi < pages.len(),
                page@ == pages[pi],
                dst@.len() == dst0.len(),
                base + page@.len() <= content.len(),
                forall|j: int| 0 <= j < page@.len() ==> content[base + j] == #[trigger] page@[j],
                forall|j: int| 0 <= j < i ==> dst@[j] == content[base + start + j],
                forall|j: int| i <= j < dst0.len() ==> dst@[j] == dst0[j],
            decreases copy_len - i,
        {
            dst[i] = page[start + i];
            i = i + 1;
        }
        proof {
            assert(dst@.take(copy_len as int) =~= content.subrange(
                base + start,
                base + start + copy_len,
            ));
            assert(dst@.skip(copy_len as int) =~= dst0.skip(copy_len as int));
        }
        self.page_offset = self.page_offset + copy_len;
        self.byte_offset = self.byte_offset + copy_len;
        if self.page_offset == page.len() {
            proof {
                lemma_take_succ(pages, self.page_index as int);
            }
            self.page_index = self.page_index + 1;
            self.page_offset = 0;
        }
        copy_len
    }
}

/// Content of a buffer of capacity `cap` holding `start` after `chunks` have
/// been written into it in order, each write cut short at the capacity.
pub open spec fn after_writes(cap: nat, start: Seq<u8>, chunks: Seq<Seq<u8>>) -> Seq<u8>
    decreases chunks.len(),
{
    if chunks.len() == 0 {
        start
    } else {
        write_step(cap, after_writes(cap, start, chunks.drop_last()), chunks.last())
    }
}

/// Where a cursor at `pos` stands after reads asking for `wants`, in order.
pub open spec fn read_end(b: LimitedBuffer, pos: int, wants: Seq<int>) -> int
    decreases wants.len(),
{
    if wants.len() == 0 {
        pos
    } else {
        read_end(b, pos + b.read_len(pos, wants[0]), wants.drop_first())
    }
}

/// The bytes handed out by reads asking for `wants`, in order, from a cursor
/// at `pos`, put one after the other.
pub open spec fn read_back(b: LimitedBuffer, pos: int, wants: Seq<int>) -> Seq<u8>
    decreases wants.len(),
{
    if wants.len() == 0 {
        Seq::empty()
    } else {
        let n = b.read_len(pos, wants[0]);
        b.content().subrange(pos, pos + n) + read_back(b, pos + n, wants.drop_first())
    }
}

proof fn lemma_run_from_bounds(pages: Seq<Seq<u8>>, pos: int)
    requires
        0 <= pos,
    ensures
        run_from(pages, pos) >= 0,
        pos <= pages.flatten().len() ==> pos + run_from(pages, pos) <= pages.flatten().len(),
        pos < pages.flatten().len() ==> run_from(pages, pos) > 0,
        pos >= pages.flatten().len() ==> run_from(pages, pos) == 0,
    decreases pages.len(),
{
    if pages.len() > 0 {
        assert(pages.flatten() == pages[0] + pages.drop_first().flatten());
        if pos >= pages[0].len() {
            lemma_run_from_bounds(pages.drop_first(), pos - pages[0].len());
        }
    }
}

/// A read asking for `want` bytes hands out no more than it asked for and no
/// more than is left; it hands out nothing exactly when nothing was asked for
/// or the cursor stands at the end.
pub proof fn lemma_read_progress(b: LimitedBuffer, pos: int, want: int)
    requires
        b.wf(),
        0 <= pos <= b.content().len(),
        0 <= want,
    ensures
        0 <= b.read_len(pos, want) <= want,
        pos + b.read_len(pos, want) <= b.content().len(),
        b.read_len(pos, want) == 0 <==> (want == 0 || pos == b.content().len()),
{
    lemma_run_from_bounds(b.pages(), pos);
}

/// Reads one after the other from a cursor hand out the content from the
/// cursor on, in order and without gaps, wherever the page boundaries fall.
pub proof fn lemma_sequential_reads(b: LimitedBuffer, pos: int, wants: Seq<int>)
    requires
        b.wf(),
        0 <= pos <= b.content().len(),
        forall|i: int| 0 <= i < wants.len() ==> wants[i] >= 0,
    ensures
        pos <= read_end(b, pos, wants) <= b.content().len(),
        read_back(b, pos, wants) == b.content().subrange(pos, read_end(b, pos, wants)),
    decreases wants.len(),
{
    if wants.len() > 0 {
        lemma_read_progress(b, pos, wants[0]);
        let n = b.read_len(pos, wants[0]);
        let rest = wants.drop_first();
        assert forall|i: int| 0 <= i < rest.len() implies rest[i] >= 0 by {
            assert(rest[i] == wants[i + 1]);
        }
        lemma_sequential_reads(b, pos + n, rest);
        assert(b.content().subrange(pos, pos + n) + b.content().subrange(
            pos + n,
            read_end(b, pos + n, rest),
        ) =~= b.content().subrange(pos, read_end(b, pos + n, rest)));
    }
}

/// Writes whose lengths add up to no more than the capacity are kept whole:
/// the content is the chunks one after the other.
pub proof fn lemma_writes_within_capacity(cap: nat, chunks: Seq<Seq<u8>>)
    requires
        chunks.flatten().len() <= cap,
    ensures
        after_writes(cap, Seq::empty(), chunks) == chunks.flatten(),
    decreases chunks.len(),
{
    if chunks.len() > 0 {
        let init = chunks.drop_last();
        assert(chunks =~= init.push(chunks.last()));
        init.lemma_flatten_push(chunks.last());
        lemma_writes_within_capacity(cap, init);
        assert(chunks.last().take(chunks.last().len() as int) =~= chunks.last());
    }
}

/// Writing `n` bytes in all leaves a content of `n` bytes while `n` fits the
/// capacity, and of exactly the capacity otherwise; once the buffer is full, a
/// write copies nothing.
pub proof fn lemma_writes_truncate(cap: nat, chunks: Seq<Seq<u8>>)
    ensures
        after_writes(cap, Seq::empty(), chunks).len() == min_int(
            cap as int,
            chunks.flatten().len() as int,
        ),
        after_writes(cap, Seq::empty(), chunks).len() == cap ==> forall|n: int|
            #![trigger min_int(cap - after_writes(cap, Seq::empty(), chunks).len(), n)]
            0 <= n ==> min_int(cap - after_writes(cap, Seq::empty(), chunks).len(), n) == 0,
    decreases chunks.len(),
{
    if chunks.len() > 0 {
        let init = chunks.drop_last();
        assert(chunks =~= init.push(chunks.last()));
        init.lemma_flatten_push(chunks.last());
        lemma_writes_truncate(cap, init);
    } else {
        assert(chunks.flatten() =~= Seq::<u8>::empty());
    }
}

/// Seeking to an offset within the content puts the next read there; seeking
/// past the end puts the cursor at the end, where a read hands out nothing.
pub proof fn lemma_seek_then_read(b: LimitedBuffer, offset: int, want: int)
    requires
        b.wf(),
        0 <= offset,
        0 <= want,
    ensures
        offset <= b.content().len() ==> min_int(offset, b.content().len() as int) == offset,
        offset >= b.content().len() ==> b.read_len(min_int(offset, b.content().len() as int), want)
            == 0,
{
    lemma_read_progress(b, min_int(offset, b.content().len() as int), want);
}

/// Two cursors over one buffer, each reading from the start with requests of
/// its own sizes, hand out the same bytes in the same order: each gets a
/// prefix of the content, so the one that has read less has read a prefix of
/// what the other has.
pub proof fn lemma_cursors_agree(b: LimitedBuffer, wants1: Seq<int>, wants2: Seq<int>)
    requires
        b.wf(),
        forall|i: int| 0 <= i < wants1.len() ==> wants1[i] >= 0,
        forall|i: int| 0 <= i < wants2.len() ==> wants2[i] >= 0,
    ensures
        read_back(b, 0, wants1) == b.content().take(read_end(b, 0, wants1)),
        read_back(b, 0, wants2) == b.content().take(read_end(b, 0, wants2)),
        read_end(b, 0, wants1) <= read_end(b, 0, wants2) ==> read_back(b, 0, wants1)
            =~= read_back(b, 0, wants2).take(read_end(b, 0, wants1)),
{
    lemma_sequential_reads(b, 0, wants1);
    lemma_sequential_reads(b, 0, wants2);
    assert(b.content().subrange(0, read_end(b, 0, wants1)) =~= b.content().take(
        read_end(b, 0, wants1),
    ));
    assert(b.content().subrange(0, read_end(b, 0, wants2)) =~= b.content().take(
        read_end(b, 0, wants2),
    ));
}

} // verus!
