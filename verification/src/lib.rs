//! Buffered random-access reads over a positional byte source.
//!
//! A `BufOffsetReader` wraps a source that supports positional reads and keeps
//! one fixed-capacity page of it in memory, so that small, scattered reads of
//! nearby offsets are served without touching the source again. The page is
//! replaced wholesale on any miss, which favours forward, local access
//! patterns; backward or scattered access degrades to one page load per call.

use vstd::prelude::*;

pub mod range;

verus! {

use crate::range::ByteRange;
use crate::range::RangeExt;
use crate::range::empty_range;
use crate::range::range_intersect;
use crate::range::range_is_empty;
use crate::range::range_len;
use crate::range::lemma_contains_bounds;
use crate::range::lemma_contains_subrange;

/// Relies on `std::io::Error` as an opaque failure value: the reader never
/// inspects one, it only passes on whatever the source reported.
#[verifier::external_type_specification]
#[verifier::external_body]
pub struct ExIoError(std::io::Error);

/// The default cache-page capacity in bytes.
pub const DEFAULT_BUF_SIZE: usize = 8 * 1024;

/// The number of bytes a positional read of `len` bytes at `offset` yields
/// over a source of `src.len()` bytes: all `len` bytes where the source
/// reaches that far, fewer only at end-of-source, none at or past it.
pub open spec fn read_count(src: Seq<u8>, offset: int, len: int) -> int
    recommends
        0 <= offset,
        0 <= len,
{
    if offset >= src.len() {
        0
    } else if len <= src.len() - offset {
        len
    } else {
        src.len() - offset
    }
}

/// The absolute byte range a request of `len` bytes at `offset` asks for.
pub open spec fn req_range(offset: u64, len: nat) -> ByteRange
    recommends
        offset + len <= usize::MAX,
{
    ByteRange { start: offset as usize, end: (offset + len) as usize }
}

/// The resident range after a page reload of `cap` bytes at `offset`.
pub open spec fn loaded_range(src: Seq<u8>, offset: u64, cap: nat) -> ByteRange
    recommends
        offset + cap <= usize::MAX,
{
    ByteRange {
        start: offset as usize,
        end: (offset + read_count(src, offset as int, cap as int)) as usize,
    }
}

/// A positional-read capability over a byte source, callable through a shared
/// reference: reading depends on no cursor and mutates no visible state.
pub trait OffsetRead {
    /// The byte content of the source. An implementation outside this crate
    /// that leaves the default in place is modelled as empty; nothing proved
    /// here depends on such an implementation's behaviour.
    open spec fn source(&self) -> Seq<u8> {
        Seq::empty()
    }

    /// Reads up to `buf.len()` bytes starting at absolute offset `offset`
    /// into the front of `buf`, returning how many were read: fewer than
    /// requested only at end-of-source, zero at or past it. Bytes past the
    /// count, and all of `buf` on failure, are left untouched.
    fn read_at(&self, buf: &mut [u8], offset: u64) -> (r: Result<usize, std::io::Error>)
        ensures
            final(buf)@.len() == old(buf)@.len(),
            (match r {
                Ok(n) => {
                    &&& n as int == read_count(self.source(), offset as int, old(buf)@.len() as int)
                    &&& (forall|i: int|
                        0 <= i < n ==> final(buf)@[i] == self.source()[offset + i])
                    &&& (forall|i: int|
                        n <= i < old(buf)@.len() ==> final(buf)@[i] == old(buf)@[i])
                },
                Err(_) => final(buf)@ == old(buf)@,
            }),
    ;
}

/// A positional-read capability that may update internal state, such as a
/// cache, while serving a read.
pub trait OffsetReadMut {
    /// What a call must satisfy; machine-width bounds and the like.
    spec fn read_req(&self, offset: u64, len: nat) -> bool;

    /// Reads up to `buf.len()` bytes starting at absolute offset `offset`
    /// into the front of `buf`, returning how many were read.
    fn read_at(&mut self, buf: &mut [u8], offset: u64) -> (r: Result<usize, std::io::Error>)
        requires
            old(self).read_req(offset, old(buf)@.len() as nat),
        ensures
            final(buf)@.len() == old(buf)@.len(),
    ;
}

/// A positional-write capability. The write side of a source is outside this
/// library's model and carries no contract here; it is offered because code
/// that reads at offsets often wants to write at offsets too.
pub trait OffsetWrite {
    /// Writes `buf` at absolute offset `offset`, returning how many bytes
    /// were written.
    fn write_at(&self, buf: &[u8], offset: u64) -> Result<usize, std::io::Error>;
}

impl OffsetRead for &[u8] {
    /// A byte slice is its own source content.
    open spec fn source(&self) -> Seq<u8> {
        self@
    }

    /// Reading from an in-memory slice cannot fail.
    fn read_at(&self, buf: &mut [u8], offset: u64) -> (r: Result<usize, std::io::Error>)
        ensures
            r is Ok,
    {
        let slen: usize = self.len();
        if offset >= slen as u64 {
            return Ok(0);
        }
        let off: usize = offset as usize;
        let avail: usize = slen - off;
        let len: usize = buf.len();
        let n: usize = if len <= avail {
            len
        } else {
            avail
        };
        let mut k: usize = 0;
        while k < n
            invariant
                k <= n,
                n <= avail,
                off + avail == self@.len(),
                off + avail <= usize::MAX,
                n <= buf@.len(),
                buf@.len() == old(buf)@.len(),
                forall|i: int| 0 <= i < k ==> buf@[i] == self@[off + i],
                forall|i: int| k <= i < buf@.len() ==> buf@[i] == old(buf)@[i],
            decreases n - k,
        {
            let b: u8 = self[off + k];
            buf[k] = b;
            k += 1;
        }
        Ok(n)
    }
}

/// A buffered positional reader: one source handle plus one cache page, the
/// pair of a fixed-capacity byte buffer and the source range it holds.
pub struct BufOffsetReader<R: OffsetRead> {
    inner: R,
    range: ByteRange,
    buffer: Vec<u8>,
}

impl<R: OffsetRead> BufOffsetReader<R> {
    /// The byte content of the wrapped source.
    pub closed spec fn spec_source(&self) -> Seq<u8> {
        self.inner.source()
    }

    /// The fixed size of the cache page.
    pub closed spec fn spec_capacity(&self) -> nat {
        self.buffer@.len()
    }

    /// The source byte range the cache page currently holds.
    pub closed spec fn resident(&self) -> ByteRange {
        self.range
    }

    /// Whether `r` lies entirely within the resident range.
    pub open spec fn spec_contains(&self, r: ByteRange) -> bool {
        range_intersect(self.resident(), r) == r
    }

    /// Whether a request of `len` bytes at `offset` is answered from the
    /// cache page alone, with no read issued to the source.
    pub open spec fn serves_from_cache(&self, offset: u64, len: nat) -> bool {
        len == 0 || self.spec_contains(req_range(offset, len))
    }

    /// The resident range after a successful read of `len` bytes at `offset`:
    /// unchanged when the request bypasses the cache or is already resident,
    /// else the freshly loaded page.
    pub open spec fn resident_after_read(&self, offset: u64, len: nat) -> ByteRange {
        if len > self.spec_capacity() {
            self.resident()
        } else if self.serves_from_cache(offset, len) {
            self.resident()
        } else {
            loaded_range(self.spec_source(), offset, self.spec_capacity())
        }
    }

    /// The cache page never claims more than the buffer holds, claims only a
    /// range the source has, and holds that range's bytes exactly.
    #[verifier::type_invariant]
    pub closed spec fn wf(&self) -> bool {
        &&& self.range.start <= self.range.end
        &&& range_len(self.range) <= self.buffer@.len()
        &&& (!range_is_empty(self.range) ==> self.range.end <= self.inner.source().len())
        &&& (forall|i: int|
            0 <= i < range_len(self.range) ==> self.buffer@[i] == self.inner.source()[self.range.start
                + i])
    }

    /// Creates a reader with the default page capacity.
    pub fn new(inner: R) -> (r: BufOffsetReader<R>)
        ensures
            r.spec_capacity() == DEFAULT_BUF_SIZE,
            r.resident() == empty_range(),
            r.spec_source() == inner.source(),
    {
        BufOffsetReader::with_capacity(DEFAULT_BUF_SIZE, inner)
    }

    /// Creates a reader whose cache page holds `cap` bytes. A capacity of
    /// zero is degenerate but allowed: every read then bypasses the cache.
    pub fn with_capacity(cap: usize, inner: R) -> (r: BufOffsetReader<R>)
        ensures
            r.spec_capacity() == cap,
            r.resident() == empty_range(),
            r.spec_source() == inner.source(),
    {
        let mut buffer: Vec<u8> = Vec::new();
        while buffer.len() < cap
            invariant
                buffer@.len() <= cap,
            decreases cap - buffer@.len(),
        {
            buffer.push(0u8);
        }
        BufOffsetReader { inner, range: ByteRange { start: 0, end: 0 }, buffer }
    }

    /// The fixed cache-page size, constant for the reader's lifetime.
    pub fn capacity(&self) -> (c: usize)
        ensures
            c == self.spec_capacity(),
    {
        self.buffer.len()
    }

    /// Whether the byte range `r` of the source is currently held in the
    /// cache page. Observation only: no load is triggered.
    pub fn contains(&self, r: ByteRange) -> (b: bool)
        ensures
            b == self.spec_contains(r),
    {
        self.range.intersect(&r) == r
    }

    /// Forgets the cached page, so the next read goes to the source. The one
    /// way to see bytes written to the source behind the reader's back.
    pub fn clear(&mut self)
        ensures
            final(self).resident() == empty_range(),
            final(self).spec_source() == old(self).spec_source(),
            final(self).spec_capacity() == old(self).spec_capacity(),
    {
        self.range = ByteRange { start: 0, end: 0 };
    }

    /// Replaces the cache page wholesale: one positional read of a full page
    /// starting at `offset`, whose outcome becomes the resident range. A
    /// failed load leaves the previous page resident.
    fn load_page_at_offset(&mut self, offset: u64) -> (r: Result<usize, std::io::Error>)
        requires
            offset + old(self).spec_capacity() <= usize::MAX,
        ensures
            final(self).spec_source() == old(self).spec_source(),
            final(self).spec_capacity() == old(self).spec_capacity(),
            (match r {
                Ok(n) => {
                    &&& n as int == read_count(
                        old(self).spec_source(),
                        offset as int,
                        old(self).spec_capacity() as int,
                    )
                    &&& final(self).resident() == loaded_range(
                        old(self).spec_source(),
                        offset,
                        old(self).spec_capacity(),
                    )
                },
                Err(_) => final(self).resident() == old(self).resident(),
            }),
    {
        proof {
            use_type_invariant(&*self);
        }
        let saved = self.range;
        self.range = ByteRange { start: 0, end: 0 };
        let mut page: Vec<u8> = Vec::new();
        std::mem::swap(&mut page, &mut self.buffer);
        let res = self.inner.read_at(page.as_mut_slice(), offset);
        std::mem::swap(&mut page, &mut self.buffer);
        match res {
            Ok(count) => {
                self.range = ByteRange { start: offset as usize, end: offset as usize + count };
                Ok(count)
            },
            Err(e) => {
                self.range = saved;
                Err(e)
            },
        }
    }

    /// Copies the bytes of source range `r`, which must be resident, out of
    /// the cache page into the front of `buf`; an empty `r` copies nothing.
    fn copy_range_to_slice(&self, r: &ByteRange, buf: &mut [u8])
        requires
            !range_is_empty(*r) ==> self.resident().start <= r.start && r.end
                <= self.resident().end && range_len(*r) <= old(buf)@.len(),
        ensures
            final(buf)@.len() == old(buf)@.len(),
            range_is_empty(*r) ==> final(buf)@ == old(buf)@,
            !range_is_empty(*r) ==> (forall|i: int|
                0 <= i < range_len(*r) ==> final(buf)@[i] == self.spec_source()[r.start + i]),
            !range_is_empty(*r) ==> (forall|i: int|
                range_len(*r) <= i < old(buf)@.len() ==> final(buf)@[i] == old(buf)@[i]),
    {
        proof {
            use_type_invariant(&*self);
        }
        let n: usize = r.len();
        if n > 0 {
            let src_r = r.shift_left(self.range.start);
            let mut k: usize = 0;
            while k < n
                invariant
                    k <= n,
                    !range_is_empty(*r),
                    n == range_len(*r),
                    src_r == crate::range::range_shift_left(*r, self.resident().start),
                    self.resident().start <= r.start,
                    r.end <= self.resident().end,
                    self.wf(),
                    n <= buf@.len(),
                    buf@.len() == old(buf)@.len(),
                    forall|i: int| 0 <= i < k ==> buf@[i] == self.spec_source()[r.start + i],
                    forall|i: int| k <= i < buf@.len() ==> buf@[i] == old(buf)@[i],
                decreases n - k,
            {
                let b: u8 = self.buffer[src_r.start + k];
                buf[k] = b;
                k += 1;
            }
        }
    }
}

impl<R: OffsetRead> OffsetReadMut for BufOffsetReader<R> {
    /// A read needs the requested range and a full page at its offset to fit
    /// the machine's address width, since both index the source in `usize`.
    open spec fn read_req(&self, offset: u64, len: nat) -> bool {
        &&& offset + len <= usize::MAX
        &&& offset + self.spec_capacity() <= usize::MAX
    }

    /// The core operation. A request larger than the capacity bypasses the
    /// cache and goes straight to the source; a request fully resident is
    /// answered from the cache page with no source read and no state change;
    /// any other request first replaces the page by one full load at the
    /// requested offset. The returned count falls short of `buf.len()` only
    /// when the request extends past end-of-source; a failed load is passed
    /// on unchanged and leaves the previously resident page intact.
    fn read_at(&mut self, buf: &mut [u8], offset: u64) -> (r: Result<usize, std::io::Error>)
        ensures
            final(self).spec_source() == old(self).spec_source(),
            final(self).spec_capacity() == old(self).spec_capacity(),
            (match r {
                Ok(n) => {
                    &&& n as int == read_count(
                        old(self).spec_source(),
                        offset as int,
                        old(buf)@.len() as int,
                    )
                    &&& (forall|i: int|
                        0 <= i < n ==> final(buf)@[i] == old(self).spec_source()[offset + i])
                    &&& (forall|i: int|
                        n <= i < old(buf)@.len() ==> final(buf)@[i] == old(buf)@[i])
                    &&& final(self).resident() == old(self).resident_after_read(
                        offset,
                        old(buf)@.len() as nat,
                    )
                },
                Err(_) => {
                    &&& final(self).resident() == old(self).resident()
                    &&& final(buf)@ == old(buf)@
                },
            }),
            old(self).serves_from_cache(offset, old(buf)@.len() as nat) ==> final(self).resident()
                == old(self).resident() && r is Ok,
            old(buf)@.len() > old(self).spec_capacity() ==> final(self).resident() == old(
                self,
            ).resident(),
    {
        proof {
            use_type_invariant(&*self);
        }
        let len: usize = buf.len();
        if len > self.buffer.len() {
            proof {
                if old(self).serves_from_cache(offset, len as nat) {
                    lemma_contains_bounds(self.range, req_range(offset, len as nat));
                }
            }
            return self.inner.read_at(buf, offset);
        }
        let req = ByteRange { start: offset as usize, end: offset as usize + len };
        let mut avail = self.range.intersect(&req);
        if avail.len() < len {
            proof {
                if old(self).serves_from_cache(offset, len as nat) {
                    lemma_contains_bounds(self.range, req_range(offset, len as nat));
                }
            }
            match self.load_page_at_offset(offset) {
                Ok(_) => {},
                Err(e) => {
                    return Err(e);
                },
            }
            avail = self.range.intersect(&req);
        }
        proof {
            use_type_invariant(&*self);
            if !range_is_empty(avail) {
                lemma_contains_bounds(self.range, avail);
            }
        }
        let n: usize = avail.len();
        self.copy_range_to_slice(&avail, buf);
        Ok(n)
    }
}

/// Law: a read of a fully resident range is served from the cache. By
/// `read_at`'s contract such a read succeeds, leaves the resident range
/// unchanged, and returns all `len` bytes, pinned to the source content
/// alone; since the reader's visible state is unchanged, an immediately
/// repeated read of the same range is again fully resident and returns the
/// identical bytes.
pub proof fn lemma_resident_read_idempotent<R: OffsetRead>(
    reader: BufOffsetReader<R>,
    offset: u64,
    len: nat,
)
    requires
        reader.wf(),
        offset + len <= usize::MAX,
        reader.spec_contains(req_range(offset, len)),
    ensures
        reader.serves_from_cache(offset, len),
        reader.resident_after_read(offset, len) == reader.resident(),
        read_count(reader.spec_source(), offset as int, len as int) == len,
{
    if len > 0 {
        lemma_contains_bounds(reader.resident(), req_range(offset, len));
    }
}

/// Law: a read that misses the cache loads a full page at the requested
/// offset; when the source extends at least a full page past that offset,
/// every non-empty range within the loaded page is then fully resident, so
/// subsequent reads inside the page are served with no further source read.
pub proof fn lemma_miss_loads_full_page<R: OffsetRead>(
    reader: BufOffsetReader<R>,
    offset: u64,
    len: nat,
    q: ByteRange,
)
    requires
        offset + len <= usize::MAX,
        offset + reader.spec_capacity() <= usize::MAX,
        len <= reader.spec_capacity(),
        !reader.serves_from_cache(offset, len),
        reader.spec_source().len() >= offset + reader.spec_capacity(),
        !range_is_empty(q),
        offset <= q.start,
        q.end <= offset + reader.spec_capacity(),
    ensures
        range_intersect(reader.resident_after_read(offset, len), q) == q,
{
    let post = reader.resident_after_read(offset, len);
    lemma_contains_subrange(post, q);
}

} // verus!
