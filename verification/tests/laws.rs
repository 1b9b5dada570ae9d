use std::cell::Cell;
use std::cell::RefCell;
use std::rc::Rc;

use buffered_offset_reader::range::ByteRange;
use buffered_offset_reader::BufOffsetReader;
use buffered_offset_reader::OffsetRead;
use buffered_offset_reader::OffsetReadMut;

fn br(start: usize, end: usize) -> ByteRange {
    ByteRange { start, end }
}

/// An in-memory source that counts how many reads reach it and can be told
/// to fail every further read. The counter and the flag are shared handles,
/// so a test keeps access to them after the source moves into a reader.
struct CountingSource {
    data: Vec<u8>,
    reads: Rc<Cell<usize>>,
    failing: Rc<Cell<bool>>,
}

impl CountingSource {
    fn new(data: Vec<u8>) -> (CountingSource, Rc<Cell<usize>>, Rc<Cell<bool>>) {
        let reads = Rc::new(Cell::new(0));
        let failing = Rc::new(Cell::new(false));
        let src = CountingSource { data, reads: reads.clone(), failing: failing.clone() };
        (src, reads, failing)
    }
}

impl OffsetRead for CountingSource {
    fn read_at(&self, buf: &mut [u8], offset: u64) -> Result<usize, std::io::Error> {
        self.reads.set(self.reads.get() + 1);
        if self.failing.get() {
            return Err(std::io::Error::new(std::io::ErrorKind::Other, "source failure"));
        }
        let off: usize = offset as usize;
        if off >= self.data.len() {
            return Ok(0);
        }
        let n: usize = std::cmp::min(buf.len(), self.data.len() - off);
        buf[..n].copy_from_slice(&self.data[off..off + n]);
        Ok(n)
    }
}

/// A source whose content can be overwritten from outside, like a file
/// written to behind the reader's back.
struct MutableSource(Rc<RefCell<Vec<u8>>>);

impl OffsetRead for MutableSource {
    fn read_at(&self, buf: &mut [u8], offset: u64) -> Result<usize, std::io::Error> {
        let data = self.0.borrow();
        let off: usize = offset as usize;
        if off >= data.len() {
            return Ok(0);
        }
        let n: usize = std::cmp::min(buf.len(), data.len() - off);
        buf[..n].copy_from_slice(&data[off..off + n]);
        Ok(n)
    }
}

#[test]
fn repeated_resident_read_is_idempotent() -> Result<(), std::io::Error> {
    let v = (0..200).into_iter().collect::<Vec<u8>>();
    let (src, _reads, _failing) = CountingSource::new(v);
    let mut r = BufOffsetReader::with_capacity(64, src);

    let mut first = [0, 0, 0, 0];
    r.read_at(&mut first, 20)?;
    assert!(r.contains(br(20, 24)));

    let mut second = [9, 9, 9, 9];
    let n: usize = r.read_at(&mut second, 20)?;
    assert_eq!(n, 4);
    assert_eq!(first, second);
    assert_eq!(first, [20, 21, 22, 23]);
    // The resident range did not change.
    assert!(r.contains(br(20, 24)));
    assert!(r.contains(br(20, 84)));
    Ok(())
}

#[test]
fn cache_hit_issues_no_source_read() -> Result<(), std::io::Error> {
    let v = (0..200).into_iter().collect::<Vec<u8>>();
    let (src, reads, _failing) = CountingSource::new(v);
    let mut r = BufOffsetReader::with_capacity(64, src);

    let mut tmp = [0, 0, 0, 0];
    r.read_at(&mut tmp, 0)?;
    assert_eq!(reads.get(), 1);

    // Any sub-range of the loaded page is now resident and is served with no
    // further read reaching the source.
    assert!(r.contains(br(40, 50)));
    let mut tmp2 = vec![0; 10];
    let n: usize = r.read_at(&mut tmp2, 40)?;
    assert_eq!(n, 10);
    assert_eq!(&tmp2, &[40, 41, 42, 43, 44, 45, 46, 47, 48, 49]);
    assert_eq!(reads.get(), 1);

    // A miss does reach the source again.
    r.read_at(&mut tmp, 100)?;
    assert_eq!(reads.get(), 2);
    Ok(())
}

#[test]
fn cache_hit_survives_failing_source() -> Result<(), std::io::Error> {
    let v = (0..200).into_iter().collect::<Vec<u8>>();
    let (src, _reads, failing) = CountingSource::new(v);
    let mut r = BufOffsetReader::with_capacity(64, src);

    let mut tmp = [0, 0, 0, 0];
    r.read_at(&mut tmp, 0)?;
    assert!(r.contains(br(0, 64)));

    // The source now fails every read that reaches it.
    failing.set(true);

    // Fully resident: served from the cache, so no failure.
    let mut tmp2 = [0, 0, 0, 0];
    let n: usize = r.read_at(&mut tmp2, 60)?;
    assert_eq!(n, 4);
    assert_eq!(&tmp2, &[60, 61, 62, 63]);

    // A miss reaches the failing source: the failure is passed on and the
    // previously resident page stays intact.
    let mut tmp3 = [0, 0, 0, 0];
    assert!(r.read_at(&mut tmp3, 100).is_err());
    assert!(r.contains(br(0, 64)));
    let n: usize = r.read_at(&mut tmp2, 0)?;
    assert_eq!(n, 4);
    assert_eq!(&tmp2, &[0, 1, 2, 3]);
    Ok(())
}

#[test]
fn boundary_read_at_end_of_source() -> Result<(), std::io::Error> {
    let v = (0..200).into_iter().collect::<Vec<u8>>();
    let mut r = BufOffsetReader::with_capacity(64, &v[..]);

    let mut tmp = [111, 111, 111, 111];
    let n: usize = r.read_at(&mut tmp, 197)?;
    assert_eq!(n, 3);
    assert_eq!(&tmp[0..3], &[197, 198, 199]);
    // The byte past the returned count is untouched.
    assert_eq!(tmp[3], 111);

    let n: usize = r.read_at(&mut tmp, 200)?;
    assert_eq!(n, 0);
    Ok(())
}

#[test]
fn oversized_request_bypasses_cache() -> Result<(), std::io::Error> {
    let v = (0..200).into_iter().collect::<Vec<u8>>();
    let mut r = BufOffsetReader::with_capacity(64, &v[..]);

    let mut tmp = [0, 0, 0, 0];
    r.read_at(&mut tmp, 0)?;
    assert!(r.contains(br(0, 4)));

    let mut big = vec![0; 100];
    let n: usize = r.read_at(&mut big, 100)?;
    assert_eq!(n, 100);
    assert_eq!(big[0], 100);
    assert_eq!(big[99], 199);

    // The cache was bypassed: the prior page is still the resident one.
    assert!(r.contains(br(0, 4)));
    assert!(!r.contains(br(100, 104)));
    Ok(())
}

#[test]
fn stale_cache_until_cleared() -> Result<(), std::io::Error> {
    let shared = Rc::new(RefCell::new(vec![1, 2, 3, 4]));
    let mut r = BufOffsetReader::with_capacity(64, MutableSource(shared.clone()));

    let mut tmp = [0, 0, 0, 0];
    r.read_at(&mut tmp, 0)?;
    assert_eq!(&tmp, &[1, 2, 3, 4]);
    assert!(r.contains(br(0, 4)));

    // Mutate the source behind the reader's back.
    *shared.borrow_mut() = vec![5, 6, 7, 8];

    // The stale cached bytes are returned until the cache is invalidated.
    r.read_at(&mut tmp, 0)?;
    assert_eq!(&tmp, &[1, 2, 3, 4]);

    r.clear();
    assert!(!r.contains(br(0, 4)));
    r.read_at(&mut tmp, 0)?;
    assert_eq!(&tmp, &[5, 6, 7, 8]);
    Ok(())
}

#[test]
fn failed_first_read_leaves_cache_empty() {
    let (src, _reads, failing) = CountingSource::new((0..200).into_iter().collect::<Vec<u8>>());
    failing.set(true);
    let mut r = BufOffsetReader::with_capacity(64, src);

    let mut tmp = [0, 0, 0, 0];
    assert!(r.read_at(&mut tmp, 0).is_err());
    assert!(!r.contains(br(0, 4)));
    assert_eq!(&tmp, &[0, 0, 0, 0]);
}
