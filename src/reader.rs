use vstd::prelude::*;
use scroll::Pread;
use crate::result::{Error, Result};

verus! {

/// Byte order of the multi-byte integers of an image.
#[derive(Clone, Copy, Debug, PartialEq, Eq, Structural)]
pub enum Endian {
    Little,
    Big,
}

/// Unsigned value of `s`, least significant byte first.
pub open spec fn le_value(s: Seq<u8>) -> nat
    decreases s.len(),
{
    if s.len() == 0 {
        0
    } else {
        s[0] as nat + 256 * le_value(s.drop_first())
    }
}

/// Unsigned value of `s`, most significant byte first.
pub open spec fn be_value(s: Seq<u8>) -> nat
    decreases s.len(),
{
    if s.len() == 0 {
        0
    } else {
        be_value(s.drop_last()) * 256 + s.last() as nat
    }
}

/// The `n`-byte unsigned integer stored at `p` in `b` with byte order `e`.
pub open spec fn uint_at(b: Seq<u8>, p: int, n: int, e: Endian) -> nat {
    let s = b.subrange(p, p + n);
    match e {
        Endian::Little => le_value(s),
        Endian::Big => be_value(s),
    }
}

/// Relies on scroll's `Pread::pread_with::<u8>` on a byte slice: it succeeds exactly when a byte
/// stands at `offset`, and then returns it.
#[verifier::external_body]
fn pread_u8(bytes: &[u8], offset: usize, endian: Endian) -> (r: Option<u8>)
    ensures
        r is Some <==> offset + 1 <= bytes@.len(),
        r matches Some(v) ==> v as nat == uint_at(bytes@, offset as int, 1, endian),
{
    let ctx = match endian {
        Endian::Little => scroll::LE,
        Endian::Big => scroll::BE,
    };
    bytes.pread_with::<u8>(offset, ctx).ok()
}

/// Relies on scroll's `Pread::pread_with::<u16>` on a byte slice: it succeeds exactly when two
/// bytes stand at `offset`, and decodes them in the given byte order.
#[verifier::external_body]
fn pread_u16(bytes: &[u8], offset: usize, endian: Endian) -> (r: Option<u16>)
    ensures
        r is Some <==> offset + 2 <= bytes@.len(),
        r matches Some(v) ==> v as nat == uint_at(bytes@, offset as int, 2, endian),
{
    let ctx = match endian {
        Endian::Little => scroll::LE,
        Endian::Big => scroll::BE,
    };
    bytes.pread_with::<u16>(offset, ctx).ok()
}

/// Relies on scroll's `Pread::pread_with::<u32>` on a byte slice: it succeeds exactly when four
/// bytes stand at `offset`, and decodes them in the given byte order.
#[verifier::external_body]
fn pread_u32(bytes: &[u8], offset: usize, endian: Endian) -> (r: Option<u32>)
    ensures
        r is Some <==> offset + 4 <= bytes@.len(),
        r matches Some(v) ==> v as nat == uint_at(bytes@, offset as int, 4, endian),
{
    let ctx = match endian {
        Endian::Little => scroll::LE,
        Endian::Big => scroll::BE,
    };
    bytes.pread_with::<u32>(offset, ctx).ok()
}

/// Relies on scroll's `Pread::pread_with::<u64>` on a byte slice: it succeeds exactly when eight
/// bytes stand at `offset`, and decodes them in the given byte order.
#[verifier::external_body]
fn pread_u64(bytes: &[u8], offset: usize, endian: Endian) -> (r: Option<u64>)
    ensures
        r is Some <==> offset + 8 <= bytes@.len(),
        r matches Some(v) ==> v as nat == uint_at(bytes@, offset as int, 8, endian),
{
    let ctx = match endian {
        Endian::Little => scroll::LE,
        Endian::Big => scroll::BE,
    };
    bytes.pread_with::<u64>(offset, ctx).ok()
}

/// The bytes from `p` up to, not including, the first zero byte at or after `p`, or up to the
/// end of `b`.
pub open spec fn cstr_at(b: Seq<u8>, p: int) -> Seq<u8>
    decreases b.len() - p,
{
    if p < 0 || p >= b.len() || b[p] == 0 {
        Seq::empty()
    } else {
        seq![b[p]] + cstr_at(b, p + 1)
    }
}

/// Where a read of the zero-terminated string at `p` leaves the position: past its zero byte,
/// or at the end of `b` when none follows.
pub open spec fn after_cstr(b: Seq<u8>, p: int) -> int {
    let end = p + cstr_at(b, p).len();
    if end < b.len() {
        end + 1
    } else {
        b.len() as int
    }
}

/// A byte as it is shown in text: printable ASCII stays, anything else becomes `.`.
pub open spec fn printable_byte(c: u8) -> u8 {
    if 0x20 <= c && c <= 0x7e {
        c
    } else {
        0x2e
    }
}

/// Relies on `String::from_utf8_lossy`: ASCII bytes are valid UTF-8 and come out unchanged,
/// one character per byte.
#[verifier::external_body]
fn ascii_string(b: &[u8]) -> (r: String)
    requires
        forall|i: int| 0 <= i < b@.len() ==> b@[i] < 128,
    ensures
        r@ == b@.map_values(|c: u8| c as char),
{
    String::from_utf8_lossy(b).into_owned()
}

/// Where a reader gets its bytes from.
pub enum ReaderBuildOption<'a> {
    /// The outcome of loading a file: its contents, or the message of the failure.
    File(std::result::Result<Vec<u8>, String>),
    /// A buffer in memory, which the reader copies.
    Memory(&'a [u8]),
}

/// A seekable source of bytes, shared in turn by every decoder of one image.
/// Each decoder seeks to an absolute offset before it reads.
#[derive(Debug)]
pub struct Reader {
    bytes: Vec<u8>,
    pos: usize,
}

impl Reader {
    /// The bytes of the source.
    pub closed spec fn data(&self) -> Seq<u8> {
        self.bytes@
    }

    /// The absolute offset of the next read.
    pub closed spec fn position(&self) -> nat {
        self.pos as nat
    }

    /// A reader over `bytes`, positioned at their start.
    pub fn from_bytes(bytes: Vec<u8>) -> (r: Reader)
        ensures
            r.data() == bytes@,
            r.position() == 0,
    {
        Reader { bytes, pos: 0 }
    }

    /// Builds a reader over a file's contents or over a copy of a buffer. A file that could not
    /// be loaded gives `Error::Other` with the message of the failure.
    pub fn build(option: ReaderBuildOption) -> (r: Result<Reader>)
        ensures
            match option {
                ReaderBuildOption::File(Ok(v)) => r matches Ok(rd) && rd.data() == v@
                    && rd.position() == 0,
                ReaderBuildOption::File(Err(msg)) => r matches Err(Error::Other(m)) && m@ == msg@,
                ReaderBuildOption::Memory(m) => r matches Ok(rd) && rd.data() == m@
                    && rd.position() == 0,
            },
    {
        match option {
            ReaderBuildOption::File(Ok(v)) => Ok(Reader::from_bytes(v)),
            ReaderBuildOption::File(Err(msg)) => Err(Error::Other(msg)),
            ReaderBuildOption::Memory(m) => Ok(Reader::from_bytes(vstd::slice::slice_to_vec(m))),
        }
    }

    /// Number of bytes in the source.
    pub fn len(&self) -> (r: usize)
        ensures
            r == self.data().len(),
    {
        self.bytes.len()
    }

    /// Decodes a `u8` at the current position in byte order `endian` and moves past it;
    /// fails with `BadBufferLength`, without moving, when fewer than 1 bytes remain.
    pub fn read_u8(&mut self, endian: Endian) -> (r: Result<u8>)
        ensures
            final(self).data() == old(self).data(),
            old(self).position() + 1 <= old(self).data().len() ==> (r matches Ok(v)
                && v as nat == uint_at(old(self).data(), old(self).position() as int, 1, endian)
                && final(self).position() == old(self).position() + 1),
            old(self).position() + 1 > old(self).data().len() ==> (r matches Err(
                Error::BadBufferLength,
            ) && final(self).position() == old(self).position()),
    {
        let len = self.bytes.len();
        match pread_u8(self.bytes.as_slice(), self.pos, endian) {
            Some(v) => {
                assert(self.pos + 1 <= len);
                self.pos = self.pos + 1;
                Ok(v)
            },
            None => Err(Error::BadBufferLength),
        }
    }

    /// Decodes a `u16` at the current position in byte order `endian` and moves past it;
    /// fails with `BadBufferLength`, without moving, when fewer than 2 bytes remain.
    pub fn read_u16(&mut self, endian: Endian) -> (r: Result<u16>)
        ensures
            final(self).data() == old(self).data(),
            old(self).position() + 2 <= old(self).data().len() ==> (r matches Ok(v)
                && v as nat == uint_at(old(self).data(), old(self).position() as int, 2, endian)
                && final(self).position() == old(self).position() + 2),
            old(self).position() + 2 > old(self).data().len() ==> (r matches Err(
                Error::BadBufferLength,
            ) && final(self).position() == old(self).position()),
    {
        let len = self.bytes.len();
        match pread_u16(self.bytes.as_slice(), self.pos, endian) {
            Some(v) => {
                assert(self.pos + 2 <= len);
                self.pos = self.pos + 2;
                Ok(v)
            },
            None => Err(Error::BadBufferLength),
        }
    }

    /// Decodes a `u32` at the current position in byte order `endian` and moves past it;
    /// fails with `BadBufferLength`, without moving, when fewer than 4 bytes remain.
    pub fn read_u32(&mut self, endian: Endian) -> (r: Result<u32>)
        ensures
            final(self).data() == old(self).data(),
            old(self).position() + 4 <= old(self).data().len() ==> (r matches Ok(v)
                && v as nat == uint_at(old(self).data(), old(self).position() as int, 4, endian)
                && final(self).position() == old(self).position() + 4),
            old(self).position() + 4 > old(self).data().len() ==> (r matches Err(
                Error::BadBufferLength,
            ) && final(self).position() == old(self).position()),
    {
        let len = self.bytes.len();
        match pread_u32(self.bytes.as_slice(), self.pos, endian) {
            Some(v) => {
                assert(self.pos + 4 <= len);
                self.pos = self.pos + 4;
                Ok(v)
            },
            None => Err(Error::BadBufferLength),
        }
    }

    /// Decodes a `u64` at the current position in byte order `endian` and moves past it;
    /// fails with `BadBufferLength`, without moving, when fewer than 8 bytes remain.
    pub fn read_u64(&mut self, endian: Endian) -> (r: Result<u64>)
        ensures
            final(self).data() == old(self).data(),
            old(self).position() + 8 <= old(self).data().len() ==> (r matches Ok(v)
                && v as nat == uint_at(old(self).data(), old(self).position() as int, 8, endian)
                && final(self).position() == old(self).position() + 8),
            old(self).position() + 8 > old(self).data().len() ==> (r matches Err(
                Error::BadBufferLength,
            ) && final(self).position() == old(self).position()),
    {
        let len = self.bytes.len();
        match pread_u64(self.bytes.as_slice(), self.pos, endian) {
            Some(v) => {
                assert(self.pos + 8 <= len);
                self.pos = self.pos + 8;
                Ok(v)
            },
            None => Err(Error::BadBufferLength),
        }
    }

    /// Reads the bytes from the current position up to the next zero byte, or to the end of
    /// the source, and moves past that zero byte. Bytes that do not print become `.`.
    pub fn read_zero_terminated_string(&mut self) -> (r: Result<String>)
        ensures
            final(self).data() == old(self).data(),
            r matches Ok(s) && s@ == cstr_at(old(self).data(), old(self).position() as int).map_values(
                |c: u8| printable_byte(c) as char,
            ),
            old(self).position() <= old(self).data().len() ==> final(self).position() == after_cstr(
                old(self).data(),
                old(self).position() as int,
            ),
    {
        let len = self.bytes.len();
        let start = self.pos;
        let mut i = start;
        let mut out: Vec<u8> = Vec::new();
        let ghost mut raw: Seq<u8> = Seq::empty();
        while i < len && self.bytes[i] != 0
            invariant
                len == self.bytes@.len(),
                start <= i,
                start <= len ==> i <= len,
                start > len ==> i == start,
                self.pos == start,
                i == start + raw.len(),
                cstr_at(self.bytes@, start as int) == raw + cstr_at(self.bytes@, i as int),
                out@ == raw.map_values(|c: u8| printable_byte(c)),
                forall|k: int| 0 <= k < out@.len() ==> out@[k] < 128,
            decreases len - i,
        {
            let c = self.bytes[i];
            let p: u8 = if 0x20 <= c && c <= 0x7e { c } else { 0x2e };
            out.push(p);
            proof {
                assert(cstr_at(self.bytes@, i as int) == seq![c] + cstr_at(self.bytes@, i + 1));
                assert(raw + cstr_at(self.bytes@, i as int) =~= raw.push(c) + cstr_at(self.bytes@, i + 1));
                assert(raw.push(c).map_values(|c: u8| printable_byte(c)) =~= raw.map_values(
                    |c: u8| printable_byte(c),
                ).push(p));
                raw = raw.push(c);
            }
            i = i + 1;
        }
        assert(raw =~= cstr_at(self.bytes@, start as int));
        if i < len {
            self.pos = i + 1;
        } else if start <= len {
            self.pos = len;
        }
        let s = ascii_string(out.as_slice());
        assert(s@ =~= raw.map_values(|c: u8| printable_byte(c) as char));
        Ok(s)
    }

    /// Moves to the absolute `offset`; an offset past the end fails and leaves the position.
    pub fn seek(&mut self, offset: u64) -> (r: Result<u64>)
        ensures
            final(self).data() == old(self).data(),
            offset <= old(self).data().len() ==> (r matches Ok(p) && p == offset
                && final(self).position() == offset),
            offset > old(self).data().len() ==> (r matches Err(Error::BadBufferLength)
                && final(self).position() == old(self).position()),
    {
        if offset > self.bytes.len() as u64 {
            Err(Error::BadBufferLength)
        } else {
            self.pos = offset as usize;
            Ok(offset)
        }
    }

    /// Copies into the front of `buf` as many bytes as both `buf` and the rest of the source hold,
    /// and returns how many; at the end of the source that is zero.
    pub fn read(&mut self, buf: &mut Vec<u8>) -> (n: usize)
        ensures
            final(self).data() == old(self).data(),
            final(buf)@.len() == old(buf)@.len(),
            old(self).position() >= old(self).data().len() ==> n == 0,
            old(self).position() < old(self).data().len() ==> n as int == vstd::math::min(
                old(buf)@.len() as int,
                old(self).data().len() - old(self).position(),
            ),
            old(self).position() < old(self).data().len() ==> final(buf)@.subrange(0, n as int)
                == old(self).data().subrange(
                old(self).position() as int,
                old(self).position() + n,
            ),
            final(buf)@.subrange(n as int, final(buf)@.len() as int) == old(buf)@.subrange(
                n as int,
                old(buf)@.len() as int,
            ),
            final(self).position() == old(self).position() + n,
    {
        let len = self.bytes.len();
        if self.pos >= len {
            return 0;
        }
        let avail = len - self.pos;
        let n: usize = if buf.len() < avail { buf.len() } else { avail };
        let start = self.pos;
        let mut i: usize = 0;
        while i < n
            invariant
                n <= buf@.len(),
                buf@.len() == old(buf)@.len(),
                start + n <= len,
                len == self.bytes@.len(),
                i <= n,
                forall|k: int| 0 <= k < i ==> buf@[k] == self.bytes@[start + k],
                forall|k: int| n <= k < buf@.len() ==> buf@[k] == old(buf)@[k],
            decreases n - i,
        {
            buf.set(i, self.bytes[start + i]);
            i = i + 1;
        }
        self.pos = start + n;
        assert(buf@.subrange(0, n as int) =~= self.bytes@.subrange(start as int, start + n));
        assert(buf@.subrange(n as int, buf@.len() as int) =~= old(buf)@.subrange(
            n as int,
            old(buf)@.len() as int,
        ));
        n
    }
}

} // verus!
