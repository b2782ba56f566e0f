//! Byte-level primitives: a cursor over the in-memory blob, little-endian
//! scalar reads, NUL-terminated ASCII strings, and referenced-pointer
//! indirection.

use vstd::prelude::*;

verus! {

/// Little-endian unsigned 16-bit value of the two bytes at `i`.
pub open spec fn u16_at(s: Seq<u8>, i: int) -> int {
    s[i] + 0x100 * s[i + 1]
}

/// Little-endian unsigned 32-bit value of the four bytes at `i`.
pub open spec fn u32_at(s: Seq<u8>, i: int) -> int {
    s[i] + 0x100 * s[i + 1] + 0x10000 * s[i + 2] + 0x1000000 * s[i + 3]
}

/// Little-endian signed 32-bit value of the four bytes at `i`.
pub open spec fn i32_at(s: Seq<u8>, i: int) -> int {
    if u32_at(s, i) < 0x8000_0000 {
        u32_at(s, i)
    } else {
        u32_at(s, i) - 0x1_0000_0000
    }
}

/// Little-endian signed 16-bit value of the two bytes at `i`.
pub open spec fn i16_at(s: Seq<u8>, i: int) -> int {
    if u16_at(s, i) < 0x8000 {
        u16_at(s, i)
    } else {
        u16_at(s, i) - 0x1_0000
    }
}

/// Signed value of the byte at `i`.
pub open spec fn i8_at(s: Seq<u8>, i: int) -> int {
    if s[i] < 0x80 {
        s[i] as int
    } else {
        s[i] - 0x100
    }
}

/// The smallest multiple of `divider` at or after `pos`.
pub open spec fn align_up(pos: int, divider: int) -> int {
    pos + (divider - pos % divider) % divider
}

/// Alignment: the padded position is a multiple of the divider, at or after
/// the original position and less than one divider past it.
pub proof fn lemma_align_up(pos: int, divider: int)
    requires
        0 <= pos,
        0 < divider,
    ensures
        align_up(pos, divider) % divider == 0,
        pos <= align_up(pos, divider) < pos + divider,
{
    let m = pos % divider;
    assert(0 <= m < divider) by (nonlinear_arith)
        requires 0 <= pos, 0 < divider, m == pos % divider;
    if m == 0 {
        assert(divider % divider == 0) by (nonlinear_arith)
            requires 0 < divider;
    } else {
        let q = pos / divider;
        assert((divider - m) % divider == divider - m) by (nonlinear_arith)
            requires 0 < m < divider;
        assert(pos == divider * q + m) by (nonlinear_arith)
            requires 0 < divider, m == pos % divider, q == pos / divider;
        assert((divider * (q + 1)) % divider == 0) by (nonlinear_arith)
            requires 0 < divider;
        assert(divider * (q + 1) == divider * q + divider) by (nonlinear_arith);
    }
}

/// Index of the first NUL byte at or after `i`, if any.
pub open spec fn nul_scan(s: Seq<u8>, i: int) -> Option<int>
    decreases s.len() - i,
{
    if i < 0 || i >= s.len() {
        None
    } else if s[i] == 0 {
        Some(i)
    } else {
        nul_scan(s, i + 1)
    }
}

/// The characters a byte string denotes: each byte taken as the character
/// with the same code.
pub open spec fn ascii_chars(s: Seq<u8>) -> Seq<char> {
    s.map_values(|b: u8| b as char)
}

/// The two bytes that encode `v` little-endian.
#[verifier::opaque]
pub open spec fn u16_bytes(v: int) -> Seq<u8> {
    seq![(v % 0x100) as u8, ((v / 0x100) % 0x100) as u8]
}

/// The four bytes that encode `v` little-endian.
#[verifier::opaque]
pub open spec fn u32_bytes(v: int) -> Seq<u8> {
    seq![
        (v % 0x100) as u8,
        ((v / 0x100) % 0x100) as u8,
        ((v / 0x1_0000) % 0x100) as u8,
        ((v / 0x100_0000) % 0x100) as u8,
    ]
}

/// The four bytes that encode a signed 32-bit `v` little-endian
/// (two's complement).
pub open spec fn i32_bytes(v: int) -> Seq<u8> {
    u32_bytes(
        if v < 0 {
            v + 0x1_0000_0000
        } else {
            v
        },
    )
}

pub broadcast proof fn lemma_u16_bytes_len(v: int)
    ensures
        (#[trigger] u16_bytes(v)).len() == 2,
{
    reveal(u16_bytes);
}

pub broadcast proof fn lemma_u32_bytes_len(v: int)
    ensures
        (#[trigger] u32_bytes(v)).len() == 4,
{
    reveal(u32_bytes);
}

pub broadcast proof fn lemma_i32_bytes_len(v: int)
    ensures
        (#[trigger] i32_bytes(v)).len() == 4,
{
    reveal(u32_bytes);
}

/// Decoding the two little-endian bytes of `v` gives back `v`.
pub proof fn lemma_u16_at_bytes(s: Seq<u8>, i: int, v: int)
    requires
        0 <= i,
        i + 2 <= s.len(),
        0 <= v < 0x1_0000,
        s.subrange(i, i + 2) == u16_bytes(v),
    ensures
        u16_at(s, i) == v,
{
    reveal(u16_bytes);
    assert(s[i] == u16_bytes(v)[0] && s[i + 1] == u16_bytes(v)[1]) by {
        assert(s.subrange(i, i + 2)[0] == s[i]);
        assert(s.subrange(i, i + 2)[1] == s[i + 1]);
    }
    assert(v % 0x100 + 0x100 * (v / 0x100) == v) by (nonlinear_arith);
    assert(0 <= v % 0x100 < 0x100) by (nonlinear_arith)
        requires 0 <= v;
    assert(0 <= v / 0x100 < 0x100) by (nonlinear_arith)
        requires 0 <= v < 0x1_0000;
    assert((v / 0x100) % 0x100 == v / 0x100) by (nonlinear_arith)
        requires 0 <= v / 0x100 < 0x100;
}

/// Decoding the four little-endian bytes of `v` gives back `v`.
pub proof fn lemma_u32_at_bytes(s: Seq<u8>, i: int, v: int)
    requires
        0 <= i,
        i + 4 <= s.len(),
        0 <= v < 0x1_0000_0000,
        s.subrange(i, i + 4) == u32_bytes(v),
    ensures
        u32_at(s, i) == v,
{
    reveal(u32_bytes);
    assert(s[i] == u32_bytes(v)[0] && s[i + 1] == u32_bytes(v)[1] && s[i + 2] == u32_bytes(v)[2]
        && s[i + 3] == u32_bytes(v)[3]) by {
        assert(s.subrange(i, i + 4)[0] == s[i]);
        assert(s.subrange(i, i + 4)[1] == s[i + 1]);
        assert(s.subrange(i, i + 4)[2] == s[i + 2]);
        assert(s.subrange(i, i + 4)[3] == s[i + 3]);
    }
    let q1 = v / 0x100;
    let q2 = v / 0x1_0000;
    let q3 = v / 0x100_0000;
    assert(v % 0x100 + 0x100 * q1 == v) by (nonlinear_arith)
        requires q1 == v / 0x100;
    assert(q1 % 0x100 + 0x100 * (q1 / 0x100) == q1) by (nonlinear_arith);
    assert(q1 / 0x100 == q2) by (nonlinear_arith)
        requires 0 <= v, q1 == v / 0x100, q2 == v / 0x1_0000;
    assert(q2 % 0x100 + 0x100 * (q2 / 0x100) == q2) by (nonlinear_arith);
    assert(q2 / 0x100 == q3) by (nonlinear_arith)
        requires 0 <= v, q2 == v / 0x1_0000, q3 == v / 0x100_0000;
    assert(0 <= v % 0x100 < 0x100) by (nonlinear_arith)
        requires 0 <= v;
    assert(0 <= q1 % 0x100 < 0x100) by (nonlinear_arith)
        requires 0 <= q1;
    assert(0 <= q2 % 0x100 < 0x100) by (nonlinear_arith)
        requires 0 <= q2;
    assert(0 <= q3 < 0x100) by (nonlinear_arith)
        requires 0 <= v < 0x1_0000_0000, q3 == v / 0x100_0000;
    assert(q3 % 0x100 == q3) by (nonlinear_arith)
        requires 0 <= q3 < 0x100;
}

/// Decoding the four little-endian bytes of a signed `v` gives back `v`.
pub proof fn lemma_i32_at_bytes(s: Seq<u8>, i: int, v: int)
    requires
        0 <= i,
        i + 4 <= s.len(),
        -0x8000_0000 <= v < 0x8000_0000,
        s.subrange(i, i + 4) == i32_bytes(v),
    ensures
        i32_at(s, i) == v,
{
    if v < 0 {
        lemma_u32_at_bytes(s, i, v + 0x1_0000_0000);
    } else {
        lemma_u32_at_bytes(s, i, v);
    }
}

/// A found NUL is in range, is a NUL, and nothing before it is one.
pub proof fn lemma_nul_scan_props(s: Seq<u8>, i: int, j: int)
    requires
        nul_scan(s, i) == Some(j),
    ensures
        i <= j < s.len(),
        s[j] == 0,
        forall|k: int| i <= k < j ==> s[k] != 0,
    decreases s.len() - i,
{
    if i < 0 || i >= s.len() {
    } else if s[i] == 0 {
    } else {
        lemma_nul_scan_props(s, i + 1, j);
    }
}

/// Bytes known not to be NUL can be skipped when scanning for one.
pub proof fn lemma_nul_scan_skip(s: Seq<u8>, i: int, j: int)
    requires
        0 <= i <= j <= s.len(),
        forall|k: int| i <= k < j ==> s[k] != 0,
    ensures
        nul_scan(s, i) == nul_scan(s, j),
    decreases j - i,
{
    if i < j {
        lemma_nul_scan_skip(s, i + 1, j);
    }
}

/// Relies on `String::push`: appends the given character to the end of the
/// string.
#[verifier::external_body]
pub(crate) fn push_char(s: &mut String, c: char)
    ensures
        final(s)@ == old(s)@.push(c),
{
    s.push(c);
}

/// Marks a read that ran past the end of the data.
#[derive(Debug, Clone, Copy, PartialEq, Eq, Structural)]
pub struct EndOfData;

/// What stopped a vector read: a failing element, or the blob running out
/// under the table itself.
#[derive(Debug)]
pub enum ReadVecError<E> {
    ReadingValueError(E),
    IOError(EndOfData),
}

/// A read cursor over the byte blob. Reads fail (with `None`) exactly when
/// they would run past the end of the data.
pub struct Reader<'a> {
    pub data: &'a Vec<u8>,
    pub pos: usize,
}

impl<'a> Reader<'a> {
    pub fn new(data: &'a Vec<u8>) -> (r: Reader<'a>)
        ensures
            r.data == data,
            r.pos == 0,
    {
        Reader { data, pos: 0 }
    }

    /// Moves the cursor to an absolute offset. Like a seek on a byte stream,
    /// this always succeeds; a position past the end only makes later reads
    /// fail.
    pub fn seek(&mut self, pos: usize)
        ensures
            final(self).data == old(self).data,
            final(self).pos == pos,
    {
        self.pos = pos;
    }

    /// Moves the cursor to a 64-bit absolute offset; an offset no position
    /// can represent is placed past every possible blob end.
    pub fn seek64(&mut self, pos: u64)
        ensures
            final(self).data == old(self).data,
            pos <= usize::MAX ==> final(self).pos == pos,
            pos > usize::MAX ==> final(self).pos == usize::MAX,
    {
        if pos <= usize::MAX as u64 {
            self.pos = pos as usize;
        } else {
            self.pos = usize::MAX;
        }
    }

    /// Advances the cursor by `n`, stopping at the largest representable
    /// position (from which every read fails, as one past the end would).
    pub fn skip(&mut self, n: usize)
        ensures
            final(self).data == old(self).data,
            old(self).pos + n <= usize::MAX ==> final(self).pos == old(self).pos + n,
            old(self).pos + n > usize::MAX ==> final(self).pos == usize::MAX,
    {
        match self.pos.checked_add(n) {
            Some(p) => self.pos = p,
            None => self.pos = usize::MAX,
        }
    }

    /// Aligns the cursor forward to the next multiple of `divider`: the
    /// smallest multiple at or after the current position.
    pub fn pad(&mut self, divider: usize)
        requires
            divider > 0,
        ensures
            final(self).data == old(self).data,
            align_up(old(self).pos as int, divider as int) <= usize::MAX ==> final(self).pos
                == align_up(old(self).pos as int, divider as int),
            align_up(old(self).pos as int, divider as int) > usize::MAX ==> final(self).pos
                == usize::MAX,
    {
        let m = self.pos % divider;
        if m != 0 {
            proof {
                assert((divider - m) % (divider as int) == divider - m) by (nonlinear_arith)
                    requires 0 < m < divider;
                assert(0 <= m < divider) by (nonlinear_arith)
                    requires divider > 0, m == self.pos as int % divider as int;
            }
            self.skip(divider - m);
        } else {
            proof {
                assert((divider as int) % (divider as int) == 0) by (nonlinear_arith)
                    requires divider > 0;
            }
        }
    }

    pub fn read_u8(&mut self) -> (r: Option<u8>)
        ensures
            final(self).data == old(self).data,
            old(self).pos + 1 <= old(self).data@.len() ==> {
                &&& r == Some(old(self).data@[old(self).pos as int])
                &&& final(self).pos == old(self).pos + 1
            },
            old(self).pos + 1 > old(self).data@.len() ==> r is None && final(self).pos == old(
                self,
            ).pos,
    {
        if self.pos < self.data.len() {
            let b = self.data[self.pos];
            self.pos = self.pos + 1;
            Some(b)
        } else {
            None
        }
    }

    pub fn read_i8(&mut self) -> (r: Option<i8>)
        ensures
            final(self).data == old(self).data,
            old(self).pos + 1 <= old(self).data@.len() ==> {
                &&& r is Some
                &&& r->0 as int == i8_at(old(self).data@, old(self).pos as int)
                &&& final(self).pos == old(self).pos + 1
            },
            old(self).pos + 1 > old(self).data@.len() ==> r is None && final(self).pos == old(
                self,
            ).pos,
    {
        match self.read_u8() {
            Some(b) => {
                if b < 0x80 {
                    Some(b as i8)
                } else {
                    Some((b as i16 - 0x100) as i8)
                }
            },
            None => None,
        }
    }

    pub fn read_u16_le(&mut self) -> (r: Option<u16>)
        ensures
            final(self).data == old(self).data,
            old(self).pos + 2 <= old(self).data@.len() ==> {
                &&& r is Some
                &&& r->0 as int == u16_at(old(self).data@, old(self).pos as int)
                &&& final(self).pos == old(self).pos + 2
            },
            old(self).pos + 2 > old(self).data@.len() ==> r is None && final(self).pos == old(
                self,
            ).pos,
    {
        if self.data.len() >= 2 && self.pos <= self.data.len() - 2 {
            let b0 = self.data[self.pos];
            let b1 = self.data[self.pos + 1];
            self.pos = self.pos + 2;
            Some((b0 as u16) + (b1 as u16) * 0x100)
        } else {
            None
        }
    }

    pub fn read_i16_le(&mut self) -> (r: Option<i16>)
        ensures
            final(self).data == old(self).data,
            old(self).pos + 2 <= old(self).data@.len() ==> {
                &&& r is Some
                &&& r->0 as int == i16_at(old(self).data@, old(self).pos as int)
                &&& final(self).pos == old(self).pos + 2
            },
            old(self).pos + 2 > old(self).data@.len() ==> r is None && final(self).pos == old(
                self,
            ).pos,
    {
        match self.read_u16_le() {
            Some(w) => {
                if w < 0x8000 {
                    Some(w as i16)
                } else {
                    Some((w as i32 - 0x1_0000) as i16)
                }
            },
            None => None,
        }
    }

    pub fn read_u32_le(&mut self) -> (r: Option<u32>)
        ensures
            final(self).data == old(self).data,
            old(self).pos + 4 <= old(self).data@.len() ==> {
                &&& r is Some
                &&& r->0 as int == u32_at(old(self).data@, old(self).pos as int)
                &&& final(self).pos == old(self).pos + 4
            },
            old(self).pos + 4 > old(self).data@.len() ==> r is None && final(self).pos == old(
                self,
            ).pos,
    {
        if self.data.len() >= 4 && self.pos <= self.data.len() - 4 {
            let b0 = self.data[self.pos];
            let b1 = self.data[self.pos + 1];
            let b2 = self.data[self.pos + 2];
            let b3 = self.data[self.pos + 3];
            self.pos = self.pos + 4;
            Some(
                (b0 as u32) + (b1 as u32) * 0x100 + (b2 as u32) * 0x1_0000 + (b3 as u32)
                    * 0x100_0000,
            )
        } else {
            None
        }
    }

    pub fn read_i32_le(&mut self) -> (r: Option<i32>)
        ensures
            final(self).data == old(self).data,
            old(self).pos + 4 <= old(self).data@.len() ==> {
                &&& r is Some
                &&& r->0 as int == i32_at(old(self).data@, old(self).pos as int)
                &&& final(self).pos == old(self).pos + 4
            },
            old(self).pos + 4 > old(self).data@.len() ==> r is None && final(self).pos == old(
                self,
            ).pos,
    {
        match self.read_u32_le() {
            Some(w) => {
                if w < 0x8000_0000 {
                    Some(w as i32)
                } else {
                    Some((w as i64 - 0x1_0000_0000i64) as i32)
                }
            },
            None => None,
        }
    }


    /// A referenced read: a 32-bit target offset, then the NUL-terminated
    /// string at that offset. A zero offset means "absent". The cursor ends
    /// right after the offset word on every exit but the failed offset read
    /// itself, which leaves it where it was.
    pub fn read_referenced_null_terminated_ascii_string(&mut self) -> (res: Result<
        Option<String>,
        EndOfData,
    >)
        ensures
            final(self).data == old(self).data,
            old(self).pos + 4 > old(self).data@.len() ==> res == Err::<Option<String>, EndOfData>(
                EndOfData,
            ) && final(self).pos == old(self).pos,
            old(self).pos + 4 <= old(self).data@.len() ==> ({
                let t = u32_at(old(self).data@, old(self).pos as int);
                &&& final(self).pos == old(self).pos + 4
                &&& if t == 0 {
                    res == Ok::<Option<String>, EndOfData>(None)
                } else {
                    match nul_scan(old(self).data@, t) {
                        Some(j) => {
                            &&& res matches Ok(x)
                            &&& x matches Some(st) && st@ == ascii_chars(
                                old(self).data@.subrange(t, j),
                            )
                        },
                        None => res == Err::<Option<String>, EndOfData>(EndOfData),
                    }
                }
            }),
    {
        let target = match self.read_u32_le() {
            Some(v) => v,
            None => return Err(EndOfData),
        };
        if target == 0 {
            return Ok(None);
        }
        let back = self.pos;
        self.seek(target as usize);
        let st = match self.read_null_terminated_ascii_string() {
            Some(st) => st,
            None => {
                self.seek(back);
                return Err(EndOfData);
            },
        };
        self.seek(back);
        Ok(Some(st))
    }

    /// Reads bytes up to the first NUL and returns them as a string; the
    /// cursor ends one past the NUL. Fails when the data ends first.
    pub fn read_null_terminated_ascii_string(&mut self) -> (r: Option<String>)
        ensures
            final(self).data == old(self).data,
            match nul_scan(old(self).data@, old(self).pos as int) {
                Some(j) => {
                    &&& r is Some
                    &&& r->0@ == ascii_chars(old(self).data@.subrange(old(self).pos as int, j))
                    &&& final(self).pos == j + 1
                },
                None => r is None,
            },
    {
        let ghost s = self.data@;
        let ghost start = self.pos as int;
        if self.pos >= self.data.len() {
            return None;
        }
        let mut result = String::new();
        while self.pos < self.data.len()
            invariant
                self.data == old(self).data,
                s == self.data@,
                start == old(self).pos,
                start <= self.pos <= s.len(),
                forall|k: int| start <= k < self.pos ==> s[k] != 0,
                result@ == ascii_chars(s.subrange(start, self.pos as int)),
            decreases s.len() - self.pos,
        {
            let b = self.data[self.pos];
            if b == 0 {
                proof {
                    lemma_nul_scan_skip(s, start, self.pos as int);
                }
                self.pos = self.pos + 1;
                return Some(result);
            }
            let ghost prev = self.pos as int;
            push_char(&mut result, b as char);
            self.pos = self.pos + 1;
            proof {
                assert(s.subrange(start, prev + 1) =~= s.subrange(start, prev).push(s[prev]));
                assert(result@ =~= ascii_chars(s.subrange(start, self.pos as int)));
            }
        }
        proof {
            lemma_nul_scan_skip(s, start, s.len() as int);
        }
        None
    }
}

} // verus!
