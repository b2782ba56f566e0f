//! The fixed BCH file header: magic, section addresses and lengths, flags.

use vstd::prelude::*;
use crate::reader::{
    align_up, ascii_chars, i32_at, i32_bytes, lemma_i32_at_bytes, lemma_nul_scan_props,
    lemma_nul_scan_skip, lemma_i32_bytes_len, lemma_u16_at_bytes, lemma_u16_bytes_len,
    lemma_u32_bytes_len, nul_scan, u16_at, u16_bytes, u32_bytes, Reader,
};

verus! {

#[derive(Debug)]
pub enum BCHHeaderError {
    /// The blob ended while the named part of the header was being read.
    IOError(&'static str),
    /// The NUL-terminated string at offset 0 was not exactly `BCH`.
    InvalidMagic(String),
}

#[derive(Debug, Clone, Copy, PartialEq, Eq, Structural)]
pub struct BCHHeader {
    pub backward_compatibility: u8,
    pub forward_compatibility: u8,
    pub converter_version: u16,
    pub contents_address: i32,
    pub strings_address: i32,
    pub commands_address: i32,
    pub raw_data_address: i32,
    pub raw_ext_address: i32,
    pub relocation_address: i32,
    pub contents_length: i32,
    pub strings_length: i32,
    pub commands_length: i32,
    pub raw_data_length: i32,
    pub raw_ext_length: i32,
    pub relocation_length: i32,
    pub un_init_data_length: i32,
    pub un_init_commands_length: i32,
    pub flags: u8,
    pub address_count: u16,
}

/// Whether the NUL-terminated prefix starting at `p` (whose NUL is at `j`)
/// is exactly the ASCII bytes `BCH`.
pub open spec fn is_bch_magic(s: Seq<u8>, p: int, j: int) -> bool {
    &&& j - p == 3
    &&& s[p] == 0x42
    &&& s[p + 1] == 0x43
    &&& s[p + 2] == 0x48
}

/// Offset one past the header parsed at `p`: the fields end at `p + 65`,
/// the cursor is then aligned forward to the next multiple of 2, and a
/// final 16-bit count follows.
pub open spec fn header_end(p: int) -> int {
    align_up(p + 65, 2) + 2
}

/// The header fields laid out at `p` (magic included).
pub open spec fn header_at(s: Seq<u8>, p: int) -> BCHHeader {
    BCHHeader {
        backward_compatibility: s[p + 4],
        forward_compatibility: s[p + 5],
        converter_version: u16_at(s, p + 6) as u16,
        contents_address: i32_at(s, p + 8) as i32,
        strings_address: i32_at(s, p + 12) as i32,
        commands_address: i32_at(s, p + 16) as i32,
        raw_data_address: i32_at(s, p + 20) as i32,
        raw_ext_address: i32_at(s, p + 24) as i32,
        relocation_address: i32_at(s, p + 28) as i32,
        contents_length: i32_at(s, p + 32) as i32,
        strings_length: i32_at(s, p + 36) as i32,
        commands_length: i32_at(s, p + 40) as i32,
        raw_data_length: i32_at(s, p + 44) as i32,
        raw_ext_length: i32_at(s, p + 48) as i32,
        relocation_length: i32_at(s, p + 52) as i32,
        un_init_data_length: i32_at(s, p + 56) as i32,
        un_init_commands_length: i32_at(s, p + 60) as i32,
        flags: s[p + 64],
        address_count: u16_at(s, align_up(p + 65, 2)) as u16,
    }
}

/// Bytes 0 to 8 of the encoding: magic, compatibility bytes, converter
/// version.
pub open spec fn header_bytes_magic(h: BCHHeader) -> Seq<u8> {
    seq![0x42u8, 0x43u8, 0x48u8, 0u8, h.backward_compatibility, h.forward_compatibility]
        + u16_bytes(h.converter_version as int)
}

/// Bytes 8 to 32 of the encoding: the six section addresses.
pub open spec fn header_bytes_addresses(h: BCHHeader) -> Seq<u8> {
    i32_bytes(h.contents_address as int) + i32_bytes(h.strings_address as int) + i32_bytes(
        h.commands_address as int,
    ) + i32_bytes(h.raw_data_address as int) + i32_bytes(h.raw_ext_address as int) + i32_bytes(
        h.relocation_address as int,
    )
}

/// Bytes 32 to 64 of the encoding: the six section lengths and the two
/// uninitialized-segment lengths.
pub open spec fn header_bytes_lengths(h: BCHHeader) -> Seq<u8> {
    i32_bytes(h.contents_length as int) + i32_bytes(h.strings_length as int) + i32_bytes(
        h.commands_length as int,
    ) + i32_bytes(h.raw_data_length as int) + i32_bytes(h.raw_ext_length as int) + i32_bytes(
        h.relocation_length as int,
    ) + i32_bytes(h.un_init_data_length as int) + i32_bytes(h.un_init_commands_length as int)
}

/// Bytes 64 to 68 of the encoding: the flags byte, one alignment byte, and
/// the address count.
pub open spec fn header_bytes_tail(h: BCHHeader) -> Seq<u8> {
    seq![h.flags, 0u8] + u16_bytes(h.address_count as int)
}

/// The 68-byte encoding of a header at offset 0: `BCH` and a NUL, the fields
/// little-endian in order, the flags byte, one alignment byte, and the
/// address count.
pub open spec fn header_bytes(h: BCHHeader) -> Seq<u8> {
    header_bytes_magic(h) + header_bytes_addresses(h) + header_bytes_lengths(h)
        + header_bytes_tail(h)
}

fn push_u16_le(out: &mut Vec<u8>, v: u16)
    ensures
        final(out)@ == old(out)@ + u16_bytes(v as int),
{
    out.push((v % 0x100) as u8);
    out.push((v / 0x100) as u8);
    proof {
        reveal(u16_bytes);
        assert(v as int / 0x100 < 0x100) by (nonlinear_arith);
        assert((v as int / 0x100) % 0x100 == v as int / 0x100) by (nonlinear_arith)
            requires 0 <= v as int / 0x100 < 0x100;
        assert(final(out)@ =~= old(out)@ + u16_bytes(v as int));
    }
}

fn push_u32_le(out: &mut Vec<u8>, v: u32)
    ensures
        final(out)@ == old(out)@ + u32_bytes(v as int),
{
    out.push((v % 0x100) as u8);
    out.push((v / 0x100 % 0x100) as u8);
    out.push((v / 0x1_0000 % 0x100) as u8);
    out.push((v / 0x100_0000 % 0x100) as u8);
    proof {
        reveal(u32_bytes);
        assert(final(out)@ =~= old(out)@ + u32_bytes(v as int));
    }
}

fn push_i32_le(out: &mut Vec<u8>, v: i32)
    ensures
        final(out)@ == old(out)@ + i32_bytes(v as int),
{
    let w: u32 = if v >= 0 {
        v as u32
    } else {
        (v as i64 + 0x1_0000_0000i64) as u32
    };
    push_u32_le(out, w);
}

impl BCHHeader {
    /// Parses the fixed file header at the cursor. Fails with `InvalidMagic`
    /// when the leading NUL-terminated string is not `BCH`, and with
    /// `IOError` when the blob ends inside the header.
    pub fn read(r: &mut Reader) -> (res: Result<BCHHeader, BCHHeaderError>)
        ensures
            final(r).data == old(r).data,
            match nul_scan(old(r).data@, old(r).pos as int) {
                None => res matches Err(BCHHeaderError::IOError(_)),
                Some(j) => {
                    if !is_bch_magic(old(r).data@, old(r).pos as int, j) {
                        &&& res matches Err(BCHHeaderError::InvalidMagic(m)) && m@ == ascii_chars(
                            old(r).data@.subrange(old(r).pos as int, j),
                        )
                        &&& final(r).pos == j + 1
                    } else if header_end(old(r).pos as int) <= old(r).data@.len() {
                        &&& res == Ok::<BCHHeader, BCHHeaderError>(
                            header_at(old(r).data@, old(r).pos as int),
                        )
                        &&& final(r).pos == header_end(old(r).pos as int)
                    } else {
                        res matches Err(BCHHeaderError::IOError(_))
                    }
                },
            },
    {
        let start = r.pos;
        let magic = match r.read_null_terminated_ascii_string() {
            Some(m) => m,
            None => return Err(BCHHeaderError::IOError("magic")),
        };
        proof {
            lemma_nul_scan_props(old(r).data@, start as int, (r.pos - 1) as int);
        }
        let magic_ok = r.pos - start == 4 && r.data[start] == 0x42 && r.data[start + 1] == 0x43
            && r.data[start + 2] == 0x48;
        if !magic_ok {
            return Err(BCHHeaderError::InvalidMagic(magic));
        }
        let backward_compatibility = match r.read_u8() {
            Some(v) => v,
            None => return Err(BCHHeaderError::IOError("backward compatibility")),
        };
        let forward_compatibility = match r.read_u8() {
            Some(v) => v,
            None => return Err(BCHHeaderError::IOError("forward compatibility")),
        };
        let converter_version = match r.read_u16_le() {
            Some(v) => v,
            None => return Err(BCHHeaderError::IOError("converter version")),
        };
        let contents_address = match r.read_i32_le() {
            Some(v) => v,
            None => return Err(BCHHeaderError::IOError("contents address")),
        };
        let strings_address = match r.read_i32_le() {
            Some(v) => v,
            None => return Err(BCHHeaderError::IOError("strings address")),
        };
        let commands_address = match r.read_i32_le() {
            Some(v) => v,
            None => return Err(BCHHeaderError::IOError("commands address")),
        };
        let raw_data_address = match r.read_i32_le() {
            Some(v) => v,
            None => return Err(BCHHeaderError::IOError("raw data address")),
        };
        let raw_ext_address = match r.read_i32_le() {
            Some(v) => v,
            None => return Err(BCHHeaderError::IOError("raw ext address")),
        };
        let relocation_address = match r.read_i32_le() {
            Some(v) => v,
            None => return Err(BCHHeaderError::IOError("relocation address")),
        };
        let contents_length = match r.read_i32_le() {
            Some(v) => v,
            None => return Err(BCHHeaderError::IOError("contents length")),
        };
        let strings_length = match r.read_i32_le() {
            Some(v) => v,
            None => return Err(BCHHeaderError::IOError("strings length")),
        };
        let commands_length = match r.read_i32_le() {
            Some(v) => v,
            None => return Err(BCHHeaderError::IOError("commands length")),
        };
        let raw_data_length = match r.read_i32_le() {
            Some(v) => v,
            None => return Err(BCHHeaderError::IOError("raw data length")),
        };
        let raw_ext_length = match r.read_i32_le() {
            Some(v) => v,
            None => return Err(BCHHeaderError::IOError("raw ext length")),
        };
        let relocation_length = match r.read_i32_le() {
            Some(v) => v,
            None => return Err(BCHHeaderError::IOError("relocation length")),
        };
        let un_init_data_length = match r.read_i32_le() {
            Some(v) => v,
            None => return Err(BCHHeaderError::IOError("uninitialized data length")),
        };
        let un_init_commands_length = match r.read_i32_le() {
            Some(v) => v,
            None => return Err(BCHHeaderError::IOError("uninitialized commands length")),
        };
        let flags = match r.read_u8() {
            Some(v) => v,
            None => return Err(BCHHeaderError::IOError("flags")),
        };
        r.pad(2);
        let address_count = match r.read_u16_le() {
            Some(v) => v,
            None => return Err(BCHHeaderError::IOError("address count")),
        };
        Ok(
            BCHHeader {
                backward_compatibility,
                forward_compatibility,
                converter_version,
                contents_address,
                strings_address,
                commands_address,
                raw_data_address,
                raw_ext_address,
                relocation_address,
                contents_length,
                strings_length,
                commands_length,
                raw_data_length,
                raw_ext_length,
                relocation_length,
                un_init_data_length,
                un_init_commands_length,
                flags,
                address_count,
            },
        )
    }

    /// Encodes the header as the 68 bytes that `read` parses.
    pub fn write(&self) -> (out: Vec<u8>)
        ensures
            out@ == header_bytes(*self),
    {
        let mut out: Vec<u8> = Vec::new();
        out.push(0x42);
        out.push(0x43);
        out.push(0x48);
        out.push(0);
        out.push(self.backward_compatibility);
        out.push(self.forward_compatibility);
        push_u16_le(&mut out, self.converter_version);
        proof {
            broadcast use lemma_u16_bytes_len, lemma_u32_bytes_len, lemma_i32_bytes_len;

            assert(out@ =~= header_bytes_magic(*self));
        }
        push_i32_le(&mut out, self.contents_address);
        push_i32_le(&mut out, self.strings_address);
        push_i32_le(&mut out, self.commands_address);
        push_i32_le(&mut out, self.raw_data_address);
        push_i32_le(&mut out, self.raw_ext_address);
        push_i32_le(&mut out, self.relocation_address);
        proof {
            broadcast use lemma_u16_bytes_len, lemma_u32_bytes_len, lemma_i32_bytes_len;

            assert(out@ =~= header_bytes_magic(*self) + header_bytes_addresses(*self));
        }
        push_i32_le(&mut out, self.contents_length);
        push_i32_le(&mut out, self.strings_length);
        push_i32_le(&mut out, self.commands_length);
        push_i32_le(&mut out, self.raw_data_length);
        push_i32_le(&mut out, self.raw_ext_length);
        push_i32_le(&mut out, self.relocation_length);
        push_i32_le(&mut out, self.un_init_data_length);
        push_i32_le(&mut out, self.un_init_commands_length);
        proof {
            broadcast use lemma_u16_bytes_len, lemma_u32_bytes_len, lemma_i32_bytes_len;

            assert(out@ =~= header_bytes_magic(*self) + header_bytes_addresses(*self)
                + header_bytes_lengths(*self));
        }
        out.push(self.flags);
        out.push(0);
        push_u16_le(&mut out, self.address_count);
        proof {
            broadcast use lemma_u16_bytes_len, lemma_u32_bytes_len, lemma_i32_bytes_len;

            assert(out@ =~= header_bytes(*self));
        }
        out
    }

    pub fn get_version(&self) -> (r: u8)
        ensures
            r == self.backward_compatibility,
    {
        self.backward_compatibility
    }
}

/// A signed 32-bit field inside an encoded chunk that stands at `base` in
/// `s` decodes to its value.
proof fn lemma_i32_field(s: Seq<u8>, base: int, off: int, chunk: Seq<u8>, v: int)
    requires
        0 <= base,
        0 <= off,
        off + 4 <= chunk.len(),
        base + chunk.len() <= s.len(),
        s.subrange(base, base + chunk.len()) == chunk,
        chunk.subrange(off, off + 4) == i32_bytes(v),
        -0x8000_0000 <= v < 0x8000_0000,
    ensures
        i32_at(s, base + off) == v,
{
    broadcast use lemma_i32_bytes_len;

    assert forall|t: int| 0 <= t < 4 implies s[base + off + t] == i32_bytes(v)[t] by {
        assert(s.subrange(base, base + chunk.len())[off + t] == s[base + off + t]);
        assert(chunk.subrange(off, off + 4)[t] == chunk[off + t]);
    }
    assert(s.subrange(base + off, base + off + 4) =~= i32_bytes(v));
    lemma_i32_at_bytes(s, base + off, v);
}

proof fn lemma_round_trip_addresses(h: BCHHeader, s: Seq<u8>)
    requires
        s.len() >= 68,
        s.subrange(8, 32) == header_bytes_addresses(h),
    ensures
        i32_at(s, 8) == h.contents_address as int,
        i32_at(s, 12) == h.strings_address as int,
        i32_at(s, 16) == h.commands_address as int,
        i32_at(s, 20) == h.raw_data_address as int,
        i32_at(s, 24) == h.raw_ext_address as int,
        i32_at(s, 28) == h.relocation_address as int,
{
    broadcast use lemma_i32_bytes_len;

    let c = header_bytes_addresses(h);
    assert(c.subrange(0, 4) =~= i32_bytes(h.contents_address as int));
    lemma_i32_field(s, 8, 0, c, h.contents_address as int);
    assert(c.subrange(4, 8) =~= i32_bytes(h.strings_address as int));
    lemma_i32_field(s, 8, 4, c, h.strings_address as int);
    assert(c.subrange(8, 12) =~= i32_bytes(h.commands_address as int));
    lemma_i32_field(s, 8, 8, c, h.commands_address as int);
    assert(c.subrange(12, 16) =~= i32_bytes(h.raw_data_address as int));
    lemma_i32_field(s, 8, 12, c, h.raw_data_address as int);
    assert(c.subrange(16, 20) =~= i32_bytes(h.raw_ext_address as int));
    lemma_i32_field(s, 8, 16, c, h.raw_ext_address as int);
    assert(c.subrange(20, 24) =~= i32_bytes(h.relocation_address as int));
    lemma_i32_field(s, 8, 20, c, h.relocation_address as int);
}

#[verifier::rlimit(100)]
proof fn lemma_round_trip_lengths(h: BCHHeader, s: Seq<u8>)
    requires
        s.len() >= 68,
        s.subrange(32, 64) == header_bytes_lengths(h),
    ensures
        i32_at(s, 32) == h.contents_length as int,
        i32_at(s, 36) == h.strings_length as int,
        i32_at(s, 40) == h.commands_length as int,
        i32_at(s, 44) == h.raw_data_length as int,
        i32_at(s, 48) == h.raw_ext_length as int,
        i32_at(s, 52) == h.relocation_length as int,
        i32_at(s, 56) == h.un_init_data_length as int,
        i32_at(s, 60) == h.un_init_commands_length as int,
{
    broadcast use lemma_i32_bytes_len;

    let c = header_bytes_lengths(h);
    assert(c.subrange(0, 4) =~= i32_bytes(h.contents_length as int));
    lemma_i32_field(s, 32, 0, c, h.contents_length as int);
    assert(c.subrange(4, 8) =~= i32_bytes(h.strings_length as int));
    lemma_i32_field(s, 32, 4, c, h.strings_length as int);
    assert(c.subrange(8, 12) =~= i32_bytes(h.commands_length as int));
    lemma_i32_field(s, 32, 8, c, h.commands_length as int);
    assert(c.subrange(12, 16) =~= i32_bytes(h.raw_data_length as int));
    lemma_i32_field(s, 32, 12, c, h.raw_data_length as int);
    assert(c.subrange(16, 20) =~= i32_bytes(h.raw_ext_length as int));
    lemma_i32_field(s, 32, 16, c, h.raw_ext_length as int);
    assert(c.subrange(20, 24) =~= i32_bytes(h.relocation_length as int));
    lemma_i32_field(s, 32, 20, c, h.relocation_length as int);
    assert(c.subrange(24, 28) =~= i32_bytes(h.un_init_data_length as int));
    lemma_i32_field(s, 32, 24, c, h.un_init_data_length as int);
    assert(c.subrange(28, 32) =~= i32_bytes(h.un_init_commands_length as int));
    lemma_i32_field(s, 32, 28, c, h.un_init_commands_length as int);
}

/// Header round-trip: the encoding of any header, followed by anything,
/// parses back to exactly that header.
#[verifier::rlimit(100)]
pub proof fn lemma_header_round_trip(h: BCHHeader, rest: Seq<u8>)
    ensures
        ({
            let s = header_bytes(h) + rest;
            &&& nul_scan(s, 0) == Some(3int)
            &&& is_bch_magic(s, 0, 3)
            &&& header_end(0) <= s.len()
            &&& header_at(s, 0) == h
        }),
{
    broadcast use lemma_u16_bytes_len, lemma_u32_bytes_len, lemma_i32_bytes_len;

    let s = header_bytes(h) + rest;
    lemma_header_bytes_parts(h, rest);
    let m = header_bytes_magic(h);
    let t = header_bytes_tail(h);
    assert forall|k: int| 0 <= k < 8 implies s[k] == m[k] by {
        assert(s.subrange(0, 8)[k] == s[k]);
    }
    assert(s[0] == 0x42 && s[1] == 0x43 && s[2] == 0x48 && s[3] == 0);
    assert(nul_scan(s, 3) == Some(3int));
    assert(nul_scan(s, 2) == Some(3int));
    assert(nul_scan(s, 1) == Some(3int));
    assert(nul_scan(s, 0) == Some(3int));
    assert(s[4] == h.backward_compatibility);
    assert(s[5] == h.forward_compatibility);
    assert(s.subrange(6, 8) =~= u16_bytes(h.converter_version as int));
    lemma_u16_at_bytes(s, 6, h.converter_version as int);
    lemma_round_trip_addresses(h, s);
    lemma_round_trip_lengths(h, s);
    assert forall|k: int| 0 <= k < 4 implies s[64 + k] == t[k] by {
        assert(s.subrange(64, 68)[k] == s[64 + k]);
    }
    assert(s[64] == h.flags);
    assert(s.subrange(66, 68) =~= u16_bytes(h.address_count as int));
    lemma_u16_at_bytes(s, 66, h.address_count as int);
    assert(header_at(s, 0) == h);
}

proof fn lemma_header_bytes_parts(h: BCHHeader, rest: Seq<u8>)
    ensures
        ({
            let s = header_bytes(h) + rest;
            &&& s.len() == 68 + rest.len()
            &&& s.subrange(0, 8) == header_bytes_magic(h)
            &&& s.subrange(8, 32) == header_bytes_addresses(h)
            &&& s.subrange(32, 64) == header_bytes_lengths(h)
            &&& s.subrange(64, 68) == header_bytes_tail(h)
        }),
{
    broadcast use lemma_u16_bytes_len, lemma_u32_bytes_len, lemma_i32_bytes_len;

    let s = header_bytes(h) + rest;
    assert(header_bytes_magic(h).len() == 8);
    assert(header_bytes_addresses(h).len() == 24);
    assert(header_bytes_lengths(h).len() == 32);
    assert(header_bytes_tail(h).len() == 4);
    assert(s.subrange(0, 8) =~= header_bytes_magic(h));
    assert(s.subrange(8, 32) =~= header_bytes_addresses(h));
    assert(s.subrange(32, 64) =~= header_bytes_lengths(h));
    assert(s.subrange(64, 68) =~= header_bytes_tail(h));
}

/// Magic rejection: a blob whose byte 0 is anything but `B` (while the rest
/// of the magic stands) is rejected as having an invalid magic.
pub proof fn lemma_magic_rejection(s: Seq<u8>)
    requires
        s.len() >= 4,
        s[1] == 0x43,
        s[2] == 0x48,
        s[3] == 0,
        s[0] != 0x42,
    ensures
        nul_scan(s, 0) is Some,
        !is_bch_magic(s, 0, nul_scan(s, 0)->0),
{
    if s[0] == 0 {
        assert(nul_scan(s, 0) == Some(0int));
    } else {
        assert(nul_scan(s, 3) == Some(3int));
        assert(nul_scan(s, 2) == nul_scan(s, 3));
        assert(nul_scan(s, 1) == nul_scan(s, 2));
        assert(nul_scan(s, 0) == nul_scan(s, 1));
    }
}

/// Magic rejection on truncation: a blob with no NUL byte at all (such as a
/// header cut off before byte 3) fails as exhausted, not as an invalid magic.
pub proof fn lemma_truncated_rejection(s: Seq<u8>)
    requires
        forall|k: int| 0 <= k < s.len() ==> s[k] != 0,
    ensures
        nul_scan(s, 0) is None,
{
    lemma_nul_scan_skip(s, 0, s.len() as int);
}

} // verus!
