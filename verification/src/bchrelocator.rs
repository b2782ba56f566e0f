//! The relocator: rewrites the blob's section-relative pointers, listed in
//! the relocation table, into absolute file offsets, in place.

use vstd::prelude::*;
use crate::bchheader::BCHHeader;
use crate::bchsections::{section_of, BCHSection, BCHSectionError};
use crate::reader::u32_at;

verus! {

#[derive(Debug, Clone, Copy, PartialEq, Eq, Structural)]
pub enum BCHRelocateError {
    BCHSectionError(BCHSectionError),
    NotLongEnought,
}

/// The unsigned 32-bit value a signed address field denotes.
pub open spec fn u32_of_i32(a: i32) -> int {
    if a >= 0 {
        a as int
    } else {
        a + 0x1_0000_0000
    }
}

/// A sum of two 32-bit values reduced back into 32 bits.
pub open spec fn wrap32(x: int) -> int {
    if x >= 0x1_0000_0000 {
        x - 0x1_0000_0000
    } else {
        x
    }
}

/// A 32-bit value with bit 31 set, the relocator's mark on 16-bit-index
/// sections.
pub open spec fn with_high_bit(x: int) -> int {
    if x >= 0x8000_0000 {
        x
    } else {
        x + 0x8000_0000
    }
}

/// The base address a section tag maps to. Commands sections share one base,
/// raw-data and raw-ext sections each share one, 16-bit-index sections carry
/// the high-bit mark, and `BaseAddress` is zero.
pub open spec fn section_base(section: BCHSection, h: &BCHHeader) -> int {
    match section {
        BCHSection::Contents => u32_of_i32(h.contents_address),
        BCHSection::Strings => u32_of_i32(h.strings_address),
        BCHSection::Commands => u32_of_i32(h.commands_address),
        BCHSection::CommandsSrc => u32_of_i32(h.commands_address),
        BCHSection::RawData => u32_of_i32(h.raw_data_address),
        BCHSection::RawDataTexture => u32_of_i32(h.raw_data_address),
        BCHSection::RawDataVertex => u32_of_i32(h.raw_data_address),
        BCHSection::RawDataIndex16 => with_high_bit(u32_of_i32(h.raw_data_address)),
        BCHSection::RawDataIndex8 => u32_of_i32(h.raw_data_address),
        BCHSection::RawExt => u32_of_i32(h.raw_ext_address),
        BCHSection::RawExtTexture => u32_of_i32(h.raw_ext_address),
        BCHSection::RawExtVertex => u32_of_i32(h.raw_ext_address),
        BCHSection::RawExtIndex16 => with_high_bit(u32_of_i32(h.raw_ext_address)),
        BCHSection::RawExtIndex8 => u32_of_i32(h.raw_ext_address),
        BCHSection::BaseAddress => 0,
    }
}

/// The raw pointer field of a relocation entry: bits 24 to 0.
pub open spec fn entry_ptr(v: int) -> int {
    v % 0x200_0000
}

/// The target section code of a relocation entry: bits 28 to 25.
pub open spec fn entry_target(v: int) -> int {
    (v / 0x200_0000) % 16
}

/// The source section code of a relocation entry: bits 31 to 29.
pub open spec fn entry_source(v: int) -> int {
    (v / 0x2000_0000) % 16
}

/// The pointer field in bytes: left-shifted by two (word index to byte
/// offset) unless the target is the strings section.
pub open spec fn entry_shifted_ptr(v: int) -> int {
    if section_of(entry_target(v) as u8) == BCHSection::Strings {
        entry_ptr(v)
    } else {
        entry_ptr(v) * 4
    }
}

/// The absolute byte address of the word an entry rewrites.
pub open spec fn entry_src_addr(h: &BCHHeader, v: int) -> int {
    wrap32(section_base(section_of(entry_source(v) as u8), h) + entry_shifted_ptr(v))
}

/// The blob with the four bytes at `a` replaced by `v` little-endian.
pub open spec fn store_u32(s: Seq<u8>, a: int, v: int) -> Seq<u8> {
    s.update(a, (v % 0x100) as u8).update(a + 1, ((v / 0x100) % 0x100) as u8).update(
        a + 2,
        ((v / 0x1_0000) % 0x100) as u8,
    ).update(a + 3, ((v / 0x100_0000) % 0x100) as u8)
}

/// One relocation entry `v` applied to the blob: the word at the source
/// address is increased by the target section's base. Fails on a target code
/// above 14 or a source address past the blob end, leaving the blob as it
/// was.
pub open spec fn reloc_step(h: &BCHHeader, s: Seq<u8>, v: int) -> Result<
    Seq<u8>,
    BCHRelocateError,
> {
    if entry_target(v) > 14 {
        Err(
            BCHRelocateError::BCHSectionError(BCHSectionError::InvalidCast(entry_target(v) as u8)),
        )
    } else {
        let a = entry_src_addr(h, v);
        if a + 4 <= s.len() {
            Ok(
                store_u32(
                    s,
                    a,
                    wrap32(u32_at(s, a) + section_base(section_of(entry_target(v) as u8), h)),
                ),
            )
        } else {
            Err(BCHRelocateError::NotLongEnought)
        }
    }
}

/// One full iteration of the relocator at entry index `k`: the entry word
/// is read from the table (failing when the table runs past the blob end)
/// and applied.
pub open spec fn reloc_step_at(h: &BCHHeader, s: Seq<u8>, k: int) -> Result<
    Seq<u8>,
    BCHRelocateError,
> {
    let base = h.relocation_address as int;
    if base < 0 || base + 4 * k + 4 > s.len() {
        Err(BCHRelocateError::NotLongEnought)
    } else {
        reloc_step(h, s, u32_at(s, base + 4 * k))
    }
}

/// The blob after a run of the relocator, with the error that stopped it,
/// if one did.
pub struct RelocState {
    pub bytes: Seq<u8>,
    pub err: Option<BCHRelocateError>,
}

/// Entries `k` to `n` of the relocation table applied in order. Each entry
/// word is read from the evolving blob at the table's address; a failing
/// step stops the run with the blob as the earlier steps left it.
pub open spec fn reloc_from(h: &BCHHeader, s: Seq<u8>, k: int, n: int) -> RelocState
    decreases n - k,
{
    if k >= n {
        RelocState { bytes: s, err: None }
    } else {
        match reloc_step_at(h, s, k) {
            Ok(s2) => reloc_from(h, s2, k + 1, n),
            Err(e) => RelocState { bytes: s, err: Some(e) },
        }
    }
}

/// How many entries the relocation table holds: its length field,
/// reinterpreted as an unsigned 64-bit byte count, four bytes per entry.
pub open spec fn reloc_count(h: &BCHHeader) -> int {
    (if h.relocation_length >= 0 {
        h.relocation_length as int
    } else {
        h.relocation_length + 0x1_0000_0000_0000_0000
    }) / 4
}

fn i32_to_u32(a: i32) -> (r: u32)
    ensures
        r as int == u32_of_i32(a),
{
    if a >= 0 {
        a as u32
    } else {
        (a as i64 + 0x1_0000_0000i64) as u32
    }
}

/// The start address of a section, as the relocator uses it.
pub fn get_address(section: BCHSection, header: &BCHHeader) -> (r: u32)
    ensures
        r as int == section_base(section, header),
{
    let base = match section {
        BCHSection::Contents => i32_to_u32(header.contents_address),
        BCHSection::Strings => i32_to_u32(header.strings_address),
        BCHSection::Commands => i32_to_u32(header.commands_address),
        BCHSection::CommandsSrc => i32_to_u32(header.commands_address),
        BCHSection::RawData => i32_to_u32(header.raw_data_address),
        BCHSection::RawDataTexture => i32_to_u32(header.raw_data_address),
        BCHSection::RawDataVertex => i32_to_u32(header.raw_data_address),
        BCHSection::RawDataIndex16 => set_high_bit(i32_to_u32(header.raw_data_address)),
        BCHSection::RawDataIndex8 => i32_to_u32(header.raw_data_address),
        BCHSection::RawExt => i32_to_u32(header.raw_ext_address),
        BCHSection::RawExtTexture => i32_to_u32(header.raw_ext_address),
        BCHSection::RawExtVertex => i32_to_u32(header.raw_ext_address),
        BCHSection::RawExtIndex16 => set_high_bit(i32_to_u32(header.raw_ext_address)),
        BCHSection::RawExtIndex8 => i32_to_u32(header.raw_ext_address),
        BCHSection::BaseAddress => 0,
    };
    base
}

fn set_high_bit(x: u32) -> (r: u32)
    ensures
        r as int == with_high_bit(x as int),
{
    if x >= 0x8000_0000 {
        x
    } else {
        x + 0x8000_0000
    }
}

/// Reads the little-endian word at `a`.
fn peek_u32(bytes: &Vec<u8>, a: usize) -> (r: u32)
    requires
        a + 4 <= bytes.len(),
    ensures
        r as int == u32_at(bytes@, a as int),
{
    (bytes[a] as u32) + (bytes[a + 1] as u32) * 0x100 + (bytes[a + 2] as u32) * 0x1_0000 + (bytes[a
        + 3] as u32) * 0x100_0000
}

/// Writes `v` little-endian over the four bytes at `a`.
fn poke_u32(bytes: &mut Vec<u8>, a: usize, v: u32)
    requires
        a + 4 <= old(bytes).len(),
    ensures
        final(bytes)@ == store_u32(old(bytes)@, a as int, v as int),
{
    bytes[a] = (v % 0x100) as u8;
    bytes[a + 1] = (v / 0x100 % 0x100) as u8;
    bytes[a + 2] = (v / 0x1_0000 % 0x100) as u8;
    bytes[a + 3] = (v / 0x100_0000 % 0x100) as u8;
}

/// Applies relocation entry `k` to the blob.
#[verifier::rlimit(100)]
fn reloc_entry(header: &BCHHeader, bytes: &mut Vec<u8>, k: u64) -> (res: Result<
    (),
    BCHRelocateError,
>)
    requires
        4 * k <= u64::MAX - 4,
    ensures
        match res {
            Ok(()) => reloc_step_at(header, old(bytes)@, k as int) == Ok::<
                Seq<u8>,
                BCHRelocateError,
            >(final(bytes)@),
            Err(e) => reloc_step_at(header, old(bytes)@, k as int) == Err::<
                Seq<u8>,
                BCHRelocateError,
            >(e) && final(bytes)@ == old(bytes)@,
        },
{
    let ghost pre = bytes@;
    if header.relocation_address < 0 {
        return Err(BCHRelocateError::NotLongEnought);
    }
    let base = header.relocation_address as u64;
    let blen = bytes.len();
    let pos = match base.checked_add(4 * k) {
        Some(p) => p,
        None => return Err(BCHRelocateError::NotLongEnought),
    };
    if blen < 4 || pos > (blen - 4) as u64 {
        return Err(BCHRelocateError::NotLongEnought);
    }
    let posu = pos as usize;
    let value = peek_u32(bytes, posu);
    let ptr_word = value % 0x200_0000;
    let target_code = (value / 0x200_0000 % 16) as u8;
    let source_code = (value / 0x2000_0000 % 16) as u8;
    let target = match BCHSection::new(target_code) {
        Ok(t) => t,
        Err(e) => return Err(BCHRelocateError::BCHSectionError(e)),
    };
    let source = match BCHSection::new(source_code) {
        Ok(t) => t,
        Err(e) => return Err(BCHRelocateError::BCHSectionError(e)),
    };
    let ptr_address: u32 = if target != BCHSection::Strings {
        ptr_word * 4
    } else {
        ptr_word
    };
    let src_addr = get_address(source, header).wrapping_add(ptr_address);
    let tgt_base = get_address(target, header);
    if bytes.len() < 4 || src_addr as usize > bytes.len() - 4 {
        return Err(BCHRelocateError::NotLongEnought);
    }
    let w = peek_u32(bytes, src_addr as usize);
    let nv = w.wrapping_add(tgt_base);
    poke_u32(bytes, src_addr as usize, nv);
    proof {
        let v = value as int;
        assert(reloc_step(header, pre, v) == Ok::<Seq<u8>, BCHRelocateError>(bytes@));
    }
    Ok(())
}

/// Runs the relocation table over the blob: every listed pointer, stored
/// relative to its target section, becomes an absolute offset. On an error
/// the entries before the failing one remain applied.
pub fn bch_to_absolute(header: &BCHHeader, bytes: &mut Vec<u8>) -> (res: Result<
    (),
    BCHRelocateError,
>)
    ensures
        ({
            let end = reloc_from(header, old(bytes)@, 0, reloc_count(header));
            &&& final(bytes)@ == end.bytes
            &&& match res {
                Ok(()) => end.err is None,
                Err(e) => end.err == Some(e),
            }
        }),
{
    let len_u64: u64 = if header.relocation_length >= 0 {
        header.relocation_length as u64
    } else {
        u64::MAX - ((-(header.relocation_length as i64)) as u64) + 1
    };
    let n: u64 = len_u64 / 4;
    proof {
        assert(n as int == reloc_count(header));
        assert(n <= u64::MAX / 4) by (nonlinear_arith)
            requires n == len_u64 / 4, len_u64 <= u64::MAX;
    }
    let mut count: u64 = 0;
    while count < n
        invariant
            count <= n,
            n <= u64::MAX / 4,
            n as int == reloc_count(header),
            reloc_from(header, bytes@, count as int, n as int) == reloc_from(
                header,
                old(bytes)@,
                0,
                n as int,
            ),
        decreases n - count,
    {
        let ghost pre = bytes@;
        match reloc_entry(header, bytes, count) {
            Ok(()) => {
                proof {
                    assert(reloc_from(header, pre, count as int, n as int) == reloc_from(
                        header,
                        bytes@,
                        count as int + 1,
                        n as int,
                    ));
                }
            },
            Err(e) => {
                proof {
                    assert(reloc_from(header, pre, count as int, n as int) == (RelocState {
                        bytes: pre,
                        err: Some(e),
                    }));
                }
                return Err(e);
            },
        }
        count = count + 1;
    }
    Ok(())
}

/// An empty relocation table leaves the blob byte-identical.
pub proof fn lemma_relocate_empty(h: &BCHHeader, s: Seq<u8>)
    requires
        h.relocation_length == 0,
    ensures
        reloc_count(h) == 0,
        reloc_from(h, s, 0, reloc_count(h)).bytes == s,
        reloc_from(h, s, 0, reloc_count(h)).err is None,
{
}

/// Relocator semantics for one entry: for source tag `src`, target tag `tgt`
/// and pointer `ptr`, the word at `base(src)` plus the shifted pointer is
/// rewritten to that word plus `base(tgt)`, both sums taken in 32 bits.
pub proof fn lemma_relocate_entry(h: &BCHHeader, s: Seq<u8>, src: int, tgt: int, ptr: int)
    requires
        0 <= src < 8,
        0 <= tgt <= 14,
        0 <= ptr < 0x200_0000,
        ({
            let v = src * 0x2000_0000 + tgt * 0x200_0000 + ptr;
            entry_src_addr(h, v) + 4 <= s.len()
        }),
    ensures
        ({
            let v = src * 0x2000_0000 + tgt * 0x200_0000 + ptr;
            let shifted = if section_of(tgt as u8) == BCHSection::Strings {
                ptr
            } else {
                ptr * 4
            };
            let a = wrap32(section_base(section_of(src as u8), h) + shifted);
            reloc_step(h, s, v) == Ok::<Seq<u8>, BCHRelocateError>(
                store_u32(s, a, wrap32(u32_at(s, a) + section_base(section_of(tgt as u8), h))),
            )
        }),
{
    let v = src * 0x2000_0000 + tgt * 0x200_0000 + ptr;
    assert(entry_ptr(v) == ptr) by (nonlinear_arith)
        requires
            0 <= src < 8,
            0 <= tgt <= 14,
            0 <= ptr < 0x200_0000,
            v == src * 0x2000_0000 + tgt * 0x200_0000 + ptr,
    ;
    assert(entry_target(v) == tgt) by (nonlinear_arith)
        requires
            0 <= src < 8,
            0 <= tgt <= 14,
            0 <= ptr < 0x200_0000,
            v == src * 0x2000_0000 + tgt * 0x200_0000 + ptr,
    ;
    assert(entry_source(v) == src) by (nonlinear_arith)
        requires
            0 <= src < 8,
            0 <= tgt <= 14,
            0 <= ptr < 0x200_0000,
            v == src * 0x2000_0000 + tgt * 0x200_0000 + ptr,
    ;
}

} // verus!
