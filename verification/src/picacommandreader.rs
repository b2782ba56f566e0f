//! The PICA200 command-stream interpreter: a word-counted register-write
//! program decoded into a register file and per-index float-uniform banks.

use vstd::prelude::*;
use crate::picacommand::{
    attribute_format_type_of, vsh_attribute_of, AttributeFormat, AttributeFormatType,
    IndexBufferFormat, PicaCommand, VSHAttribute,
};
use crate::reader::{lemma_u32_at_bytes, lemma_u32_bytes_len, u32_at, u32_bytes, Reader};

verus! {

#[derive(Debug, Clone, Copy)]
pub enum PICACommandReaderError {
    /// The stream ended while the named part of a packet or its alignment
    /// filler was being read.
    IOError(&'static str),
    /// Uniform data arrived before any uniform config.
    UndefinedCurrentUniform,
    /// A uniform config named a bank past the 96 that exist.
    UniformIndexOutOfRange(u32),
    /// Fragment-shader lookup-table writes are not implemented.
    Unimplemented,
}

/// What failed, with the labels stripped: the shape of a
/// `PICACommandReaderError`.
#[derive(Debug, Clone, Copy, PartialEq, Eq, Structural)]
pub enum PicaFailure {
    Exhausted,
    UndefinedCurrentUniform,
    UniformIndexOutOfRange(u32),
    Unimplemented,
}

/// The failure an error value reports.
pub open spec fn pica_err_kind(e: PICACommandReaderError) -> PicaFailure {
    match e {
        PICACommandReaderError::IOError(_) => PicaFailure::Exhausted,
        PICACommandReaderError::UndefinedCurrentUniform => PicaFailure::UndefinedCurrentUniform,
        PICACommandReaderError::UniformIndexOutOfRange(u) => PicaFailure::UniformIndexOutOfRange(
            u,
        ),
        PICACommandReaderError::Unimplemented => PicaFailure::Unimplemented,
    }
}

/// The decoder state between packets.
pub struct PicaState {
    pub regs: Seq<u32>,
    pub uniforms: Seq<Seq<u32>>,
    pub cur_uniform: Option<u32>,
    pub pos: int,
    pub words_read: int,
}

/// What a finished decode yields: the register file, the uniform banks, and
/// the cursor position after the stream.
pub struct PicaRun {
    pub regs: Seq<u32>,
    pub uniforms: Seq<Seq<u32>>,
    pub pos: int,
}

/// The decoder state before any packet: a zeroed register file, 96 empty
/// uniform banks, no uniform configured, the cursor at `pos`.
pub open spec fn pica_init(pos: int) -> PicaState {
    PicaState {
        regs: Seq::new(0x10000, |i: int| 0u32),
        uniforms: Seq::new(96, |i: int| Seq::<u32>::empty()),
        cur_uniform: None,
        pos: pos,
        words_read: 0,
    }
}

/// The masked register write: the mask's four bits choose, within the low
/// nibble, between the old register value and the data word; the high 28
/// bits always come from the data word.
pub open spec fn masked_write(reg: u32, mask: u32, data: u32) -> u32 {
    (reg & (!mask & 0xf)) | (data & (0xfffffff0u32 | mask))
}

/// The state while one packet's extra data words are consumed.
pub struct PicaPacketState {
    pub regs: Seq<u32>,
    pub uniform: Seq<u32>,
    pub id: int,
    pub pos: int,
}

/// Words still owed to the decode; the measure that shrinks with every
/// packet.
pub open spec fn words_remaining(word_count: int, read: int) -> nat {
    if word_count > read {
        (word_count - read) as nat
    } else {
        0
    }
}

/// Extra data words `i` to `n` of one packet. Under consecutive writing the
/// register id advances by one (wrapping in 16 bits) before each write; a
/// write to an id strictly between 0x2C0 and 0x2C9 pushes the written value
/// onto the uniform buffer; a lookup-table id fails as unimplemented.
pub open spec fn pica_extras(
    s: Seq<u8>,
    st: PicaPacketState,
    mask: int,
    consec: bool,
    i: int,
    n: int,
) -> Result<PicaPacketState, PicaFailure>
    decreases n - i,
{
    if i >= n {
        Ok(st)
    } else {
        let id = if consec {
            (st.id + 1) % 0x10000
        } else {
            st.id
        };
        if st.pos + 4 > s.len() {
            Err(PicaFailure::Exhausted)
        } else {
            let w = u32_at(s, st.pos);
            let nv = masked_write(st.regs[id], mask as u32, w as u32);
            let regs2 = st.regs.update(id, nv);
            let buf2 = if 0x2c0 < id && id < 0x2c9 {
                st.uniform.push(nv)
            } else {
                st.uniform
            };
            if id == 0x1c8 {
                Err(PicaFailure::Unimplemented)
            } else {
                pica_extras(
                    s,
                    PicaPacketState { regs: regs2, uniform: buf2, id: id, pos: st.pos + 4 },
                    mask,
                    consec,
                    i + 1,
                    n,
                )
            }
        }
    }
}

/// The uniform buffer flushed into its bank at the end of a packet. An
/// empty buffer flushes to nothing; a non-empty one needs a configured bank
/// index below 96 and is appended to that bank.
pub open spec fn flush_uniform(
    uniforms: Seq<Seq<u32>>,
    cur: Option<u32>,
    buf: Seq<u32>,
) -> Result<Seq<Seq<u32>>, PicaFailure> {
    if buf.len() == 0 {
        Ok(uniforms)
    } else {
        match cur {
            None => Err(PicaFailure::UndefinedCurrentUniform),
            Some(u) => if u < 96 {
                Ok(uniforms.update(u as int, uniforms[u as int] + buf))
            } else {
                Err(PicaFailure::UniformIndexOutOfRange(u))
            },
        }
    }
}

/// Filler words consumed until the cursor is aligned to 8 bytes.
pub open spec fn pad_to_8(s: Seq<u8>, pos: int) -> Result<int, PicaFailure>
    decreases s.len() - pos,
{
    if pos % 8 == 0 {
        Ok(pos)
    } else if pos + 4 > s.len() {
        Err(PicaFailure::Exhausted)
    } else {
        pad_to_8(s, pos + 4)
    }
}

/// The decode from state `st` on: packets are read and applied until a
/// BlockEnd id or until `word_count` words have been read. Each packet is a
/// data word and a header word (id, 4-bit mask, extra word count,
/// consecutive-writing flag), the masked write, the command's effect, the
/// extra words, the uniform flush, and the re-alignment to 8 bytes.
pub open spec fn pica_run(s: Seq<u8>, st: PicaState, word_count: int) -> Result<
    PicaRun,
    PicaFailure,
>
    decreases words_remaining(word_count, st.words_read),
{
    if st.words_read >= word_count {
        Ok(PicaRun { regs: st.regs, uniforms: st.uniforms, pos: st.pos })
    } else if st.pos + 8 > s.len() {
        Err(PicaFailure::Exhausted)
    } else {
        let data = u32_at(s, st.pos);
        let hdr = u32_at(s, st.pos + 4);
        let id = hdr % 0x10000;
        let mask = (hdr / 0x1_0000) % 16;
        let extra = (hdr / 0x10_0000) % 0x800;
        let consec = hdr >= 0x8000_0000;
        let nv = masked_write(st.regs[id], mask as u32, data as u32);
        let regs1 = st.regs.update(id, nv);
        if id == 0x23d {
            Ok(PicaRun { regs: regs1, uniforms: st.uniforms, pos: st.pos + 8 })
        } else if id == 0x1c8 {
            Err(PicaFailure::Unimplemented)
        } else {
            let cur1 = if id == 0x2c0 {
                Some((data % 0x8000_0000) as u32)
            } else {
                st.cur_uniform
            };
            let buf0: Seq<u32> = if id == 0x2c1 {
                seq![nv]
            } else {
                Seq::empty()
            };
            let start = PicaPacketState { regs: regs1, uniform: buf0, id: id, pos: st.pos + 8 };
            match pica_extras(s, start, mask, consec, 0, extra) {
                Err(e) => Err(e),
                Ok(st2) => match flush_uniform(st.uniforms, cur1, st2.uniform) {
                    Err(e) => Err(e),
                    Ok(uni2) => match pad_to_8(s, st2.pos) {
                        Err(e) => Err(e),
                        Ok(pos2) => pica_run(
                            s,
                            PicaState {
                                regs: st2.regs,
                                uniforms: uni2,
                                cur_uniform: cur1,
                                pos: pos2,
                                words_read: st.words_read + 2 + extra,
                            },
                            word_count,
                        ),
                    },
                },
            }
        }
    }
}


/// The 64-bit composite of two 32-bit register words, low word first.
pub open spec fn composite64(lo: int, hi: int) -> int {
    lo + hi * 0x1_0000_0000
}

/// Sixteen to the power `k`.
pub open spec fn pow16(k: nat) -> int
    decreases k,
{
    if k == 0 {
        1
    } else {
        16 * pow16((k - 1) as nat)
    }
}

/// The `k`-th 4-bit group of a composite, counted from the low end.
pub open spec fn nibble_at(v: int, k: int) -> int {
    (v / pow16(k as nat)) % 16
}

proof fn lemma_pow16_pos(k: nat)
    ensures
        pow16(k) > 0,
    decreases k,
{
    if k > 0 {
        lemma_pow16_pos((k - 1) as nat);
    }
}

/// The sixteen 4-bit groups of the composite of two words, low group first.
fn nibbles16(lo: u32, hi: u32) -> (r: Vec<u8>)
    ensures
        r@.len() == 16,
        forall|k: int| 0 <= k < 16 ==> (#[trigger] r@[k]) < 16,
        forall|k: int|
            0 <= k < 16 ==> (#[trigger] r@[k]) as int == nibble_at(
                composite64(lo as int, hi as int),
                k,
            ),
{
    let ghost composite = composite64(lo as int, hi as int);
    let mut perm: u64 = lo as u64 + (hi as u64) * 0x1_0000_0000;
    let mut out: Vec<u8> = Vec::new();
    proof {
        assert(pow16(0) == 1);
    }
    while out.len() < 16
        invariant
            out@.len() <= 16,
            perm as int == composite / pow16(out@.len() as nat),
            0 <= composite,
            composite == composite64(lo as int, hi as int),
            forall|k: int| 0 <= k < out@.len() ==> (#[trigger] out@[k]) < 16,
            forall|k: int| 0 <= k < out@.len() ==> (#[trigger] out@[k]) as int == nibble_at(
                composite,
                k,
            ),
        decreases 16 - out@.len(),
    {
        let ghost i = out@.len() as nat;
        let nib: u8 = (perm % 16) as u8;
        proof {
            lemma_pow16_pos(i);
            assert(nib as int == nibble_at(composite, i as int));
            assert((composite / pow16(i)) / 16 == composite / (pow16(i) * 16)) by (nonlinear_arith)
                requires 0 <= composite, pow16(i) > 0;
            assert(pow16(i + 1) == 16 * pow16(i));
            assert(perm as int / 16 == composite / pow16(i + 1));
        }
        out.push(nib);
        perm = perm / 16;
    }
    out
}

/// The abstract contents of the uniform banks.
pub open spec fn banks_view(v: Seq<Vec<u32>>) -> Seq<Seq<u32>> {
    Seq::new(v.len(), |i: int| v[i]@)
}

/// The decoded output of a PICA command stream: the register file, a
/// fragment-shader lookup table (left zeroed: writes to it are
/// unimplemented), and the 96 float-uniform banks, each a sequence of
/// 32-bit float bit patterns.
#[derive(Debug)]
pub struct PICACommandReader {
    pub commands: Vec<u32>,
    pub lookup_table: Vec<u32>,
    pub float_uniform: Vec<Vec<u32>>,
}

impl PICACommandReader {
    /// The shape every decoded snapshot has.
    pub open spec fn wf(&self) -> bool {
        &&& self.commands@.len() == 0x10000
        &&& self.lookup_table@.len() == 256
        &&& self.float_uniform@.len() == 96
    }

    /// Interprets `word_count` words of register writes at the cursor,
    /// exactly as `pica_run` describes.
    #[verifier::loop_isolation(false)]
    #[verifier::rlimit(100)]
    pub fn read(r: &mut Reader, word_count: u64) -> (res: Result<
        PICACommandReader,
        PICACommandReaderError,
    >)
        requires
            word_count <= u64::MAX - 0x1000,
        ensures
            final(r).data == old(r).data,
            ({
                let run = pica_run(old(r).data@, pica_init(old(r).pos as int), word_count as int);
                match res {
                    Ok(p) => {
                        &&& p.wf()
                        &&& run matches Ok(o) && p.commands@ == o.regs && banks_view(
                            p.float_uniform@,
                        ) == o.uniforms && final(r).pos == o.pos
                        &&& p.lookup_table@ == Seq::new(256, |i: int| 0u32)
                    },
                    Err(e) => run == Err::<PicaRun, PicaFailure>(pica_err_kind(e)),
                }
            }),
    {
        let ghost s = r.data@;
        let mut commands: Vec<u32> = Vec::new();
        while commands.len() < 0x10000
            invariant
                commands@.len() <= 0x10000,
                forall|k: int| 0 <= k < commands@.len() ==> commands@[k] == 0u32,
            decreases 0x10000 - commands@.len(),
        {
            commands.push(0);
        }
        let mut lookup_table: Vec<u32> = Vec::new();
        while lookup_table.len() < 256
            invariant
                lookup_table@.len() <= 256,
                forall|k: int| 0 <= k < lookup_table@.len() ==> lookup_table@[k] == 0u32,
            decreases 256 - lookup_table@.len(),
        {
            lookup_table.push(0);
        }
        let mut float_uniform: Vec<Vec<u32>> = Vec::new();
        while float_uniform.len() < 96
            invariant
                float_uniform@.len() <= 96,
                forall|k: int| 0 <= k < float_uniform@.len() ==> float_uniform@[k]@
                    == Seq::<u32>::empty(),
            decreases 96 - float_uniform@.len(),
        {
            float_uniform.push(Vec::new());
        }
        proof {
            assert(commands@ =~= pica_init(old(r).pos as int).regs);
            assert(banks_view(float_uniform@) =~= pica_init(old(r).pos as int).uniforms);
            assert(lookup_table@ =~= Seq::new(256, |i: int| 0u32));
        }
        let mut word_read: u64 = 0;
        let mut current_uniform: Option<u32> = None;
        while word_read < word_count
            invariant
                word_count <= u64::MAX - 0x1000,
                word_read <= word_count + 0x801,
                commands@.len() == 0x10000,
                float_uniform@.len() == 96,
                lookup_table@ == Seq::new(256, |i: int| 0u32),
                r.data == old(r).data,
                s == r.data@,
                pica_run(
                    s,
                    PicaState {
                        regs: commands@,
                        uniforms: banks_view(float_uniform@),
                        cur_uniform: current_uniform,
                        pos: r.pos as int,
                        words_read: word_read as int,
                    },
                    word_count as int,
                ) == pica_run(s, pica_init(old(r).pos as int), word_count as int),
            decreases words_remaining(word_count as int, word_read as int),
        {
            let ghost st_top = PicaState {
                regs: commands@,
                uniforms: banks_view(float_uniform@),
                cur_uniform: current_uniform,
                pos: r.pos as int,
                words_read: word_read as int,
            };
            let parameter = match r.read_u32_le() {
                Some(v) => v,
                None => return Err(PICACommandReaderError::IOError("parameter")),
            };
            let header = match r.read_u32_le() {
                Some(v) => v,
                None => return Err(PICACommandReaderError::IOError("header")),
            };
            let mut id: u16 = (header % 0x10000) as u16;
            let mask: u32 = header / 0x1_0000 % 16;
            let extra_parameter: u32 = header / 0x10_0000 % 0x800;
            let consecutive_writing: bool = header >= 0x8000_0000;

            let old_reg = commands[id as usize];
            let nv = (old_reg & (!mask & 0xf)) | (parameter & (0xfffffff0 | mask));
            commands[id as usize] = nv;
            let ghost regs1 = commands@;

            let mut uniform: Vec<u32> = Vec::new();
            match PicaCommand::new_from_id(id) {
                PicaCommand::BlockEnd => {
                    return Ok(PICACommandReader { commands, lookup_table, float_uniform });
                },
                PicaCommand::VertexShaderFloatUniformConfig => {
                    current_uniform = Some(parameter % 0x8000_0000);
                },
                PicaCommand::VertexShaderFloatUniformData => {
                    uniform.push(nv);
                },
                PicaCommand::FragmentShaderLookUpTableData => {
                    return Err(PICACommandReaderError::Unimplemented);
                },
                _ => {},
            }
            let ghost start = PicaPacketState {
                regs: regs1,
                uniform: uniform@,
                id: id as int,
                pos: r.pos as int,
            };
            let mut i: u32 = 0;
            while i < extra_parameter
                invariant
                    i <= extra_parameter,
                    commands@.len() == 0x10000,
                    r.data == old(r).data,
                    s == r.data@,
                    r.pos <= s.len(),
                    pica_extras(
                        s,
                        PicaPacketState {
                            regs: commands@,
                            uniform: uniform@,
                            id: id as int,
                            pos: r.pos as int,
                        },
                        mask as int,
                        consecutive_writing,
                        i as int,
                        extra_parameter as int,
                    ) == pica_extras(
                        s,
                        start,
                        mask as int,
                        consecutive_writing,
                        0,
                        extra_parameter as int,
                    ),
                decreases extra_parameter - i,
            {
                let ghost pre = PicaPacketState {
                    regs: commands@,
                    uniform: uniform@,
                    id: id as int,
                    pos: r.pos as int,
                };
                if consecutive_writing {
                    id = id.wrapping_add(1);
                }
                proof {
                    assert(id as int == if consecutive_writing {
                        (pre.id + 1) % 0x10000
                    } else {
                        pre.id
                    });
                }
                let w = match r.read_u32_le() {
                    Some(v) => v,
                    None => return Err(PICACommandReaderError::IOError("some strange stuff")),
                };
                let old_reg2 = commands[id as usize];
                let nv2 = (old_reg2 & (!mask & 0xf)) | (w & (0xfffffff0 | mask));
                commands[id as usize] = nv2;
                if id > 0x2c0 && id < 0x2c9 {
                    uniform.push(nv2);
                }
                if id == 0x1c8 {
                    return Err(PICACommandReaderError::Unimplemented);
                }
                proof {
                    assert(pica_extras(
                        s,
                        pre,
                        mask as int,
                        consecutive_writing,
                        i as int,
                        extra_parameter as int,
                    ) == pica_extras(
                        s,
                        PicaPacketState {
                            regs: commands@,
                            uniform: uniform@,
                            id: id as int,
                            pos: r.pos as int,
                        },
                        mask as int,
                        consecutive_writing,
                        i as int + 1,
                        extra_parameter as int,
                    ));
                }
                i = i + 1;
            }
            let ghost st2g = PicaPacketState {
                regs: commands@,
                uniform: uniform@,
                id: id as int,
                pos: r.pos as int,
            };
            proof {
                assert(pica_extras(
                    s,
                    start,
                    mask as int,
                    consecutive_writing,
                    0,
                    extra_parameter as int,
                ) == Ok::<PicaPacketState, PicaFailure>(st2g));
            }
            let ghost banks_top = banks_view(float_uniform@);
            // flush the uniform buffer into its bank
            if uniform.len() > 0 {
                match current_uniform {
                    None => return Err(PICACommandReaderError::UndefinedCurrentUniform),
                    Some(cu) => {
                        if cu < 96 {
                            let ghost banks_before = banks_view(float_uniform@);
                            let ghost buf = uniform@;
                            let bank = &mut float_uniform[cu as usize];
                            bank.append(&mut uniform);
                            proof {
                                assert(banks_view(float_uniform@) =~= banks_before.update(
                                    cu as int,
                                    banks_before[cu as int] + buf,
                                ));
                            }
                        } else {
                            return Err(PICACommandReaderError::UniformIndexOutOfRange(cu));
                        }
                    },
                }
            }
            // consume filler words until the cursor is 8-byte aligned
            let ghost pad_begin = r.pos as int;
            while r.pos % 8 != 0
                invariant
                    r.data == old(r).data,
                    s == r.data@,
                    r.pos <= s.len(),
                    pad_to_8(s, r.pos as int) == pad_to_8(s, pad_begin),
                decreases s.len() - r.pos,
            {
                match r.read_u32_le() {
                    Some(_) => {},
                    None => return Err(PICACommandReaderError::IOError("padding")),
                }
            }
            word_read = word_read + 2 + extra_parameter as u64;
            proof {
                assert(pica_run(s, st_top, word_count as int) == pica_run(
                    s,
                    PicaState {
                        regs: commands@,
                        uniforms: banks_view(float_uniform@),
                        cur_uniform: current_uniform,
                        pos: r.pos as int,
                        words_read: word_read as int,
                    },
                    word_count as int,
                ));
            }
        }
        Ok(PICACommandReader { commands, lookup_table, float_uniform })
    }

    /// The index-buffer address register, without its format bit.
    pub fn get_index_buffer_address(&self) -> (r: u32)
        requires
            self.wf(),
        ensures
            r as int == self.commands@[0x227] as int % 0x8000_0000,
    {
        self.commands[0x227] % 0x8000_0000
    }

    /// The index-buffer entry width: the top bit of the address register.
    pub fn get_index_buffer_format(&self) -> (r: IndexBufferFormat)
        requires
            self.wf(),
        ensures
            r == (if self.commands@[0x227] < 0x8000_0000 {
                IndexBufferFormat::U8
            } else {
                IndexBufferFormat::U16
            }),
    {
        if self.commands[0x227] < 0x8000_0000 {
            IndexBufferFormat::U8
        } else {
            IndexBufferFormat::U16
        }
    }

    /// How many indices the index buffer holds.
    pub fn get_index_buffer_total_vertices(&self) -> (r: u32)
        requires
            self.wf(),
        ensures
            r == self.commands@[0x228],
    {
        self.commands[0x228]
    }

    /// The vertex buffer offset of attribute group `nb`.
    pub fn get_vsh_attributes_buffer_offset(&self, nb: usize) -> (r: u32)
        requires
            self.wf(),
            0x203 + nb * 3 < 0x10000,
        ensures
            r == self.commands@[0x203 + nb * 3],
    {
        self.commands[0x203 + nb * 3]
    }

    /// The per-vertex stride of attribute group `nb`.
    pub fn get_vsh_attributes_buffer_stride(&self, nb: usize) -> (r: u8)
        requires
            self.wf(),
            0x205 + nb * 3 < 0x10000,
        ensures
            r as int == self.commands@[0x205 + nb * 3] as int / 0x1_0000 % 0x100,
    {
        (self.commands[0x205 + nb * 3] / 0x1_0000 % 0x100) as u8
    }

    /// How many attributes group `nb` carries per vertex.
    pub fn get_vsh_total_attributes(&self, nb: usize) -> (r: u32)
        requires
            self.wf(),
            0x205 + nb * 3 < 0x10000,
        ensures
            r as int == self.commands@[0x205 + nb * 3] as int / 0x1000_0000,
    {
        self.commands[0x205 + nb * 3] / 0x1000_0000
    }

    /// The main attribute permutation: sixteen nibbles of the two dedicated
    /// registers, each decoded as an attribute identity (a nibble is at most
    /// 15, so each decodes).
    pub fn get_vsh_attributes_buffer_permutation_none(&self) -> (r: Vec<VSHAttribute>)
        requires
            self.wf(),
        ensures
            r@.len() == 16,
            forall|k: int|
                0 <= k < 16 ==> vsh_attribute_of(
                    nibble_at(
                        composite64(self.commands@[0x2bb] as int, self.commands@[0x2bc] as int),
                        k,
                    ) as u8,
                ) == Some(r@[k]),
    {
        let nibs = nibbles16(self.commands[0x2bb], self.commands[0x2bc]);
        let mut attributes: Vec<VSHAttribute> = Vec::new();
        let ghost composite = composite64(self.commands@[0x2bb] as int, self.commands@[0x2bc] as int);
        let mut attribute: usize = 0;
        while attribute < 16
            invariant
                attribute <= 16,
                attributes@.len() == attribute,
                nibs@.len() == 16,
                forall|k: int| 0 <= k < 16 ==> (#[trigger] nibs@[k]) < 16,
                forall|k: int| 0 <= k < 16 ==> (#[trigger] nibs@[k]) as int == nibble_at(
                    composite,
                    k,
                ),
                forall|k: int|
                    0 <= k < attribute ==> vsh_attribute_of(nibble_at(composite, k) as u8) == Some(
                        #[trigger] attributes@[k],
                    ),
            decreases 16 - attribute,
        {
            let a = match VSHAttribute::new(nibs[attribute]) {
                Some(a) => a,
                None => {
                    proof {
                        assert(false);
                    }
                    VSHAttribute::Position
                },
            };
            attributes.push(a);
            attribute = attribute + 1;
        }
        attributes
    }

    /// The per-group attribute permutation of group `nb`: sixteen nibbles of
    /// the group's two registers (only the low half of the second counts).
    pub fn get_vsh_attributes_buffer_permutation(&self, nb: usize) -> (r: Vec<u8>)
        requires
            self.wf(),
            0x205 + nb * 3 < 0x10000,
        ensures
            r@.len() == 16,
            forall|k: int| 0 <= k < 16 ==> (#[trigger] r@[k]) < 16,
            forall|k: int|
                0 <= k < 16 ==> (#[trigger] r@[k]) as int == nibble_at(
                    composite64(
                        self.commands@[0x204 + nb * 3] as int,
                        self.commands@[0x205 + nb * 3] as int % 0x10000,
                    ),
                    k,
                ),
    {
        nibbles16(self.commands[0x204 + nb * 3], self.commands[0x205 + nb * 3] % 0x10000)
    }

    /// The attribute formats: sixteen nibbles of the two format registers,
    /// each giving an element type (low two bits) and a length code (high
    /// two bits).
    pub fn get_vsh_attributes_buffer_format(&self) -> (r: Vec<AttributeFormat>)
        requires
            self.wf(),
        ensures
            r@.len() == 16,
            forall|k: int|
                0 <= k < 16 ==> {
                    let nib = nibble_at(
                        composite64(self.commands@[0x201] as int, self.commands@[0x202] as int),
                        k,
                    );
                    &&& attribute_format_type_of((nib % 4) as u8) == Some(
                        (#[trigger] r@[k]).format_type,
                    )
                    &&& r@[k].attribute_length == nib / 4
                },
    {
        let nibs = nibbles16(self.commands[0x201], self.commands[0x202]);
        let ghost composite = composite64(self.commands@[0x201] as int, self.commands@[0x202] as int);
        let mut formats: Vec<AttributeFormat> = Vec::new();
        let mut attribute: usize = 0;
        while attribute < 16
            invariant
                attribute <= 16,
                formats@.len() == attribute,
                nibs@.len() == 16,
                forall|k: int| 0 <= k < 16 ==> (#[trigger] nibs@[k]) < 16,
                forall|k: int| 0 <= k < 16 ==> (#[trigger] nibs@[k]) as int == nibble_at(
                    composite,
                    k,
                ),
                forall|k: int|
                    0 <= k < attribute ==> {
                        let nib = nibble_at(composite, k);
                        &&& attribute_format_type_of((nib % 4) as u8) == Some(
                            (#[trigger] formats@[k]).format_type,
                        )
                        &&& formats@[k].attribute_length == nib / 4
                    },
            decreases 16 - attribute,
        {
            let value = nibs[attribute];
            let ft = match AttributeFormatType::new(value % 4) {
                Some(t) => t,
                None => {
                    proof {
                        assert(false);
                    }
                    AttributeFormatType::SignedByte
                },
            };
            formats.push(AttributeFormat { format_type: ft, attribute_length: (value / 4) as u32 });
            attribute = attribute + 1;
        }
        formats
    }
}


/// Alignment invariant: wherever a packet's filler step lands, the cursor
/// is on a multiple of 8 bytes, so every packet after the first starts
/// aligned.
pub proof fn lemma_pad_alignment(s: Seq<u8>, pos: int, p2: int)
    requires
        pad_to_8(s, pos) == Ok::<int, PicaFailure>(p2),
    ensures
        p2 % 8 == 0,
    decreases s.len() - pos,
{
    if pos % 8 == 0 {
    } else if pos + 4 > s.len() {
    } else {
        lemma_pad_alignment(s, pos + 4, p2);
    }
}

/// Alignment of the whole decode: a run that starts on a multiple of 8
/// ends every successful decode on one, whether it stopped at a BlockEnd
/// packet or by exhausting the word count — after every command packet the
/// cursor is 8-byte aligned.
pub proof fn lemma_run_alignment(s: Seq<u8>, st: PicaState, word_count: int)
    requires
        st.pos % 8 == 0,
        pica_run(s, st, word_count) is Ok,
    ensures
        pica_run(s, st, word_count)->Ok_0.pos % 8 == 0,
    decreases words_remaining(word_count, st.words_read),
{
    if st.words_read >= word_count {
    } else if st.pos + 8 > s.len() {
    } else {
        let data = u32_at(s, st.pos);
        let hdr = u32_at(s, st.pos + 4);
        let id = hdr % 0x10000;
        let mask = (hdr / 0x1_0000) % 16;
        let extra = (hdr / 0x10_0000) % 0x800;
        let consec = hdr >= 0x8000_0000;
        let nv = masked_write(st.regs[id], mask as u32, data as u32);
        let regs1 = st.regs.update(id, nv);
        if id == 0x23d {
            assert((st.pos + 8) % 8 == 0) by (nonlinear_arith)
                requires st.pos % 8 == 0;
        } else if id == 0x1c8 {
        } else {
            let cur1 = if id == 0x2c0 {
                Some((data % 0x8000_0000) as u32)
            } else {
                st.cur_uniform
            };
            let buf0: Seq<u32> = if id == 0x2c1 {
                seq![nv]
            } else {
                Seq::empty()
            };
            let start = PicaPacketState { regs: regs1, uniform: buf0, id: id, pos: st.pos + 8 };
            match pica_extras(s, start, mask, consec, 0, extra) {
                Err(_) => {},
                Ok(st2) => match flush_uniform(st.uniforms, cur1, st2.uniform) {
                    Err(_) => {},
                    Ok(uni2) => match pad_to_8(s, st2.pos) {
                        Err(_) => {},
                        Ok(pos2) => {
                            lemma_pad_alignment(s, st2.pos, pos2);
                            lemma_run_alignment(
                                s,
                                PicaState {
                                    regs: st2.regs,
                                    uniforms: uni2,
                                    cur_uniform: cur1,
                                    pos: pos2,
                                    words_read: st.words_read + 2 + extra,
                                },
                                word_count,
                            );
                        },
                    },
                },
            }
        }
    }
}

/// BlockEnd first: a stream whose first packet names the BlockEnd id stops
/// at once, with the register file written exactly once (at that id) and
/// every uniform bank still empty.
pub proof fn lemma_block_end_first(d: u32, hdr: u32, rest: Seq<u8>, wc: int)
    requires
        hdr as int % 0x10000 == 0x23d,
        wc >= 1,
    ensures
        ({
            let s = u32_bytes(d as int) + u32_bytes(hdr as int) + rest;
            let r = pica_run(s, pica_init(0), wc);
            &&& r is Ok
            &&& r->Ok_0.regs == pica_init(0).regs.update(
                0x23d,
                masked_write(0u32, ((hdr as int / 0x1_0000) % 16) as u32, d),
            )
            &&& r->Ok_0.uniforms == pica_init(0).uniforms
            &&& r->Ok_0.pos == 8
        }),
{
    broadcast use lemma_u32_bytes_len;

    let s = u32_bytes(d as int) + u32_bytes(hdr as int) + rest;
    assert(s.subrange(0, 4) =~= u32_bytes(d as int));
    lemma_u32_at_bytes(s, 0, d as int);
    assert(s.subrange(4, 8) =~= u32_bytes(hdr as int));
    lemma_u32_at_bytes(s, 4, hdr as int);
    assert(pica_init(0).regs[0x23d] == 0u32);
}

/// The bytes of a run of single-write packets: each is a data word and a
/// header that names `id` with a 4-bit mask, no extra words, no
/// consecutive-writing flag.
pub open spec fn single_write_packets(id: int, ws: Seq<(u32, u32)>) -> Seq<u8>
    decreases ws.len(),
{
    if ws.len() == 0 {
        Seq::empty()
    } else {
        u32_bytes(ws[0].1 as int) + u32_bytes(id + ws[0].0 * 0x1_0000) + single_write_packets(
            id,
            ws.drop_first(),
        )
    }
}

/// The cumulative masked write of a sequence of (mask, data) pairs.
pub open spec fn apply_masked_writes(reg: u32, ws: Seq<(u32, u32)>) -> u32
    decreases ws.len(),
{
    if ws.len() == 0 {
        reg
    } else {
        apply_masked_writes(masked_write(reg, ws[0].0, ws[0].1), ws.drop_first())
    }
}

proof fn lemma_packets_len(id: int, ws: Seq<(u32, u32)>)
    ensures
        single_write_packets(id, ws).len() == 8 * ws.len(),
    decreases ws.len(),
{
    broadcast use lemma_u32_bytes_len;

    if ws.len() > 0 {
        lemma_packets_len(id, ws.drop_first());
    }
}

proof fn lemma_packets_bytes(id: int, ws: Seq<(u32, u32)>, k: int)
    requires
        0 <= k < ws.len(),
        0 <= id < 0x10000,
        ws[k].0 < 16,
    ensures
        u32_at(single_write_packets(id, ws), 8 * k) == ws[k].1 as int,
        u32_at(single_write_packets(id, ws), 8 * k + 4) == id + ws[k].0 * 0x1_0000,
    decreases k,
{
    broadcast use lemma_u32_bytes_len;

    let s = single_write_packets(id, ws);
    lemma_packets_len(id, ws);
    if k == 0 {
        assert(s.subrange(0, 4) =~= u32_bytes(ws[0].1 as int));
        lemma_u32_at_bytes(s, 0, ws[0].1 as int);
        assert(s.subrange(4, 8) =~= u32_bytes(id + ws[0].0 * 0x1_0000));
        lemma_u32_at_bytes(s, 4, id + ws[0].0 * 0x1_0000);
    } else {
        let rest = ws.drop_first();
        lemma_packets_len(id, rest);
        lemma_packets_bytes(id, rest, k - 1);
        let sr = single_write_packets(id, rest);
        assert(rest[k - 1] == ws[k]);
        assert forall|t: int| 0 <= t < sr.len() implies s[8 + t] == sr[t] by {}
        assert(u32_at(s, 8 * k) == u32_at(sr, 8 * (k - 1)));
        assert(u32_at(s, 8 * k + 4) == u32_at(sr, 8 * (k - 1) + 4));
    }
}

proof fn lemma_single_writes_from(s: Seq<u8>, id: int, ws: Seq<(u32, u32)>, st: PicaState, wc: int)
    requires
        st.pos >= 0,
        st.pos % 8 == 0,
        st.pos + 8 * ws.len() <= s.len(),
        wc == st.words_read + 2 * ws.len(),
        st.regs.len() == 0x10000,
        0 <= id < 0x10000,
        id != 0x23d,
        id != 0x1c8,
        id != 0x2c1,
        forall|k: int| 0 <= k < ws.len() ==> (#[trigger] ws[k]).0 < 16,
        forall|k: int|
            0 <= k < ws.len() ==> u32_at(s, st.pos + 8 * k) == (#[trigger] ws[k]).1 as int
                && u32_at(s, st.pos + 8 * k + 4) == id + ws[k].0 * 0x1_0000,
    ensures
        ({
            let r = pica_run(s, st, wc);
            &&& r is Ok
            &&& r->Ok_0.regs == st.regs.update(id, apply_masked_writes(st.regs[id], ws))
            &&& r->Ok_0.uniforms == st.uniforms
            &&& r->Ok_0.pos == st.pos + 8 * ws.len()
        }),
    decreases ws.len(),
{
    if ws.len() == 0 {
        assert(st.regs.update(id, st.regs[id]) =~= st.regs);
    } else {
        let m = ws[0].0;
        let d = ws[0].1;
        let hdr = id + m * 0x1_0000;
        assert(u32_at(s, st.pos) == d as int && u32_at(s, st.pos + 4) == hdr);
        assert(hdr % 0x10000 == id) by (nonlinear_arith)
            requires 0 <= id < 0x10000, hdr == id + m * 0x1_0000, 0 <= m;
        assert(hdr / 0x1_0000 == m as int) by (nonlinear_arith)
            requires 0 <= id < 0x10000, hdr == id + m * 0x1_0000, 0 <= m;
        assert(hdr / 0x10_0000 == 0) by (nonlinear_arith)
            requires 0 <= hdr < 0x10_0000;
        assert((m as int) % 16 == m as int);
        let nv = masked_write(st.regs[id], m, d);
        let cur1 = if id == 0x2c0 {
            Some((d as int % 0x8000_0000) as u32)
        } else {
            st.cur_uniform
        };
        let st1 = PicaState {
            regs: st.regs.update(id, nv),
            uniforms: st.uniforms,
            cur_uniform: cur1,
            pos: st.pos + 8,
            words_read: st.words_read + 2,
        };
        assert((st.pos + 8) % 8 == 0) by (nonlinear_arith)
            requires st.pos % 8 == 0;
        let rest = ws.drop_first();
        assert forall|k: int| 0 <= k < rest.len() implies (#[trigger] rest[k]).0 < 16 && u32_at(
            s,
            st1.pos + 8 * k,
        ) == rest[k].1 as int && u32_at(s, st1.pos + 8 * k + 4) == id + rest[k].0
            * 0x1_0000 by {
            assert(rest[k] == ws[k + 1]);
            assert(u32_at(s, st.pos + 8 * (k + 1)) == ws[k + 1].1 as int);
            assert(u32_at(s, st.pos + 8 * (k + 1) + 4) == id + ws[k + 1].0 * 0x1_0000);
            assert(st1.pos + 8 * k == st.pos + 8 * (k + 1));
        }
        lemma_single_writes_from(s, id, rest, st1, wc);
        assert(pica_run(s, st, wc) == pica_run(s, st1, wc));
        assert(st.regs.update(id, nv).update(id, apply_masked_writes(nv, rest)) =~= st.regs.update(
            id,
            apply_masked_writes(nv, rest),
        ));
        assert(apply_masked_writes(st.regs[id], ws) == apply_masked_writes(nv, rest));
    }
}

/// PICA masking: a run of single-write packets `(mask, data)` aimed at one
/// register leaves that register holding the cumulative masked writes,
/// applied in order to the zeroed file, every other register zero, and all
/// uniform banks empty. The ids whose packets do more than write a register
/// (BlockEnd, uniform data, the lookup table) are excluded.
pub proof fn lemma_single_write_masking(id: int, ws: Seq<(u32, u32)>)
    requires
        0 <= id < 0x10000,
        id != 0x23d,
        id != 0x1c8,
        id != 0x2c1,
        forall|k: int| 0 <= k < ws.len() ==> (#[trigger] ws[k]).0 < 16,
    ensures
        ({
            let r = pica_run(single_write_packets(id, ws), pica_init(0), 2 * ws.len() as int);
            &&& r is Ok
            &&& r->Ok_0.regs[id] == apply_masked_writes(0u32, ws)
            &&& forall|j: int| 0 <= j < 0x10000 && j != id ==> r->Ok_0.regs[j] == 0u32
            &&& r->Ok_0.uniforms == pica_init(0).uniforms
        }),
{
    let s = single_write_packets(id, ws);
    lemma_packets_len(id, ws);
    assert forall|k: int|
        0 <= k < ws.len() implies u32_at(s, 0 + 8 * k) == (#[trigger] ws[k]).1 as int && u32_at(
        s,
        0 + 8 * k + 4,
    ) == id + ws[k].0 * 0x1_0000 by {
        lemma_packets_bytes(id, ws, k);
    }
    lemma_single_writes_from(s, id, ws, pica_init(0), 2 * ws.len() as int);
    assert(pica_init(0).regs[id] == 0u32);
}

/// Uniform append order: a stream that configures bank `k` and then issues
/// three uniform-data packets leaves `float_uniform[k]` holding exactly
/// those three words in issue order, and every other bank empty.
pub proof fn lemma_uniform_append_order(k: u32, d1: u32, d2: u32, d3: u32)
    requires
        k < 96,
    ensures
        ({
            let s = u32_bytes(k as int) + u32_bytes(0xf02c0) + u32_bytes(d1 as int) + u32_bytes(
                0xf02c1,
            ) + u32_bytes(d2 as int) + u32_bytes(0xf02c1) + u32_bytes(d3 as int) + u32_bytes(
                0xf02c1,
            );
            let r = pica_run(s, pica_init(0), 8);
            &&& r is Ok
            &&& r->Ok_0.uniforms == pica_init(0).uniforms.update(k as int, seq![d1, d2, d3])
            &&& r->Ok_0.uniforms[k as int] == seq![d1, d2, d3]
            &&& forall|j: int|
                0 <= j < 96 && j != k ==> #[trigger] r->Ok_0.uniforms[j] == Seq::<u32>::empty()
        }),
{
    broadcast use lemma_u32_bytes_len;

    let s = u32_bytes(k as int) + u32_bytes(0xf02c0) + u32_bytes(d1 as int) + u32_bytes(0xf02c1)
        + u32_bytes(d2 as int) + u32_bytes(0xf02c1) + u32_bytes(d3 as int) + u32_bytes(0xf02c1);
    assert(s.len() == 32);
    assert(s.subrange(0, 4) =~= u32_bytes(k as int));
    lemma_u32_at_bytes(s, 0, k as int);
    assert(s.subrange(4, 8) =~= u32_bytes(0xf02c0));
    lemma_u32_at_bytes(s, 4, 0xf02c0);
    assert(s.subrange(8, 12) =~= u32_bytes(d1 as int));
    lemma_u32_at_bytes(s, 8, d1 as int);
    assert(s.subrange(12, 16) =~= u32_bytes(0xf02c1));
    lemma_u32_at_bytes(s, 12, 0xf02c1);
    assert(s.subrange(16, 20) =~= u32_bytes(d2 as int));
    lemma_u32_at_bytes(s, 16, d2 as int);
    assert(s.subrange(20, 24) =~= u32_bytes(0xf02c1));
    lemma_u32_at_bytes(s, 20, 0xf02c1);
    assert(s.subrange(24, 28) =~= u32_bytes(d3 as int));
    lemma_u32_at_bytes(s, 24, d3 as int);
    assert(s.subrange(28, 32) =~= u32_bytes(0xf02c1));
    lemma_u32_at_bytes(s, 28, 0xf02c1);

    assert forall|r: u32, d: u32| #[trigger] masked_write(r, 0xf, d) == d by {
        assert((r & (!0xfu32 & 0xf)) | (d & (0xfffffff0u32 | 0xf)) == d) by (bit_vector);
    }

    let u0 = pica_init(0).uniforms;
    assert(u0[k as int] == Seq::<u32>::empty());

    let st0 = pica_init(0);
    let nv1 = masked_write(st0.regs[0x2c0], 0xf, k);
    let st1 = PicaState {
        regs: st0.regs.update(0x2c0, nv1),
        uniforms: u0,
        cur_uniform: Some(k),
        pos: 8,
        words_read: 2,
    };
    assert((k as int % 0x8000_0000) as u32 == k);
    assert(pica_run(s, st0, 8) == pica_run(s, st1, 8));

    let nv2 = masked_write(st1.regs[0x2c1], 0xf, d1);
    assert(nv2 == d1);
    let u1 = u0.update(k as int, u0[k as int] + seq![d1]);
    assert(u1[k as int] =~= seq![d1]);
    let st2 = PicaState {
        regs: st1.regs.update(0x2c1, d1),
        uniforms: u1,
        cur_uniform: Some(k),
        pos: 16,
        words_read: 4,
    };
    assert(pica_run(s, st1, 8) == pica_run(s, st2, 8));

    let u2 = u1.update(k as int, u1[k as int] + seq![d2]);
    assert(u2[k as int] =~= seq![d1, d2]);
    let st3 = PicaState {
        regs: st2.regs.update(0x2c1, d2),
        uniforms: u2,
        cur_uniform: Some(k),
        pos: 24,
        words_read: 6,
    };
    assert(pica_run(s, st2, 8) == pica_run(s, st3, 8));

    let u3 = u2.update(k as int, u2[k as int] + seq![d3]);
    assert(u3[k as int] =~= seq![d1, d2, d3]);
    let st4 = PicaState {
        regs: st3.regs.update(0x2c1, d3),
        uniforms: u3,
        cur_uniform: Some(k),
        pos: 32,
        words_read: 8,
    };
    assert(pica_run(s, st3, 8) == pica_run(s, st4, 8));
    assert(pica_run(s, st4, 8) == Ok::<PicaRun, PicaFailure>(
        PicaRun { regs: st4.regs, uniforms: u3, pos: 32 },
    ));
    assert(u3 =~= u0.update(k as int, seq![d1, d2, d3]));
}

} // verus!
