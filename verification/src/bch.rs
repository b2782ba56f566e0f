//! The orchestrator: parse the header, relocate the blob in place, read the
//! content directory, and read every model the models dictionary points to.

use vstd::prelude::*;
use crate::bchcontentheader::{content_header_at, ReferenceDictError};
use crate::bchheader::{header_at, header_end, is_bch_magic, BCHHeader, BCHHeaderError};
use crate::bchrelocator::{bch_to_absolute, reloc_count, reloc_from, BCHRelocateError};
use crate::model::{model_err_kind, model_read_spec, objects_view, Model, ModelError, ModelFailure};
use crate::object::ObjectContents;
use crate::reader::{nul_scan, u32_at, EndOfData, ReadVecError, Reader};

verus! {

#[derive(Debug)]
pub enum BCHError {
    BCHHeaderError(BCHHeaderError),
    BCHRelocateError(BCHRelocateError),
    BCHContentHeaderError(ReferenceDictError),
    ModelReadError(ReadVecError<ModelError>),
}

/// What failed, with the labels stripped: the shape of a `BCHError`.
pub enum BCHFailure {
    HeaderExhausted,
    HeaderBadMagic,
    Relocate(BCHRelocateError),
    ContentExhausted,
    ModelPointerExhausted,
    Model(ModelFailure),
}

/// The failure an error value reports.
pub open spec fn bch_err_kind(e: BCHError) -> BCHFailure {
    match e {
        BCHError::BCHHeaderError(he) => match he {
            BCHHeaderError::IOError(_) => BCHFailure::HeaderExhausted,
            BCHHeaderError::InvalidMagic(_) => BCHFailure::HeaderBadMagic,
        },
        BCHError::BCHRelocateError(re) => BCHFailure::Relocate(re),
        BCHError::BCHContentHeaderError(_) => BCHFailure::ContentExhausted,
        BCHError::ModelReadError(ve) => match ve {
            ReadVecError::IOError(_) => BCHFailure::ModelPointerExhausted,
            ReadVecError::ReadingValueError(me) => BCHFailure::Model(model_err_kind(me)),
        },
    }
}

/// The models read through their pointer table: entry `k`'s offset word
/// stands at the table base plus `4 * k`, and the model is parsed at that
/// offset.
pub open spec fn models_loop(
    s: Seq<u8>,
    tbase: int,
    k: int,
    n: int,
    acc: Seq<Seq<ObjectContents>>,
) -> Result<Seq<Seq<ObjectContents>>, BCHFailure>
    decreases n - k,
{
    if k >= n {
        Ok(acc)
    } else {
        let pa = tbase + 4 * k;
        if pa + 4 > s.len() {
            Err(BCHFailure::ModelPointerExhausted)
        } else {
            let off = u32_at(s, pa);
            match model_read_spec(s, off) {
                Err(e) => Err(BCHFailure::Model(e)),
                Ok(mc) => models_loop(s, tbase, k + 1, n, acc.push(mc)),
            }
        }
    }
}

/// The whole read of a BCH blob `s0`: the header parsed at offset zero, the
/// relocation run over the blob, the content directory at the (relocated)
/// contents address, and the models. A negative contents address lies past
/// any blob and fails as exhaustion.
#[verifier::opaque]
pub open spec fn bch_read_spec(s0: Seq<u8>) -> Result<Seq<Seq<ObjectContents>>, BCHFailure> {
    match nul_scan(s0, 0) {
        None => Err(BCHFailure::HeaderExhausted),
        Some(j) => {
            if !is_bch_magic(s0, 0, j) {
                Err(BCHFailure::HeaderBadMagic)
            } else if header_end(0) > s0.len() {
                Err(BCHFailure::HeaderExhausted)
            } else {
                let h = header_at(s0, 0);
                let rel = reloc_from(&h, s0, 0, reloc_count(&h));
                match rel.err {
                    Some(e) => Err(BCHFailure::Relocate(e)),
                    None => {
                        let s = rel.bytes;
                        let ca: int = if h.contents_address >= 0 {
                            h.contents_address as int
                        } else {
                            s.len() + 1int
                        };
                        if ca + 180 > s.len() {
                            Err(BCHFailure::ContentExhausted)
                        } else {
                            let content = content_header_at(s, ca);
                            models_loop(
                                s,
                                content.models.pointer_table_offset as int,
                                0,
                                content.models.pointer_table_entries as int,
                                Seq::empty(),
                            )
                        }
                    },
                }
            }
        },
    }
}

/// The abstract values of a vector of models.
pub open spec fn models_view(v: Seq<Model>) -> Seq<Seq<ObjectContents>> {
    Seq::new(v.len(), |i: int| objects_view(v[i].mesh@))
}

/// A parsed BCH package: its models.
#[derive(Debug)]
pub struct BCH {
    pub models: Vec<Model>,
}

/// The models read through the pointer table at `tbase`.
#[verifier::loop_isolation(false)]
#[verifier::rlimit(100)]
fn read_models(r: &mut Reader, tbase: u32, n: u32) -> (res: Result<Vec<Model>, BCHError>)
    ensures
        final(r).data == old(r).data,
        ({
            let run = models_loop(old(r).data@, tbase as int, 0, n as int, Seq::empty());
            match res {
                Ok(models) => run == Ok::<Seq<Seq<ObjectContents>>, BCHFailure>(
                    models_view(models@),
                ),
                Err(e) => run == Err::<Seq<Seq<ObjectContents>>, BCHFailure>(bch_err_kind(e)) && e
                    matches BCHError::ModelReadError(_),
            }
        }),
{
    let ghost s = r.data@;
    proof {
        assert(s.len() == r.data.len());
    }
    let mut models: Vec<Model> = Vec::new();
    proof {
        assert(models_view(models@) =~= Seq::<Seq<ObjectContents>>::empty());
    }
    let mut k: u32 = 0;
    while k < n
        invariant
            k <= n,
            r.data == old(r).data,
            models_view(models@).len() == k,
            models_loop(s, tbase as int, k as int, n as int, models_view(models@)) == models_loop(
                s,
                tbase as int,
                0,
                n as int,
                Seq::empty(),
            ),
        decreases n - k,
    {
        let ghost pre_models = models_view(models@);
        r.seek64(tbase as u64 + 4 * k as u64);
        let off = match r.read_u32_le() {
            Some(v) => v,
            None => return Err(BCHError::ModelReadError(ReadVecError::IOError(EndOfData))),
        };
        r.seek(off as usize);
        let model = match Model::read(r) {
            Ok(m) => m,
            Err(e) => return Err(BCHError::ModelReadError(ReadVecError::ReadingValueError(e))),
        };
        models.push(model);
        proof {
            assert(models_view(models@) =~= pre_models.push(objects_view(models@.last().mesh@)));
            assert(models_loop(s, tbase as int, k as int, n as int, pre_models) == models_loop(
                s,
                tbase as int,
                k as int + 1,
                n as int,
                models_view(models@),
            ));
        }
        k = k + 1;
    }
    Ok(models)
}

impl BCH {
    /// Reads a whole BCH package from its byte blob, exactly as
    /// `bch_read_spec` describes. The blob is relocated in place; when the
    /// read succeeds it holds the relocated bytes.
    #[verifier::rlimit(100)]
    pub fn read(bytes: &mut Vec<u8>) -> (res: Result<BCH, BCHError>)
        ensures
            ({
                let spec = bch_read_spec(old(bytes)@);
                match res {
                    Ok(b) => spec matches Ok(models) && models_view(b.models@) == models,
                    Err(e) => spec == Err::<Seq<Seq<ObjectContents>>, BCHFailure>(bch_err_kind(e)),
                }
            }),
            res is Ok ==> ({
                let h = header_at(old(bytes)@, 0);
                final(bytes)@ == reloc_from(&h, old(bytes)@, 0, reloc_count(&h)).bytes
            }),
            res matches Err(e) ==> ({
                let h = header_at(old(bytes)@, 0);
                match e {
                    BCHError::BCHHeaderError(_) => final(bytes)@ == old(bytes)@,
                    _ => final(bytes)@ == reloc_from(&h, old(bytes)@, 0, reloc_count(&h)).bytes,
                }
            }),
    {
        proof {
            reveal(bch_read_spec);
        }
        let ghost s0 = bytes@;
        let header = {
            let mut r0 = Reader::new(bytes);
            match BCHHeader::read(&mut r0) {
                Ok(h) => h,
                Err(e) => return Err(BCHError::BCHHeaderError(e)),
            }
        };
        match bch_to_absolute(&header, bytes) {
            Ok(()) => {},
            Err(e) => return Err(BCHError::BCHRelocateError(e)),
        }
        let ghost s = bytes@;
        let mut r = Reader::new(bytes);
        proof {
            assert(s.len() == r.data.len());
        }
        if header.contents_address >= 0 {
            r.seek(header.contents_address as usize);
        } else {
            r.seek(usize::MAX);
        }
        let content_header = match crate::bchcontentheader::BCHContentHeader::read(&mut r) {
            Ok(c) => c,
            Err(e) => return Err(BCHError::BCHContentHeaderError(e)),
        };
        let models = match read_models(
            &mut r,
            content_header.models.pointer_table_offset,
            content_header.models.pointer_table_entries,
        ) {
            Ok(m) => m,
            Err(e) => return Err(e),
        };
        Ok(BCH { models })
    }
}


proof fn lemma_models_loop_shape(
    s: Seq<u8>,
    tbase: int,
    k: int,
    n: int,
    acc: Seq<Seq<ObjectContents>>,
    out: Seq<Seq<ObjectContents>>,
)
    requires
        models_loop(s, tbase, k, n, acc) == Ok::<Seq<Seq<ObjectContents>>, BCHFailure>(out),
    ensures
        out.len() == acc.len() + (if n > k {
            n - k
        } else {
            0
        }),
        forall|t: int| 0 <= t < acc.len() ==> out[t] == acc[t],
        forall|t: int|
            k <= t < n ==> model_read_spec(s, #[trigger] u32_at(s, tbase + 4 * t)) == Ok::<
                Seq<ObjectContents>,
                ModelFailure,
            >(out[acc.len() + (t - k)]),
    decreases n - k,
{
    if k >= n {
    } else {
        let pa = tbase + 4 * k;
        let off = u32_at(s, pa);
        let mc = model_read_spec(s, off)->Ok_0;
        lemma_models_loop_shape(s, tbase, k + 1, n, acc.push(mc), out);
    }
}

/// Pointer-table vector: when the walk of an N-entry table of offsets
/// succeeds, the result has exactly N models and entry `k` is exactly the
/// model parsed at the table's `k`-th offset.
pub proof fn lemma_pointer_table_vector(
    s: Seq<u8>,
    tbase: int,
    n: int,
    out: Seq<Seq<ObjectContents>>,
)
    requires
        n >= 0,
        models_loop(s, tbase, 0, n, Seq::empty()) == Ok::<Seq<Seq<ObjectContents>>, BCHFailure>(
            out,
        ),
    ensures
        out.len() == n,
        forall|k: int|
            0 <= k < n ==> model_read_spec(s, #[trigger] u32_at(s, tbase + 4 * k)) == Ok::<
                Seq<ObjectContents>,
                ModelFailure,
            >(out[k]),
{
    lemma_models_loop_shape(s, tbase, 0, n, Seq::empty(), out);
}

} // verus!
