//! One model: its header, the object-node name table, the per-mesh
//! descriptors, and the materialized meshes.

use vstd::prelude::*;
use crate::modelheader::{
    model_header_kind, model_header_spec, ModelHeader, ModelHeaderError, ModelHeaderFailure,
};
use crate::object::{
    names_view, object_err_kind, object_read_spec, object_view, Object, ObjectContents,
    ObjectError, ObjectFailure,
};
use crate::objectentry::{object_entry_at, ObjectEntry, ObjectEntryError};
use crate::reader::{ascii_chars, nul_scan, u32_at, ReadVecError, Reader};

verus! {

#[derive(Debug)]
pub enum ModelError {
    ModelHeaderError(ModelHeaderError),
    /// The blob ended while the named part was being read.
    ReadStringError(&'static str),
    /// The named reference was a null pointer.
    NullReference(&'static str),
    ReadObjectEntryError(ReadVecError<ObjectEntryError>),
    ObjectError(ObjectError),
}

/// What failed, with the labels stripped: the shape of a `ModelError`.
pub enum ModelFailure {
    Header(ModelHeaderFailure),
    Exhausted,
    NullName,
    EntryBadMagic(u32),
    Object(ObjectFailure),
}

/// The failure an error value reports.
pub open spec fn model_err_kind(e: ModelError) -> ModelFailure {
    match e {
        ModelError::ModelHeaderError(he) => ModelFailure::Header(model_header_kind(he)),
        ModelError::ReadStringError(_) => ModelFailure::Exhausted,
        ModelError::NullReference(_) => ModelFailure::NullName,
        ModelError::ReadObjectEntryError(ve) => match ve {
            ReadVecError::ReadingValueError(ee) => match ee {
                ObjectEntryError::IOError(_) => ModelFailure::Exhausted,
                ObjectEntryError::NullMagicError(m) => ModelFailure::EntryBadMagic(m),
            },
            ReadVecError::IOError(_) => ModelFailure::Exhausted,
        },
        ModelError::ObjectError(oe) => ModelFailure::Object(object_err_kind(oe)),
    }
}

/// The object-node name walk: after the table's twelve-byte preamble each
/// entry is eight skipped bytes and one referenced NUL-terminated string,
/// which must not be a null reference.
pub open spec fn names_loop(
    s: Seq<u8>,
    base: int,
    k: int,
    n: int,
    acc: Seq<Seq<char>>,
) -> Result<Seq<Seq<char>>, ModelFailure>
    decreases n - k,
{
    if k >= n {
        Ok(acc)
    } else {
        let ptr_at = base + 20 + 12 * k;
        if ptr_at + 4 > s.len() {
            Err(ModelFailure::Exhausted)
        } else {
            let t = u32_at(s, ptr_at);
            if t == 0 {
                Err(ModelFailure::NullName)
            } else {
                match nul_scan(s, t) {
                    None => Err(ModelFailure::Exhausted),
                    Some(j) => names_loop(s, base, k + 1, n, acc.push(ascii_chars(s.subrange(t, j)))),
                }
            }
        }
    }
}

/// The per-mesh descriptors, read inline: fifty-six bytes each.
pub open spec fn entries_loop(
    s: Seq<u8>,
    ebase: int,
    k: int,
    n: int,
    acc: Seq<ObjectEntry>,
) -> Result<Seq<ObjectEntry>, ModelFailure>
    decreases n - k,
{
    if k >= n {
        Ok(acc)
    } else {
        let p = ebase + 56 * k;
        if p + 52 > s.len() {
            Err(ModelFailure::Exhausted)
        } else if u32_at(s, p + 48) != 0 {
            Err(ModelFailure::EntryBadMagic(u32_at(s, p + 48) as u32))
        } else if p + 56 > s.len() {
            Err(ModelFailure::Exhausted)
        } else {
            entries_loop(s, ebase, k + 1, n, acc.push(object_entry_at(s, p)))
        }
    }
}

/// Every descriptor materialized into a mesh, in order.
pub open spec fn objects_loop(
    s: Seq<u8>,
    entries: Seq<ObjectEntry>,
    names: Seq<Seq<char>>,
    k: int,
    acc: Seq<ObjectContents>,
) -> Result<Seq<ObjectContents>, ModelFailure>
    decreases entries.len() - k,
{
    if k >= entries.len() {
        Ok(acc)
    } else {
        match object_read_spec(s, entries[k], names) {
            Err(e) => Err(ModelFailure::Object(e)),
            Ok(oc) => objects_loop(s, entries, names, k + 1, acc.push(oc)),
        }
    }
}

/// One model parsed at `p`: its header, then the name table it points to,
/// then the descriptors the vertices dictionary points to, then the meshes.
#[verifier::opaque]
pub open spec fn model_read_spec(s: Seq<u8>, p: int) -> Result<Seq<ObjectContents>, ModelFailure> {
    match model_header_spec(s, p) {
        Err(e) => Err(ModelFailure::Header(e)),
        Ok(h) => match names_loop(
            s,
            h.object_node_name_offsets as int,
            0,
            h.object_node_name_entries as int,
            Seq::empty(),
        ) {
            Err(e) => Err(e),
            Ok(names) => match entries_loop(
                s,
                h.vertices.pointer_table_offset as int,
                0,
                h.vertices.pointer_table_entries as int,
                Seq::empty(),
            ) {
                Err(e) => Err(e),
                Ok(entries) => objects_loop(s, entries, names, 0, Seq::empty()),
            },
        },
    }
}

/// The abstract values of a vector of meshes.
pub open spec fn objects_view(v: Seq<Object>) -> Seq<ObjectContents> {
    Seq::new(v.len(), |i: int| object_view(v[i]))
}

/// A model: its ordered meshes.
#[derive(Debug)]
pub struct Model {
    pub mesh: Vec<Object>,
}

/// The name table walked from its base: one referenced string per entry.
#[verifier::loop_isolation(false)]
fn read_names(r: &mut Reader, nbase: u64, n_names: u32) -> (res: Result<Vec<String>, ModelError>)
    requires
        nbase <= u32::MAX,
    ensures
        final(r).data == old(r).data,
        ({
            let run = names_loop(old(r).data@, nbase as int, 0, n_names as int, Seq::empty());
            match res {
                Ok(names) => run == Ok::<Seq<Seq<char>>, ModelFailure>(names_view(names@)),
                Err(e) => run == Err::<Seq<Seq<char>>, ModelFailure>(model_err_kind(e)) && (e
                    matches ModelError::ReadStringError(_) || e matches ModelError::NullReference(
                    _,
                )),
            }
        }),
{
    let ghost s = r.data@;
    proof {
        assert(s.len() == r.data.len());
    }
    let mut object_name: Vec<String> = Vec::new();
    proof {
        assert(names_view(object_name@) =~= Seq::<Seq<char>>::empty());
    }
    let mut k: u32 = 0;
    while k < n_names
        invariant
            k <= n_names,
            r.data == old(r).data,
            names_view(object_name@).len() == k,
            names_loop(s, nbase as int, k as int, n_names as int, names_view(object_name@))
                == names_loop(s, nbase as int, 0, n_names as int, Seq::empty()),
        decreases n_names - k,
    {
        let ghost pre_names = names_view(object_name@);
        r.seek64(nbase + 20 + 12 * k as u64);
        let name = match r.read_referenced_null_terminated_ascii_string() {
            Ok(Some(st)) => st,
            Ok(None) => return Err(ModelError::NullReference("object name")),
            Err(_) => return Err(ModelError::ReadStringError("object name")),
        };
        object_name.push(name);
        proof {
            assert(names_view(object_name@) =~= pre_names.push(object_name@.last()@));
            assert(names_loop(s, nbase as int, k as int, n_names as int, pre_names) == names_loop(
                s,
                nbase as int,
                k as int + 1,
                n_names as int,
                names_view(object_name@),
            ));
        }
        k = k + 1;
    }
    Ok(object_name)
}

/// The per-mesh descriptors read inline from their base.
#[verifier::loop_isolation(false)]
fn read_entries(r: &mut Reader, ebase: usize, n_entries: u32) -> (res: Result<
    Vec<ObjectEntry>,
    ModelError,
>)
    ensures
        final(r).data == old(r).data,
        ({
            let run = entries_loop(old(r).data@, ebase as int, 0, n_entries as int, Seq::empty());
            match res {
                Ok(entries) => run == Ok::<Seq<ObjectEntry>, ModelFailure>(entries@),
                Err(e) => run == Err::<Seq<ObjectEntry>, ModelFailure>(model_err_kind(e)) && e
                    matches ModelError::ReadObjectEntryError(_),
            }
        }),
{
    let ghost s = r.data@;
    r.seek(ebase);
    let mut objects_entry: Vec<ObjectEntry> = Vec::new();
    let mut t: u32 = 0;
    while t < n_entries
        invariant
            t <= n_entries,
            r.data == old(r).data,
            r.pos as int == ebase + 56 * t,
            objects_entry@.len() == t,
            entries_loop(s, ebase as int, t as int, n_entries as int, objects_entry@)
                == entries_loop(s, ebase as int, 0, n_entries as int, Seq::empty()),
        decreases n_entries - t,
    {
        let ghost pre_entries = objects_entry@;
        let entry = match ObjectEntry::read(r) {
            Ok(e) => e,
            Err(e) => return Err(
                ModelError::ReadObjectEntryError(ReadVecError::ReadingValueError(e)),
            ),
        };
        objects_entry.push(entry);
        proof {
            assert(entries_loop(s, ebase as int, t as int, n_entries as int, pre_entries)
                == entries_loop(s, ebase as int, t as int + 1, n_entries as int, objects_entry@));
        }
        t = t + 1;
    }
    Ok(objects_entry)
}

/// Every descriptor materialized into a mesh, in order.
#[verifier::loop_isolation(false)]
#[verifier::rlimit(100)]
fn read_objects(r: &mut Reader, objects_entry: &Vec<ObjectEntry>, object_name: &Vec<String>) -> (res:
    Result<Vec<Object>, ModelError>)
    ensures
        final(r).data == old(r).data,
        ({
            let run = objects_loop(
                old(r).data@,
                objects_entry@,
                names_view(object_name@),
                0,
                Seq::empty(),
            );
            match res {
                Ok(mesh) => run == Ok::<Seq<ObjectContents>, ModelFailure>(objects_view(mesh@)),
                Err(e) => run == Err::<Seq<ObjectContents>, ModelFailure>(model_err_kind(e)) && e
                    matches ModelError::ObjectError(_),
            }
        }),
{
    let ghost s = r.data@;
    let ghost entries = objects_entry@;
    let ghost names = names_view(object_name@);
    let mut mesh: Vec<Object> = Vec::new();
    proof {
        assert(objects_view(mesh@) =~= Seq::<ObjectContents>::empty());
    }
    let mut m: usize = 0;
    while m < objects_entry.len()
        invariant
            m <= entries.len(),
            r.data == old(r).data,
            mesh@.len() == m,
            objects_loop(s, entries, names, m as int, objects_view(mesh@)) == objects_loop(
                s,
                entries,
                names,
                0,
                Seq::empty(),
            ),
        decreases entries.len() - m,
    {
        let ghost pre_mesh = objects_view(mesh@);
        let obj = match Object::read(r, &objects_entry[m], object_name) {
            Ok(o) => o,
            Err(e) => return Err(ModelError::ObjectError(e)),
        };
        mesh.push(obj);
        proof {
            assert(objects_view(mesh@) =~= pre_mesh.push(object_view(mesh@.last())));
            assert(objects_loop(s, entries, names, m as int, pre_mesh) == objects_loop(
                s,
                entries,
                names,
                m as int + 1,
                objects_view(mesh@),
            ));
        }
        m = m + 1;
    }
    Ok(mesh)
}

impl Model {
    /// Parses one model at the cursor, exactly as `model_read_spec`
    /// describes.
    pub fn read(r: &mut Reader) -> (res: Result<Model, ModelError>)
        ensures
            final(r).data == old(r).data,
            ({
                let spec = model_read_spec(old(r).data@, old(r).pos as int);
                match res {
                    Ok(m) => spec matches Ok(mc) && objects_view(m.mesh@) == mc,
                    Err(e) => spec == Err::<Seq<ObjectContents>, ModelFailure>(model_err_kind(e)),
                }
            }),
    {
        proof {
            reveal(model_read_spec);
        }
        let header = match ModelHeader::read(r) {
            Ok(h) => h,
            Err(e) => return Err(ModelError::ModelHeaderError(e)),
        };
        let object_name = match read_names(
            r,
            header.object_node_name_offsets as u64,
            header.object_node_name_entries,
        ) {
            Ok(v) => v,
            Err(e) => return Err(e),
        };
        let objects_entry = match read_entries(
            r,
            header.vertices.pointer_table_offset as usize,
            header.vertices.pointer_table_entries,
        ) {
            Ok(v) => v,
            Err(e) => return Err(e),
        };
        let mesh = match read_objects(r, &objects_entry, &object_name) {
            Ok(v) => v,
            Err(e) => return Err(e),
        };
        if header.meta_data_pointer_offset != 0 {
            r.seek(header.meta_data_pointer_offset as usize);
        }
        Ok(Model { mesh })
    }
}

} // verus!
