//! Reader for the BCH container format: 3DS-era "H3D" binary asset packages.
//!
//! The decode pipeline has three layers: relocation of the file's
//! section-relative pointer table into absolute offsets, structured traversal
//! of the relocated blob, and interpretation of the embedded PICA200 GPU
//! command streams that define each mesh's vertex layout.

pub mod bch;
pub mod bchcontentheader;
pub mod bchheader;
pub mod bchrelocator;
pub mod bchsections;
pub mod model;
pub mod modelheader;
pub mod object;
pub mod objectentry;
pub mod picacommand;
pub mod picacommandreader;
pub mod reader;
pub mod skinningmode;
pub mod vertex;

pub use bch::{BCHError, BCH};
pub use bchcontentheader::{BCHContentHeader, ReferenceDict, ReferenceDictError};
pub use bchheader::{BCHHeader, BCHHeaderError};
pub use bchrelocator::{bch_to_absolute, BCHRelocateError};
pub use bchsections::{BCHSection, BCHSectionError};
pub use model::{Model, ModelError};
pub use modelheader::{ModelHeader, ModelHeaderError};
pub use object::{Object, ObjectError};
pub use objectentry::{ObjectEntry, ObjectEntryError};
pub use picacommand::{
    AttributeData, AttributeFormat, AttributeFormatType, IndexBufferFormat, PicaCommand,
    VSHAttribute,
};
pub use picacommandreader::{PICACommandReader, PICACommandReaderError};
pub use reader::{EndOfData, ReadVecError, Reader};
pub use skinningmode::SkinningMode;
pub use vertex::Vertex;
