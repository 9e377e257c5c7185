//! Document-level metadata stored in `.ocad` files.

use vstd::prelude::*;

use crate::id::DocumentId;
use crate::units::LengthUnit;

verus! {

/// The version of this library, recorded in the documents it creates.
pub const PACKAGE_VERSION: &'static str = "0.1.0";

/// The schema identifier of the documents this library writes.
pub const DOCUMENT_SCHEMA_VERSION: &'static str = "opencad.document.v0.1";

/// Document-level metadata stored in `.ocad`.
#[derive(Debug, Clone)]
pub struct DocumentMetadata {
    pub id: DocumentId,
    pub name: String,
    pub units: LengthUnit,
    pub created_with: String,
    pub schema_version: String,
}

impl DocumentMetadata {
    /// Metadata for a new document: millimeter units, created by this
    /// version of OpenCAD, in the current schema.
    pub fn new(id: DocumentId, name: &str) -> (m: Self)
        ensures
            m.id == id,
            m.name@ == name@,
            m.units == LengthUnit::Millimeter,
            m.created_with@ == "OpenCAD "@ + PACKAGE_VERSION@,
            m.schema_version@ == DOCUMENT_SCHEMA_VERSION@,
    {
        let mut created_with = "OpenCAD ".to_owned();
        created_with.push_str(PACKAGE_VERSION);
        DocumentMetadata {
            id,
            name: name.to_owned(),
            units: LengthUnit::Millimeter,
            created_with,
            schema_version: DOCUMENT_SCHEMA_VERSION.to_owned(),
        }
    }
}

} // verus!
