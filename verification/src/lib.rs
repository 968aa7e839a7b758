//! A strongly-typed, round-trippable representation of ScanCode license
//! records: a codec for the per-license metadata documents and an importer
//! that assembles a whole database directory into a validated collection.

use vstd::prelude::*;

pub mod codec;
pub mod import;
pub mod models;
pub mod yaml;

verus! {

/// The string that marks a true flag in the database's boolean encoding.
pub open spec fn yes_label() -> Seq<char> {
    "yes"@
}

} // verus!
