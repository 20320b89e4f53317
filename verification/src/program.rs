//! Program identifiers and embedded program images.

use crate::error::Error;
use crate::internals::{Schema, SchemaView};
use std::str::FromStr;
use vstd::prelude::*;
use vstd::std_specs::convert::FromSpecImpl;

verus! {

/// A program as the coordinator embeds it: what it offers, and its code.
#[derive(Debug)]
pub struct Program {
    pub schema: Schema,
    pub wasm: Vec<u8>,
}

impl View for Program {
    type V = (SchemaView, Seq<u8>);

    open spec fn view(&self) -> (SchemaView, Seq<u8>) {
        (self.schema@, self.wasm@)
    }
}

/// The identifier of a program: an opaque, human-readable text that keys the
/// set of programs loaded on a node.
#[derive(Eq, Ord, Hash, Debug, PartialEq, PartialOrd)]
pub struct ProgramId(pub String);

impl View for ProgramId {
    type V = Seq<char>;

    open spec fn view(&self) -> Seq<char> {
        self.0@
    }
}

impl ProgramId {
    /// Wraps `program_id` without changing it.
    pub fn new(program_id: String) -> (id: Self)
        ensures
            id@ == program_id@,
    {
        ProgramId(program_id)
    }

    /// Wraps `program_id` without changing it. Every text is an identifier.
    pub fn try_from(program_id: String) -> (r: Result<Self, Error>)
        ensures
            r matches Ok(id) && id@ == program_id@,
    {
        Ok(ProgramId(program_id))
    }

    /// The identifier as text.
    pub fn as_str(&self) -> (s: &str)
        ensures
            s@ == self@,
    {
        self.0.as_str()
    }
}

impl Clone for ProgramId {
    fn clone(&self) -> (id: Self)
        ensures
            id@ == self@,
    {
        ProgramId(self.0.clone())
    }
}

impl FromStr for ProgramId {
    type Err = Error;

    fn from_str(program_id: &str) -> (r: Result<Self, Self::Err>)
        ensures
            r matches Ok(id) && id@ == program_id@,
    {
        Ok(ProgramId(program_id.to_owned()))
    }
}

impl From<ProgramId> for String {
    fn from(val: ProgramId) -> (s: String) {
        val.0
    }
}

impl FromSpecImpl<ProgramId> for String {
    open spec fn obeys_from_spec() -> bool {
        true
    }

    open spec fn from_spec(val: ProgramId) -> String {
        val.0
    }
}

} // verus!
