//! The schema of a program while it is put together, one service at a time.

use crate::internals::texts;
use vstd::prelude::*;

verus! {

/// A service of a program: its name, and the types of its arguments and of
/// what it returns, as they are written.
#[derive(Debug)]
pub struct Method {
    pub name: String,
    pub args: Vec<String>,
    pub rets: Vec<String>,
}

/// A service as texts.
pub struct MethodView {
    pub name: Seq<char>,
    pub args: Seq<Seq<char>>,
    pub rets: Seq<Seq<char>>,
}

impl View for Method {
    type V = MethodView;

    open spec fn view(&self) -> MethodView {
        MethodView { name: self.name@, args: texts(self.args@), rets: texts(self.rets@) }
    }
}

/// The schema of a program: its version and its name, where they are known,
/// and its services.
#[derive(Debug)]
pub struct Schema {
    pub version: Option<String>,
    pub program: Option<String>,
    pub services: Vec<Method>,
}

/// The services of a schema as texts.
pub open spec fn method_views(v: Seq<Method>) -> Seq<MethodView> {
    Seq::new(v.len(), |i: int| v[i]@)
}

impl Schema {
    /// A schema without services.
    pub fn new(version: Option<String>, program: Option<String>) -> (schema: Self)
        ensures
            schema.version == version,
            schema.program == program,
            schema.services@.len() == 0,
    {
        Schema { version, program, services: Vec::new() }
    }

    /// Puts `method` behind the services of the schema.
    pub fn add_service(&mut self, method: Method)
        ensures
            final(self).version == old(self).version,
            final(self).program == old(self).program,
            method_views(final(self).services@) == method_views(old(self).services@).push(method@),
    {
        self.services.push(method);
        assert(method_views(self.services@) =~= method_views(old(self).services@).push(method@));
    }
}

} // verus!
