//! What a program tells of itself: its name, its version, and the services
//! that it offers.

use vstd::prelude::*;

verus! {

/// A service of a program: its name, the types of its arguments, and the
/// type of what it returns.
#[derive(Debug)]
pub struct Service {
    pub name: String,
    pub args: Vec<String>,
    pub rets: String,
}

/// A service as texts.
pub struct ServiceView {
    pub name: Seq<char>,
    pub args: Seq<Seq<char>>,
    pub rets: Seq<char>,
}

/// The texts of a sequence of strings.
pub open spec fn texts(v: Seq<String>) -> Seq<Seq<char>> {
    Seq::new(v.len(), |i: int| v[i]@)
}

impl View for Service {
    type V = ServiceView;

    open spec fn view(&self) -> ServiceView {
        ServiceView { name: self.name@, args: texts(self.args@), rets: self.rets@ }
    }
}

/// Copies a list of texts.
pub fn clone_texts(v: &Vec<String>) -> (r: Vec<String>)
    ensures
        texts(r@) == texts(v@),
{
    let mut r: Vec<String> = Vec::new();
    let mut i: usize = 0;
    while i < v.len()
        invariant
            i <= v.len(),
            r@.len() == i,
            forall|j: int| 0 <= j < i ==> r@[j]@ == v@[j]@,
        decreases v.len() - i,
    {
        r.push(v[i].clone());
        i = i + 1;
    }
    assert(texts(r@) =~= texts(v@));
    r
}

impl Clone for Service {
    fn clone(&self) -> (r: Self)
        ensures
            r@ == self@,
    {
        Service { name: self.name.clone(), args: clone_texts(&self.args), rets: self.rets.clone() }
    }
}

/// The description of a program.
#[derive(Debug)]
pub struct Schema {
    pub version: String,
    pub program: String,
    pub services: Vec<Service>,
}

/// A schema as texts.
pub struct SchemaView {
    pub version: Seq<char>,
    pub program: Seq<char>,
    pub services: Seq<ServiceView>,
}

/// The services of a schema as texts.
pub open spec fn service_views(v: Seq<Service>) -> Seq<ServiceView> {
    Seq::new(v.len(), |i: int| v[i]@)
}

impl View for Schema {
    type V = SchemaView;

    open spec fn view(&self) -> SchemaView {
        SchemaView {
            version: self.version@,
            program: self.program@,
            services: service_views(self.services@),
        }
    }
}

impl Clone for Schema {
    fn clone(&self) -> (r: Self)
        ensures
            r@ == self@,
    {
        let mut services: Vec<Service> = Vec::new();
        let mut i: usize = 0;
        while i < self.services.len()
            invariant
                i <= self.services.len(),
                services@.len() == i,
                forall|j: int| 0 <= j < i ==> services@[j]@ == self.services@[j]@,
            decreases self.services.len() - i,
        {
            services.push(self.services[i].clone());
            i = i + 1;
        }
        assert(service_views(services@) =~= service_views(self.services@));
        Schema { version: self.version.clone(), program: self.program.clone(), services }
    }
}

impl Default for Schema {
    /// The schema of no program: empty texts, no service.
    fn default() -> (r: Self)
        ensures
            r.version@.len() == 0,
            r.program@.len() == 0,
            r.services@.len() == 0,
    {
        Schema { version: String::new(), program: String::new(), services: Vec::new() }
    }
}

} // verus!
