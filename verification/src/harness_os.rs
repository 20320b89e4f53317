//! The programs that are loaded on a node, each under its identifier.
//!
//! No identifier is loaded twice: loading under an identifier that is taken
//! replaces the program that was there. The registry says what is to be run
//! and takes what running it ended in; it runs nothing itself.

use crate::error::{LoadError, RegistryError};
use crate::program::ProgramId;
use crate::wapc_host::{call_outcome, EngineFault, HostFault, Invocation, ProgramHost};
use vstd::prelude::*;

verus! {

/// A program and the identifier under which it is loaded.
struct Loaded {
    id: ProgramId,
    host: ProgramHost,
}

/// The programs that are loaded on a node.
pub struct HarnessOs {
    programs: Vec<Loaded>,
}

/// The identifiers after a program was loaded under `id`: as before where
/// `id` was taken, else with `id` behind the others.
pub open spec fn with_program(ids: Seq<Seq<char>>, id: Seq<char>) -> Seq<Seq<char>> {
    if ids.contains(id) {
        ids
    } else {
        ids.push(id)
    }
}

/// Among identifiers of which none occurs twice, one that was taken out is
/// there no more.
pub proof fn lemma_removed_is_absent(ids: Seq<Seq<char>>, id: Seq<char>)
    requires
        ids.no_duplicates(),
    ensures
        !ids.remove_value(id).contains(id),
        ids.remove_value(id).no_duplicates(),
        forall|other: Seq<char>|
            other != id ==> (ids.remove_value(id).contains(other) <==> ids.contains(other)),
{
    ids.index_of_first_ensures(id);
    match ids.index_of_first(id) {
        None => {},
        Some(i) => {
            let after = ids.remove(i);
            assert forall|k: int| 0 <= k < after.len() implies after[k] != id by {
                if k < i {
                    assert(after[k] == ids[k]);
                } else {
                    assert(after[k] == ids[k + 1]);
                }
            }
            assert forall|a: int, b: int| 0 <= a < after.len() && 0 <= b < after.len() && a
                != b implies after[a] != after[b] by {
                let a0 = if a < i {
                    a
                } else {
                    a + 1
                };
                let b0 = if b < i {
                    b
                } else {
                    b + 1
                };
                assert(after[a] == ids[a0]);
                assert(after[b] == ids[b0]);
            }
            assert forall|other: Seq<char>| other != id implies (after.contains(other)
                <==> ids.contains(other)) by {
                if after.contains(other) {
                    let k = choose|k: int| 0 <= k < after.len() && after[k] == other;
                    let k0 = if k < i {
                        k
                    } else {
                        k + 1
                    };
                    assert(ids[k0] == other);
                }
                if ids.contains(other) {
                    let k = choose|k: int| 0 <= k < ids.len() && ids[k] == other;
                    let k0 = if k < i {
                        k
                    } else {
                        k - 1
                    };
                    assert(after[k0] == other);
                }
            }
        },
    }
}

/// A program that is loaded and then taken out is not there, whatever was
/// loaded before.
pub proof fn lemma_add_then_remove(ids: Seq<Seq<char>>, id: Seq<char>)
    requires
        ids.no_duplicates(),
    ensures
        with_program(ids, id).contains(id),
        with_program(ids, id).no_duplicates(),
        !with_program(ids, id).remove_value(id).contains(id),
{
    let loaded = with_program(ids, id);
    if !ids.contains(id) {
        assert(loaded[ids.len() as int] == id);
        assert forall|a: int, b: int| 0 <= a < loaded.len() && 0 <= b < loaded.len() && a
            != b implies loaded[a] != loaded[b] by {
            if a < ids.len() {
                assert(ids.contains(loaded[a]));
            }
            if b < ids.len() {
                assert(ids.contains(loaded[b]));
            }
        }
    }
    lemma_removed_is_absent(loaded, id);
}

/// The identifiers of `programs`, in their order.
spec fn ids_of(programs: Seq<Loaded>) -> Seq<Seq<char>> {
    Seq::new(programs.len(), |i: int| programs[i].id@)
}

/// Each of `programs`, by its identifier.
spec fn hosts_of(programs: Seq<Loaded>) -> Map<Seq<char>, ProgramHost> {
    Map::new(
        |id: Seq<char>| ids_of(programs).contains(id),
        |id: Seq<char>| programs[ids_of(programs).index_of_first(id)->0].host,
    )
}

/// The module of each program, by the program's identifier.
pub open spec fn modules_of(hosts: Map<Seq<char>, ProgramHost>) -> Map<Seq<char>, Seq<u8>> {
    Map::new(|id: Seq<char>| hosts.dom().contains(id), |id: Seq<char>| hosts[id].module())
}

/// Among programs of which no two share an identifier, the program under an
/// identifier is the one that has it.
proof fn lemma_host_at(programs: Seq<Loaded>, j: int)
    requires
        ids_of(programs).no_duplicates(),
        0 <= j < programs.len(),
    ensures
        hosts_of(programs).dom().contains(programs[j].id@),
        hosts_of(programs)[programs[j].id@] == programs[j].host,
{
    let ids = ids_of(programs);
    assert(ids[j] == programs[j].id@);
    assert(ids.contains(programs[j].id@));
    ids.index_of_first_ensures(programs[j].id@);
}

/// Every identifier with a program is the identifier of one of the
/// programs.
proof fn lemma_host_of(programs: Seq<Loaded>, id: Seq<char>) -> (j: int)
    requires
        ids_of(programs).no_duplicates(),
        hosts_of(programs).dom().contains(id),
    ensures
        0 <= j < programs.len(),
        programs[j].id@ == id,
        hosts_of(programs)[id] == programs[j].host,
{
    let ids = ids_of(programs);
    ids.index_of_first_ensures(id);
    let j = ids.index_of_first(id)->0;
    assert(ids[j] == programs[j].id@);
    j
}

/// Where a program is put under an identifier, its module is put there.
pub proof fn lemma_modules_insert(
    hosts: Map<Seq<char>, ProgramHost>,
    id: Seq<char>,
    host: ProgramHost,
)
    ensures
        modules_of(hosts.insert(id, host)) == modules_of(hosts).insert(id, host.module()),
{
    assert(modules_of(hosts.insert(id, host)) =~= modules_of(hosts).insert(id, host.module()));
}

/// Where a program is taken out, its module is taken out.
pub proof fn lemma_modules_remove(hosts: Map<Seq<char>, ProgramHost>, id: Seq<char>)
    ensures
        modules_of(hosts.remove(id)) == modules_of(hosts).remove(id),
{
    assert(modules_of(hosts.remove(id)) =~= modules_of(hosts).remove(id));
}

impl HarnessOs {
    /// The identifiers of the loaded programs, in the order in which they
    /// were first loaded.
    pub closed spec fn ids(&self) -> Seq<Seq<char>> {
        ids_of(self.programs@)
    }

    /// Each loaded program, by its identifier.
    pub closed spec fn hosts(&self) -> Map<Seq<char>, ProgramHost> {
        hosts_of(self.programs@)
    }

    /// The module of each loaded program, by the program's identifier.
    pub open spec fn modules(&self) -> Map<Seq<char>, Seq<u8>> {
        modules_of(self.hosts())
    }

    /// The programs that are there are the programs that are loaded.
    pub proof fn lemma_modules(&self)
        ensures
            forall|id: Seq<char>| self.hosts().dom().contains(id) <==> self.contains(id),
            forall|id: Seq<char>| self.modules().dom().contains(id) <==> self.contains(id),
    {
    }

    /// Whether a program is loaded under `id`.
    pub open spec fn contains(&self, id: Seq<char>) -> bool {
        self.ids().contains(id)
    }

    /// No identifier is loaded twice: every set of programs that this type's
    /// functions build is well formed, and they keep it so.
    pub open spec fn wf(&self) -> bool {
        self.ids().no_duplicates()
    }

    /// Takes what starting a host on the module `program` ended in: a node
    /// with the one program of that module, loaded under `program_id`, or
    /// the failure of loading, as [`ProgramHost::new`] tells.
    pub fn new(
        program_id: ProgramId,
        program: &[u8],
        started: Result<wapc::WapcHost, EngineFault>,
    ) -> (r: Result<Self, LoadError>)
        ensures
            match started {
                Ok(host) => {
                    &&& r matches Ok(os)
                    &&& os.wf()
                    &&& os.ids() == seq![program_id@]
                    &&& os.hosts().dom() == set![program_id@]
                    &&& os.hosts()[program_id@].engine() == host
                    &&& os.modules() == Map::<Seq<char>, Seq<u8>>::empty().insert(
                        program_id@,
                        program@,
                    )
                },
                Err(f) => r matches Err(e) && (e is InvalidModule <==> f.blames_module())
                    && e.reason() == f.reason(),
            },
    {
        let mut os = HarnessOs::default();
        let loaded = ProgramHost::new(program, started);
        match os.install(program_id, loaded) {
            Ok(_) => {
                proof {
                    assert(os.ids() =~= seq![program_id@]);
                    lemma_modules_insert(
                        Map::<Seq<char>, ProgramHost>::empty(),
                        program_id@,
                        os.hosts()[program_id@],
                    );
                    assert(modules_of(Map::<Seq<char>, ProgramHost>::empty())
                        =~= Map::<Seq<char>, Seq<u8>>::empty());
                    assert(os.hosts().dom() =~= set![program_id@]);
                }
                Ok(os)
            },
            Err(e) => Err(e),
        }
    }

    /// Takes what loading a module ended in. A program that was loaded is
    /// put under `program_id`, in place of the program that was there, if
    /// there was one, and else behind the others. A failure is handed on,
    /// and nothing changes.
    pub fn install(&mut self, program_id: ProgramId, loaded: Result<ProgramHost, LoadError>) -> (r:
        Result<(), LoadError>)
        requires
            old(self).wf(),
        ensures
            final(self).wf(),
            match loaded {
                Ok(host) => {
                    &&& r is Ok
                    &&& final(self).ids() == with_program(old(self).ids(), program_id@)
                    &&& final(self).hosts() == old(self).hosts().insert(program_id@, host)
                    &&& final(self).modules() == old(self).modules().insert(
                        program_id@,
                        host.module(),
                    )
                },
                Err(e) => {
                    &&& r == Err::<(), LoadError>(e)
                    &&& final(self).ids() == old(self).ids()
                    &&& final(self).hosts() == old(self).hosts()
                },
            },
    {
        let host = match loaded {
            Err(e) => {
                return Err(e);
            },
            Ok(host) => host,
        };
        let ghost before = self.programs@;
        let ghost module = host;
        match self.find(&program_id) {
            Some(i) => {
                self.programs.set(i, Loaded { id: program_id, host });
                proof {
                    let after = self.programs@;
                    assert(ids_of(after) =~= ids_of(before));
                    assert forall|id: Seq<char>| #[trigger]
                        hosts_of(before).insert(program_id@, module).dom().contains(
                            id,
                        ) implies hosts_of(after)[id] == hosts_of(before).insert(
                        program_id@,
                        module,
                    )[id] by {
                        if id == program_id@ {
                            lemma_host_at(after, i as int);
                        } else {
                            let j = lemma_host_of(before, id);
                            assert(after[j] == before[j]);
                            lemma_host_at(after, j);
                        }
                    }
                    assert(hosts_of(after) =~= hosts_of(before).insert(program_id@, module));
                }
            },
            None => {
                self.programs.push(Loaded { id: program_id, host });
                proof {
                    let after = self.programs@;
                    assert(ids_of(after) =~= ids_of(before).push(program_id@));
                    lemma_add_then_remove(ids_of(before), program_id@);
                    assert forall|id: Seq<char>| #[trigger]
                        hosts_of(before).insert(program_id@, module).dom().contains(
                            id,
                        ) implies hosts_of(after).dom().contains(id) && hosts_of(after)[id]
                        == hosts_of(before).insert(program_id@, module)[id] by {
                        if id == program_id@ {
                            lemma_host_at(after, before.len() as int);
                        } else {
                            let j = lemma_host_of(before, id);
                            assert(after[j] == before[j]);
                            lemma_host_at(after, j);
                        }
                    }
                    assert forall|id: Seq<char>| #[trigger]
                        hosts_of(after).dom().contains(id) implies hosts_of(before).insert(
                        program_id@,
                        module,
                    ).dom().contains(id) by {
                        let j = lemma_host_of(after, id);
                        if j < before.len() {
                            assert(after[j] == before[j]);
                            lemma_host_at(before, j);
                        }
                    }
                    assert(hosts_of(after) =~= hosts_of(before).insert(program_id@, module));
                }
            },
        }
        proof {
            lemma_modules_insert(hosts_of(before), program_id@, module);
        }
        Ok(())
    }

    /// The place of the program that is loaded under `id`.
    fn find(&self, id: &ProgramId) -> (r: Option<usize>)
        ensures
            match r {
                Some(i) => i < self.programs@.len() && self.ids().index_of_first(id@) == Some(
                    i as int,
                ) && self.ids()[i as int] == id@ && self.contains(id@),
                None => !self.contains(id@),
            },
    {
        let ghost all = self.ids();
        let mut i: usize = 0;
        while i < self.programs.len()
            invariant
                i <= self.programs.len(),
                all == self.ids(),
                forall|j: int| 0 <= j < i ==> all[j] != id@,
            decreases self.programs.len() - i,
        {
            if self.programs[i].id.0 == id.0 {
                proof {
                    assert(all[i as int] == id@);
                    assert(all.contains(id@));
                    all.index_of_first_ensures(id@);
                }
                return Some(i);
            }
            i = i + 1;
        }
        None
    }

    /// The identifiers of the loaded programs.
    pub fn program_ids(&self) -> (ids: Vec<ProgramId>)
        ensures
            ids@.len() == self.ids().len(),
            forall|i: int| 0 <= i < ids@.len() ==> ids@[i]@ == self.ids()[i],
    {
        let mut ids: Vec<ProgramId> = Vec::new();
        let mut i: usize = 0;
        while i < self.programs.len()
            invariant
                i <= self.programs.len(),
                ids@.len() == i,
                forall|j: int| 0 <= j < i ==> ids@[j]@ == self.ids()[j],
            decreases self.programs.len() - i,
        {
            ids.push(self.programs[i].id.clone());
            i = i + 1;
        }
        ids
    }

    /// Says what is to be run for a call of `operation` with `payload` on
    /// the program that is loaded under `program_id`: that program, that
    /// operation, that payload.
    ///
    /// Without such a program the call fails as
    /// [`RegistryError::NotFound`], whatever the operation and the payload,
    /// and with one it never fails. Nothing is loaded or taken out. What
    /// running the call brings back becomes the result by [`call_result`].
    pub fn call_operation<'a>(
        &'a self,
        program_id: &ProgramId,
        operation: &'a str,
        payload: &'a [u8],
    ) -> (r: Result<Invocation<'a>, RegistryError>)
        ensures
            match r {
                Ok(invocation) => {
                    &&& self.contains(program_id@)
                    &&& *invocation.program == self.hosts()[program_id@]
                    &&& invocation.operation@ == operation@
                    &&& invocation.payload@ == payload@
                },
                Err(e) => e is NotFound && !self.contains(program_id@),
            },
    {
        match self.find(program_id) {
            None => Err(RegistryError::NotFound),
            Some(i) => {
                assert(self.hosts()[program_id@] == self.programs@[i as int].host);
                Ok(self.programs[i].host.call(operation, payload))
            },
        }
    }

    /// Takes what starting a host on the module `program` ended in. Where a
    /// host was started, the program is put under `program_id`, in place of
    /// the program that was loaded under it, if there was one: the program
    /// under `program_id` is then the one of the module `program`, run by
    /// the host that was started, and the other programs are as they were.
    /// Where none was started, nothing changes, and the failure is the one
    /// that the fault is sorted as, as [`ProgramHost::new`] tells.
    pub fn add_program(
        &mut self,
        program_id: ProgramId,
        program: &[u8],
        started: Result<wapc::WapcHost, EngineFault>,
    ) -> (r: Result<(), LoadError>)
        requires
            old(self).wf(),
        ensures
            final(self).wf(),
            match started {
                Ok(host) => {
                    &&& r is Ok
                    &&& final(self).ids() == with_program(old(self).ids(), program_id@)
                    &&& final(self).hosts().dom() == old(self).hosts().dom().insert(program_id@)
                    &&& final(self).hosts()[program_id@].engine() == host
                    &&& forall|other: Seq<char>|
                        other != program_id@ && old(self).contains(other) ==> #[trigger] final(self)
                            .hosts()[other] == old(self).hosts()[other]
                    &&& final(self).modules() == old(self).modules().insert(
                        program_id@,
                        program@,
                    )
                },
                Err(f) => {
                    &&& r matches Err(e)
                    &&& (e is InvalidModule <==> f.blames_module())
                    &&& e.reason() == f.reason()
                    &&& final(self).ids() == old(self).ids()
                    &&& final(self).hosts() == old(self).hosts()
                },
            },
    {
        let loaded = ProgramHost::new(program, started);
        proof {
            self.lemma_modules();
        }
        self.install(program_id, loaded)
    }

    /// Takes the program that is loaded under `program_id` out. Without such
    /// a program nothing changes.
    pub fn remove_program(&mut self, program_id: &ProgramId)
        requires
            old(self).wf(),
        ensures
            final(self).wf(),
            final(self).ids() == old(self).ids().remove_value(program_id@),
            final(self).hosts() == old(self).hosts().remove(program_id@),
            final(self).modules() == old(self).modules().remove(program_id@),
            !final(self).contains(program_id@),
    {
        let ghost before = self.programs@;
        proof {
            lemma_removed_is_absent(ids_of(before), program_id@);
            ids_of(before).index_of_first_ensures(program_id@);
            lemma_modules_remove(hosts_of(before), program_id@);
        }
        match self.find(program_id) {
            None => {
                assert(hosts_of(before) =~= hosts_of(before).remove(program_id@));
            },
            Some(i) => {
                let _ = self.programs.remove(i);
                proof {
                    let after = self.programs@;
                    assert(ids_of(after) =~= ids_of(before).remove(i as int));
                    assert forall|id: Seq<char>| #[trigger]
                        hosts_of(before).remove(program_id@).dom().contains(
                            id,
                        ) implies hosts_of(after).dom().contains(id) && hosts_of(after)[id]
                        == hosts_of(before)[id] by {
                        let j = lemma_host_of(before, id);
                        let k = if j < i {
                            j
                        } else {
                            j - 1
                        };
                        assert(after[k] == before[j]);
                        lemma_host_at(after, k);
                    }
                    assert forall|id: Seq<char>| #[trigger]
                        hosts_of(after).dom().contains(id) implies hosts_of(before).remove(
                        program_id@,
                    ).dom().contains(id) by {
                        let k = lemma_host_of(after, id);
                        let j = if k < i {
                            k
                        } else {
                            k + 1
                        };
                        assert(after[k] == before[j]);
                        lemma_host_at(before, j);
                    }
                    assert(hosts_of(after) =~= hosts_of(before).remove(program_id@));
                }
            },
        }
    }
}

/// What a call on the registry ends in: the failure to find the program, or,
/// where the program was found and the call run, what the host brought back
/// as [`call_outcome`] tells, a failure as [`RegistryError::Exec`].
pub fn call_result(found: Result<Result<Vec<u8>, HostFault>, RegistryError>) -> (r: Result<
    Vec<u8>,
    RegistryError,
>)
    ensures
        match found {
            Ok(Ok(answer)) => r == Ok::<Vec<u8>, RegistryError>(answer),
            Ok(Err(f)) => r matches Err(RegistryError::Exec(e)) && e.sorts(f),
            Err(e) => r == Err::<Vec<u8>, RegistryError>(e),
        },
{
    match found {
        Ok(raw) => match call_outcome(raw) {
            Ok(answer) => Ok(answer),
            Err(e) => Err(RegistryError::Exec(e)),
        },
        Err(e) => Err(e),
    }
}

impl Default for HarnessOs {
    /// A node without a program.
    fn default() -> (os: Self)
        ensures
            os.ids().len() == 0,
            os.hosts() == Map::<Seq<char>, ProgramHost>::empty(),
            os.wf(),
    {
        let os = HarnessOs { programs: Vec::new() };
        assert(os.hosts() =~= Map::<Seq<char>, ProgramHost>::empty());
        os
    }
}

} // verus!
