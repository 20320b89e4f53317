//! A worker's side of the protocol: what a request asks for, and what is
//! answered.
//!
//! A connection carries one request. The worker awaits it; once it is read,
//! it is routed; then the response is sent and the connection closed. Bytes
//! that are no request are answered by [`parse_failure`].
//!
//! The worker decides, and the caller does the work that reaches beyond the
//! library: each step says in an [`Action`] what is to be done next, the
//! caller does it and hands back what it ended in, and [`Action::Respond`]
//! ends the routing.
//!
//! - [`NodeServer::handler`] takes the request.
//! - A request that brings a program names it and says where its code is.
//!   The caller decodes that description for [`NodeServer::pull`], fetches
//!   the code for [`NodeServer::load`], and starts a host on the code for
//!   [`NodeServer::started`], which puts the program in its place.
//! - A request that calls a procedure leads to [`Action::Call`]. The caller
//!   asks [`NodeServer::call_operation`] what is to be run, runs it, and
//!   hands what the host brought back to [`call_response`].
//!
//! Every failure ends in a response, and none of them stops the worker. The
//! worker answers one request at a time: a program runs one call at a time,
//! and a program is replaced only between calls.

use crate::error::{LoadError, ParseError, RegistryError};
use crate::harness_os::{call_result, with_program, HarnessOs};
use crate::http::{
    fields, get_header, method_of, names, position, Header, Method, Request, Response,
};
use crate::program::ProgramId;
use crate::text::same_text;
use crate::wapc_host::{EngineFault, HostFault, Invocation, ProgramHost};
use vstd::prelude::*;
use vstd::slice::slice_to_vec;
use vstd::utf8::encode_utf8;

verus! {

/// Where the code of a program is.
#[derive(Debug)]
pub enum ProgramSource {
    /// In the description itself.
    Inline(Vec<u8>),
    /// With the canister `canister_id`, reached at `url`.
    Remote { canister_id: String, url: String },
}

/// The description of a program that a node is asked to load.
#[derive(Debug)]
pub struct PullProgram {
    pub program_id: String,
    pub source: ProgramSource,
}

/// What is to be done next for a request.
#[derive(Debug)]
pub enum Action {
    /// Send the response; the request is done.
    Respond(Response),
    /// Decode the bytes as a [`PullProgram`] and hand it, or the reason why
    /// they are none, to [`NodeServer::pull`].
    Decode(Vec<u8>),
    /// Fetch the code of the program `program_id` from the canister and hand
    /// it, or the reason why it could not be had, to [`NodeServer::load`].
    Fetch { program_id: String, canister_id: String, url: String },
    /// Start a host on the module `code` and hand it, or the reason why none
    /// was started, to [`NodeServer::started`], with the identifier and the
    /// code.
    Start { program_id: String, code: Vec<u8> },
    /// Ask [`NodeServer::call_operation`] what is to be run for the call of
    /// `procedure` with `payload` on the program `program_id`, run it, and
    /// hand what was found and brought back to [`call_response`].
    Call { program_id: String, procedure: String, payload: Vec<u8> },
}

/// What a request asks for.
#[derive(Clone, Copy, Debug, PartialEq, Eq, Structural)]
pub enum Route {
    /// `GET /hello`: a sign of life.
    Hello,
    /// `POST /program`: load a program.
    AddProgram,
    /// `POST /procedure`: call an operation of a loaded program.
    CallProcedure,
    /// `DELETE /program`: take a program out.
    RemoveProgram,
    /// Anything else.
    Unknown,
}

/// What a request with the method `m` and the path `path` asks for.
pub open spec fn route(m: Method, path: Seq<char>) -> Route {
    if m == Method::GET && path == "/hello"@ {
        Route::Hello
    } else if m == Method::POST && path == "/program"@ {
        Route::AddProgram
    } else if m == Method::POST && path == "/procedure"@ {
        Route::CallProcedure
    } else if m == Method::DELETE && path == "/program"@ {
        Route::RemoveProgram
    } else {
        Route::Unknown
    }
}

/// Whether `r` is the response with the status `status`, no header, and
/// the body `body`.
pub open spec fn plain(r: Response, status: u16, body: Seq<u8>) -> bool {
    r.status_code == status && r.headers@.len() == 0 && r.data@ == body
}

/// Whether `r` is the response with the status `status` and the body `text`,
/// marked as plain text.
pub open spec fn report(r: Response, status: u16, text: Seq<char>) -> bool {
    r.status_code == status && fields(r.headers@) == seq![("Content-Type"@, "text/plain"@)]
        && r.data@ == encode_utf8(text)
}

/// The line by which a failed call is reported.
pub open spec fn call_failure(e: RegistryError) -> Seq<char> {
    match e {
        RegistryError::NotFound => "Internal error: "@ + "the program could not be found"@,
        RegistryError::Exec(crate::error::ExecError::NotFound) => "IO error: "@
            + "wapc protocol did not find method"@,
        RegistryError::Exec(crate::error::ExecError::GuestFailure(_)) => "IO error: "@
            + "wapc protocol trouble communicating with host"@,
        RegistryError::Exec(crate::error::ExecError::HostFailure(_)) => "Internal error: "@
            + "wapc protocol internal error"@,
    }
}

/// The line by which a call that the host failed is reported.
pub open spec fn fault_report(f: HostFault) -> Seq<char> {
    match f {
        HostFault::NoSuchFunction(_) => "IO error: "@ + "wapc protocol did not find method"@,
        HostFault::GuestCallFailure(_) => "IO error: "@
            + "wapc protocol trouble communicating with host"@,
        _ => "Internal error: "@ + "wapc protocol internal error"@,
    }
}

/// The line by which a failed load is reported.
pub open spec fn load_failure(e: LoadError) -> Seq<char> {
    match e {
        LoadError::InvalidModule(m) => m@,
        LoadError::EngineInit(_) => "Internal error: "@ + "wasmtime initialization failed"@,
    }
}

/// The line by which a module on which no host was started is reported: what
/// the engine said of the module, where the fault lies with it.
pub open spec fn start_failure(f: EngineFault) -> Seq<char> {
    if f.blames_module() {
        f.reason()
    } else {
        "Internal error: "@ + "wasmtime initialization failed"@
    }
}

/// Whether `r` answers a call that ended in `outcome`: status 200 and the
/// operation's answer, or status 400 and the line that reports the failure.
pub open spec fn answers(r: Response, outcome: Result<Vec<u8>, RegistryError>) -> bool {
    match outcome {
        Ok(answer) => plain(r, 200, answer@),
        Err(e) => plain(r, 400, encode_utf8(call_failure(e))),
    }
}

/// Whether `r` answers a load that ended in `outcome`: status 202 and no
/// body, or status 400 and the line that reports the failure.
pub open spec fn confirms(r: Response, outcome: Result<(), LoadError>) -> bool {
    match outcome {
        Ok(_) => plain(r, 202, Seq::empty()),
        Err(e) => plain(r, 400, encode_utf8(load_failure(e))),
    }
}

/// Whether `action` is what the call that `req` asks for leads to: a refusal
/// without one of the two headers, else the call of the procedure that the
/// one header names on the program that the other names, with the body as
/// the payload.
pub open spec fn calls(req: Request, action: Action) -> bool {
    let all = names(fields(req.headers@));
    match position(encode_utf8(Header::ProgramId.name()), all) {
        None => {
            &&& action matches Action::Respond(r)
            &&& plain(r, 400, encode_utf8("Program-Identifier header could not be retrieved"@))
        },
        Some(i) => match position(encode_utf8(Header::ProgramProc.name()), all) {
            None => {
                &&& action matches Action::Respond(r)
                &&& plain(
                    r,
                    400,
                    encode_utf8("Program-Procedure header could not be retrieved"@),
                )
            },
            Some(j) => {
                &&& action matches Action::Call { program_id, procedure, payload }
                &&& program_id@ == req.headers@[i].1@
                &&& procedure@ == req.headers@[j].1@
                &&& payload@ == req.data@
            },
        },
    }
}

/// The identifier of the program that `req` takes out: there is one where
/// the request is `DELETE /program` with the header that names the program.
pub open spec fn removal(req: Request) -> Option<Seq<char>> {
    match method_of(encode_utf8(req.method@)) {
        None => None,
        Some(m) => if route(m, req.path@) == Route::RemoveProgram {
            match position(
                encode_utf8(Header::ProgramId.name()),
                names(fields(req.headers@)),
            ) {
                None => None,
                Some(i) => Some(req.headers@[i].1@),
            }
        } else {
            None
        },
    }
}

/// Whether `action` is what `req` leads to.
pub open spec fn handled(req: Request, action: Action) -> bool {
    match method_of(encode_utf8(req.method@)) {
        None => {
            &&& action matches Action::Respond(r)
            &&& report(r, 400, "IO error: "@ + ("unsupported method: "@ + req.method@))
        },
        Some(m) => match route(m, req.path@) {
            Route::Hello => {
                &&& action matches Action::Respond(r)
                &&& report(r, 202, "Hello, World!"@)
            },
            Route::AddProgram => {
                &&& action matches Action::Decode(body)
                &&& body@ == req.data@
            },
            Route::CallProcedure => calls(req, action),
            Route::RemoveProgram => {
                &&& action matches Action::Respond(r)
                &&& if removal(req) is Some {
                    plain(r, 204, Seq::empty())
                } else {
                    report(
                        r,
                        400,
                        "IO error: "@ + "Program-Identifier header could not be retrieved"@,
                    )
                }
            },
            Route::Unknown => {
                &&& action matches Action::Respond(r)
                &&& plain(r, 404, Seq::empty())
            },
        },
    }
}

/// Tells what a request with the method `m` and the path `path` asks for.
pub fn find_route(m: Method, path: &str) -> (r: Route)
    ensures
        r == route(m, path@),
{
    match m {
        Method::GET => if same_text(path, "/hello") {
            Route::Hello
        } else {
            Route::Unknown
        },
        Method::POST => if same_text(path, "/program") {
            Route::AddProgram
        } else if same_text(path, "/procedure") {
            Route::CallProcedure
        } else {
            Route::Unknown
        },
        Method::DELETE => if same_text(path, "/program") {
            Route::RemoveProgram
        } else {
            Route::Unknown
        },
        Method::HEAD => Route::Unknown,
    }
}

/// The response to a call that ended in `outcome`.
pub fn procedure_response(outcome: Result<Vec<u8>, RegistryError>) -> (r: Response)
    ensures
        answers(r, outcome),
{
    match outcome {
        Ok(answer) => Response::plain(200, answer),
        Err(e) => {
            let text = e.to_error().to_string();
            Response::plain(400, slice_to_vec(text.as_str().as_bytes()))
        },
    }
}

/// The response to a load that ended in `outcome`.
pub fn load_response(outcome: Result<(), LoadError>) -> (r: Response)
    ensures
        confirms(r, outcome),
{
    match outcome {
        Ok(_) => Response::plain(202, Vec::new()),
        Err(e) => {
            let text = e.to_error().to_string();
            Response::plain(400, slice_to_vec(text.as_str().as_bytes()))
        },
    }
}

/// The response that refuses a request with the status 400 and says why.
pub fn refusal(text: &str) -> (r: Response)
    ensures
        plain(r, 400, encode_utf8(text@)),
{
    Response::plain(400, slice_to_vec(text.as_bytes()))
}

/// The response to bytes that are no request: status 400, and the kind of
/// the failure as plain text.
pub fn parse_failure(e: ParseError) -> (r: Response)
    ensures
        report(r, 400, "IO error: "@ + e.message()),
{
    Response::from_error(&e.to_error())
}

/// The response to a call, by what was found and brought back: status 200
/// and the answer where the program was found and the host brought one back,
/// else status 400 and the line that reports the failure.
pub fn call_response(found: Result<Result<Vec<u8>, HostFault>, RegistryError>) -> (r: Response)
    ensures
        match found {
            Ok(Ok(answer)) => plain(r, 200, answer@),
            Ok(Err(f)) => plain(r, 400, encode_utf8(fault_report(f))),
            Err(e) => plain(r, 400, encode_utf8(call_failure(e))),
        },
{
    procedure_response(call_result(found))
}

/// A worker: the programs that it has loaded.
pub struct NodeServer {
    harness_os: HarnessOs,
}

/// A worker without a program.
pub fn new_node_server() -> (server: NodeServer)
    ensures
        server.programs().len() == 0,
        server.hosts() == Map::<Seq<char>, ProgramHost>::empty(),
        server.wf(),
{
    NodeServer { harness_os: HarnessOs::default() }
}

impl NodeServer {
    /// The identifiers of the loaded programs.
    pub closed spec fn programs(&self) -> Seq<Seq<char>> {
        self.harness_os.ids()
    }

    /// Each loaded program, by its identifier.
    pub closed spec fn hosts(&self) -> Map<Seq<char>, ProgramHost> {
        self.harness_os.hosts()
    }

    /// The module of each loaded program, by the program's identifier.
    pub open spec fn modules(&self) -> Map<Seq<char>, Seq<u8>> {
        crate::harness_os::modules_of(self.hosts())
    }

    /// No identifier is loaded twice: every worker that this type's
    /// functions build is well formed, and they keep it so.
    pub open spec fn wf(&self) -> bool {
        self.programs().no_duplicates()
    }

    /// The programs that have a module are the programs that are loaded.
    pub proof fn lemma_modules(&self)
        ensures
            forall|id: Seq<char>| self.hosts().dom().contains(id) <==> self.programs().contains(id),
            forall|id: Seq<char>|
                self.modules().dom().contains(id) <==> self.programs().contains(id),
    {
        self.harness_os.lemma_modules();
        assert forall|id: Seq<char>|
            self.hosts().dom().contains(id) <==> self.programs().contains(id) by {
            assert(self.harness_os.contains(id) == self.programs().contains(id));
        }
    }

    /// The identifiers of the loaded programs.
    pub fn program_ids(&self) -> (ids: Vec<ProgramId>)
        ensures
            ids@.len() == self.programs().len(),
            forall|i: int| 0 <= i < ids@.len() ==> ids@[i]@ == self.programs()[i],
    {
        self.harness_os.program_ids()
    }

    /// Takes a request and says what is to be done for it.
    ///
    /// `GET /hello` is answered with 202 and a greeting. `POST /program`
    /// asks for the body to be decoded. `POST /procedure` asks for the call
    /// of the operation named by the header `Program-Procedure` on the
    /// program named by `Program-Identifier`, with the body as the payload;
    /// without one of the two headers it is answered with 400 and the
    /// reason. `DELETE /program` takes the program named by
    /// `Program-Identifier` out and is answered with 204, also where no such
    /// program was loaded; without the header, with 400. A method that is
    /// none of GET, POST, DELETE and HEAD is answered with 400, every other
    /// request with 404. But for the removal nothing is loaded or taken out.
    ///
    /// The values of headers are taken as they are. A request that was read
    /// by [`crate::wire::parse_request`] has them without white space at
    /// their ends; in a request that was put together otherwise, white space
    /// at the ends of an identifier or of a procedure's name belongs to
    /// them.
    pub fn handler(&mut self, req: Request) -> (action: Action)
        requires
            old(self).wf(),
        ensures
            final(self).wf(),
            handled(req, action),
            match removal(req) {
                Some(id) => {
                    &&& final(self).programs() == old(self).programs().remove_value(id)
                    &&& final(self).hosts() == old(self).hosts().remove(id)
                    &&& final(self).modules() == old(self).modules().remove(id)
                },
                None => {
                    &&& final(self).programs() == old(self).programs()
                    &&& final(self).hosts() == old(self).hosts()
                },
            },
    {
        let method = match Method::try_from(req.method.as_str()) {
            Err(e) => {
                return Action::Respond(Response::from_error(&e));
            },
            Ok(m) => m,
        };
        match find_route(method, req.path.as_str()) {
            Route::Hello => Action::Respond(Response::hello()),
            Route::AddProgram => Action::Decode(req.data),
            Route::CallProcedure => {
                let program_id = match get_header(
                    Header::ProgramId.as_str(),
                    req.headers.as_slice(),
                ) {
                    Some(program_id) => program_id,
                    None => {
                        return Action::Respond(
                            refusal("Program-Identifier header could not be retrieved"),
                        );
                    },
                };
                let procedure = match get_header(
                    Header::ProgramProc.as_str(),
                    req.headers.as_slice(),
                ) {
                    Some(procedure) => procedure,
                    None => {
                        return Action::Respond(
                            refusal("Program-Procedure header could not be retrieved"),
                        );
                    },
                };
                Action::Call { program_id, procedure, payload: req.data }
            },
            Route::RemoveProgram => {
                let program_id = match get_header(
                    Header::ProgramId.as_str(),
                    req.headers.as_slice(),
                ) {
                    Some(program_id) => program_id,
                    None => {
                        let e = crate::error::Error::io(
                            "Program-Identifier header could not be retrieved",
                            None,
                        );
                        return Action::Respond(Response::from_error(&e));
                    },
                };
                proof {
                    crate::harness_os::lemma_modules_remove(self.hosts(), program_id@);
                }
                self.harness_os.remove_program(&ProgramId::new(program_id));
                Action::Respond(Response::plain(204, Vec::new()))
            },
            Route::Unknown => Action::Respond(Response::plain(404, Vec::new())),
        }
    }

    /// Takes the description of a program, or the reason why the body of the
    /// request was none. A body that could not be decoded is answered with
    /// 400 and the reason. For a program whose code is in the description a
    /// host is asked for; for one whose code is elsewhere the code is asked
    /// for. Nothing is loaded or taken out.
    pub fn pull(&self, decoded: Result<PullProgram, String>) -> (action: Action)
        ensures
            match decoded {
                Err(text) => {
                    &&& action matches Action::Respond(r)
                    &&& plain(r, 400, encode_utf8(text@))
                },
                Ok(PullProgram { program_id, source: ProgramSource::Inline(code) }) => {
                    &&& action matches Action::Start { program_id: p, code: c }
                    &&& p@ == program_id@
                    &&& c@ == code@
                },
                Ok(
                    PullProgram { program_id, source: ProgramSource::Remote { canister_id, url } },
                ) => {
                    &&& action matches Action::Fetch { program_id: p, canister_id: c, url: u }
                    &&& p@ == program_id@
                    &&& c@ == canister_id@
                    &&& u@ == url@
                },
            },
    {
        match decoded {
            Err(text) => Action::Respond(refusal(text.as_str())),
            Ok(PullProgram { program_id, source }) => match source {
                ProgramSource::Inline(code) => Action::Start { program_id, code },
                ProgramSource::Remote { canister_id, url } => Action::Fetch {
                    program_id,
                    canister_id,
                    url,
                },
            },
        }
    }

    /// Takes the code of the program `program_id`, or the reason why it
    /// could not be had. Code that could not be had is answered with 400 and
    /// the reason; for code that was fetched a host is asked for. Nothing is
    /// loaded or taken out.
    pub fn load(&self, program_id: String, fetched: Result<Vec<u8>, String>) -> (action: Action)
        ensures
            match fetched {
                Err(text) => {
                    &&& action matches Action::Respond(r)
                    &&& plain(r, 400, encode_utf8(text@))
                },
                Ok(code) => {
                    &&& action matches Action::Start { program_id: p, code: c }
                    &&& p@ == program_id@
                    &&& c@ == code@
                },
            },
    {
        match fetched {
            Err(text) => Action::Respond(refusal(text.as_str())),
            Ok(code) => Action::Start { program_id, code },
        }
    }

    /// Takes what starting a host on the module `code` ended in, and answers
    /// the request that brought the program `program_id`.
    ///
    /// Where a host was started, the program is loaded, in place of the one
    /// that was loaded under the identifier if there was one, and the answer
    /// is 202: the program under `program_id` is then the one of the module
    /// `code`, run by the host that was started, and the other programs are
    /// as they were. Where none was started, nothing changes, and the answer
    /// is 400 with the reason.
    pub fn started(
        &mut self,
        program_id: String,
        code: Vec<u8>,
        end: Result<wapc::WapcHost, EngineFault>,
    ) -> (r: Response)
        requires
            old(self).wf(),
        ensures
            final(self).wf(),
            match end {
                Ok(host) => {
                    &&& plain(r, 202, Seq::empty())
                    &&& final(self).programs() == with_program(old(self).programs(), program_id@)
                    &&& final(self).hosts().dom() == old(self).hosts().dom().insert(program_id@)
                    &&& final(self).hosts()[program_id@].engine() == host
                    &&& forall|other: Seq<char>|
                        other != program_id@ && old(self).programs().contains(other)
                            ==> #[trigger] final(self).hosts()[other] == old(self).hosts()[other]
                    &&& final(self).modules() == old(self).modules().insert(program_id@, code@)
                },
                Err(f) => {
                    &&& plain(r, 400, encode_utf8(start_failure(f)))
                    &&& final(self).programs() == old(self).programs()
                    &&& final(self).hosts() == old(self).hosts()
                },
            },
    {
        let outcome = self.harness_os.add_program(
            ProgramId::new(program_id),
            code.as_slice(),
            end,
        );
        load_response(outcome)
    }

    /// Says what is to be run for a call of `procedure` with `payload` on
    /// the program that is loaded under `program_id`: that program, that
    /// operation, that payload. Without such a program the call fails as
    /// [`RegistryError::NotFound`], whatever the procedure and the payload.
    /// Nothing is loaded or taken out.
    pub fn call_operation<'a>(
        &'a self,
        program_id: &ProgramId,
        procedure: &'a str,
        payload: &'a [u8],
    ) -> (r: Result<Invocation<'a>, RegistryError>)
        ensures
            match r {
                Ok(invocation) => {
                    &&& self.programs().contains(program_id@)
                    &&& *invocation.program == self.hosts()[program_id@]
                    &&& invocation.operation@ == procedure@
                    &&& invocation.payload@ == payload@
                },
                Err(e) => e is NotFound && !self.programs().contains(program_id@),
            },
    {
        self.harness_os.call_operation(program_id, procedure, payload)
    }
}

} // verus!
