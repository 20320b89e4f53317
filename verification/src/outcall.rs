//! The coordinator's side of a call: which worker is asked, what it is sent,
//! and what its answer means.
//!
//! The call itself, over the network, is left to the caller. It is made
//! once: a worker that cannot be reached or that answers with a failure is
//! not asked again, and no other worker is asked in its place.

use crate::arbiter::StateAccessor;
use crate::error::NoDevicesError;
use crate::http::{fields, Context, Header, HeaderField, Method, Response};
use crate::text::{decimal, decimal_text};
use vstd::prelude::*;
use vstd::string::StringExecFns;

verus! {

/// The budget that is attached to a call.
pub const CYCLES: u128 = 10_000_000_000;

/// A call as it is handed to the transport.
#[derive(Debug)]
pub struct Outcall {
    /// The address of the worker, followed by the path.
    pub url: String,
    pub method: Method,
    pub headers: Vec<HeaderField>,
    pub body: Vec<u8>,
    /// The name of the transform that the answer is passed through.
    pub transform: String,
    /// The settings of that transform.
    pub context: Context,
    /// The budget of the call.
    pub cycles: u128,
}

/// The worker could not be reached; the cause is the transport's.
#[derive(Debug)]
pub struct TransportError(pub String);

/// The worker answered with a status other than 200.
#[derive(Debug)]
pub struct ResponseError {
    pub status: u64,
    pub body: Vec<u8>,
}

/// Why a call did not bring a result.
#[derive(Debug)]
pub enum DispatchError {
    NoDevices(NoDevicesError),
    Transport(TransportError),
    Response(ResponseError),
}

/// The numbers of `b`, in decimal digits, set apart by commas.
pub open spec fn json_items(b: Seq<u8>) -> Seq<char>
    decreases b.len(),
{
    if b.len() == 0 {
        Seq::empty()
    } else if b.len() == 1 {
        decimal_text(b[0] as nat)
    } else {
        json_items(b.drop_last()) + ","@ + decimal_text(b.last() as nat)
    }
}

/// `b` as a JSON array of numbers, without white space.
pub open spec fn json_array(b: Seq<u8>) -> Seq<char> {
    "["@ + json_items(b) + "]"@
}

/// Writes `body` as a JSON array of numbers, without white space.
pub fn bytes_as_json(body: &[u8]) -> (text: String)
    ensures
        text@ == json_array(body@),
{
    let mut text = String::from_str("[");
    let mut i: usize = 0;
    while i < body.len()
        invariant
            i <= body.len(),
            text@ == "["@ + json_items(body@.take(i as int)),
        decreases body.len() - i,
    {
        let ghost before = json_items(body@.take(i as int));
        proof {
            assert(body@.take(i + 1).drop_last() == body@.take(i as int));
            assert(body@.take(i + 1).last() == body@[i as int]);
        }
        if i > 0 {
            text.append(",");
        }
        text.append(decimal(body[i] as u64).as_str());
        proof {
            let number = decimal_text(body@[i as int] as nat);
            if i > 0 {
                assert(text@ =~= "["@ + (before + ","@ + number));
            } else {
                assert(before.len() == 0);
                assert(text@ =~= "["@ + number);
            }
        }
        i = i + 1;
    }
    proof {
        assert(body@.take(i as int) == body@);
    }
    text.append("]");
    text
}

impl DispatchError {
    /// The text that [`DispatchError::to_string`] produces.
    pub open spec fn text(&self) -> Seq<char> {
        match self {
            DispatchError::NoDevices(_) => "Internal error: "@ + "No devices registered"@,
            DispatchError::Transport(e) => "The http_request resulted into error. "@ + e.0@,
            DispatchError::Response(e) => "The http_request resulted into error. \nStatus code: "@
                + decimal_text(e.status as nat) + "\nBody: `"@ + json_array(e.body@) + "`"@,
        }
    }

    /// The failure as one text: the transport's cause as it is, or the
    /// status and the body of the worker's answer.
    pub fn to_string(&self) -> (s: String)
        ensures
            s@ == self.text(),
    {
        match self {
            DispatchError::NoDevices(e) => e.to_error().to_string(),
            DispatchError::Transport(e) => String::from_str(
                "The http_request resulted into error. ",
            ).concat(e.0.as_str()),
            DispatchError::Response(e) => {
                let mut s = String::from_str(
                    "The http_request resulted into error. \nStatus code: ",
                );
                s.append(decimal(e.status).as_str());
                s.append("\nBody: `");
                s.append(bytes_as_json(e.body.as_slice()).as_str());
                s.append("`");
                s
            },
        }
    }
}

/// Builds the call of `procedure` with the arguments `args` for the next
/// worker in turn, and moves the turn on.
///
/// The call goes to the path `/procedure` of the worker at the cursor, by
/// POST, with the program's identifier and the procedure's name as headers
/// and the arguments as the body. Without a worker there is no call.
pub fn procedure_call(state: &mut StateAccessor, procedure: &str, args: Vec<u8>) -> (r: Result<
    Outcall,
    NoDevicesError,
>)
    requires
        old(state).wf(),
    ensures
        final(state).wf(),
        final(state).devices() == old(state).devices(),
        final(state).program() == old(state).program(),
        match r {
            Err(_) => old(state).devices().len() == 0 && final(state).cursor() == old(
                state,
            ).cursor(),
            Ok(call) => {
                &&& old(state).devices().len() > 0
                &&& final(state).cursor() == (old(state).cursor() + 1) % (old(
                    state,
                ).devices().len() as int)
                &&& call.url@ == old(state).devices()[old(state).cursor()] + "/procedure"@
                &&& call.method == Method::POST
                &&& fields(call.headers@) == seq![
                    (Header::ProgramId.name(), old(state).program().0.program),
                    (Header::ProgramProc.name(), procedure@),
                ]
                &&& call.body@ == args@
                &&& call.transform@ == "harness_transform"@
                &&& call.context == (Context { bucket_start_time_index: 0, closing_price_index: 4 })
                &&& call.cycles == CYCLES
            },
        },
{
    let device = match state.get_next_device() {
        Err(e) => {
            return Err(e);
        },
        Ok(url) => url,
    };
    let program_id = state.get_program_id();
    let mut headers: Vec<HeaderField> = Vec::new();
    headers.push(HeaderField(Header::ProgramId.to_string(), program_id.0));
    headers.push(HeaderField(Header::ProgramProc.to_string(), String::from_str(procedure)));
    assert(fields(headers@) =~= seq![
        (Header::ProgramId.name(), old(state).program().0.program),
        (Header::ProgramProc.name(), procedure@),
    ]);
    Ok(
        Outcall {
            url: device.concat("/procedure"),
            method: Method::POST,
            headers,
            body: args,
            transform: String::from_str("harness_transform"),
            context: Context { bucket_start_time_index: 0, closing_price_index: 4 },
            cycles: CYCLES,
        },
    )
}

/// Reads what the transport brought back: the body of an answer with the
/// status 200 is the result, as it is; an answer with another status is a
/// [`ResponseError`] with that status and body; and where the worker could
/// not be reached the transport's cause comes back as it is.
pub fn read_reply(reply: Result<(u64, Vec<u8>), String>) -> (r: Result<Vec<u8>, DispatchError>)
    ensures
        match reply {
            Ok((status, body)) => if status == 200 {
                r matches Ok(data) && data@ == body@
            } else {
                r matches Err(DispatchError::Response(e)) && e.status == status && e.body@
                    == body@
            },
            Err(cause) => r matches Err(DispatchError::Transport(e)) && e.0@ == cause@,
        },
{
    match reply {
        Ok((status, body)) => if status == 200 {
            Ok(body)
        } else {
            Err(DispatchError::Response(ResponseError { status, body }))
        },
        Err(cause) => Err(DispatchError::Transport(TransportError(cause))),
    }
}

/// The headers that the coordinator keeps of a worker's answer: none of the
/// worker's own, and these six in their place.
pub open spec fn kept_headers() -> Seq<(Seq<char>, Seq<char>)> {
    seq![
        ("Content-Security-Policy"@, "default-src 'self'"@),
        ("Referrer-Policy"@, "strict-origin"@),
        ("Permissions-Policy"@, "geolocation=(self)"@),
        ("Strict-Transport-Security"@, "max-age=63072000"@),
        ("X-Frame-Options"@, "DENY"@),
        ("X-Content-Type-Options"@, "nosniff"@),
    ]
}

/// What the coordinator keeps of a worker's answer: the status and the body
/// as they are, and fixed headers in place of the worker's.
pub fn harness_transform(raw: Response) -> (kept: Response)
    ensures
        kept.status_code == raw.status_code,
        kept.data@ == raw.data@,
        fields(kept.headers@) == kept_headers(),
{
    let mut headers: Vec<HeaderField> = Vec::new();
    headers.push(
        HeaderField(
            String::from_str("Content-Security-Policy"),
            String::from_str("default-src 'self'"),
        ),
    );
    headers.push(
        HeaderField(String::from_str("Referrer-Policy"), String::from_str("strict-origin")),
    );
    headers.push(
        HeaderField(
            String::from_str("Permissions-Policy"),
            String::from_str("geolocation=(self)"),
        ),
    );
    headers.push(
        HeaderField(
            String::from_str("Strict-Transport-Security"),
            String::from_str("max-age=63072000"),
        ),
    );
    headers.push(HeaderField(String::from_str("X-Frame-Options"), String::from_str("DENY")));
    headers.push(
        HeaderField(String::from_str("X-Content-Type-Options"), String::from_str("nosniff")),
    );
    assert(fields(headers@) =~= kept_headers());
    Response { status_code: raw.status_code, headers, data: raw.data }
}

} // verus!
