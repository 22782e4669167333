//! Routing of athlete registrations: a request names a discipline, and the
//! discipline decides which gRPC service registers the athlete.  The answer
//! to the HTTP client is built from what that service replied.

use vstd::prelude::*;
use vstd::string::StringExecFns;

verus! {

/// The body of an HTTP registration request.
pub struct HttpAthleteRequest {
    pub student: String,
    pub age: i64,
    pub faculty: String,
    pub discipline: i64,
}

/// The disciplines that have a registration service.
#[derive(PartialEq, Eq, Structural, Debug, Clone, Copy)]
pub enum Discipline {
    Swim,
    Run,
    Boxing,
}

/// The discipline that a request's code names: 1 swimming, 2 running,
/// 3 boxing; no other code names one.
pub open spec fn discipline_for(code: i64) -> Option<Discipline> {
    if code == 1 {
        Some(Discipline::Swim)
    } else if code == 2 {
        Some(Discipline::Run)
    } else if code == 3 {
        Some(Discipline::Boxing)
    } else {
        None
    }
}

/// The discipline that `code` names, if any.
pub fn discipline_of(code: i64) -> (d: Option<Discipline>)
    ensures
        d == discipline_for(code),
{
    if code == 1 {
        Some(Discipline::Swim)
    } else if code == 2 {
        Some(Discipline::Run)
    } else if code == 3 {
        Some(Discipline::Boxing)
    } else {
        None
    }
}

/// The address of the gRPC service of a discipline.
pub open spec fn endpoint_text(d: Discipline) -> Seq<char> {
    match d {
        Discipline::Swim => "http://go-service-swim:3001"@,
        Discipline::Run => "http://go-service-run:3002"@,
        Discipline::Boxing => "http://go-service-box:3003"@,
    }
}

/// What a failed connection is reported with, before the error's text.  The
/// boxing service shares the running service's wording.
pub open spec fn connect_failure_prefix(d: Discipline) -> Seq<char> {
    match d {
        Discipline::Swim => "Failed to connect to gRPC server Swim: "@,
        Discipline::Run => "Failed to connect to gRPC server Run: "@,
        Discipline::Boxing => "Failed to connect to gRPC server Run: "@,
    }
}

/// What a failed request is reported with, before the error's text.  The
/// boxing service shares the running service's wording.
pub open spec fn send_failure_prefix(d: Discipline) -> Seq<char> {
    match d {
        Discipline::Swim => "Error sending request to gRPC server 1: "@,
        Discipline::Run => "Error sending request to gRPC server 2: "@,
        Discipline::Boxing => "Error sending request to gRPC server 2: "@,
    }
}

/// The address of the gRPC service of `d`.
pub fn endpoint(d: Discipline) -> (url: String)
    ensures
        url@ == endpoint_text(d),
{
    match d {
        Discipline::Swim => String::from_str("http://go-service-swim:3001"),
        Discipline::Run => String::from_str("http://go-service-run:3002"),
        Discipline::Boxing => String::from_str("http://go-service-box:3003"),
    }
}

/// How a call to a registration service ended.
pub enum CallEvent {
    /// The connection could not be made; the error's text.
    ConnectFailed(String),
    /// The request failed; the error's text.
    SendFailed(String),
    /// The service registered the athlete and replied with this student name.
    Replied(String),
}

/// The result of a call: the replied student name, or the error message.
pub open spec fn call_result_spec(d: Discipline, event: CallEvent) -> Result<Seq<char>, Seq<char>> {
    match event {
        CallEvent::ConnectFailed(e) => Err(connect_failure_prefix(d) + e@),
        CallEvent::SendFailed(e) => Err(send_failure_prefix(d) + e@),
        CallEvent::Replied(s) => Ok(s@),
    }
}

/// Views of a result of strings.
pub open spec fn result_view(r: Result<String, String>) -> Result<Seq<char>, Seq<char>> {
    match r {
        Ok(s) => Ok(s@),
        Err(e) => Err(e@),
    }
}

/// The result of a call to the service of `d` that ended with `event`.
pub fn call_result(d: Discipline, event: CallEvent) -> (r: Result<String, String>)
    ensures
        result_view(r) == call_result_spec(d, event),
        event is Replied ==> r is Ok && r->Ok_0@ == event->Replied_0@,
        event is ConnectFailed ==> r is Err,
        event is SendFailed ==> r is Err,
{
    match event {
        CallEvent::ConnectFailed(e) => {
            let mut msg = match d {
                Discipline::Swim => String::from_str("Failed to connect to gRPC server Swim: "),
                Discipline::Run => String::from_str("Failed to connect to gRPC server Run: "),
                Discipline::Boxing => String::from_str("Failed to connect to gRPC server Run: "),
            };
            msg.append(e.as_str());
            Err(msg)
        },
        CallEvent::SendFailed(e) => {
            let mut msg = match d {
                Discipline::Swim => String::from_str("Error sending request to gRPC server 1: "),
                Discipline::Run => String::from_str("Error sending request to gRPC server 2: "),
                Discipline::Boxing => String::from_str("Error sending request to gRPC server 2: "),
            };
            msg.append(e.as_str());
            Err(msg)
        },
        CallEvent::Replied(s) => Ok(s),
    }
}

/// The page that answers the HTTP client.
pub open spec fn response_text(r: Result<Seq<char>, Seq<char>>) -> Seq<char> {
    match r {
        Ok(s) => "gRPC response: "@ + s,
        Err(e) => "Error: "@ + e,
    }
}

/// The page for a result: the reply after `gRPC response: `, or the error
/// after `Error: `.
pub fn render_response(r: Result<String, String>) -> (page: String)
    ensures
        page@ == response_text(result_view(r)),
{
    match r {
        Ok(s) => {
            let mut page = String::from_str("gRPC response: ");
            page.append(s.as_str());
            page
        },
        Err(e) => {
            let mut page = String::from_str("Error: ");
            page.append(e.as_str());
            page
        },
    }
}

/// The first decision on a registration: call a service, or answer at once.
pub enum Dispatch {
    /// Register through the service of this discipline.
    Call(Discipline),
    /// Answer the client with this page without calling any service.
    Answer(String),
}

/// Decides what to do with a registration request: call the service of its
/// discipline, or, when its code names none, answer
/// `Error: Invalid discipline`.
pub fn dispatch_athlete(req: &HttpAthleteRequest) -> (d: Dispatch)
    ensures
        match discipline_for(req.discipline) {
            Some(disc) => d == Dispatch::Call(disc),
            None => d matches Dispatch::Answer(page) && page@ == response_text(
                Err("Invalid discipline"@),
            ),
        },
{
    match discipline_of(req.discipline) {
        Some(disc) => Dispatch::Call(disc),
        None => {
            let r: Result<String, String> = Err(String::from_str("Invalid discipline"));
            Dispatch::Answer(render_response(r))
        },
    }
}

/// The page for a registration whose call to the service of `d` ended with
/// `event`.
pub fn answer_after_call(d: Discipline, event: CallEvent) -> (page: String)
    ensures
        page@ == response_text(call_result_spec(d, event)),
        event is Replied ==> page@ == "gRPC response: "@ + event->Replied_0@,
{
    render_response(call_result(d, event))
}

/// The HTTP methods that the server answers.
#[derive(PartialEq, Eq, Structural, Debug, Clone, Copy)]
pub enum HttpMethod {
    Post,
}

/// The handlers that the server has.
#[derive(PartialEq, Eq, Structural, Debug, Clone, Copy)]
pub enum Handler {
    /// Registers an athlete: `dispatch_athlete`, the call, `answer_after_call`.
    CreateAthlete,
}

/// One route: requests with this method, path and body format go to the
/// handler.
pub struct Route {
    pub method: HttpMethod,
    pub path: String,
    pub format: String,
    pub handler: Handler,
}

/// Routes mounted under a base path.
pub struct Mount {
    pub base: String,
    pub routes: Vec<Route>,
}

/// The routes that the HTTP server is built with.
pub struct ServerPlan {
    pub mounts: Vec<Mount>,
}

/// The server's routing: one mount at `/` holding one route, `POST /` with a
/// JSON body, handled by the registration handler.
pub fn rocket() -> (plan: ServerPlan)
    ensures
        plan.mounts@.len() == 1,
        plan.mounts@[0].base@ == "/"@,
        plan.mounts@[0].routes@.len() == 1,
        plan.mounts@[0].routes@[0].method == HttpMethod::Post,
        plan.mounts@[0].routes@[0].path@ == "/"@,
        plan.mounts@[0].routes@[0].format@ == "json"@,
        plan.mounts@[0].routes@[0].handler == Handler::CreateAthlete,
{
    let route = Route {
        method: HttpMethod::Post,
        path: String::from_str("/"),
        format: String::from_str("json"),
        handler: Handler::CreateAthlete,
    };
    let mut routes: Vec<Route> = Vec::new();
    routes.push(route);
    let mut mounts: Vec<Mount> = Vec::new();
    mounts.push(Mount { base: String::from_str("/"), routes });
    ServerPlan { mounts }
}

/// A reply is handed on as it came, whichever service gave it: the result
/// that a call's contract fixes for a reply is that reply, and the page is
/// `gRPC response: ` followed by it.
pub proof fn lemma_reply_passes_through(d: Discipline, event: CallEvent)
    requires
        event is Replied,
    ensures
        call_result_spec(d, event) == Ok::<Seq<char>, Seq<char>>(event->Replied_0@),
        response_text(call_result_spec(d, event)) == "gRPC response: "@ + event->Replied_0@,
{
}

/// A failed call is never answered as a success, whichever service it was.
pub proof fn lemma_failures_are_errors(d: Discipline, event: CallEvent)
    requires
        !(event is Replied),
    ensures
        call_result_spec(d, event) is Err,
{
}

} // verus!
