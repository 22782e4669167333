use rust_module::athlete::{
    answer_after_call, call_result, discipline_of, dispatch_athlete, endpoint, render_response,
    rocket, CallEvent, Discipline, Dispatch, Handler, HttpAthleteRequest, HttpMethod,
};

fn request(discipline: i64) -> HttpAthleteRequest {
    HttpAthleteRequest {
        student: "Ana".to_string(),
        age: 21,
        faculty: "Ingenieria".to_string(),
        discipline,
    }
}

#[test]
fn codes_name_disciplines() {
    assert_eq!(discipline_of(1), Some(Discipline::Swim));
    assert_eq!(discipline_of(2), Some(Discipline::Run));
    assert_eq!(discipline_of(3), Some(Discipline::Boxing));
    assert_eq!(discipline_of(0), None);
    assert_eq!(discipline_of(4), None);
    assert_eq!(discipline_of(-1), None);
}

#[test]
fn each_discipline_has_its_service() {
    assert_eq!(endpoint(Discipline::Swim), "http://go-service-swim:3001");
    assert_eq!(endpoint(Discipline::Run), "http://go-service-run:3002");
    assert_eq!(endpoint(Discipline::Boxing), "http://go-service-box:3003");
}

#[test]
fn unknown_discipline_is_answered_at_once() {
    match dispatch_athlete(&request(7)) {
        Dispatch::Answer(page) => assert_eq!(page, "Error: Invalid discipline"),
        Dispatch::Call(_) => panic!("no service for code 7"),
    }
    match dispatch_athlete(&request(2)) {
        Dispatch::Call(d) => assert_eq!(d, Discipline::Run),
        Dispatch::Answer(_) => panic!("code 2 is running"),
    }
}

#[test]
fn call_outcomes_become_pages() {
    assert_eq!(
        answer_after_call(Discipline::Swim, CallEvent::Replied("Ana".to_string())),
        "gRPC response: Ana"
    );
    assert_eq!(
        answer_after_call(Discipline::Swim, CallEvent::ConnectFailed("refused".to_string())),
        "Error: Failed to connect to gRPC server Swim: refused"
    );
    assert_eq!(
        answer_after_call(Discipline::Boxing, CallEvent::ConnectFailed("x".to_string())),
        "Error: Failed to connect to gRPC server Run: x"
    );
    assert_eq!(
        answer_after_call(Discipline::Swim, CallEvent::SendFailed("down".to_string())),
        "Error: Error sending request to gRPC server 1: down"
    );
    assert_eq!(
        answer_after_call(Discipline::Run, CallEvent::SendFailed("down".to_string())),
        "Error: Error sending request to gRPC server 2: down"
    );
}

#[test]
fn results_and_pages() {
    assert_eq!(
        call_result(Discipline::Run, CallEvent::ConnectFailed("e".to_string())),
        Err("Failed to connect to gRPC server Run: e".to_string())
    );
    assert_eq!(call_result(Discipline::Run, CallEvent::Replied("Bo".to_string())), Ok("Bo".to_string()));
    assert_eq!(render_response(Ok("x".to_string())), "gRPC response: x");
    assert_eq!(render_response(Err("y".to_string())), "Error: y");
}

#[test]
fn server_routes() {
    let plan = rocket();
    assert_eq!(plan.mounts.len(), 1);
    assert_eq!(plan.mounts[0].base, "/");
    let r = &plan.mounts[0].routes;
    assert_eq!(r.len(), 1);
    assert_eq!(r[0].method, HttpMethod::Post);
    assert_eq!(r[0].path, "/");
    assert_eq!(r[0].format, "json");
    assert_eq!(r[0].handler, Handler::CreateAthlete);
}
