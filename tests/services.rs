use opcua_server::node_id::NodeId;
use opcua_server::services::{
    check_batch, CallMethodRequest, CallMethodResult, CallRequest, MethodService, ResponseHeader,
    ServiceFault, SupportedMessage, MAX_METHOD_CALLS,
};
use opcua_server::status::StatusCode;

fn method(i: u32) -> CallMethodRequest {
    CallMethodRequest { object_id: NodeId::new_numeric(0, 85), method_id: NodeId::new_numeric(1, i), input_arguments: None }
}

fn fault(handle: u32, code: StatusCode) -> SupportedMessage {
    SupportedMessage::ServiceFault(ServiceFault { response_header: ResponseHeader { request_handle: handle, service_result: code } })
}

#[test]
fn empty_batch_is_nothing_to_do() {
    let s = MethodService::new();
    let r = CallRequest { request_handle: 4, methods_to_call: Some(vec![]) };
    assert_eq!(s.call(&r, vec![]), fault(4, StatusCode::BadNothingToDo));
    let r = CallRequest { request_handle: 5, methods_to_call: None };
    assert_eq!(s.call(&r, vec![]), fault(5, StatusCode::BadNothingToDo));
}

#[test]
fn too_many_methods() {
    let s = MethodService::new();
    let r = CallRequest { request_handle: 9, methods_to_call: Some((0..(MAX_METHOD_CALLS as u32 + 1)).map(method).collect()) };
    assert_eq!(s.validate(&r), Err(StatusCode::BadTooManyOperations));
    assert_eq!(s.call(&r, vec![]), fault(9, StatusCode::BadTooManyOperations));
}

#[test]
fn batch_results_in_order() {
    let s = MethodService::new();
    let r = CallRequest { request_handle: 1, methods_to_call: Some(vec![method(1), method(2), method(3)]) };
    assert_eq!(s.validate(&r), Ok(3));
    let ok = CallMethodResult { status_code: StatusCode::Good, input_argument_results: None, output_arguments: Some(vec![]) };
    let outcomes = vec![Ok(ok.clone()), Err(StatusCode::BadNodeIdUnknown), Ok(ok.clone())];
    match s.call(&r, outcomes) {
        SupportedMessage::CallResponse(resp) => {
            assert_eq!(resp.response_header.service_result, StatusCode::Good);
            let results = resp.results.unwrap();
            assert_eq!(results.len(), 3);
            assert_eq!(results[0], ok);
            assert_eq!(results[1].status_code, StatusCode::BadNodeIdUnknown);
            assert_eq!(results[1].output_arguments, None);
            assert_eq!(results[2], ok);
        }
        other => panic!("unexpected {:?}", other),
    }
}

#[test]
fn cap_is_inclusive() {
    assert_eq!(check_batch(Some(MAX_METHOD_CALLS), MAX_METHOD_CALLS), Ok(()));
    assert_eq!(check_batch(Some(MAX_METHOD_CALLS + 1), MAX_METHOD_CALLS), Err(StatusCode::BadTooManyOperations));
    assert_eq!(check_batch(Some(0), 5), Err(StatusCode::BadNothingToDo));
}
