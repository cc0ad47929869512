//! Service dispatch rules: the operation caps of batch services, service faults, and
//! the Call service's response.
use vstd::prelude::*;
use crate::node_id::NodeId;
use crate::variant::Variant;
use crate::status::StatusCode;

verus! {

/// The most methods one Call request may ask for.
pub const MAX_METHOD_CALLS: usize = 100;

/// Whether a batch of `n` operations (`None`: no array at all) may run under `cap`.
pub open spec fn batch_check(n: Option<nat>, cap: nat) -> Result<(), StatusCode> {
    match n {
        None => Err(StatusCode::BadNothingToDo),
        Some(k) => if k == 0 {
            Err(StatusCode::BadNothingToDo)
        } else if k > cap {
            Err(StatusCode::BadTooManyOperations)
        } else {
            Ok(())
        },
    }
}

/// An empty batch is `BadNothingToDo`; more than `cap` operations is
/// `BadTooManyOperations`; either fault comes before any operation runs.
pub fn check_batch(n: Option<usize>, cap: usize) -> (r: Result<(), StatusCode>)
    ensures
        r == batch_check(
            match n {
                Some(k) => Some(k as nat),
                None => None,
            },
            cap as nat,
        ),
{
    match n {
        None => Err(StatusCode::BadNothingToDo),
        Some(k) => if k == 0 {
            Err(StatusCode::BadNothingToDo)
        } else if k > cap {
            Err(StatusCode::BadTooManyOperations)
        } else {
            Ok(())
        },
    }
}

/// The header of a response: the request it answers and the service result.
#[derive(Debug, Clone, Copy, PartialEq, Eq, Structural)]
pub struct ResponseHeader {
    pub request_handle: u32,
    pub service_result: StatusCode,
}

/// One method to call: the object, the method, and its input arguments.
#[derive(Debug, Clone, PartialEq, Eq)]
pub struct CallMethodRequest {
    pub object_id: NodeId,
    pub method_id: NodeId,
    pub input_arguments: Option<Vec<Variant>>,
}

/// A Call request.
#[derive(Debug, Clone, PartialEq, Eq)]
pub struct CallRequest {
    pub request_handle: u32,
    pub methods_to_call: Option<Vec<CallMethodRequest>>,
}

/// The outcome of one method call.
#[derive(Debug, Clone, PartialEq, Eq)]
pub struct CallMethodResult {
    pub status_code: StatusCode,
    pub input_argument_results: Option<Vec<StatusCode>>,
    pub output_arguments: Option<Vec<Variant>>,
}

/// A Call response: one result per method, in the order asked.
#[derive(Debug, Clone, PartialEq, Eq)]
pub struct CallResponse {
    pub response_header: ResponseHeader,
    pub results: Option<Vec<CallMethodResult>>,
}

/// A service fault: the request's header with the service result set, and no payload.
#[derive(Debug, Clone, Copy, PartialEq, Eq, Structural)]
pub struct ServiceFault {
    pub response_header: ResponseHeader,
}

/// The responses that the dispatcher produces.
#[derive(Debug, Clone, PartialEq, Eq)]
pub enum SupportedMessage {
    CallResponse(CallResponse),
    ServiceFault(ServiceFault),
}

/// The result that stands for a failed call.
pub open spec fn result_for(outcome: Result<CallMethodResult, StatusCode>) -> CallMethodResult {
    match outcome {
        Ok(r) => r,
        Err(code) => CallMethodResult {
            status_code: code,
            input_argument_results: None,
            output_arguments: None,
        },
    }
}

/// A fault answering the request `request_handle` with `code`.
pub fn service_fault(request_handle: u32, code: StatusCode) -> (r: SupportedMessage)
    ensures
        r == SupportedMessage::ServiceFault(
            ServiceFault { response_header: ResponseHeader { request_handle, service_result: code } },
        ),
{
    SupportedMessage::ServiceFault(
        ServiceFault { response_header: ResponseHeader { request_handle, service_result: code } },
    )
}

/// The methods a request asks for, when the cap admits them.
pub open spec fn admitted(request: &CallRequest) -> Option<nat> {
    match request.methods_to_call {
        Some(calls) => if batch_check(Some(calls@.len()), MAX_METHOD_CALLS as nat) is Ok {
            Some(calls@.len())
        } else {
            None
        },
        None => None,
    }
}

/// The fault that answers a request before any method runs, if one does.
pub open spec fn call_fault(request: &CallRequest) -> Option<StatusCode> {
    match request.methods_to_call {
        None => Some(StatusCode::BadNothingToDo),
        Some(calls) => match batch_check(Some(calls@.len()), MAX_METHOD_CALLS as nat) {
            Err(e) => Some(e),
            Ok(_) => None,
        },
    }
}

/// One outcome per admitted method.
pub open spec fn outcomes_fit(request: &CallRequest, n: nat) -> bool {
    admitted(request) matches Some(k) ==> n == k
}

/// The answer to a request: its fault, or one result per outcome, in order.
pub open spec fn call_answers(
    request: &CallRequest,
    outcomes: Seq<Result<CallMethodResult, StatusCode>>,
    r: SupportedMessage,
) -> bool {
    match call_fault(request) {
        Some(e) => r == SupportedMessage::ServiceFault(
            ServiceFault {
                response_header: ResponseHeader {
                    request_handle: request.request_handle,
                    service_result: e,
                },
            },
        ),
        None => match r {
            SupportedMessage::CallResponse(resp) => {
                &&& resp.response_header == ResponseHeader {
                    request_handle: request.request_handle,
                    service_result: StatusCode::Good,
                }
                &&& resp.results matches Some(results)
                &&& results@.len() == outcomes.len()
                &&& forall|i: int|
                    0 <= i < results@.len() ==> #[trigger] results@[i] == result_for(outcomes[i])
            },
            _ => false,
        },
    }
}

/// Dispatches the Call service.
pub struct MethodService {}

impl MethodService {
    pub fn new() -> (r: MethodService) {
        MethodService {  }
    }

    /// The number of methods a request asks for, or the fault that answers it before
    /// any method is called.
    pub fn validate(&self, request: &CallRequest) -> (r: Result<usize, StatusCode>)
        ensures
            match request.methods_to_call {
                None => r == Err::<usize, StatusCode>(StatusCode::BadNothingToDo),
                Some(calls) => match batch_check(Some(calls@.len()), MAX_METHOD_CALLS as nat) {
                    Ok(_) => r == Ok::<usize, StatusCode>(calls@.len() as usize),
                    Err(e) => r == Err::<usize, StatusCode>(e),
                },
            },
    {
        match &request.methods_to_call {
            None => Err(StatusCode::BadNothingToDo),
            Some(calls) => match check_batch(Some(calls.len()), MAX_METHOD_CALLS) {
                Ok(()) => Ok(calls.len()),
                Err(e) => Err(e),
            },
        }
    }

    /// Answers a Call request. When the batch is empty or too large the answer is a
    /// service fault; otherwise `outcomes` holds what each method call gave, in the
    /// request's order, and the response carries one result for each, a failed call
    /// becoming a result with its status code.
    pub fn call(
        &self,
        request: &CallRequest,
        outcomes: Vec<Result<CallMethodResult, StatusCode>>,
    ) -> (r: SupportedMessage)
        requires
            outcomes_fit(request, outcomes@.len()),
        ensures
            call_answers(request, outcomes@, r),
    {
        match self.validate(request) {
            Err(e) => service_fault(request.request_handle, e),
            Ok(_) => {
                let results = collect_results(outcomes);
                SupportedMessage::CallResponse(
                    CallResponse {
                        response_header: ResponseHeader {
                            request_handle: request.request_handle,
                            service_result: StatusCode::Good,
                        },
                        results: Some(results),
                    },
                )
            },
        }
    }
}

/// One result per outcome, in order.
pub fn collect_results(outcomes: Vec<Result<CallMethodResult, StatusCode>>) -> (r: Vec<
    CallMethodResult,
>)
    ensures
        r@.len() == outcomes@.len(),
        forall|i: int| 0 <= i < r@.len() ==> #[trigger] r@[i] == result_for(outcomes@[i]),
{
    let ghost orig = outcomes@;
    let mut rest = outcomes;
    let mut results: Vec<CallMethodResult> = Vec::new();
    while rest.len() > 0
        invariant
            results@.len() + rest@.len() == orig.len(),
            rest@ == orig.skip(results@.len() as int),
            forall|i: int| 0 <= i < results@.len() ==> #[trigger] results@[i] == result_for(orig[i]),
        decreases rest@.len(),
    {
        let ghost k = results@.len() as int;
        let outcome = rest.remove(0);
        assert(outcome == orig[k]);
        let result = match outcome {
            Ok(res) => res,
            Err(code) => CallMethodResult {
                status_code: code,
                input_argument_results: None,
                output_arguments: None,
            },
        };
        results.push(result);
        assert(rest@ =~= orig.skip(results@.len() as int));
    }
    results
}

/// Every batch that the cap admits gets exactly one result per operation, in order.
pub proof fn lemma_batch_results(
    outcomes: Seq<Result<CallMethodResult, StatusCode>>,
    results: Seq<CallMethodResult>,
)
    requires
        results.len() == outcomes.len(),
        forall|i: int| 0 <= i < results.len() ==> #[trigger] results[i] == result_for(outcomes[i]),
    ensures
        forall|i: int|
            0 <= i < outcomes.len() ==> (#[trigger] results[i]).status_code == match outcomes[i] {
                Ok(r) => r.status_code,
                Err(code) => code,
            },
{
}

} // verus!
