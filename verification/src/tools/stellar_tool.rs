//! The Stellar tool: connects, sends and receives over a protocol that the
//! caller supplies, and says which step failed.

use crate::text::join2;
use vstd::prelude::*;

verus! {

/// A connection that speaks the Stellar protocol. What it answers is its own
/// business.
pub trait StellarProtocol {
    fn connect(&self) -> Result<(), String>;

    fn send_data(&self, data: Vec<u8>) -> Result<(), String>;

    fn receive_data(&self) -> Result<Vec<u8>, String>;
}

/// The step of an operation.
pub enum Step {
    Connect,
    Send,
    Receive,
}

/// How the failure of a step is reported: the step's name in words, then
/// the reason.
pub open spec fn failure_message(step: Step, reason: Seq<char>) -> Seq<char> {
    match step {
        Step::Connect => "Failed to connect: "@ + reason,
        Step::Send => "Failed to send data: "@ + reason,
        Step::Receive => "Failed to receive data: "@ + reason,
    }
}

/// Reports the failure of a step.
pub fn report_failure(step: Step, reason: &str) -> (message: String)
    ensures
        message@ == failure_message(step, reason@),
{
    match step {
        Step::Connect => join2("Failed to connect: ", reason),
        Step::Send => join2("Failed to send data: ", reason),
        Step::Receive => join2("Failed to receive data: ", reason),
    }
}

/// What a step answered, with the reason of a failure as plain text.
pub open spec fn answer_view(answer: Result<(), String>) -> Result<(), Seq<char>> {
    match answer {
        Ok(()) => Ok(()),
        Err(reason) => Err(reason@),
    }
}

/// What an operation has come to once a step has answered. A step that
/// fails ends the operation with the report of its failure. The last step,
/// where it succeeds, ends the operation with success. After any other step
/// that succeeds the operation goes on.
pub open spec fn after_step(step: Step, answer: Result<(), Seq<char>>) -> Option<
    Result<(), Seq<char>>,
> {
    match answer {
        Err(reason) => Some(Err(failure_message(step, reason))),
        Ok(()) => match step {
            Step::Receive => Some(Ok(())),
            _ => None,
        },
    }
}

/// What an operation comes to, given what its three steps answer: the steps
/// are taken in order, and the first that ends the operation decides. What
/// a step that is never reached would have answered makes no difference.
pub open spec fn operation_outcome(
    connected: Result<(), Seq<char>>,
    sent: Result<(), Seq<char>>,
    received: Result<(), Seq<char>>,
) -> Result<(), Seq<char>> {
    match after_step(Step::Connect, connected) {
        Some(outcome) => outcome,
        None => match after_step(Step::Send, sent) {
            Some(outcome) => outcome,
            None => match after_step(Step::Receive, received) {
                Some(outcome) => outcome,
                None => Ok(()),
            },
        },
    }
}

/// Says what an operation has come to once a step has answered: its outcome,
/// or nothing where it goes on.
pub fn conclude_step(step: Step, answer: Result<(), String>) -> (r: Option<Result<(), String>>)
    ensures
        match after_step(step, answer_view(answer)) {
            Some(outcome) => r matches Some(found) && answer_view(found) == outcome,
            None => r is None,
        },
{
    match answer {
        Err(reason) => Some(Err(report_failure(step, reason.as_str()))),
        Ok(()) => match step {
            Step::Receive => Some(Ok(())),
            _ => None,
        },
    }
}

/// What a Stellar tool offers.
pub trait StellarTool<P: StellarProtocol>: Sized {
    /// The connection that the tool works over.
    spec fn connection(&self) -> P;

    /// A tool that works over `stellar_protocol`.
    fn new(stellar_protocol: P) -> (tool: Self)
        ensures
            tool.connection() == stellar_protocol,
    ;

    /// Runs an operation: connects, sends `data`, receives the answer. The
    /// first step that fails ends the operation, and its failure is
    /// reported under the step's name. What the steps answer is up to the
    /// connection; the result is what those answers come to.
    fn perform_stellar_operation(&self, data: Vec<u8>) -> (r: Result<(), String>)
        ensures
            exists|
                connected: Result<(), Seq<char>>,
                sent: Result<(), Seq<char>>,
                received: Result<(), Seq<char>>,
            |
                answer_view(r) == #[trigger] operation_outcome(connected, sent, received),
    ;
}

/// The tool: the connection it works over.
pub struct StellarToolImpl<P: StellarProtocol> {
    stellar_protocol: P,
}

impl<P: StellarProtocol> StellarToolImpl<P> {
    /// A tool that works over `stellar_protocol`.
    pub fn new(stellar_protocol: P) -> (tool: Self)
        ensures
            tool.connection() == stellar_protocol,
    {
        StellarToolImpl { stellar_protocol }
    }
}

impl<P: StellarProtocol> StellarTool<P> for StellarToolImpl<P> {
    closed spec fn connection(&self) -> P {
        self.stellar_protocol
    }

    fn new(stellar_protocol: P) -> (tool: Self) {
        StellarToolImpl { stellar_protocol }
    }

    fn perform_stellar_operation(&self, data: Vec<u8>) -> (r: Result<(), String>) {
        let connected = self.stellar_protocol.connect();
        let ghost c = answer_view(connected);
        match conclude_step(Step::Connect, connected) {
            Some(outcome) => {
                assert(answer_view(outcome) == operation_outcome(c, Ok(()), Ok(())));
                return outcome;
            },
            None => {},
        }
        let sent = self.stellar_protocol.send_data(data);
        let ghost s = answer_view(sent);
        match conclude_step(Step::Send, sent) {
            Some(outcome) => {
                assert(answer_view(outcome) == operation_outcome(c, s, Ok(())));
                return outcome;
            },
            None => {},
        }
        let received = match self.stellar_protocol.receive_data() {
            Ok(_) => Ok(()),
            Err(reason) => Err(reason),
        };
        let ghost v = answer_view(received);
        match conclude_step(Step::Receive, received) {
            Some(outcome) => {
                assert(answer_view(outcome) == operation_outcome(c, s, v));
                outcome
            },
            None => {
                assert(answer_view(Ok::<(), String>(())) == operation_outcome(c, s, v));
                Ok(())
            },
        }
    }
}

} // verus!
