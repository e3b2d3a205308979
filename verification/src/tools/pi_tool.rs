//! The Pi tool: checks the data, then connects, sends and receives over a
//! network that the caller supplies.

use crate::text::join2;
use vstd::prelude::*;

verus! {

/// A connection to the Pi network. What it answers is its own business.
pub trait PiNetwork {
    fn connect(&self) -> Result<(), String>;

    fn send_data(&self, data: Vec<u8>) -> Result<(), String>;

    fn receive_data(&self) -> Result<Vec<u8>, String>;
}

/// What a Pi tool offers.
pub trait PiTool<N: PiNetwork>: Sized {
    /// Whether an operation on `data` fails before the network is touched,
    /// and with what message.
    spec fn refusal(data: Seq<u8>) -> Option<Seq<char>>;

    /// The connection that the tool works over.
    spec fn connection(&self) -> N;

    /// A tool that works over `pi_network`.
    fn new(pi_network: N) -> (tool: Self)
        ensures
            tool.connection() == pi_network,
    ;

    /// Runs an operation: connects, sends `data`, receives the answer. Data
    /// that is refused never reaches the network. The first step that fails
    /// ends the operation with that step's error.
    fn perform_pi_operation(&self, data: Vec<u8>) -> (r: Result<(), String>)
        ensures
            Self::refusal(data@) matches Some(message) ==> (r matches Err(e) && e@ == message),
    ;

    fn validate_data(&self, data: &Vec<u8>) -> (r: Result<(), String>)
        ensures
            match Self::refusal(data@) {
                Some(message) => r matches Err(e) && e@ == message,
                None => r is Ok,
            },
    ;

    /// The line that records an operation.
    fn log_operation(&self, operation: &str) -> (line: String)
        ensures
            line@ == "Operation logged: "@ + operation@,
    ;
}

/// The tool: the connection it works over.
pub struct PiToolImpl<N: PiNetwork> {
    pi_network: N,
}

impl<N: PiNetwork> PiToolImpl<N> {
    /// A tool that works over `pi_network`.
    pub fn new(pi_network: N) -> (tool: Self)
        ensures
            tool.connection() == pi_network,
    {
        PiToolImpl { pi_network }
    }
}

impl<N: PiNetwork> PiTool<N> for PiToolImpl<N> {
    open spec fn refusal(data: Seq<u8>) -> Option<Seq<char>> {
        if data.len() == 0 {
            Some("Data cannot be empty."@)
        } else {
            None
        }
    }

    closed spec fn connection(&self) -> N {
        self.pi_network
    }

    fn new(pi_network: N) -> (tool: Self) {
        PiToolImpl { pi_network }
    }

    fn perform_pi_operation(&self, data: Vec<u8>) -> (r: Result<(), String>) {
        match self.validate_data(&data) {
            Err(e) => {
                return Err(e);
            },
            Ok(()) => {},
        }
        match self.pi_network.connect() {
            Err(e) => {
                return Err(e);
            },
            Ok(()) => {},
        }
        match self.pi_network.send_data(data) {
            Err(e) => {
                return Err(e);
            },
            Ok(()) => {},
        }
        match self.pi_network.receive_data() {
            Err(e) => Err(e),
            Ok(_) => Ok(()),
        }
    }

    fn validate_data(&self, data: &Vec<u8>) -> (r: Result<(), String>) {
        if data.len() == 0 {
            return Err("Data cannot be empty.".to_string());
        }
        Ok(())
    }

    fn log_operation(&self, operation: &str) -> (line: String) {
        join2("Operation logged: ", operation)
    }
}

} // verus!
