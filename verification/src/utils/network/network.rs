//! A stand-in network endpoint: it accepts whatever is sent and has nothing
//! to deliver.

use vstd::prelude::*;

verus! {

/// What a network endpoint offers.
pub trait NetworkUtils: Sized {
    /// The address of the endpoint.
    spec fn socket(&self) -> Seq<char>;

    fn new() -> (n: Self)
        ensures
            n.socket() == "localhost:8080"@,
    ;

    /// Sends `data`. The stand-in accepts everything.
    fn send_data(&self, data: Vec<u8>) -> (r: Result<(), String>)
        ensures
            r is Ok,
    ;

    /// Receives what has arrived. The stand-in never has anything.
    fn receive_data(&self) -> (data: Vec<u8>)
        ensures
            data@ == Seq::<u8>::empty(),
    ;
}

/// The stand-in endpoint: its address.
pub struct NetworkUtilsImpl {
    socket: String,
}

impl NetworkUtilsImpl {
    /// An endpoint at `localhost:8080`.
    pub fn new() -> (n: Self)
        ensures
            n.socket() == "localhost:8080"@,
    {
        NetworkUtilsImpl { socket: "localhost:8080".to_string() }
    }
}

impl NetworkUtils for NetworkUtilsImpl {
    closed spec fn socket(&self) -> Seq<char> {
        self.socket@
    }

    fn new() -> (n: Self) {
        NetworkUtilsImpl::new()
    }

    fn send_data(&self, data: Vec<u8>) -> (r: Result<(), String>) {
        Ok(())
    }

    fn receive_data(&self) -> (data: Vec<u8>) {
        Vec::new()
    }
}

} // verus!
