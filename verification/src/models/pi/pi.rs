//! A model of the Pi network that accepts every transaction and keeps nothing.

use vstd::prelude::*;

verus! {

/// What a model of the Pi network offers.
pub trait PiNetwork: Sized {
    /// The data that the model holds.
    spec fn data(&self) -> Seq<u8>;

    /// A model that holds no data.
    fn new() -> (model: Self)
        ensures
            model.data() == Seq::<u8>::empty(),
    ;

    /// A copy of the data that the model holds.
    fn get_pi_data(&self) -> (data: Vec<u8>)
        ensures
            data@ == self.data(),
    ;

    /// Processes a transaction. Every transaction is accepted, and none
    /// changes the data.
    fn process_pi_transaction(&mut self, transaction: Vec<u8>) -> (r: Result<(), String>)
        ensures
            r is Ok,
            final(self).data() == old(self).data(),
    ;
}

/// The model: the data it holds.
pub struct PiNetworkImpl {
    pi_data: Vec<u8>,
}

impl PiNetworkImpl {
    /// A model that holds no data.
    pub fn new() -> (model: Self)
        ensures
            model.data() == Seq::<u8>::empty(),
    {
        PiNetworkImpl { pi_data: Vec::new() }
    }
}

impl PiNetwork for PiNetworkImpl {
    closed spec fn data(&self) -> Seq<u8> {
        self.pi_data@
    }

    fn new() -> (model: Self) {
        PiNetworkImpl { pi_data: Vec::new() }
    }

    fn get_pi_data(&self) -> (data: Vec<u8>) {
        self.pi_data.clone()
    }

    fn process_pi_transaction(&mut self, transaction: Vec<u8>) -> (r: Result<(), String>) {
        Ok(())
    }
}

} // verus!
