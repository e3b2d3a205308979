//! A model of the Stellar protocol that accepts every transaction and keeps nothing.

use vstd::prelude::*;

verus! {

/// What a model of the Stellar protocol offers.
pub trait StellarProtocol: Sized {
    /// The data that the model holds.
    spec fn data(&self) -> Seq<u8>;

    /// A model that holds no data.
    fn new() -> (model: Self)
        ensures
            model.data() == Seq::<u8>::empty(),
    ;

    /// A copy of the data that the model holds.
    fn get_stellar_data(&self) -> (data: Vec<u8>)
        ensures
            data@ == self.data(),
    ;

    /// Processes a transaction. Every transaction is accepted, and none
    /// changes the data.
    fn process_stellar_transaction(&mut self, transaction: Vec<u8>) -> (r: Result<(), String>)
        ensures
            r is Ok,
            final(self).data() == old(self).data(),
    ;
}

/// The model: the data it holds.
pub struct StellarProtocolImpl {
    stellar_data: Vec<u8>,
}

impl StellarProtocolImpl {
    /// A model that holds no data.
    pub fn new() -> (model: Self)
        ensures
            model.data() == Seq::<u8>::empty(),
    {
        StellarProtocolImpl { stellar_data: Vec::new() }
    }
}

impl StellarProtocol for StellarProtocolImpl {
    closed spec fn data(&self) -> Seq<u8> {
        self.stellar_data@
    }

    fn new() -> (model: Self) {
        StellarProtocolImpl { stellar_data: Vec::new() }
    }

    fn get_stellar_data(&self) -> (data: Vec<u8>) {
        self.stellar_data.clone()
    }

    fn process_stellar_transaction(&mut self, transaction: Vec<u8>) -> (r: Result<(), String>) {
        Ok(())
    }
}

} // verus!
