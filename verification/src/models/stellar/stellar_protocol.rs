//! A model of the Stellar protocol that keeps the bytes of every transaction it has
//! processed, in order.

use vstd::prelude::*;

verus! {

/// What a model of the Stellar protocol offers.
pub trait StellarProtocol: Sized {
    /// The data that the model holds.
    spec fn data(&self) -> Seq<u8>;

    /// A model that holds no data.
    fn new() -> (model: Self)
        ensures
            model.data() == Seq::<u8>::empty(),
    ;

    /// A copy of the data that the model holds.
    fn get_stellar_data(&self) -> (data: Vec<u8>)
        ensures
            data@ == self.data(),
    ;

    /// Processes a transaction: an empty one is refused and changes nothing,
    /// any other is appended to the data.
    fn process_stellar_transaction(&mut self, transaction: Vec<u8>) -> (r: Result<(), String>)
        ensures
            transaction@.len() == 0 ==> {
                &&& r matches Err(e)
                &&& e@ == "Transaction data cannot be empty."@
                &&& final(self).data() == old(self).data()
            },
            transaction@.len() != 0 ==> {
                &&& r is Ok
                &&& final(self).data() == old(self).data() + transaction@
            },
    ;
}

/// The model: the data it holds.
pub struct StellarProtocolImpl {
    stellar_data: Vec<u8>,
}

impl StellarProtocolImpl {
    /// A model that holds no data.
    pub fn new() -> (model: Self)
        ensures
            model.data() == Seq::<u8>::empty(),
    {
        StellarProtocolImpl { stellar_data: Vec::new() }
    }

    /// Appends `data` to what the model holds.
    pub fn add_stellar_data(&mut self, data: Vec<u8>)
        ensures
            final(self).data() == old(self).data() + data@,
    {
        let mut data = data;
        self.stellar_data.append(&mut data);
    }
}

impl StellarProtocol for StellarProtocolImpl {
    closed spec fn data(&self) -> Seq<u8> {
        self.stellar_data@
    }

    fn new() -> (model: Self) {
        StellarProtocolImpl { stellar_data: Vec::new() }
    }

    fn get_stellar_data(&self) -> (data: Vec<u8>) {
        self.stellar_data.clone()
    }

    fn process_stellar_transaction(&mut self, transaction: Vec<u8>) -> (r: Result<(), String>) {
        if transaction.len() == 0 {
            return Err("Transaction data cannot be empty.".to_string());
        }
        self.add_stellar_data(transaction);
        Ok(())
    }
}

} // verus!
