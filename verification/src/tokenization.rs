//! Assets and the tokens issued on them.

pub mod tokenization;
