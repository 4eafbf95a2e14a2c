pub mod base58;
pub mod digits;
pub mod matching;
pub mod things_id;
