//! What holds of the library as a whole, beyond what each operation says of itself.

pub mod blocks;
pub mod channels;
pub mod clients;
pub mod connections;
pub mod frames;
pub mod framing;
pub mod operations;
pub mod plain;
pub mod protocol;
pub mod reading;
pub mod requests;
pub mod writing;
