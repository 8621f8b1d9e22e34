//! What holds of the library as a whole, said of inputs and results alone.

pub mod blocks;
pub mod documents;
pub mod misses;
pub mod replies;
pub mod retries;
pub mod selection;
pub mod texts;
pub mod votes;
