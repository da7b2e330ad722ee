//! Decision logic of a paced, retrying HTTP client that feeds a price
//! oracle: the spacing of dispatches, the retry policy and the laws they
//! obey, and the text of the requests and statements the oracle sends.

pub mod assets;
pub mod pacing;
pub mod quotes;
pub mod retry;
pub mod text;
