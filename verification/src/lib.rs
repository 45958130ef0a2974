pub mod config;
pub mod daemon;
pub mod env;
pub mod error;
pub mod fsm;
pub mod json;
pub mod net;
pub mod primary;
pub mod rpc;
pub mod secondary;
pub mod seqs;
pub mod storage;
pub mod table;
pub mod text;
pub mod time;
pub mod units;
pub mod util;
