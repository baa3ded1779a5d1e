pub mod block_store;
pub mod bytes;
pub mod chain;
pub mod chain_state;
pub mod codec;
pub mod dao_config;
pub mod hash;
pub mod storage;
pub mod types;
