//! Core logic of a decentralized geographic-archive node: it plans the
//! extraction of per-locality tile archives, queues and accounts for uploads
//! into a content-addressed storage network, records the mapping from
//! locality to content id, and plans byte-range responses and paginated
//! listings for the serving side.
//!
//! The surrounding process (file system walks, the database connection, the
//! storage node, the network listeners) lives outside this crate and hands
//! these functions plain values.

pub mod cid_store;
pub mod cli;
pub mod cmd;
pub mod country;
pub mod extraction;
pub mod lifecycle;
pub mod locality;
pub mod paging;
pub mod pipeline;
pub mod range;
pub mod report;
pub mod response;
pub mod storage;
pub mod text;
pub mod transport;
