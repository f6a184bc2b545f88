use vstd::prelude::*;

pub mod records;
pub mod text;
pub mod json;
pub mod encoding;
pub mod tracker;
pub mod vault;
pub mod numbers;
pub mod sharing;
pub mod security;
pub mod wire;
pub mod grants;
pub mod proxy;
pub mod lending;
pub mod identity;
pub mod messages;
pub mod inbound;
pub mod ledger;
pub mod settings;
pub mod node;

verus! {

} // verus!
