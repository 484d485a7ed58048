use vstd::prelude::*;

pub mod bundle;
pub mod codec;
pub mod credential;
pub mod crypto;
pub mod ec_signer;
pub mod extension;
pub mod external_client;
pub mod framing;
pub mod group;
pub mod hash_reference;
pub mod key_package;
pub mod lifetime;
pub mod message;
pub mod proposal;
pub mod psk;
pub mod time;
pub mod transcript;
pub mod tree;
pub mod tree_math;
pub mod treekem;
