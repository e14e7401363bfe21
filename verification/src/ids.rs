//! Strongly-typed identifiers. Newtypes so a `GuildId` can never be passed
//! where a `ChannelId` is expected.

use vstd::prelude::*;

verus! {

/// A Discord guild (server) snowflake.
#[derive(Clone, Copy, Debug, PartialEq, Eq, Hash, PartialOrd, Ord, Structural)]
pub struct GuildId(pub u64);

/// A Discord channel snowflake.
#[derive(Clone, Copy, Debug, PartialEq, Eq, Hash, PartialOrd, Ord, Structural)]
pub struct ChannelId(pub u64);

/// A Discord user snowflake.
#[derive(Clone, Copy, Debug, PartialEq, Eq, Hash, PartialOrd, Ord, Structural)]
pub struct UserId(pub u64);

/// The registered Discord *application* id (the OAuth client_id). Public,
/// non-secret. Used by the RPC handshake.
#[derive(Clone, Copy, Debug, PartialEq, Eq, Hash, Structural)]
pub struct ClientId(pub u64);

/// An opaque Discord CDN asset hash (guild icon / user avatar). Resolved to
/// image bytes by the asset pipeline; the menu and renderer treat it as opaque.
#[derive(Debug, PartialEq, Eq, Hash)]
pub struct AssetHash(pub String);

impl View for AssetHash {
    type V = Seq<char>;

    open spec fn view(&self) -> Seq<char> {
        self.0@
    }
}

impl Clone for AssetHash {
    fn clone(&self) -> (r: Self)
        ensures
            r == *self,
    {
        AssetHash(self.0.clone())
    }
}

impl AssetHash {
    pub fn as_str(&self) -> (s: &str)
        ensures
            s@ == self@,
    {
        self.0.as_str()
    }
}

} // verus!
