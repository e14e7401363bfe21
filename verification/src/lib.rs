//! couchcord — controller-driven Discord voice control + activity overlay.

pub mod assets;
pub mod config;
pub mod doctor;
pub mod error;
pub mod ids;
pub mod input;
pub mod json;
pub mod menu;
pub mod model;
pub mod msg;
pub mod protocol;
pub mod reactor;
pub mod render;
pub mod scene;
pub mod tenant;
pub mod text;

pub use ids::{AssetHash, ChannelId, ClientId, GuildId, UserId};
pub use model::{Anchor, Guild, VoiceChannel, VoiceKind, VoiceMember};
pub use msg::{DiscordCommand, DiscordEvent, DisconnectReason, InputControl, InputIntent, VoiceEvent};
pub use scene::{MenuView, Overlay, Roster, Row, RowState, Scene};
pub use config::{Config, ConfigSource, Theme};
pub use error::{ConfigError, InputError, RenderError, RpcError};
pub use menu::{MenuEngine, Step};
pub use assets::{AssetCache, AssetKind, ImageHandle};
pub use render::{anchor_rect, Frame};
pub use input::{intent_for_key, is_steam_virtual_keyboard, looks_like_keyboard, KeyName};
pub use tenant::Tenant;
