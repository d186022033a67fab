//! The rules of a game server for a classic fantasy MMO: characters,
//! items, guilds, quests, trading, NPC scripts and the byte layouts the
//! client reads, each stated and proved.

// Shared text, number and collection helpers.
pub mod text;
pub mod scan;
pub mod maps;
pub mod wire;
pub mod chance;

// Characters, accounts and the world they stand in.
pub mod world;
pub mod account;
pub mod stat_events;
pub mod spawn;
pub mod teleport;
pub mod session_rules;
pub mod visibility;
pub mod logging;

// Items and what can be done with them.
pub mod item;
pub mod awakening;
pub mod refining;
pub mod item_rental;
pub mod auction;
pub mod trade_rules;

// Fighting and fishing.
pub mod combat;
pub mod fishing;

// Social systems.
pub mod guild;
pub mod guild_features;
pub mod conquest;
pub mod marriage;
pub mod mentor;
pub mod ranking;

// Quests and NPC scripts.
pub mod quest;
pub mod quest_text;
pub mod npc_script;
pub mod npc_text;
pub mod npc_actions;
pub mod npc_pages;
pub mod npc_call;
