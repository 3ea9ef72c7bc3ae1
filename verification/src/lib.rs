//! Verified core of a Discord music and moderation bot.
pub mod text;
pub mod clock;
pub mod music_queue;
pub mod music_manager;
pub mod search_cache;
pub mod private_voice_registry;
pub mod temp_voice;
pub mod access_control;
pub mod commands;
pub mod playback;
pub mod milisecond_calculator;
pub mod music_search;
pub mod lavalink;
pub mod guild_settings;
pub mod config_view;
pub mod moderation;
pub mod startup;
pub mod ytdlp;
