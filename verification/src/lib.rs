//! Decision logic of a Telegram bot that fetches media.
pub mod chat;
pub mod concat;
pub mod cookies;
pub mod gather;
pub mod inline_query;
pub mod kind;
pub mod link;
pub mod media;
pub mod menu;
pub mod outside;
pub mod profile;
pub mod queue;
pub mod reels;
pub mod split;
pub mod text;
pub mod upload;
pub mod webdriver;
pub mod ytdlp;
