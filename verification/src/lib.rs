//! The decisions of JupaBot, a moderation and welcome bot for Fluxer guilds,
//! verified with Verus: reading commands and their arguments, the replies the
//! bot posts, moderation plans, welcome and greeting set-ups, CAPTCHA
//! challenges, and the calendar arithmetic behind its time stamps. The program
//! that talks to Fluxer and to the database performs what these functions decide.
pub mod text;
pub mod time;
pub mod ids;
pub mod duration;
pub mod embed;
pub mod help;
pub mod commands;
pub mod moderation;
pub mod external;
pub mod admin;
pub mod welcome;
pub mod greet;
pub mod captcha;
pub mod events;
pub mod records;
pub mod reactions;
