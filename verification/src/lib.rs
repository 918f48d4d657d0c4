//! Verified core of a menu-driven Discord bot: routing of component ids,
//! form records, skill dispatch, response descriptions and text helpers.

pub mod bot;
pub mod text;
pub mod route;
pub mod cache;
pub mod log;
pub mod screen;
pub mod input;
pub mod keyed;
pub mod collection;
pub mod skills;
pub mod schedule;
