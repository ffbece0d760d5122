//! Selective decoding of the tagged binary documents of a game save.
//!
//! A document is a tree of named, typed values. A caller says with a
//! [`projection::Projection`] which parts it wants; [`select::select`]
//! walks the event stream of the bytes once and builds only those parts.
//! The typed readers then work on plain trees: [`player::PlayerMapIds`]
//! collects the numbers of the filled maps a player carries,
//! [`level::Level`] and [`map::MapFile`] read the records of a world and of
//! a map item. On the way, raw codes are held to closed enumerations
//! ([`scale`], [`dimension`], [`banner_color`]) and composite values are
//! rebuilt from sibling keys ([`fields`]).
//!
//! Every decode ends in a whole value or in one [`error::DecodeError`].

pub mod banner_color;
pub mod cursor;
pub mod dimension;
pub mod error;
pub mod fields;
pub mod grammar;
pub mod json;
pub mod level;
pub mod map;
pub mod player;
pub mod projection;
pub mod scale;
pub mod select;
pub mod tag;
pub mod text;
