//! mtgbrain: the card-data logic behind a queryable Magic: The Gathering card
//! database and its cube editor, with the rules stated as contracts.

pub mod artists;
pub mod artpick;
pub mod cardface;
pub mod cardview;
pub mod colors;
pub mod config;
pub mod cubecobra;
pub mod cubelist;
pub mod digest;
pub mod downloads;
pub mod editor;
pub mod events;
pub mod faces;
pub mod frames;
pub mod html;
pub mod jsonread;
pub mod lists;
pub mod maybe;
pub mod names;
pub mod overrides;
pub mod query;
pub mod routes;
pub mod sources;
pub mod splitcard;
pub mod sql;
pub mod table;
pub mod text;
pub mod urls;
