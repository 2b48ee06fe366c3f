//! A terminal client for a multiplexer of coding agents.

pub mod attachments;
pub mod base64;
pub mod carrying;
pub mod client;
pub mod commands;
pub mod conduct;
pub mod consent;
pub mod copying;
pub mod cursor;
pub mod daemon;
pub mod doctor;
pub mod emulator;
pub mod events;
pub mod frame;
pub mod geometry;
pub mod ids;
pub mod input;
pub mod journeys;
pub mod keys;
pub mod laws;
pub mod limits;
pub mod linking;
pub mod links;
pub mod listing;
pub mod looks;
pub mod manners;
pub mod mouse;
pub mod news;
pub mod order;
pub mod pane;
pub mod pane_laws;
pub mod particulars;
pub mod pointing;
pub mod ratio;
pub mod ratio_laws;
pub mod recency;
pub mod record;
pub mod render;
pub mod roster;
pub mod screens;
pub mod selection;
pub mod sidebar;
pub mod sidebar_laws;
pub mod soundness;
pub mod spatial;
pub mod state;
pub mod supply;
pub mod table;
pub mod text;
pub mod theme;
pub mod time;
pub mod traces;
pub mod viewing;
pub mod visits;
pub mod wire;
pub mod words;
pub mod workspace;
