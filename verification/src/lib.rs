pub mod broker;
pub mod catalog;
pub mod clock;
pub mod collate;
pub mod command;
pub mod decimal;
pub mod fixture;
pub mod governor;
pub mod graph;
pub mod ids;
pub mod mcp;
pub mod order;
pub mod platform;
pub mod provider;
pub mod search;
pub mod selection;
pub mod sorting;
pub mod table;
pub mod text;
pub mod transport;
pub mod windows;
