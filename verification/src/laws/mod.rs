//! What the operations of the library are for, stated over what goes in and what comes out.

pub mod admission;
pub mod agents;
pub mod complaints;
pub mod create;
pub mod cron;
pub mod daemon;
pub mod edits;
pub mod fields;
pub mod files;
pub mod groups;
pub mod hosts;
pub mod keys;
pub mod ledger;
pub mod numbers;
pub mod options;
pub mod padding;
pub mod plugins;
pub mod projects;
pub mod reach;
pub mod requests;
pub mod rpc;
pub mod sections;
pub mod serve;
pub mod sessions;
pub mod sql;
pub mod tabs;
pub mod turns;
pub mod values;
pub mod words;
