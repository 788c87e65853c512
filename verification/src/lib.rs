pub mod action;
pub mod config;
pub mod cycle;
pub mod dispatch;
pub mod facade;
pub mod handle;
pub mod item;
pub mod json;
pub mod rank;
pub mod remote;
pub mod reply;
pub mod schedule;
pub mod store;
pub mod text;
