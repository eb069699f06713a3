//! A BLE client that keeps several devices connected at once, each under its address.
//!
//! The library holds the state and takes the decisions; it never touches the adapter itself.
//! See [`step`] for how its operations are run, [`handler`] for the state, and [`laws`] for
//! what holds of all of it. What each kind of operation asks for and comes to is stated in
//! [`connect_laws`], [`disconnect_laws`], [`services_laws`], [`gatt_laws`] and [`scan_laws`], and
//! what the state says in [`state_laws`].

pub mod adapter;
pub mod address_map;
pub mod callbacks;
pub mod commands;
pub mod connect;
pub mod connect_device;
pub mod connect_laws;
pub mod connection;
pub mod disconnect;
pub mod disconnect_laws;
pub mod error;
pub mod event;
pub mod filter;
pub mod gatt;
pub mod gatt_laws;
pub mod handler;
pub mod history;
pub mod laws;
pub mod models;
pub mod resolve;
pub mod scan;
pub mod scan_laws;
pub mod services;
pub mod services_laws;
pub mod state_laws;
pub mod step;
pub mod text;
