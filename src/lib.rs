//! Core of a live dashboard for virtualization hosts: the entity model, the
//! normalization of backend records, the refresh coordinator and the view
//! state with its key-driven controller.

pub mod text;
pub mod order;
pub mod sort;
pub mod models;
pub mod display;
pub mod app;
pub mod refresh;
pub mod controller;
pub mod proxmox;
pub mod config;
