//! A terminal browser for Azure key vault secrets, container registry images
//! and the namespaces of Kubernetes clusters: everything it decides, with the
//! reading and the drawing left to the program around it.

pub mod app;
pub mod azure;
pub mod cache;
pub mod cli;
pub mod clipboard;
pub mod columns;
pub mod commands;
pub mod config;
pub mod filter;
pub mod input;
pub mod keeping;
pub mod kube;
pub mod order;
pub mod plain;
pub mod rules;
pub mod session;
pub mod snapshot;
pub mod store;
pub mod text;
pub mod timestamp;
pub mod worker;
