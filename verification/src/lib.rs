//! Verified core of a GitHub access accelerator: domain classification, address
//! scanning and choice, DNS answers, the local proxy, PAC generation, traffic
//! accounting, the control protocol, and the desktop front end's decisions.

pub mod text;
pub mod domains;
pub mod pac;
pub mod config;
pub mod history;
pub mod clock;
pub mod traffic_stats;
pub mod process_filter;
pub mod github_traffic_monitor;
pub mod scanner;
pub mod dns_server;
pub mod http_proxy;
pub mod ipc;
pub mod client;
pub mod gui;
pub mod system_proxy;
pub mod process_traffic_filter;
pub mod simple_network_monitor;
