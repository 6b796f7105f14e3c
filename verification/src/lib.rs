//! Keeps private IPv6 /64 networks reachable under a delegated prefix that
//! changes over time: allocation of public subnets, the NAT rules that realise
//! a mapping, detection of a prefix change in a log line, and the bookkeeping
//! of a tailed log file.

pub mod action;
pub mod common;
pub mod gateway;
pub mod network;
pub mod rules;
pub mod run;
pub mod subnet;
pub mod watcher;
