//! Installing, upgrading and removing self-contained application bundles,
//! as transactions that never leave a bundle half installed.
//!
//! The crate decides; it does not act. A transaction is a state machine: it
//! hands out one [`effects::Action`] at a time, whoever runs it performs the
//! action on the file system and hands back an [`effects::Event`], and the
//! transaction says what comes next. What the machines do is stated exactly,
//! as functions from state and event to state and command, and proved of the
//! code. What that amounts to on the file system is stated over a model of
//! it, [`world`], and proved of every course of events the model admits: an
//! installation that fails leaves nothing behind, an installation never
//! touches what exists, and an upgrade that fails restores the bundle.

pub mod bundle;
pub mod cli;
pub mod desktop;
pub mod effects;
pub mod extract;
pub mod ids;
pub mod install;
pub mod install_laws;
pub mod layout;
pub mod layout_laws;
pub mod paths;
pub mod publish;
pub mod publish_laws;
pub mod sections;
pub mod text;
pub mod uninstall;
pub mod uninstall_laws;
pub mod upgrade;
pub mod upgrade_laws;
pub mod world;
