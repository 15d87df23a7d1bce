//! Decision logic for provisioning and mounting a persistent storage volume.
//!
//! Nothing here touches the system. Each function takes a snapshot of it (a
//! device inventory, what a tool printed, an operator's keystrokes) and
//! answers with the next thing to do; running tools, touching the filesystem
//! and talking to card readers is left to the caller. The one thing left to
//! chance is the layout of the scrambled keypad.
//!
//! - `blockdev`: the device inventory and the choice of disks.
//! - `key`, `pin`, `card`: passwords, PINs and the wait for a smartcard.
//! - `ext4`, `pool`, `pool_strategy`: the two ways of provisioning.
//! - `mount`, `unit`: the two ways of mounting.
//! - `setup`, `config`: from the configuration to a run.
//! - `step`, `command`, `guard`, `text`, `error`, `wall`: what the others
//!   share.

pub mod blockdev;
pub mod card;
pub mod command;
pub mod config;
pub mod error;
pub mod ext4;
pub mod guard;
pub mod key;
pub mod mount;
pub mod pin;
pub mod pool;
pub mod pool_strategy;
pub mod setup;
pub mod step;
pub mod text;
pub mod unit;
pub mod wall;
