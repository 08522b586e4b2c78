//! Oxiterm: the logic of a tabbed SSH/Telnet/serial/VNC terminal client.

pub mod chiavi;
pub mod comandi;
pub mod git_sync;
pub mod model;
pub mod net;
pub mod rubrica;
pub mod sftp;
pub mod ssh;
pub mod sshconfig;
pub mod telnet;
pub mod term;
pub mod testo;
pub mod vault;
pub mod vnc;
