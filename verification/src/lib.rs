//! Management of WireGuard networks: subnet bookkeeping, IP allocation for servers and
//! clients, key material, and rendering of `.conf` files.

mod clock;
pub mod text;
pub mod names;
pub mod ipv4;
pub mod keys;
pub mod manager;
pub mod tui;
pub mod cli;
