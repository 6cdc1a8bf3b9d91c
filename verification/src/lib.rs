//! A user-space TCP/IP stack core operating on raw Ethernet frames.
//!
//! The crate holds the sequential heart of the stack: the layered transmit
//! builders, the receive demultiplexer, the ARP table with its waiters, the
//! interface worker and the transmit barrier. Threads, locks and the raw
//! datalink live with the embedding program, which feeds frames in and drains
//! the frame queue of each interface.

pub mod addr;
pub mod arp;
pub mod checksum;
pub mod datalink;
pub mod error;
pub mod ethernet;
pub mod icmp;
pub mod interface;
pub mod ipv4;
pub mod listener;
pub mod payload;
pub mod routing;
pub mod stack;
pub mod tx;
pub mod udp;
pub mod util;

pub use crate::addr::{Interface, MacAddr};
pub use crate::error::{StackError, StackResult, TxError, TxResult};
pub use crate::interface::EthernetChannel;
pub use crate::payload::Payload;
pub use crate::routing::RoutingTable;
pub use crate::stack::NetworkStack;
pub use crate::tx::Tx;
