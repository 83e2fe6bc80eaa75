//! Verified core of a conditional-access frame decoder.
//!
//! The crate holds the decision logic of the decoder: the host-link protocol
//! engine, the subscription store and frame decoder, the encrypted
//! persistence layer and the transaction clock.  Peripherals stay outside:
//! the caller hands in received bytes, tick readings, nonces and a snapshot
//! of the reserved flash page, and carries out what the library queues
//! (bytes to transmit, flash operations to replay).
pub mod bytes;
pub mod buffer;
pub mod crypto;
pub mod flash;
pub mod host_comms;
pub mod decoder;
pub mod timer;
pub mod led;
pub mod cmd_logic;
