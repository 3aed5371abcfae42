//! Host-side bridge core for driving in-process decision engines from a
//! remote peer over a byte-oriented USB bulk transport.
//!
//! The verified core is the transport/session layer: the identity match and
//! endpoint discovery of device acquisition (`device`), the accounting of the
//! retrying partial-transfer primitives (`transfer`), the length-prefixed
//! message framing (`framing`), and the handle-indexed command dispatcher
//! (`session`). The raw USB calls and the decision engines themselves stay
//! outside, behind plain values.

pub mod device;
pub mod framing;
pub mod session;
pub mod transfer;
