//! Client half of the binary message-passing protocol that drives an
//! external configuration-evaluation engine over a duplex byte stream.
//!
//! The crate holds the protocol core: the frame codec, the message
//! catalogue, the request router that correlates responses and services
//! engine callbacks, the evaluator lifecycle state machine, and the
//! decoder for evaluation results. Process management and raw stream
//! I/O live with the caller.
pub mod code;
pub mod decoder;
pub mod errors;
pub mod evaluator;
pub mod evaluator_manager;
pub mod evaluator_options;
pub mod incoming;
pub mod logger;
pub mod module_source;
pub mod msgpack;
pub mod outgoing;
pub mod router;
