//! Protocol engine for a pulse oximeter that speaks a framed command and
//! response protocol over a transport of fixed-size reports.
//!
//! The device reserves the top bit of every byte as the mark of a new frame.
//! [`queue`] puts frames together again from reports that cut and pad them,
//! [`checksum`] and [`codes`] tell what a frame is, [`frames`] builds the
//! frames that go out and [`responses`] reads those that come in. [`decode`]
//! turns the frames of a recorded file into samples, [`samples`] gives each
//! its time and [`csv`] its line of output. [`session`] runs a whole
//! conversation with the device without touching the transport: it tells
//! its driver what to send and when to receive. [`session_model`] is the
//! state machine behind it, and [`queue_laws`] and [`session_laws`] hold
//! what is proved of queue and session beyond the contracts of their
//! functions. [`device_id`] and [`opts`] read what the user typed.

pub mod checksum;
pub mod codes;
pub mod csv;
pub mod decode;
pub mod device_id;
pub mod frames;
pub mod opts;
pub mod queue;
pub mod queue_laws;
pub mod responses;
pub mod samples;
pub mod session;
pub mod session_laws;
pub mod session_model;
