//! A virtual device that answers the frames of a motion controller's
//! host link: CANopen SDO requests forwarded over CAN, IO, serial and
//! bookkeeping commands, each packed in a frame delimited by a head and a
//! tail byte.

pub mod canopen;
pub mod frame;
pub mod protocol;
pub mod service;
