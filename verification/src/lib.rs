//! Tools for a reverse-engineered skeletal-animation pipeline: a little-endian
//! byte cursor, a bit-packed channel decoder, skeleton and sequence-header
//! parsers, a segment decoder, and the text/packet codecs the companion tools
//! use. All numeric samples are kept in integer form (raw quantized values,
//! bit widths and IEEE-754 bit patterns); turning them into real numbers is
//! left to the callers.

pub mod bits;

pub mod channels;

pub mod clips;

pub mod cursor;

pub mod emit;

pub mod errors;

pub mod header;

pub mod hierarchy;

pub mod nav;

pub mod posegrid;

pub mod segment;

pub mod skeleton;

pub mod text;

pub mod vconsole;

pub mod vtunnel;
