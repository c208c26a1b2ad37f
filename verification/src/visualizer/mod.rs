//! The rules of the picture that need no drawing: which shape a piano key
//! has, and which stretch of a wave an oscilloscope shows.

pub mod oscilloscope;
pub mod piano_roll;
