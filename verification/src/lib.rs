//! Rendering of Game Boy chip music to video: the readers of register
//! logs, song files and save files, the transcoder that turns a log into a
//! program for the driver on the machine, the render session that decides
//! when a render loops, fades and stops, and the scheduling of audio and
//! video frames for the encoder. Emulating the machine, drawing the picture
//! and encoding the file are left to the program around this crate.

pub mod gameboy;
pub mod gui;
pub mod renderer;
pub mod text;
pub mod video_builder;
pub mod visualizer;
