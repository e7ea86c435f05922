//! Early boot stage of a small kernel: ordered, fail-fast device driver bring-up,
//! a counting character console, and the interactive main loop that follows.
pub mod console;
pub mod init;
pub mod text;
pub mod board;
pub mod main_loop;
