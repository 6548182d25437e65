//! The verified logic of a staged processing pipeline, and a set of small
//! verified data structures and algorithms.
//!
//! `stage` holds what each pipeline stage decides per item and what it emits for
//! a stream, with the laws that relate them; the threads and bounded queues that
//! run the stages are outside the library.
pub mod numeric;
pub mod stage;
pub mod ring_buffer;
pub mod computer;
pub mod slices;
pub mod music;
pub mod widgets;
pub mod providers;
pub mod text;
pub mod srl;
pub mod brainfuck;
pub mod request;
pub mod case_insensitive;
pub mod binary_tree;
