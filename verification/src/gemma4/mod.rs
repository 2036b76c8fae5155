//! Bounded layer execution for Gemma 4 checkpoints with text, vision and audio.

pub mod adapter;
pub mod prefill;
pub mod speculation;
