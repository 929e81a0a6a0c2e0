//! Hugging Face GGUF discovery: quantization names, file filtering, ordering
//! by size, and memory-fit ratings.
pub mod by_size;
pub mod download;
pub mod huggingface;
pub mod filtering;
pub mod quantization;
pub mod recommendations;
