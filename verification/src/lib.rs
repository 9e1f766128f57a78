//! The request-to-batch pipeline of an embedding service: validation,
//! tokenization, batch assembly, result reassembly and admission control.

pub mod admission;
pub mod batch;
pub mod error;
pub mod input;
pub mod orchestrator;
pub mod reassemble;
pub mod response;
pub mod service;
pub mod template;
pub mod tokenization;
