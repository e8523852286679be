//! Verified core of a foreign-callable inference interface for a recurrent
//! sequence model: the token sampler, the runtime slot, request checks and the
//! layer quantization plan.
pub mod driver;
pub mod error;
pub mod floatbits;
pub mod quant;
pub mod sampler;
pub mod slot;
