//! The provider-neutral model seam: requests, streamed answers and how an
//! answer is put together.

pub mod assembler;
pub mod request;
pub mod stream;
