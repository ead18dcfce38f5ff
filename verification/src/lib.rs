//! A payment gateway between ecash tokens and Lightning invoices: the request
//! decoder, the token validator, the swap state machine and the error shaping
//! of the melt-swap protocol, with their contracts.

pub mod codec;
pub mod config;
pub mod decoder;
pub mod envelope;
pub mod error;
pub mod gateway_server;
pub mod laws;
pub mod secret;
pub mod swap;
pub mod token;
pub mod validator;
