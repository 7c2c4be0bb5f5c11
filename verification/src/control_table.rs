//! Register addresses of the devices, one module for each family.
//!
//! The bus takes any address and width; these tables only give the
//! registers a name.

pub mod xm430_w350;
