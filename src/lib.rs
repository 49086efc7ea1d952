//! Encoding and decoding of GTP messages: the tagged-field codec of the
//! control plane, the extension-header chain of the user plane, the message
//! header, and the reconciliation of decoded fields with typed messages.

pub mod bytes;
pub mod error;
pub mod ie;
pub mod basic;
pub mod tad;
pub mod privateextension;
pub mod pagingserviceinfo;
pub mod completereqmessage;
pub mod overload;
pub mod catalog;
pub mod header;
pub mod reconcile;
pub mod bearerresourcefailureind;
pub mod bearerresourcecommand;
pub mod deletebearerresp;
pub mod exthdr;
