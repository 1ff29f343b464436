//! Compiles an abstract RPC interface description into the binary format
//! strings and descriptor records that a stub-less NDR interpreter needs:
//! the legacy (NDR 2.0) type and procedure format strings, the 64-bit
//! (NDR64) type format and procedure buffer, the zero-terminated UTF-16
//! form of text on the wire, and the single-slot registry that connects the
//! interpreter's stateless server callbacks to one implementation instance.

pub mod bytes;
pub mod client_binding;
pub mod constants;
pub mod ndr;
pub mod ndr64;
pub mod server;
pub mod stub;
pub mod types;
pub mod unique;
pub mod wide;

pub use client_binding::ProtocolSequence;
pub use ndr::{generate_proc_header, generate_type_format_string, TypeKey};
pub use ndr64::{
    compute_type_offset, generate_ndr64_proc_data, generate_ndr64_type_format, has_string_return,
};
pub use server::{clear_context, set_context, with_context, ContextError, ContextSlot};
pub use stub::{assemble_formats, StubFormats};
pub use types::{
    BaseType, Interface, InterfaceAttributes, InterfaceVersion, Method, Parameter, Type,
};
