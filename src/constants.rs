//! Numeric codes and flag bits fixed by the NDR wire-format documentation.
use vstd::prelude::*;

verus! {

// Legacy procedure header: Oi flags.
pub const OI_HAS_RPCFLAGS: u8 = 0x08;
pub const OI_USE_NEW_INIT_ROUTINES: u8 = 0x40;
/// Handle type of an explicit primitive binding handle.
pub const FC_BIND_PRIMITIVE: u8 = 0x32;

// Legacy procedure header: INTERPRETER_OPT_FLAGS.
pub const OI2_SERVER_MUST_SIZE: u8 = 0x01;
pub const OI2_CLIENT_MUST_SIZE: u8 = 0x02;
pub const OI2_HAS_RETURN: u8 = 0x04;
pub const OI2_HAS_EXTENSIONS: u8 = 0x40;

// Legacy procedure header: extension block.
pub const EXTENSION_SIZE: u8 = 10;
pub const INTERPRETER_OPT_FLAGS2_NEW_CORRELATION_DESCRIPTOR: u8 = 0x01;
pub const INTERPRETER_OPT_FLAGS2_RANGE_ON_CONFORMANCE: u8 = 0x40;

// Legacy PARAM_ATTRIBUTES.
pub const PARAM_ATTRIBUTES_MUST_SIZE: u16 = 0x0001;
pub const PARAM_ATTRIBUTES_MUST_FREE: u16 = 0x0002;
pub const PARAM_ATTRIBUTES_IS_IN: u16 = 0x0008;
pub const PARAM_ATTRIBUTES_IS_OUT: u16 = 0x0010;
pub const PARAM_ATTRIBUTES_IS_RETURN: u16 = 0x0020;
pub const PARAM_ATTRIBUTES_IS_BASE_TYPE: u16 = 0x0040;
pub const PARAM_ATTRIBUTES_IS_BY_VALUE: u16 = 0x0080;
pub const PARAM_ATTRIBUTES_IS_SIMPLE_REF: u16 = 0x0100;
pub const PARAM_ATTRIBUTES_SERVER_ALLOC_SIZE_8: u16 = 0x2000;
pub const PARAM_ATTRIBUTES_SERVER_ALLOC_SIZE_16: u16 = 0x4000;
pub const PARAM_ATTRIBUTES_SERVER_ALLOC_SIZE_32: u16 = 0x8000;

// Legacy type format string codes.
/// Reference pointer.
pub const FC_RP: u8 = 0x11;
/// Unique pointer.
pub const FC_UP: u8 = 0x12;
/// Conformant character string.
pub const FC_C_CSTRING: u8 = 0x22;
/// Conformant wide-character string.
pub const FC_C_WSTRING: u8 = 0x25;
/// Padding byte.
pub const FC_PAD: u8 = 0x5c;
/// Pointer attribute: the pointee is a simple type.
pub const FC_SIMPLE_POINTER: u8 = 0x08;
/// Pointer attributes: allocated on the stack and dereferenced.
pub const FC_ALLOCED_ON_STACK_POINTER_DEREF: u8 = 0x14;

// Legacy base type codes.
pub const FC_BYTE: u8 = 0x01;
pub const FC_CHAR: u8 = 0x02;
pub const FC_SHORT: u8 = 0x06;
pub const FC_USHORT: u8 = 0x07;
pub const FC_LONG: u8 = 0x08;
pub const FC_ULONG: u8 = 0x09;
pub const FC_HYPER: u8 = 0x0b;

// Transfer syntax identities.
pub const RPC_TRANSFER_SYNTAX_NDR_GUID: u128 = 0x8A885D04_1CEB_11C9_9FE8_08002B104860;
pub const RPC_TRANSFER_SYNTAX_NDR_VERSION_MAJOR: u16 = 2;
pub const RPC_TRANSFER_SYNTAX_NDR_VERSION_MINOR: u16 = 0;
pub const RPC_TRANSFER_SYNTAX_NDR64_GUID: u128 = 0x71710533_BEBA_4937_8319_B5DBEF9CCC36;
pub const RPC_TRANSFER_SYNTAX_NDR64_VERSION_MAJOR: u16 = 1;
pub const RPC_TRANSFER_SYNTAX_NDR64_VERSION_MINOR: u16 = 0;

// NDR64 format codes.
pub const NDR64_FC_INT8: u8 = 0x10;
pub const NDR64_FC_INT16: u8 = 0x04;
pub const NDR64_FC_INT32: u8 = 0x05;
pub const NDR64_FC_INT64: u8 = 0x07;
/// Conformant wide-character string.
pub const NDR64_FC_CONF_WCHAR_STRING: u8 = 0x64;
/// Reference pointer.
pub const NDR64_FC_RP: u8 = 0x20;
/// Unique pointer.
pub const NDR64_FC_UP: u8 = 0x21;
/// Handle type of an explicit primitive binding handle.
pub const NDR64_FC_BIND_PRIMITIVE: u8 = 0x72;
/// Element size of a wide character.
pub const NDR64_WCHAR_SIZE: u16 = 2;

// NDR64 parameter attributes.
pub const NDR64_MUST_SIZE: u16 = 0x0001;
pub const NDR64_MUST_FREE: u16 = 0x0002;
pub const NDR64_IS_IN: u16 = 0x0008;
pub const NDR64_IS_OUT: u16 = 0x0010;
pub const NDR64_IS_RETURN: u16 = 0x0020;
pub const NDR64_IS_BASE_TYPE: u16 = 0x0040;
pub const NDR64_IS_BY_VALUE: u16 = 0x0080;
pub const NDR64_IS_SIMPLE_REF: u16 = 0x0100;
pub const NDR64_USE_CACHE: u16 = 0x8000;

// NDR64 procedure flags.
/// Flags every procedure carries: extensions present, interpreted stub.
pub const NDR64_PROC_BASE_FLAGS: u32 = 0x0100_0040;
pub const NDR64_PROC_IS_INTERPRETED: u32 = 0x0002_0000;
pub const NDR64_PROC_CLIENT_MUST_SIZE: u32 = 0x0004_0000;
pub const NDR64_PROC_HAS_RETURN: u32 = 0x0008_0000;
pub const NDR64_PROC_SERVER_MUST_SIZE: u32 = 0x0100_0000;
/// Size of the bind-and-notify extension that follows each procedure record.
pub const NDR64_EXTENSION_SIZE: u16 = 8;

// Stub description values.
pub const MIDL_STUB_DESC_CHECK_BOUNDS: i32 = 1;
pub const MIDL_STUB_DESC_VERSION: u32 = 0x60001;
pub const MIDL_STUB_DESC_MIDL_VERSION: u32 = 0x8010274;
pub const MIDL_STUB_DESC_M_FLAGS: usize = 0x2000001;
pub const RPC_CLIENT_INTERFACE_FLAGS: i32 = 0x02000000;
pub const RPC_SERVER_INTERFACE_FLAGS: i32 = 0x06000000;

/// Width of one stack slot: every parameter occupies one machine word.
pub const STACK_SLOT: u16 = 8;

} // verus!
