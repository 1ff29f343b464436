use windows_rpc::bytes::{ndr_fc_long, ndr_fc_short, push_u16, push_u32, push_u64};
use windows_rpc::{
    BaseType, Interface, InterfaceVersion, Method, Parameter, ProtocolSequence, Type,
};

#[test]
fn legacy_base_type_codes() {
    let codes: Vec<u8> = [
        BaseType::U8,
        BaseType::I8,
        BaseType::U16,
        BaseType::I16,
        BaseType::U32,
        BaseType::I32,
        BaseType::I64,
        BaseType::U64,
    ]
    .iter()
    .map(|b| b.to_fc_value())
    .collect();
    assert_eq!(codes, vec![1, 2, 6, 7, 8, 9, 11, 11]);
}

#[test]
fn ndr64_base_type_codes() {
    assert_eq!(BaseType::U8.to_ndr64_fc_value(), 0x10);
    assert_eq!(BaseType::I8.to_ndr64_fc_value(), 0x10);
    assert_eq!(BaseType::U16.to_ndr64_fc_value(), 0x04);
    assert_eq!(BaseType::I16.to_ndr64_fc_value(), 0x04);
    assert_eq!(BaseType::U32.to_ndr64_fc_value(), 0x05);
    assert_eq!(BaseType::I32.to_ndr64_fc_value(), 0x05);
    assert_eq!(BaseType::U64.to_ndr64_fc_value(), 0x07);
    assert_eq!(BaseType::I64.to_ndr64_fc_value(), 0x07);
}

#[test]
fn parameter_attributes() {
    let scalar = Parameter {
        ty: Type::Simple(BaseType::I32),
        name: "a".to_string(),
        is_in: true,
        is_out: false,
    };
    assert_eq!(scalar.param_attributes(), 0x48);
    assert_eq!(scalar.ndr64_param_attributes(), 0xC8);
    let in_string = Parameter { ty: Type::String, name: "s".to_string(), is_in: true, is_out: false };
    assert_eq!(in_string.param_attributes(), 0x10B);
    assert_eq!(in_string.ndr64_param_attributes(), 0x10B);
    let out_string =
        Parameter { ty: Type::String, name: "o".to_string(), is_in: false, is_out: true };
    assert_eq!(out_string.param_attributes(), 0x113);
    assert_eq!(out_string.ndr64_param_attributes(), 0x113);
}

#[test]
fn parameter_identity() {
    let a = Parameter { ty: Type::String, name: "s".to_string(), is_in: true, is_out: false };
    let b = a.duplicate();
    assert!(a.same_identity(&b));
    let renamed = Parameter { name: "t".to_string(), ..a.clone() };
    assert!(!a.same_identity(&renamed));
    let outward = Parameter { is_in: false, is_out: true, ..a.clone() };
    assert!(!a.same_identity(&outward));
}

#[test]
fn little_endian_fields() {
    assert_eq!(ndr_fc_short(0x1234), [0x34, 0x12]);
    assert_eq!(ndr_fc_short(0), [0, 0]);
    assert_eq!(ndr_fc_long(0x0102_0304), [4, 3, 2, 1]);
    assert_eq!(ndr_fc_long(u32::MAX), [0xFF; 4]);
    let mut buf = vec![9u8];
    push_u16(&mut buf, 0xBEEF);
    push_u32(&mut buf, 0xDEAD_BEEF);
    push_u64(&mut buf, 0x0807_0605_0403_0201);
    assert_eq!(
        buf,
        vec![9, 0xEF, 0xBE, 0xEF, 0xBE, 0xAD, 0xDE, 1, 2, 3, 4, 5, 6, 7, 8]
    );
}

#[test]
fn protocol_sequence_name() {
    assert_eq!(ProtocolSequence::Alpc.to_string(), "ncalrpc");
}

#[test]
fn rust_type_names() {
    assert_eq!(Type::String.rust_type_name(), "&str");
    assert_eq!(Type::Simple(BaseType::U16).rust_type_name(), "u16");
    assert_eq!(Type::Simple(BaseType::I64).rust_type_name(), "i64");
}

fn with_methods(methods: Vec<Method>) -> Interface {
    Interface { name: "T".to_string(), uuid: 0, version: InterfaceVersion::default(), methods }
}

fn void_method(n_params: usize) -> Method {
    let parameters = (0..n_params)
        .map(|k| Parameter {
            ty: Type::Simple(BaseType::U8),
            name: format!("p{k}"),
            is_in: true,
            is_out: false,
        })
        .collect();
    Method { return_type: None, name: "m".to_string(), parameters }
}

#[test]
fn wire_limits() {
    assert!(with_methods(vec![]).within_wire_limits());
    assert!(with_methods(vec![void_method(254)]).within_wire_limits());
    assert!(!with_methods(vec![void_method(255)]).within_wire_limits());
    // 1800 slots in all fit, 1801 do not
    assert!(with_methods((0..1800).map(|_| void_method(0)).collect()).within_wire_limits());
    assert!(!with_methods((0..1801).map(|_| void_method(0)).collect()).within_wire_limits());
}
