use windows_rpc::ndr64::{ndr64_out_string_ref_pointer, ndr64_out_string_unique_pointer};
use windows_rpc::{
    compute_type_offset, generate_ndr64_proc_data, generate_ndr64_type_format, has_string_return,
    BaseType, Interface, InterfaceVersion, Method, Parameter, Type,
};

fn param(name: &str, ty: Type) -> Parameter {
    Parameter { ty, name: name.to_string(), is_in: true, is_out: false }
}

fn method(name: &str, parameters: Vec<Parameter>, return_type: Option<Type>) -> Method {
    Method { return_type, name: name.to_string(), parameters }
}

fn interface(methods: Vec<Method>) -> Interface {
    Interface {
        name: "Test".to_string(),
        uuid: 1,
        version: InterfaceVersion { major: 1, minor: 0 },
        methods,
    }
}

fn mixed() -> Interface {
    interface(vec![
        method(
            "f",
            vec![param("a", Type::Simple(BaseType::U8)), param("s", Type::String)],
            Some(Type::Simple(BaseType::U64)),
        ),
        method("g", vec![param("x", Type::Simple(BaseType::U8))], Some(Type::String)),
    ])
}

#[test]
fn unique_types_in_first_use_order() {
    let types = mixed().unique_types();
    assert_eq!(
        types,
        vec![Type::Simple(BaseType::U8), Type::String, Type::Simple(BaseType::U64)]
    );
}

#[test]
fn ndr64_type_format_records() {
    assert_eq!(generate_ndr64_type_format(&mixed()), vec![0x10, 0x64, 0x00, 0x02, 0x00, 0x07]);
}

#[test]
fn type_offsets_replay_the_layout() {
    let iface = mixed();
    assert_eq!(compute_type_offset(&iface, &Type::Simple(BaseType::U8)), 0);
    assert_eq!(compute_type_offset(&iface, &Type::String), 1);
    assert_eq!(compute_type_offset(&iface, &Type::Simple(BaseType::U64)), 5);
    assert_eq!(compute_type_offset(&iface, &Type::Simple(BaseType::I32)), 0);
}

#[test]
fn string_return_detection() {
    assert!(has_string_return(&mixed()));
    let scalar_only = interface(vec![method("f", vec![], Some(Type::Simple(BaseType::I8)))]);
    assert!(!has_string_return(&scalar_only));
    assert!(!has_string_return(&interface(vec![])));
}

#[test]
fn void_method_proc_buffer() {
    let iface = interface(vec![method("WriteSomething", vec![], None)]);
    assert!(generate_ndr64_type_format(&iface).is_empty());
    let (buffer, offsets) = generate_ndr64_proc_data(&iface, 0, 0);
    assert_eq!(
        buffer,
        vec![
            64, 0, 0, 1, 8, 0, 0, 0, 0, 0, 0, 0, 8, 0, 0, 0, 0, 0, 0, 0, 0, 0, 8, 0, 114, 0, 0,
            0, 0, 0, 0, 0,
        ]
    );
    assert_eq!(offsets, vec![0]);
}

#[test]
fn sum_proc_buffer() {
    let i32_ = Type::Simple(BaseType::I32);
    let iface = interface(vec![method("Sum", vec![param("a", i32_), param("b", i32_)], Some(i32_))]);
    assert_eq!(generate_ndr64_type_format(&iface), vec![0x05]);
    let (buffer, offsets) = generate_ndr64_proc_data(&iface, 0x1000, 0);
    let mut expected: Vec<u8> = vec![
        0x40, 0x00, 0x08, 0x01, // flags
        0x20, 0, 0, 0, // stack size
        0x10, 0, 0, 0, // client buffer size
        0x10, 0, 0, 0, // server buffer size
        0, 0, 0, 0, 3, 0, 8, 0, // rpc flags, float mask, parameter count, extension size
        0x72, 0, 0, 0, 0, 0, 0, 0, // bind extension
    ];
    for slot in [8u8, 16] {
        expected.extend_from_slice(&[0x00, 0x10, 0, 0, 0, 0, 0, 0, 0xC8, 0, 0, 0, slot, 0, 0, 0]);
    }
    expected.extend_from_slice(&[0x00, 0x10, 0, 0, 0, 0, 0, 0, 0xF0, 0, 0, 0, 24, 0, 0, 0]);
    assert_eq!(buffer, expected);
    assert_eq!(offsets, vec![0]);
}

#[test]
fn echo_proc_buffer_points_at_pointer_chain() {
    let iface =
        interface(vec![method("echo", vec![param("text", Type::String)], Some(Type::String))]);
    assert_eq!(generate_ndr64_type_format(&iface), vec![0x64, 0x00, 0x02, 0x00]);
    let (buffer, _) = generate_ndr64_proc_data(&iface, 0x2000, 0x1122_3344_5566_7788);
    assert_eq!(buffer.len(), 24 + 8 + 16 * 2);
    // flags: extensions, client must size, server must size, interpreted
    assert_eq!(&buffer[0..4], &0x0106_0040u32.to_le_bytes());
    assert_eq!(&buffer[8..16], &[0u8; 8]);
    let text = &buffer[32..48];
    assert_eq!(&text[0..8], &0x2000u64.to_le_bytes());
    assert_eq!(&text[8..10], &[0x0B, 0x01]);
    let ret = &buffer[48..64];
    assert_eq!(&ret[0..8], &0x1122_3344_5566_7788u64.to_le_bytes());
    assert_eq!(&ret[8..10], &[0x13, 0x80]);
    assert_eq!(&ret[12..16], &[16, 0, 0, 0]);
}

#[test]
fn proc_buffer_offsets_for_several_methods() {
    let (buffer, offsets) = generate_ndr64_proc_data(&mixed(), 0, 0);
    assert_eq!(offsets, vec![0, 32 + 48]);
    assert_eq!(buffer.len(), 32 + 48 + 32 + 32);
    // the u64 return of f points at offset 5 of the type format
    assert_eq!(&buffer[64..72], &5u64.to_le_bytes());
}

#[test]
fn pointer_chain_records() {
    assert_eq!(
        ndr64_out_string_unique_pointer(0x0102_0304_0506_0708),
        vec![0x21, 0, 0, 0, 0, 0, 0, 0, 8, 7, 6, 5, 4, 3, 2, 1]
    );
    assert_eq!(
        ndr64_out_string_ref_pointer(0xAB),
        vec![0x20, 0x14, 0, 0, 0, 0, 0, 0, 0xAB, 0, 0, 0, 0, 0, 0, 0]
    );
}
