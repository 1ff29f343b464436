use windows_rpc::ndr::TypeKey;
use windows_rpc::{
    assemble_formats, generate_proc_header, generate_type_format_string, BaseType, Interface,
    InterfaceVersion, Method, Parameter, Type,
};

fn param(name: &str, ty: Type) -> Parameter {
    Parameter { ty, name: name.to_string(), is_in: true, is_out: false }
}

fn method(name: &str, parameters: Vec<Parameter>, return_type: Option<Type>) -> Method {
    Method { return_type, name: name.to_string(), parameters }
}

fn interface(methods: Vec<Method>) -> Interface {
    Interface {
        name: "Test".to_string(),
        uuid: 0x7a98c250_6808_11cf_b73b_00aa00b677a7,
        version: InterfaceVersion { major: 1, minor: 0 },
        methods,
    }
}

fn offset_of(offsets: &[(TypeKey, u16)], key: &TypeKey) -> u16 {
    offsets.iter().find(|(k, _)| k.same_key(key)).map(|(_, o)| *o).unwrap()
}

#[test]
fn single_void_method_formats() {
    let iface = interface(vec![method("WriteSomething", vec![], None)]);
    let (type_format, offsets) = generate_type_format_string(&iface);
    assert_eq!(type_format, vec![0x00, 0x00, 0x00]);
    assert!(offsets.is_empty());
    let (header, proc_offsets) = generate_proc_header(&iface, &offsets);
    assert_eq!(
        header,
        vec![
            0x00, 0x48, 0x00, 0x00, 0x00, 0x00, 0x00, 0x00, 0x08, 0x00, 0x32, 0x00, 0x00, 0x00,
            0x00, 0x00, 0x00, 0x00, 0x40, 0x00, 0x0A, 0x01, 0x00, 0x00, 0x00, 0x00, 0x00, 0x00,
            0x00, 0x00, 0x00,
        ]
    );
    assert_eq!(proc_offsets, vec![0]);
}

#[test]
fn sum_header_layout() {
    let i32_ = Type::Simple(BaseType::I32);
    let iface = interface(vec![method("Sum", vec![param("a", i32_), param("b", i32_)], Some(i32_))]);
    let (type_format, offsets) = generate_type_format_string(&iface);
    assert_eq!(type_format, vec![0, 0, 0]);
    let (header, proc_offsets) = generate_proc_header(&iface, &offsets);
    assert_eq!(
        header,
        vec![
            0x00, 0x48, 0x00, 0x00, 0x00, 0x00, 0x00, 0x00, 0x20, 0x00, 0x32, 0x00, 0x00, 0x00,
            0x00, 0x00, 0x00, 0x00, 0x44, 0x02, 0x0A, 0x01, 0x00, 0x00, 0x00, 0x00, 0x00, 0x00,
            0x00, 0x00, // a
            0x48, 0x00, 0x08, 0x00, 0x09, 0x00, // b
            0x48, 0x00, 0x10, 0x00, 0x09, 0x00, // return value
            0x70, 0x00, 0x18, 0x00, 0x09, 0x00, 0x00,
        ]
    );
    assert_eq!(proc_offsets, vec![0]);
}

#[test]
fn scalar_return_stack_slots_are_one_word_apart() {
    let u64_ = Type::Simple(BaseType::U64);
    let params: Vec<Parameter> =
        (0..5).map(|k| param(&format!("p{k}"), Type::Simple(BaseType::U16))).collect();
    let iface = interface(vec![method("Many", params, Some(u64_))]);
    let (_, offsets) = generate_type_format_string(&iface);
    let (header, _) = generate_proc_header(&iface, &offsets);
    // stack size: handle and six more slots
    assert_eq!(u16::from_le_bytes([header[8], header[9]]), 8 * 7);
    let slots: Vec<u16> =
        (0..6).map(|j| u16::from_le_bytes([header[30 + 6 * j + 2], header[30 + 6 * j + 3]])).collect();
    assert_eq!(slots, vec![8, 16, 24, 32, 40, 48]);
    assert_eq!(header.len(), 30 + 6 * 6 + 1);
}

#[test]
fn echo_string_formats() {
    let iface =
        interface(vec![method("echo", vec![param("text", Type::String)], Some(Type::String))]);
    let (type_format, offsets) = generate_type_format_string(&iface);
    assert_eq!(
        type_format,
        vec![
            0x00, 0x00, 0x11, 0x08, 0x25, 0x5c, 0x11, 0x14, 0x02, 0x00, 0x12, 0x08, 0x25, 0x5c,
            0x00,
        ]
    );
    assert_eq!(offsets.len(), 2);
    assert_eq!(offset_of(&offsets, &TypeKey::Parameter(param("text", Type::String))), 2);
    assert_eq!(offset_of(&offsets, &TypeKey::ReturnString), 6);
    let (header, _) = generate_proc_header(&iface, &offsets);
    assert_eq!(
        header,
        vec![
            0x00, 0x48, 0x00, 0x00, 0x00, 0x00, 0x00, 0x00, 0x18, 0x00, 0x32, 0x00, 0x00, 0x00,
            0x00, 0x00, 0x00, 0x00, 0x43, 0x02, 0x0A, 0x01, 0x00, 0x00, 0x00, 0x00, 0x00, 0x00,
            0x00, 0x00, // text
            0x0B, 0x01, 0x08, 0x00, 0x02, 0x00, // returned string
            0x13, 0x20, 0x10, 0x00, 0x06, 0x00, 0x00,
        ]
    );
}

#[test]
fn single_param_return_header() {
    let i32_ = Type::Simple(BaseType::I32);
    let iface =
        interface(vec![method("SingleParamReturn", vec![param("param", i32_)], Some(i32_))]);
    let (_, offsets) = generate_type_format_string(&iface);
    let (header, _) = generate_proc_header(&iface, &offsets);
    assert_eq!(&header[8..10], &[0x18, 0x00]);
    assert_eq!(header[18], 0x44);
    assert_eq!(header[19], 1);
    assert_eq!(&header[30..42], &[0x48, 0x00, 0x08, 0x00, 0x09, 0x00, 0x70, 0x00, 0x10, 0x00, 0x09, 0x00]);
}

#[test]
fn descriptors_are_keyed_by_parameter_identity() {
    let s = |n: &str| param(n, Type::String);
    let iface = interface(vec![
        method("a", vec![s("x")], Some(Type::String)),
        method("b", vec![s("x"), s("y")], Some(Type::String)),
        method("c", vec![s("y")], None),
    ]);
    let (type_format, offsets) = generate_type_format_string(&iface);
    // x, the shared return string, y
    assert_eq!(offsets.len(), 3);
    assert_eq!(offset_of(&offsets, &TypeKey::Parameter(s("x"))), 2);
    assert_eq!(offset_of(&offsets, &TypeKey::ReturnString), 6);
    assert_eq!(offset_of(&offsets, &TypeKey::Parameter(s("y"))), 14);
    assert_eq!(type_format.len(), 2 + 4 + 8 + 4 + 1);
    assert_eq!(*type_format.last().unwrap(), 0);
    for (_, off) in &offsets {
        assert!((*off as usize) < type_format.len() - 1);
    }
}

#[test]
fn out_string_parameter_descriptor() {
    let out = Parameter { ty: Type::String, name: "o".to_string(), is_in: false, is_out: true };
    let iface = interface(vec![method("f", vec![out.clone()], None)]);
    let (type_format, offsets) = generate_type_format_string(&iface);
    assert_eq!(
        type_format,
        vec![0x00, 0x00, 0x11, 0x14, 0x02, 0x00, 0x12, 0x08, 0x25, 0x5c, 0x00]
    );
    assert_eq!(offset_of(&offsets, &TypeKey::Parameter(out)), 2);
}

#[test]
fn proc_offsets_follow_records() {
    let u8_ = Type::Simple(BaseType::U8);
    let iface = interface(vec![
        method("a", vec![param("x", u8_)], None),
        method("b", vec![], Some(u8_)),
        method("c", vec![param("s", Type::String)], Some(Type::String)),
    ]);
    let (_, offsets) = generate_type_format_string(&iface);
    let (header, proc_offsets) = generate_proc_header(&iface, &offsets);
    assert_eq!(proc_offsets, vec![0, 36, 72]);
    assert_eq!(header.len(), 72 + 42 + 1);
    // procedure indexes
    assert_eq!(&header[36 + 6..36 + 8], &[1, 0]);
    assert_eq!(&header[72 + 6..72 + 8], &[2, 0]);
}

#[test]
fn assembling_twice_gives_identical_formats() {
    let iface = interface(vec![
        method("echo", vec![param("text", Type::String)], Some(Type::String)),
        method("Sum", vec![param("a", Type::Simple(BaseType::I32))], Some(Type::Simple(BaseType::I32))),
    ]);
    let first = assemble_formats(&iface);
    let second = assemble_formats(&iface.clone());
    assert_eq!(first.type_format, second.type_format);
    assert_eq!(first.proc_header, second.proc_header);
    assert_eq!(first.format_offsets, second.format_offsets);
    assert_eq!(first.ndr64_type_format, second.ndr64_type_format);
    assert_eq!(first.needs_out_string_chain, second.needs_out_string_chain);
    assert_eq!(first.ndr64_string_type_offset, second.ndr64_string_type_offset);
    assert!(first.needs_out_string_chain);
}
