//! The legacy (NDR 2.0) wire revision: the type format string and the
//! procedure format string.
use vstd::prelude::*;

use crate::bytes::{le16, le32, push_u16, push_u32};
use crate::constants::{
    EXTENSION_SIZE, FC_ALLOCED_ON_STACK_POINTER_DEREF, FC_BIND_PRIMITIVE, FC_C_WSTRING, FC_PAD,
    FC_RP, FC_SIMPLE_POINTER, FC_UP, INTERPRETER_OPT_FLAGS2_NEW_CORRELATION_DESCRIPTOR,
    OI2_CLIENT_MUST_SIZE, OI2_HAS_EXTENSIONS, OI2_HAS_RETURN, OI2_SERVER_MUST_SIZE,
    OI_HAS_RPCFLAGS, OI_USE_NEW_INIT_ROUTINES, PARAM_ATTRIBUTES_IS_BASE_TYPE,
    PARAM_ATTRIBUTES_IS_OUT, PARAM_ATTRIBUTES_IS_RETURN, PARAM_ATTRIBUTES_MUST_FREE,
    PARAM_ATTRIBUTES_MUST_SIZE, PARAM_ATTRIBUTES_SERVER_ALLOC_SIZE_8, STACK_SLOT,
};
use crate::types::{
    legacy_param_attributes, total_slots, within_wire_limits, Interface, Method, MethodSpec,
    ParamSpec, Parameter, Type, MAX_PARAMS, MAX_TOTAL_SLOTS,
};
use crate::unique::{dedup, lemma_dedup_props, lemma_dedup_push};

verus! {

/// What a legacy type descriptor is emitted for: one string parameter
/// (keyed by its whole identity), or the string return value shared by all
/// methods.
#[derive(Debug)]
pub enum TypeKey {
    Parameter(Parameter),
    ReturnString,
}

/// The value a `TypeKey` stands for.
pub enum KeySpec {
    Param(ParamSpec),
    ReturnString,
}

impl View for TypeKey {
    type V = KeySpec;

    open spec fn view(&self) -> KeySpec {
        match self {
            TypeKey::Parameter(p) => KeySpec::Param(p@),
            TypeKey::ReturnString => KeySpec::ReturnString,
        }
    }
}

impl TypeKey {
    /// Whether two keys are the same.
    pub fn same_key(&self, other: &TypeKey) -> (r: bool)
        ensures
            r == (self@ == other@),
    {
        match (self, other) {
            (TypeKey::Parameter(a), TypeKey::Parameter(b)) => a.same_identity(b),
            (TypeKey::ReturnString, TypeKey::ReturnString) => true,
            _ => false,
        }
    }
}

/// The keys a list of parameters needs, in order, with repetitions.
pub open spec fn param_keys(ps: Seq<ParamSpec>) -> Seq<KeySpec>
    decreases ps.len(),
{
    if ps.len() == 0 {
        Seq::empty()
    } else if ps.last().ty == Type::String {
        param_keys(ps.drop_last()).push(KeySpec::Param(ps.last()))
    } else {
        param_keys(ps.drop_last())
    }
}

/// The keys a method needs: its string parameters, then its string return.
pub open spec fn method_keys(m: MethodSpec) -> Seq<KeySpec> {
    if m.ret == Some(Type::String) {
        param_keys(m.params).push(KeySpec::ReturnString)
    } else {
        param_keys(m.params)
    }
}

/// The keys all methods need, in method order, with repetitions.
pub open spec fn interface_keys(ms: Seq<MethodSpec>) -> Seq<KeySpec>
    decreases ms.len(),
{
    if ms.len() == 0 {
        Seq::empty()
    } else {
        interface_keys(ms.drop_last()) + method_keys(ms.last())
    }
}

/// The keys that get a descriptor, in the order the descriptors are laid out.
pub open spec fn legacy_keys(ms: Seq<MethodSpec>) -> Seq<KeySpec> {
    dedup(interface_keys(ms))
}

/// Descriptor of an `[in]` string: a simple reference pointer to a
/// conformant wide string.
pub open spec fn in_string_descriptor() -> Seq<u8> {
    seq![FC_RP, FC_SIMPLE_POINTER, FC_C_WSTRING, FC_PAD]
}

/// Descriptor of an `[out]` string: a reference pointer, allocated on the
/// stack and dereferenced, to a unique pointer to a conformant wide string.
pub open spec fn out_string_descriptor() -> Seq<u8> {
    seq![FC_RP, FC_ALLOCED_ON_STACK_POINTER_DEREF] + le16(2) + seq![
        FC_UP,
        FC_SIMPLE_POINTER,
        FC_C_WSTRING,
        FC_PAD,
    ]
}

/// The descriptor emitted for one key.
pub open spec fn legacy_descriptor(k: KeySpec) -> Seq<u8> {
    match k {
        KeySpec::Param(p) => if p.ty == Type::String && p.is_in && !p.is_out {
            in_string_descriptor()
        } else if p.ty == Type::String && p.is_out {
            out_string_descriptor()
        } else {
            Seq::empty()
        },
        KeySpec::ReturnString => out_string_descriptor(),
    }
}

/// The descriptors of a list of keys, laid end to end.
pub open spec fn legacy_descriptors(ks: Seq<KeySpec>) -> Seq<u8>
    decreases ks.len(),
{
    if ks.len() == 0 {
        Seq::empty()
    } else {
        legacy_descriptors(ks.drop_last()) + legacy_descriptor(ks.last())
    }
}

/// The legacy type format string: a 2-byte pad, the descriptors, and a
/// terminating zero byte.
pub open spec fn legacy_type_format(ms: Seq<MethodSpec>) -> Seq<u8> {
    seq![0u8, 0u8] + legacy_descriptors(legacy_keys(ms)) + seq![0u8]
}

/// Where the descriptor of the `k`-th key starts.
pub open spec fn legacy_key_offset(ks: Seq<KeySpec>, k: int) -> int {
    2 + legacy_descriptors(ks.take(k)).len() as int
}

/// The offset table: each key with the offset of its descriptor.
pub open spec fn legacy_type_offsets(ms: Seq<MethodSpec>) -> Seq<(KeySpec, u16)> {
    let ks = legacy_keys(ms);
    Seq::new(ks.len(), |k: int| (ks[k], legacy_key_offset(ks, k) as u16))
}

/// The value an offset table stands for.
pub open spec fn offsets_view(offs: Seq<(TypeKey, u16)>) -> Seq<(KeySpec, u16)> {
    offs.map_values(|e: (TypeKey, u16)| (e.0@, e.1))
}

pub proof fn lemma_descriptor_len(k: KeySpec)
    ensures
        legacy_descriptor(k).len() <= 8,
{
}

/// Descriptors of a prefix of the keys are a prefix of all descriptors,
/// and each key adds at most 8 bytes.
pub proof fn lemma_descriptors_prefix(ks: Seq<KeySpec>, k: int)
    requires
        0 <= k <= ks.len(),
    ensures
        legacy_descriptors(ks.take(k)).len() <= legacy_descriptors(ks).len(),
        legacy_descriptors(ks).len() <= 8 * ks.len(),
        k < ks.len() ==> legacy_descriptors(ks.take(k + 1)) == legacy_descriptors(ks.take(k))
            + legacy_descriptor(ks[k]),
    decreases ks.len(),
{
    if ks.len() > 0 {
        lemma_descriptor_len(ks.last());
        if k < ks.len() {
            assert(ks.take(k + 1).drop_last() =~= ks.take(k));
            lemma_descriptors_prefix(ks.drop_last(), k);
            assert(ks.drop_last().take(k) =~= ks.take(k));
        } else {
            lemma_descriptors_prefix(ks.drop_last(), k - 1);
            assert(ks.take(k) =~= ks);
        }
    } else {
        assert(ks.take(k) =~= ks);
    }
}

/// A list of parameters needs at most one key per parameter.
pub proof fn lemma_param_keys_len(ps: Seq<ParamSpec>)
    ensures
        param_keys(ps).len() <= ps.len(),
    decreases ps.len(),
{
    if ps.len() > 0 {
        lemma_param_keys_len(ps.drop_last());
    }
}

/// The interface needs at most one key per slot.
pub proof fn lemma_interface_keys_len(ms: Seq<MethodSpec>)
    ensures
        interface_keys(ms).len() <= total_slots(ms),
    decreases ms.len(),
{
    if ms.len() > 0 {
        lemma_interface_keys_len(ms.drop_last());
        lemma_param_keys_len(ms.last().params);
    }
}

/// Keys of the first `i` methods, then of the first `j` parameters of
/// method `i`.
pub proof fn lemma_keys_step(ms: Seq<MethodSpec>, i: int, j: int)
    requires
        0 <= i < ms.len(),
        0 <= j < ms[i].params.len(),
    ensures
        param_keys(ms[i].params.take(j + 1)) == (if ms[i].params[j].ty == Type::String {
            param_keys(ms[i].params.take(j)).push(KeySpec::Param(ms[i].params[j]))
        } else {
            param_keys(ms[i].params.take(j))
        }),
{
    assert(ms[i].params.take(j + 1).drop_last() =~= ms[i].params.take(j));
}

/// Whether `keys` holds `key`.
fn contains_key(keys: &Vec<TypeKey>, key: &TypeKey) -> (r: bool)
    ensures
        r == keys@.map_values(|k: TypeKey| k@).contains(key@),
{
    let ghost kv = keys@.map_values(|k: TypeKey| k@);
    for i in 0..keys.len()
        invariant
            kv == keys@.map_values(|k: TypeKey| k@),
            forall|k: int| 0 <= k < i ==> kv[k] != key@,
    {
        if keys[i].same_key(key) {
            assert(kv[i as int] == key@);
            return true;
        }
    }
    proof {
        if kv.contains(key@) {
            let k = choose|k: int| 0 <= k < kv.len() && kv[k] == key@;
            assert(kv[k] != key@);
        }
    }
    false
}

/// Adds `key` to `keys` unless it is already there.
fn push_unique(keys: &mut Vec<TypeKey>, key: TypeKey)
    ensures
        final(keys)@.map_values(|k: TypeKey| k@) == (if old(keys)@.map_values(
            |k: TypeKey| k@,
        ).contains(key@) {
            old(keys)@.map_values(|k: TypeKey| k@)
        } else {
            old(keys)@.map_values(|k: TypeKey| k@).push(key@)
        }),
{
    if !contains_key(keys, &key) {
        let ghost before = keys@;
        let ghost kv = key@;
        keys.push(key);
        assert(keys@.map_values(|k: TypeKey| k@) =~= before.map_values(|k: TypeKey| k@).push(kv));
    }
}

/// The keys that get a descriptor, in layout order.
fn collect_keys(interface: &Interface) -> (keys: Vec<TypeKey>)
    ensures
        keys@.map_values(|k: TypeKey| k@) == legacy_keys(interface@.methods),
{
    let ghost ms = interface@.methods;
    let mut keys: Vec<TypeKey> = Vec::new();
    proof {
        assert(keys@.map_values(|k: TypeKey| k@) =~= Seq::<KeySpec>::empty());
        assert(ms.take(0) =~= Seq::<MethodSpec>::empty());
    }
    for i in 0..interface.methods.len()
        invariant
            ms == interface@.methods,
            keys@.map_values(|k: TypeKey| k@) == dedup(interface_keys(ms.take(i as int))),
    {
        let method = &interface.methods[i];
        let ghost before = interface_keys(ms.take(i as int));
        let ghost m = ms[i as int];
        assert(m.params == method.parameters@.map_values(|p: Parameter| p@));
        proof {
            assert(m.params.take(0) =~= Seq::<ParamSpec>::empty());
            assert(before + param_keys(m.params.take(0)) =~= before);
        }
        for j in 0..method.parameters.len()
            invariant
                ms == interface@.methods,
                0 <= i < ms.len(),
                m == ms[i as int],
                before == interface_keys(ms.take(i as int)),
                method@ == m,
                keys@.map_values(|k: TypeKey| k@) == dedup(
                    before + param_keys(m.params.take(j as int)),
                ),
        {
            let param = &method.parameters[j];
            proof {
                lemma_keys_step(ms, i as int, j as int);
            }
            assert(param@ == m.params[j as int]);
            if param.ty == Type::String {
                let key = TypeKey::Parameter(param.duplicate());
                proof {
                    lemma_dedup_push(before + param_keys(m.params.take(j as int)), key@);
                    assert(before + param_keys(m.params.take(j as int)).push(key@) =~= (before
                        + param_keys(m.params.take(j as int))).push(key@));
                }
                push_unique(&mut keys, key);
            }
        }
        proof {
            assert(m.params.take(m.params.len() as int) =~= m.params);
            assert(ms.take(i + 1).drop_last() =~= ms.take(i as int));
        }
        if method.return_type == Some(Type::String) {
            proof {
                lemma_dedup_push(before + param_keys(m.params), KeySpec::ReturnString);
                assert(before + param_keys(m.params).push(KeySpec::ReturnString) =~= (before
                    + param_keys(m.params)).push(KeySpec::ReturnString));
            }
            push_unique(&mut keys, TypeKey::ReturnString);
        }
    }
    proof {
        assert(ms.take(ms.len() as int) =~= ms);
    }
    keys
}

/// Appends the descriptor of `key`.
fn push_descriptor(buf: &mut Vec<u8>, key: &TypeKey)
    ensures
        final(buf)@ == old(buf)@ + legacy_descriptor(key@),
{
    let ghost start = buf@;
    let (is_string, is_in, is_out) = match key {
        TypeKey::Parameter(p) => (p.ty == Type::String, p.is_in, p.is_out),
        TypeKey::ReturnString => (true, false, true),
    };
    if is_string && is_in && !is_out {
        buf.push(FC_RP);
        buf.push(FC_SIMPLE_POINTER);
        buf.push(FC_C_WSTRING);
        buf.push(FC_PAD);
        assert(buf@ =~= start + in_string_descriptor());
    } else if is_string && is_out {
        buf.push(FC_RP);
        buf.push(FC_ALLOCED_ON_STACK_POINTER_DEREF);
        push_u16(buf, 2);
        buf.push(FC_UP);
        buf.push(FC_SIMPLE_POINTER);
        buf.push(FC_C_WSTRING);
        buf.push(FC_PAD);
        assert(buf@ =~= start + out_string_descriptor());
    } else {
        assert(buf@ =~= start + Seq::<u8>::empty());
    }
}

/// Builds the legacy type format string, and the offset of each descriptor
/// in it.
pub fn generate_type_format_string(interface: &Interface) -> (r: (Vec<u8>, Vec<(TypeKey, u16)>))
    requires
        within_wire_limits(interface@),
    ensures
        r.0@ == legacy_type_format(interface@.methods),
        offsets_view(r.1@) == legacy_type_offsets(interface@.methods),
{
    let ghost ms = interface@.methods;
    let keys = collect_keys(interface);
    let ghost ks = legacy_keys(ms);
    proof {
        lemma_dedup_props(interface_keys(ms));
        lemma_interface_keys_len(ms);
        lemma_descriptors_prefix(ks, 0);
        assert(ks.take(0) =~= Seq::<KeySpec>::empty());
    }
    let mut type_format: Vec<u8> = Vec::new();
    type_format.push(0);
    type_format.push(0);
    let mut offsets: Vec<(TypeKey, u16)> = Vec::new();
    proof {
        assert(type_format@ =~= seq![0u8, 0u8] + legacy_descriptors(ks.take(0)));
    }
    for k in 0..keys.len()
        invariant
            ks == legacy_keys(ms),
            ks == keys@.map_values(|key: TypeKey| key@),
            ks.len() <= MAX_TOTAL_SLOTS,
            type_format@ == seq![0u8, 0u8] + legacy_descriptors(ks.take(k as int)),
            offsets_view(offsets@) == Seq::new(
                k as nat,
                |j: int| (ks[j], legacy_key_offset(ks, j) as u16),
            ),
    {
        proof {
            lemma_descriptors_prefix(ks, k as int);
            lemma_descriptors_prefix(ks.take(k + 1), k as int);
            assert(ks.take(k + 1).take(k as int) =~= ks.take(k as int));
        }
        let offset = type_format.len() as u16;
        let entry = match &keys[k] {
            TypeKey::Parameter(p) => TypeKey::Parameter(p.duplicate()),
            TypeKey::ReturnString => TypeKey::ReturnString,
        };
        assert(entry@ == ks[k as int]);
        let ghost before = offsets@;
        offsets.push((entry, offset));
        proof {
            assert(offsets_view(offsets@) =~= offsets_view(before).push((ks[k as int], offset)));
            assert(offsets_view(offsets@) =~= Seq::new(
                (k + 1) as nat,
                |j: int| (ks[j], legacy_key_offset(ks, j) as u16),
            ));
        }
        push_descriptor(&mut type_format, &keys[k]);
        proof {
            assert(type_format@ =~= seq![0u8, 0u8] + legacy_descriptors(ks.take(k + 1)));
        }
    }
    type_format.push(0);
    proof {
        assert(ks.take(ks.len() as int) =~= ks);
        assert(type_format@ =~= legacy_type_format(ms));
        assert(offsets_view(offsets@) =~= legacy_type_offsets(ms));
    }
    (type_format, offsets)
}

/// The offset recorded for `k`: that of the first entry with that key.
pub open spec fn lookup_offset(offs: Seq<(KeySpec, u16)>, k: KeySpec) -> Option<u16>
    decreases offs.len(),
{
    if offs.len() == 0 {
        None
    } else if offs[0].0 == k {
        Some(offs[0].1)
    } else {
        lookup_offset(offs.drop_first(), k)
    }
}

/// The recorded offset of `k`, or zero where there is none.
pub open spec fn offset_or_zero(offs: Seq<(KeySpec, u16)>, k: KeySpec) -> u16 {
    match lookup_offset(offs, k) {
        Some(v) => v,
        None => 0,
    }
}

/// The table has an entry for `k`.
pub open spec fn has_key(offs: Seq<(KeySpec, u16)>, k: KeySpec) -> bool {
    exists|i: int| 0 <= i < offs.len() && #[trigger] offs[i].0 == k
}

/// The table has an entry for every string parameter of every method, and
/// for the string return value if a method returns a string.
pub open spec fn covers_string_types(offs: Seq<(KeySpec, u16)>, ms: Seq<MethodSpec>) -> bool {
    &&& forall|i: int, j: int|
        0 <= i < ms.len() && 0 <= j < ms[i].params.len() && ms[i].params[j].ty == Type::String
            ==> has_key(offs, KeySpec::Param(#[trigger] ms[i].params[j]))
    &&& forall|i: int|
        0 <= i < ms.len() && #[trigger] ms[i].ret == Some(Type::String) ==> has_key(
            offs,
            KeySpec::ReturnString,
        )
}

/// The method has a string parameter.
pub open spec fn has_string_param(m: MethodSpec) -> bool {
    exists|j: int| 0 <= j < m.params.len() && #[trigger] m.params[j].ty == Type::String
}

/// The method returns a string.
pub open spec fn returns_string(m: MethodSpec) -> bool {
    m.ret == Some(Type::String)
}

/// The method returns a fixed-width integer.
pub open spec fn returns_scalar(m: MethodSpec) -> bool {
    match m.ret {
        Some(Type::Simple(_)) => true,
        _ => false,
    }
}

/// Stack bytes of a call: the handle slot, one slot per parameter, and one
/// for a return value.
pub open spec fn legacy_stack_size(m: MethodSpec) -> int {
    STACK_SLOT * (1 + m.params.len() + if m.ret.is_some() {
        1int
    } else {
        0int
    })
}

/// Parameter count of the header: a string return is one more parameter.
pub open spec fn legacy_param_count(m: MethodSpec) -> int {
    m.params.len() + if returns_string(m) {
        1int
    } else {
        0int
    }
}

/// INTERPRETER_OPT_FLAGS of a procedure.
pub open spec fn legacy_oi2_flags(m: MethodSpec) -> u8 {
    OI2_HAS_EXTENSIONS | (if returns_scalar(m) {
        OI2_HAS_RETURN
    } else {
        0u8
    }) | (if has_string_param(m) {
        OI2_CLIENT_MUST_SIZE
    } else {
        0u8
    }) | (if returns_string(m) {
        OI2_SERVER_MUST_SIZE
    } else {
        0u8
    })
}

/// The fixed 30-byte part of a procedure record: header, explicit handle
/// descriptor, buffer sizes, flags, parameter count, and the extension block
/// (with the float/double mask of 64-bit targets).
pub open spec fn legacy_proc_fixed(m: MethodSpec, index: int) -> Seq<u8> {
    seq![0u8, OI_HAS_RPCFLAGS | OI_USE_NEW_INIT_ROUTINES] + le32(0) + le16(index) + le16(
        legacy_stack_size(m),
    ) + seq![FC_BIND_PRIMITIVE, 0u8] + le16(0) + le16(0) + le16(0) + seq![
        legacy_oi2_flags(m),
        legacy_param_count(m) as u8,
    ] + seq![EXTENSION_SIZE, INTERPRETER_OPT_FLAGS2_NEW_CORRELATION_DESCRIPTOR] + le16(0) + le16(
        0,
    ) + le16(0) + le16(0)
}

/// Third field of a parameter entry: the type code of a scalar, or the
/// descriptor offset of a string.
pub open spec fn legacy_type_field(p: ParamSpec, offs: Seq<(KeySpec, u16)>) -> u16 {
    match p.ty {
        Type::Simple(b) => b.fc_code() as u16,
        Type::String => offset_or_zero(offs, KeySpec::Param(p)),
    }
}

/// The 6-byte entry of a parameter at stack offset `slot`.
pub open spec fn legacy_param_entry(p: ParamSpec, slot: int, offs: Seq<(KeySpec, u16)>) -> Seq<
    u8,
> {
    le16(legacy_param_attributes(p) as int) + le16(slot) + le16(legacy_type_field(p, offs) as int)
}

/// Stack offset of the `j`-th parameter: one word past the handle, one word
/// apart.
pub open spec fn legacy_slot(j: int) -> int {
    STACK_SLOT * (j + 1)
}

/// The entries of a list of parameters.
pub open spec fn legacy_param_entries(ps: Seq<ParamSpec>, offs: Seq<(KeySpec, u16)>) -> Seq<u8>
    decreases ps.len(),
{
    if ps.len() == 0 {
        Seq::empty()
    } else {
        legacy_param_entries(ps.drop_last(), offs) + legacy_param_entry(
            ps.last(),
            legacy_slot(ps.len() - 1),
            offs,
        )
    }
}

/// The entry of the return value, if any: a scalar is returned by value, a
/// string through a synthesized `[out]` parameter.
pub open spec fn legacy_return_entry(m: MethodSpec, offs: Seq<(KeySpec, u16)>) -> Seq<u8> {
    match m.ret {
        Some(Type::Simple(b)) => le16(
            (PARAM_ATTRIBUTES_IS_OUT | PARAM_ATTRIBUTES_IS_RETURN
                | PARAM_ATTRIBUTES_IS_BASE_TYPE) as int,
        ) + le16(legacy_slot(m.params.len() as int)) + le16(b.fc_code() as int),
        Some(Type::String) => le16(
            (PARAM_ATTRIBUTES_MUST_SIZE | PARAM_ATTRIBUTES_MUST_FREE | PARAM_ATTRIBUTES_IS_OUT
                | PARAM_ATTRIBUTES_SERVER_ALLOC_SIZE_8) as int,
        ) + le16(legacy_slot(m.params.len() as int)) + le16(
            offset_or_zero(offs, KeySpec::ReturnString) as int,
        ),
        None => Seq::empty(),
    }
}

/// The record of the method with procedure index `index`.
pub open spec fn legacy_proc_record(m: MethodSpec, index: int, offs: Seq<(KeySpec, u16)>) -> Seq<
    u8,
> {
    legacy_proc_fixed(m, index) + legacy_param_entries(m.params, offs) + legacy_return_entry(
        m,
        offs,
    )
}

/// The records of all methods, in method order.
pub open spec fn legacy_procs(ms: Seq<MethodSpec>, offs: Seq<(KeySpec, u16)>) -> Seq<u8>
    decreases ms.len(),
{
    if ms.len() == 0 {
        Seq::empty()
    } else {
        legacy_procs(ms.drop_last(), offs) + legacy_proc_record(ms.last(), ms.len() - 1, offs)
    }
}

/// The procedure format string: all records and a terminating zero byte.
pub open spec fn legacy_proc_header(ms: Seq<MethodSpec>, offs: Seq<(KeySpec, u16)>) -> Seq<u8> {
    legacy_procs(ms, offs) + seq![0u8]
}

/// Where the record of each method starts.
pub open spec fn legacy_proc_offsets(ms: Seq<MethodSpec>, offs: Seq<(KeySpec, u16)>) -> Seq<u16> {
    Seq::new(ms.len(), |i: int| legacy_procs(ms.take(i), offs).len() as u16)
}

pub proof fn lemma_lookup_skip(offs: Seq<(KeySpec, u16)>, k: KeySpec, i: int)
    requires
        0 <= i < offs.len(),
    ensures
        lookup_offset(offs.skip(i), k) == (if offs[i].0 == k {
            Some(offs[i].1)
        } else {
            lookup_offset(offs.skip(i + 1), k)
        }),
{
    assert(offs.skip(i).drop_first() =~= offs.skip(i + 1));
}

/// The parameter entries take six bytes each.
pub proof fn lemma_param_entries_len(ps: Seq<ParamSpec>, offs: Seq<(KeySpec, u16)>)
    ensures
        legacy_param_entries(ps, offs).len() == 6 * ps.len(),
    decreases ps.len(),
{
    if ps.len() > 0 {
        lemma_param_entries_len(ps.drop_last(), offs);
    }
}

/// A record takes 30 bytes, and six per parameter and return value.
pub proof fn lemma_record_len(m: MethodSpec, index: int, offs: Seq<(KeySpec, u16)>)
    ensures
        legacy_proc_record(m, index, offs).len() == 30 + 6 * m.params.len() + if m.ret.is_some() {
            6int
        } else {
            0int
        },
{
    lemma_param_entries_len(m.params, offs);
}

/// The records of a prefix of the methods, and a bound on their length.
pub proof fn lemma_procs_prefix(ms: Seq<MethodSpec>, offs: Seq<(KeySpec, u16)>, i: int)
    requires
        0 <= i < ms.len(),
    ensures
        legacy_procs(ms.take(i + 1), offs) == legacy_procs(ms.take(i), offs) + legacy_proc_record(
            ms[i],
            i,
            offs,
        ),
{
    assert(ms.take(i + 1).drop_last() =~= ms.take(i));
}

pub proof fn lemma_procs_len(ms: Seq<MethodSpec>, offs: Seq<(KeySpec, u16)>)
    ensures
        legacy_procs(ms, offs).len() <= 36 * total_slots(ms),
    decreases ms.len(),
{
    if ms.len() > 0 {
        lemma_procs_len(ms.drop_last(), offs);
        lemma_record_len(ms.last(), ms.len() - 1, offs);
    }
}

/// The offset recorded for `key`.
fn find_offset(offs: &Vec<(TypeKey, u16)>, key: &TypeKey) -> (r: Option<u16>)
    ensures
        r == lookup_offset(offsets_view(offs@), key@),
{
    let ghost ov = offsets_view(offs@);
    proof {
        assert(ov.skip(0) =~= ov);
    }
    for i in 0..offs.len()
        invariant
            ov == offsets_view(offs@),
            lookup_offset(ov, key@) == lookup_offset(ov.skip(i as int), key@),
    {
        proof {
            lemma_lookup_skip(ov, key@, i as int);
        }
        if offs[i].0.same_key(key) {
            return Some(offs[i].1);
        }
    }
    proof {
        assert(ov.skip(ov.len() as int) =~= Seq::<(KeySpec, u16)>::empty());
    }
    None
}

/// Whether the method has a string parameter.
pub fn method_has_string_param(m: &Method) -> (r: bool)
    ensures
        r == has_string_param(m@),
{
    for j in 0..m.parameters.len()
        invariant
            forall|k: int| 0 <= k < j ==> (#[trigger] m@.params[k]).ty != Type::String,
    {
        if m.parameters[j].ty == Type::String {
            assert(m@.params[j as int].ty == Type::String);
            return true;
        }
    }
    false
}

/// Appends the fixed part of the record of `m`.
fn push_proc_fixed(buf: &mut Vec<u8>, m: &Method, index: u16)
    requires
        m@.params.len() <= MAX_PARAMS,
    ensures
        final(buf)@ == old(buf)@ + legacy_proc_fixed(m@, index as int),
{
    let ghost start = buf@;
    let n = m.parameters.len();
    let has_return = m.return_type.is_some();
    let string_return = m.return_type == Some(Type::String);
    let scalar_return = has_return && !string_return;
    let stack_size: u16 = STACK_SLOT * (1 + n as u16 + if has_return {
        1u16
    } else {
        0u16
    });
    let param_count: u8 = n as u8 + if string_return {
        1u8
    } else {
        0u8
    };
    let oi2_flags = OI2_HAS_EXTENSIONS | (if scalar_return {
        OI2_HAS_RETURN
    } else {
        0u8
    }) | (if method_has_string_param(m) {
        OI2_CLIENT_MUST_SIZE
    } else {
        0u8
    }) | (if string_return {
        OI2_SERVER_MUST_SIZE
    } else {
        0u8
    });
    assert(scalar_return == returns_scalar(m@));
    buf.push(0);
    buf.push(OI_HAS_RPCFLAGS | OI_USE_NEW_INIT_ROUTINES);
    push_u32(buf, 0);
    push_u16(buf, index);
    push_u16(buf, stack_size);
    buf.push(FC_BIND_PRIMITIVE);
    buf.push(0);
    push_u16(buf, 0);
    push_u16(buf, 0);
    push_u16(buf, 0);
    buf.push(oi2_flags);
    buf.push(param_count);
    buf.push(EXTENSION_SIZE);
    buf.push(INTERPRETER_OPT_FLAGS2_NEW_CORRELATION_DESCRIPTOR);
    push_u16(buf, 0);
    push_u16(buf, 0);
    push_u16(buf, 0);
    push_u16(buf, 0);
    assert(buf@ =~= start + legacy_proc_fixed(m@, index as int));
}

/// Appends the entries of the parameters of `m`.
fn push_param_entries(buf: &mut Vec<u8>, m: &Method, offs: &Vec<(TypeKey, u16)>)
    requires
        m@.params.len() <= MAX_PARAMS,
    ensures
        final(buf)@ == old(buf)@ + legacy_param_entries(m@.params, offsets_view(offs@)),
{
    let ghost start = buf@;
    let ghost ps = m@.params;
    let ghost ov = offsets_view(offs@);
    proof {
        assert(ps.take(0) =~= Seq::<ParamSpec>::empty());
        assert(buf@ =~= start + legacy_param_entries(ps.take(0), ov));
    }
    for j in 0..m.parameters.len()
        invariant
            ps == m@.params,
            ps.len() <= MAX_PARAMS,
            ov == offsets_view(offs@),
            buf@ == start + legacy_param_entries(ps.take(j as int), ov),
    {
        let p = &m.parameters[j];
        assert(p@ == ps[j as int]);
        let ghost before = buf@;
        push_u16(buf, p.param_attributes());
        push_u16(buf, STACK_SLOT * (j as u16 + 1));
        let field: u16 = match p.ty {
            Type::Simple(b) => b.to_fc_value() as u16,
            Type::String => match find_offset(offs, &TypeKey::Parameter(p.duplicate())) {
                Some(v) => v,
                None => 0,
            },
        };
        push_u16(buf, field);
        proof {
            assert(ps.take(j + 1).drop_last() =~= ps.take(j as int));
            assert(buf@ =~= before + legacy_param_entry(ps[j as int], legacy_slot(j as int), ov));
            assert(buf@ =~= start + legacy_param_entries(ps.take(j + 1), ov));
        }
    }
    proof {
        assert(ps.take(ps.len() as int) =~= ps);
    }
}

/// Appends the entry of the return value of `m`, if any.
fn push_return_entry(buf: &mut Vec<u8>, m: &Method, offs: &Vec<(TypeKey, u16)>)
    requires
        m@.params.len() <= MAX_PARAMS,
    ensures
        final(buf)@ == old(buf)@ + legacy_return_entry(m@, offsets_view(offs@)),
{
    let ghost start = buf@;
    let slot: u16 = STACK_SLOT * (m.parameters.len() as u16 + 1);
    match m.return_type {
        Some(Type::Simple(b)) => {
            push_u16(
                buf,
                PARAM_ATTRIBUTES_IS_OUT | PARAM_ATTRIBUTES_IS_RETURN | PARAM_ATTRIBUTES_IS_BASE_TYPE,
            );
            push_u16(buf, slot);
            push_u16(buf, b.to_fc_value() as u16);
        },
        Some(Type::String) => {
            push_u16(
                buf,
                PARAM_ATTRIBUTES_MUST_SIZE | PARAM_ATTRIBUTES_MUST_FREE | PARAM_ATTRIBUTES_IS_OUT
                    | PARAM_ATTRIBUTES_SERVER_ALLOC_SIZE_8,
            );
            push_u16(buf, slot);
            let field = match find_offset(offs, &TypeKey::ReturnString) {
                Some(v) => v,
                None => 0,
            };
            push_u16(buf, field);
        },
        None => {},
    }
    assert(buf@ =~= start + legacy_return_entry(m@, offsets_view(offs@)));
}

/// Builds the legacy procedure format string, and the offset of each
/// method's record in it.
pub fn generate_proc_header(interface: &Interface, type_offsets: &Vec<(TypeKey, u16)>) -> (r: (
    Vec<u8>,
    Vec<u16>,
))
    requires
        within_wire_limits(interface@),
        covers_string_types(offsets_view(type_offsets@), interface@.methods),
    ensures
        r.0@ == legacy_proc_header(interface@.methods, offsets_view(type_offsets@)),
        r.1@ == legacy_proc_offsets(interface@.methods, offsets_view(type_offsets@)),
{
    let ghost ms = interface@.methods;
    let ghost ov = offsets_view(type_offsets@);
    let mut header: Vec<u8> = Vec::new();
    let mut proc_offsets: Vec<u16> = Vec::new();
    proof {
        assert(ms.take(0) =~= Seq::<MethodSpec>::empty());
        assert(header@ =~= legacy_procs(ms.take(0), ov));
    }
    for i in 0..interface.methods.len()
        invariant
            ms == interface@.methods,
            ov == offsets_view(type_offsets@),
            within_wire_limits(interface@),
            header@ == legacy_procs(ms.take(i as int), ov),
            proc_offsets@ == Seq::new(i as nat, |k: int| legacy_procs(ms.take(k), ov).len() as u16),
    {
        let method = &interface.methods[i];
        assert(method@ == ms[i as int]);
        assert(method@.params.len() <= MAX_PARAMS);
        proof {
            lemma_procs_len(ms.take(i as int), ov);
            crate::types::lemma_total_slots_prefix(ms, i as int);
            crate::types::lemma_total_slots_bounds(ms);
            lemma_procs_prefix(ms, ov, i as int);
        }
        let ghost before = proc_offsets@;
        proc_offsets.push(header.len() as u16);
        assert(proc_offsets@ =~= Seq::new(
            (i + 1) as nat,
            |k: int| legacy_procs(ms.take(k), ov).len() as u16,
        ));
        push_proc_fixed(&mut header, method, i as u16);
        push_param_entries(&mut header, method, type_offsets);
        push_return_entry(&mut header, method, type_offsets);
        assert(header@ =~= legacy_procs(ms.take(i + 1), ov));
    }
    header.push(0);
    proof {
        assert(ms.take(ms.len() as int) =~= ms);
        assert(header@ =~= legacy_proc_header(ms, ov));
        assert(proc_offsets@ =~= legacy_proc_offsets(ms, ov));
    }
    (header, proc_offsets)
}

/// Every legacy type format string ends in its terminating zero byte after
/// a 2-byte pad, and every recorded offset is an index inside it: the
/// descriptor recorded there lies wholly before the terminator.
pub proof fn lemma_type_format_well_formed(ms: Seq<MethodSpec>)
    requires
        total_slots(ms) <= MAX_TOTAL_SLOTS,
    ensures
        legacy_type_format(ms).len() >= 3,
        legacy_type_format(ms).last() == 0,
        forall|k: int|
            0 <= k < legacy_type_offsets(ms).len() ==> {
                let off = (#[trigger] legacy_type_offsets(ms)[k]).1 as int;
                &&& 2 <= off < legacy_type_format(ms).len()
                &&& off + legacy_descriptor(legacy_type_offsets(ms)[k].0).len()
                    <= legacy_type_format(ms).len() - 1
            },
{
    let ks = legacy_keys(ms);
    lemma_dedup_props(interface_keys(ms));
    lemma_interface_keys_len(ms);
    lemma_descriptors_prefix(ks, 0);
    assert forall|k: int| 0 <= k < legacy_type_offsets(ms).len() implies {
        let off = (#[trigger] legacy_type_offsets(ms)[k]).1 as int;
        &&& 2 <= off < legacy_type_format(ms).len()
        &&& off + legacy_descriptor(legacy_type_offsets(ms)[k].0).len()
            <= legacy_type_format(ms).len() - 1
    } by {
        lemma_descriptors_prefix(ks, k);
        lemma_descriptors_prefix(ks, k + 1);
        lemma_descriptors_prefix(ks.take(k + 1), k);
        assert(ks.take(k + 1).take(k) =~= ks.take(k));
    }
}

/// The entry of the `j`-th parameter occupies bytes `6j .. 6j + 6` of the
/// parameter entries.
pub proof fn lemma_param_entry_at(ps: Seq<ParamSpec>, offs: Seq<(KeySpec, u16)>, j: int)
    requires
        0 <= j < ps.len(),
    ensures
        legacy_param_entries(ps, offs).subrange(6 * j, 6 * j + 6) == legacy_param_entry(
            ps[j],
            legacy_slot(j),
            offs,
        ),
    decreases ps.len(),
{
    let front = legacy_param_entries(ps.drop_last(), offs);
    lemma_param_entries_len(ps.drop_last(), offs);
    if j < ps.len() - 1 {
        lemma_param_entry_at(ps.drop_last(), offs, j);
        assert(legacy_param_entries(ps, offs).subrange(6 * j, 6 * j + 6) =~= front.subrange(
            6 * j,
            6 * j + 6,
        ));
    } else {
        assert(legacy_param_entries(ps, offs).subrange(6 * j, 6 * j + 6) =~= legacy_param_entry(
            ps.last(),
            legacy_slot(j),
            offs,
        ));
    }
}

/// For a method with N parameters and a scalar return, the legacy record
/// reserves exactly N + 1 stack slots past the implicit handle: the stack
/// size is one word for the handle and N + 1 more, and the entry of the
/// `j`-th parameter (the return value for `j = N`) holds stack offset
/// `8 (j + 1)`, so the offsets rise strictly, one word apart.
pub proof fn lemma_scalar_return_stack_layout(m: MethodSpec, index: int, offs: Seq<(KeySpec, u16)>)
    requires
        returns_scalar(m),
    ensures
        legacy_stack_size(m) == STACK_SLOT * (m.params.len() + 2),
        legacy_proc_record(m, index, offs).subrange(8, 10) == le16(legacy_stack_size(m)),
        legacy_proc_record(m, index, offs).len() == 30 + 6 * (m.params.len() + 1),
        forall|j: int|
            0 <= j <= m.params.len() ==> #[trigger] legacy_proc_record(m, index, offs).subrange(
                30 + 6 * j + 2,
                30 + 6 * j + 4,
            ) == le16(legacy_slot(j)),
        forall|j: int|
            0 <= j < m.params.len() ==> legacy_slot(j + 1) == #[trigger] legacy_slot(j)
                + STACK_SLOT,
{
    let fixed = legacy_proc_fixed(m, index);
    let entries = legacy_param_entries(m.params, offs);
    let ret = legacy_return_entry(m, offs);
    let rec = legacy_proc_record(m, index, offs);
    let n = m.params.len() as int;
    lemma_param_entries_len(m.params, offs);
    lemma_record_len(m, index, offs);
    assert(fixed.len() == 30);
    assert(rec.subrange(8, 10) =~= fixed.subrange(8, 10));
    assert(fixed.subrange(8, 10) =~= le16(legacy_stack_size(m)));
    assert forall|j: int| 0 <= j <= n implies #[trigger] rec.subrange(
        30 + 6 * j + 2,
        30 + 6 * j + 4,
    ) == le16(legacy_slot(j)) by {
        if j < n {
            lemma_param_entry_at(m.params, offs, j);
            assert(rec.subrange(30 + 6 * j + 2, 30 + 6 * j + 4) =~= entries.subrange(
                6 * j,
                6 * j + 6,
            ).subrange(2, 4));
            assert(legacy_param_entry(m.params[j], legacy_slot(j), offs).subrange(2, 4)
                =~= le16(legacy_slot(j)));
        } else {
            assert(rec.subrange(30 + 6 * j + 2, 30 + 6 * j + 4) =~= ret.subrange(2, 4));
            assert(ret.subrange(2, 4) =~= le16(legacy_slot(n)));
        }
    }
}

} // verus!
