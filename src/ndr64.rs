//! The 64-bit (NDR64) wire revision: the type format buffer, type offsets,
//! the procedure buffer, and the pointer records of a string return value.
use vstd::prelude::*;

use crate::bytes::{le16, le32, le64, push_u16, push_u32, push_u64};
use crate::constants::{
    NDR64_EXTENSION_SIZE, NDR64_FC_BIND_PRIMITIVE, NDR64_FC_CONF_WCHAR_STRING, NDR64_FC_RP,
    NDR64_FC_UP, NDR64_IS_BASE_TYPE, NDR64_IS_BY_VALUE, NDR64_IS_OUT, NDR64_IS_RETURN,
    NDR64_MUST_FREE, NDR64_MUST_SIZE, NDR64_PROC_BASE_FLAGS, NDR64_PROC_CLIENT_MUST_SIZE,
    NDR64_PROC_HAS_RETURN, NDR64_PROC_IS_INTERPRETED, NDR64_PROC_SERVER_MUST_SIZE,
    NDR64_USE_CACHE, NDR64_WCHAR_SIZE, STACK_SLOT, FC_ALLOCED_ON_STACK_POINTER_DEREF,
};
use crate::ndr::{has_string_param, method_has_string_param, returns_scalar, returns_string};
use crate::types::{
    ndr64_param_attributes_of, total_slots, within_wire_limits, Interface, Method, MethodSpec,
    ParamSpec, Type, MAX_PARAMS, MAX_TOTAL_SLOTS,
};
use crate::unique::{dedup, lemma_dedup_props, lemma_dedup_push};

verus! {

/// The types a method uses: its parameters' types in order, then its
/// return type.
pub open spec fn method_types(m: MethodSpec) -> Seq<Type> {
    let ps = m.params.map_values(|p: ParamSpec| p.ty);
    match m.ret {
        Some(t) => ps.push(t),
        None => ps,
    }
}

/// The types all methods use, in method order, with repetitions.
pub open spec fn interface_types(ms: Seq<MethodSpec>) -> Seq<Type>
    decreases ms.len(),
{
    if ms.len() == 0 {
        Seq::empty()
    } else {
        interface_types(ms.drop_last()) + method_types(ms.last())
    }
}

/// Each type the interface uses, once, in the order of first use.
pub open spec fn unique_types_of(ms: Seq<MethodSpec>) -> Seq<Type> {
    dedup(interface_types(ms))
}

/// The record of one type: one code byte for an integer; code, flags and
/// a 2-byte element size for a wide string.
pub open spec fn ndr64_type_entry(t: Type) -> Seq<u8> {
    match t {
        Type::String => seq![NDR64_FC_CONF_WCHAR_STRING, 0u8] + le16(NDR64_WCHAR_SIZE as int),
        Type::Simple(b) => seq![b.ndr64_fc_code()],
    }
}

/// The records of a list of types, laid end to end.
pub open spec fn ndr64_type_entries(ts: Seq<Type>) -> Seq<u8>
    decreases ts.len(),
{
    if ts.len() == 0 {
        Seq::empty()
    } else {
        ndr64_type_entries(ts.drop_last()) + ndr64_type_entry(ts.last())
    }
}

/// The NDR64 type format buffer.
pub open spec fn ndr64_type_format(ms: Seq<MethodSpec>) -> Seq<u8> {
    ndr64_type_entries(unique_types_of(ms))
}

/// Offset of the record of `t` in the type format buffer; zero for a type
/// the interface does not use.
pub open spec fn ndr64_type_offset(ms: Seq<MethodSpec>, t: Type) -> int {
    let ts = unique_types_of(ms);
    if ts.contains(t) {
        ndr64_type_entries(ts.take(ts.index_of(t))).len() as int
    } else {
        0
    }
}

pub proof fn lemma_type_entries_prefix(ts: Seq<Type>, k: int)
    requires
        0 <= k <= ts.len(),
    ensures
        ndr64_type_entries(ts.take(k)).len() <= ndr64_type_entries(ts).len(),
        ndr64_type_entries(ts).len() <= 4 * ts.len(),
        k < ts.len() ==> ndr64_type_entries(ts.take(k + 1)) == ndr64_type_entries(ts.take(k))
            + ndr64_type_entry(ts[k]),
    decreases ts.len(),
{
    if ts.len() > 0 {
        if k < ts.len() {
            assert(ts.take(k + 1).drop_last() =~= ts.take(k));
            lemma_type_entries_prefix(ts.drop_last(), k);
            assert(ts.drop_last().take(k) =~= ts.take(k));
        } else {
            lemma_type_entries_prefix(ts.drop_last(), k - 1);
            assert(ts.take(k) =~= ts);
        }
    } else {
        assert(ts.take(k) =~= ts);
    }
}

pub proof fn lemma_interface_types_len(ms: Seq<MethodSpec>)
    ensures
        interface_types(ms).len() <= total_slots(ms),
    decreases ms.len(),
{
    if ms.len() > 0 {
        lemma_interface_types_len(ms.drop_last());
    }
}

/// Whether `types` holds `t`.
fn contains_type(types: &Vec<Type>, t: Type) -> (r: bool)
    ensures
        r == types@.contains(t),
{
    for i in 0..types.len()
        invariant
            forall|k: int| 0 <= k < i ==> types@[k] != t,
    {
        if types[i] == t {
            assert(types@[i as int] == t);
            return true;
        }
    }
    false
}

/// Adds `t` to `types` unless it is already there.
fn push_unique_type(types: &mut Vec<Type>, t: Type)
    ensures
        final(types)@ == (if old(types)@.contains(t) {
            old(types)@
        } else {
            old(types)@.push(t)
        }),
{
    if !contains_type(types, t) {
        types.push(t);
    }
}

impl Interface {
    /// Each type the interface uses, parameters and return values alike,
    /// once, in the order of first use.
    pub fn unique_types(&self) -> (r: Vec<Type>)
        ensures
            r@ == unique_types_of(self@.methods),
    {
        let ghost ms = self@.methods;
        let mut types: Vec<Type> = Vec::new();
        proof {
            assert(ms.take(0) =~= Seq::<MethodSpec>::empty());
        }
        for i in 0..self.methods.len()
            invariant
                ms == self@.methods,
                types@ == dedup(interface_types(ms.take(i as int))),
        {
            let method = &self.methods[i];
            let ghost before = interface_types(ms.take(i as int));
            let ghost m = ms[i as int];
            let ghost pts = m.params.map_values(|p: ParamSpec| p.ty);
            assert(m == method@);
            proof {
                assert(before + pts.take(0) =~= before);
            }
            for j in 0..method.parameters.len()
                invariant
                    ms == self@.methods,
                    0 <= i < ms.len(),
                    m == ms[i as int],
                    method@ == m,
                    pts == m.params.map_values(|p: ParamSpec| p.ty),
                    before == interface_types(ms.take(i as int)),
                    types@ == dedup(before + pts.take(j as int)),
            {
                let t = method.parameters[j].ty;
                assert(t == pts[j as int]);
                proof {
                    lemma_dedup_push(before + pts.take(j as int), t);
                    assert((before + pts.take(j as int)).push(t) =~= before + pts.take(j + 1));
                }
                push_unique_type(&mut types, t);
            }
            proof {
                assert(pts.take(pts.len() as int) =~= pts);
                assert(ms.take(i + 1).drop_last() =~= ms.take(i as int));
            }
            match method.return_type {
                Some(t) => {
                    proof {
                        lemma_dedup_push(before + pts, t);
                        assert((before + pts).push(t) =~= before + method_types(m));
                    }
                    push_unique_type(&mut types, t);
                },
                None => {
                    assert(before + pts =~= before + method_types(m));
                },
            }
        }
        proof {
            assert(ms.take(ms.len() as int) =~= ms);
        }
        types
    }
}

/// Builds the NDR64 type format buffer: one record per unique type.
pub fn generate_ndr64_type_format(interface: &Interface) -> (r: Vec<u8>)
    requires
        within_wire_limits(interface@),
    ensures
        r@ == ndr64_type_format(interface@.methods),
{
    let ghost ms = interface@.methods;
    let types = interface.unique_types();
    let ghost ts = types@;
    let mut type_format: Vec<u8> = Vec::new();
    proof {
        assert(ts.take(0) =~= Seq::<Type>::empty());
    }
    for k in 0..types.len()
        invariant
            ts == types@,
            type_format@ == ndr64_type_entries(ts.take(k as int)),
    {
        let ghost before = type_format@;
        proof {
            assert(ts.take(k + 1).drop_last() =~= ts.take(k as int));
        }
        match types[k] {
            Type::String => {
                type_format.push(NDR64_FC_CONF_WCHAR_STRING);
                type_format.push(0);
                push_u16(&mut type_format, NDR64_WCHAR_SIZE);
            },
            Type::Simple(b) => {
                type_format.push(b.to_ndr64_fc_value());
            },
        }
        assert(type_format@ =~= before + ndr64_type_entry(ts[k as int]));
    }
    proof {
        assert(ts.take(ts.len() as int) =~= ts);
    }
    type_format
}

/// Offset of the record of `t` among the records of `types`, which holds
/// each type once.
fn type_offset_in(types: &Vec<Type>, t: Type) -> (r: usize)
    requires
        types@.len() <= MAX_TOTAL_SLOTS,
        forall|i: int, j: int| 0 <= i < j < types@.len() ==> types@[i] != types@[j],
    ensures
        r == (if types@.contains(t) {
            ndr64_type_entries(types@.take(types@.index_of(t))).len() as int
        } else {
            0int
        }),
{
    let ghost ts = types@;
    let mut offset: usize = 0;
    proof {
        assert(ts.take(0) =~= Seq::<Type>::empty());
    }
    for i in 0..types.len()
        invariant
            ts == types@,
            ts.len() <= MAX_TOTAL_SLOTS,
            forall|a: int, b: int| 0 <= a < b < ts.len() ==> ts[a] != ts[b],
            forall|k: int| 0 <= k < i ==> ts[k] != t,
            offset == ndr64_type_entries(ts.take(i as int)).len(),
    {
        proof {
            lemma_type_entries_prefix(ts, i as int);
            lemma_type_entries_prefix(ts.take(i + 1), i as int);
            assert(ts.take(i + 1).take(i as int) =~= ts.take(i as int));
        }
        if types[i] == t {
            proof {
                assert(ts.contains(t));
                let k = ts.index_of(t);
                assert(ts[k] == t);
                assert(k == i);
            }
            return offset;
        }
        offset = offset + match types[i] {
            Type::String => 4usize,
            Type::Simple(_) => 1usize,
        };
    }
    proof {
        if ts.contains(t) {
            let k = ts.index_of(t);
            assert(ts[k] != t);
        }
    }
    0
}

/// Offset of the record of `t` in the type format buffer; zero for a type
/// the interface does not use.
pub fn compute_type_offset(interface: &Interface, target_type: &Type) -> (r: usize)
    requires
        within_wire_limits(interface@),
    ensures
        r == ndr64_type_offset(interface@.methods, *target_type),
{
    let types = interface.unique_types();
    proof {
        lemma_dedup_props(interface_types(interface@.methods));
        lemma_interface_types_len(interface@.methods);
    }
    type_offset_in(&types, *target_type)
}

/// Whether any method returns a string.
pub open spec fn any_string_return(ms: Seq<MethodSpec>) -> bool {
    exists|i: int| 0 <= i < ms.len() && returns_string(#[trigger] ms[i])
}

/// Whether any method of the interface returns a string.
pub fn has_string_return(interface: &Interface) -> (r: bool)
    ensures
        r == any_string_return(interface@.methods),
{
    for i in 0..interface.methods.len()
        invariant
            forall|k: int| 0 <= k < i ==> !returns_string(#[trigger] interface@.methods[k]),
    {
        if interface.methods[i].return_type == Some(Type::String) {
            assert(returns_string(interface@.methods[i as int]));
            return true;
        }
    }
    false
}

/// Parameter count of a procedure, a return value included.
pub open spec fn ndr64_param_count(m: MethodSpec) -> int {
    m.params.len() + if m.ret.is_some() {
        1int
    } else {
        0int
    }
}

/// Procedure flags.
pub open spec fn ndr64_proc_flags(m: MethodSpec) -> u32 {
    NDR64_PROC_BASE_FLAGS | (if returns_scalar(m) {
        NDR64_PROC_HAS_RETURN
    } else {
        0u32
    }) | (if has_string_param(m) {
        NDR64_PROC_CLIENT_MUST_SIZE
    } else {
        0u32
    }) | (if returns_string(m) {
        NDR64_PROC_IS_INTERPRETED | NDR64_PROC_SERVER_MUST_SIZE
    } else {
        0u32
    })
}

/// Constant client buffer size: zero when a string must be sized at call
/// time, else one word per parameter.
pub open spec fn ndr64_client_buffer_size(m: MethodSpec) -> int {
    if has_string_param(m) {
        0
    } else {
        STACK_SLOT * m.params.len()
    }
}

/// Constant server buffer size: zero for a string return, else one word,
/// and one more for a scalar return.
pub open spec fn ndr64_server_buffer_size(m: MethodSpec) -> int {
    if returns_string(m) {
        0
    } else {
        STACK_SLOT + if returns_scalar(m) {
            STACK_SLOT as int
        } else {
            0int
        }
    }
}

/// The 24-byte procedure format record.
pub open spec fn ndr64_proc_format(m: MethodSpec) -> Seq<u8> {
    le32(ndr64_proc_flags(m) as int) + le32(STACK_SLOT * (1 + ndr64_param_count(m))) + le32(
        ndr64_client_buffer_size(m),
    ) + le32(ndr64_server_buffer_size(m)) + le16(0) + le16(0) + le16(ndr64_param_count(m))
        + le16(NDR64_EXTENSION_SIZE as int)
}

/// The 8-byte bind-and-notify extension: a primitive handle in the first
/// stack slot, no notify routine.
pub open spec fn ndr64_bind_extension() -> Seq<u8> {
    seq![NDR64_FC_BIND_PRIMITIVE, 0u8] + le16(0) + seq![0u8, 0u8] + le16(0)
}

/// The 16-byte parameter format record.
pub open spec fn ndr64_param_format(type_addr: int, attributes: u16, slot: int) -> Seq<u8> {
    le64(type_addr) + le16(attributes as int) + le16(0) + le32(slot)
}

/// The parameter format records of `ps`, whose types are laid out in the
/// type format buffer of `ms` at `base`.
pub open spec fn ndr64_param_formats(ps: Seq<ParamSpec>, ms: Seq<MethodSpec>, base: int) -> Seq<u8>
    decreases ps.len(),
{
    if ps.len() == 0 {
        Seq::empty()
    } else {
        ndr64_param_formats(ps.drop_last(), ms, base) + ndr64_param_format(
            base + ndr64_type_offset(ms, ps.last().ty),
            ndr64_param_attributes_of(ps.last()),
            STACK_SLOT * ps.len(),
        )
    }
}

/// The parameter format record of the return value, if any; a string
/// return points at the pointer chain at `chain`.
pub open spec fn ndr64_return_format(m: MethodSpec, ms: Seq<MethodSpec>, base: int, chain: int) -> Seq<
    u8,
> {
    let slot = STACK_SLOT * (m.params.len() + 1);
    match m.ret {
        Some(Type::Simple(b)) => ndr64_param_format(
            base + ndr64_type_offset(ms, Type::Simple(b)),
            NDR64_IS_OUT | NDR64_IS_RETURN | NDR64_IS_BASE_TYPE | NDR64_IS_BY_VALUE,
            slot,
        ),
        Some(Type::String) => ndr64_param_format(
            chain,
            NDR64_MUST_SIZE | NDR64_MUST_FREE | NDR64_IS_OUT | NDR64_USE_CACHE,
            slot,
        ),
        None => Seq::empty(),
    }
}

/// Everything the procedure buffer holds for one method.
pub open spec fn ndr64_proc_record(m: MethodSpec, ms: Seq<MethodSpec>, base: int, chain: int) -> Seq<
    u8,
> {
    ndr64_proc_format(m) + ndr64_bind_extension() + ndr64_param_formats(m.params, ms, base)
        + ndr64_return_format(m, ms, base, chain)
}

/// The records of the methods `ps`, a prefix of `ms`, laid end to end.
pub open spec fn ndr64_procs(ps: Seq<MethodSpec>, ms: Seq<MethodSpec>, base: int, chain: int) -> Seq<
    u8,
>
    decreases ps.len(),
{
    if ps.len() == 0 {
        Seq::empty()
    } else {
        ndr64_procs(ps.drop_last(), ms, base, chain) + ndr64_proc_record(ps.last(), ms, base, chain)
    }
}

/// The procedure buffer of the interface.
pub open spec fn ndr64_proc_buffer(ms: Seq<MethodSpec>, base: int, chain: int) -> Seq<u8> {
    ndr64_procs(ms, ms, base, chain)
}

/// Where the record of each method starts in the procedure buffer.
pub open spec fn ndr64_proc_offsets(ms: Seq<MethodSpec>, base: int, chain: int) -> Seq<usize> {
    Seq::new(ms.len(), |i: int| ndr64_procs(ms.take(i), ms, base, chain).len() as usize)
}

pub proof fn lemma_ndr64_procs_prefix(ms: Seq<MethodSpec>, base: int, chain: int, i: int)
    requires
        0 <= i < ms.len(),
    ensures
        ndr64_procs(ms.take(i + 1), ms, base, chain) == ndr64_procs(ms.take(i), ms, base, chain)
            + ndr64_proc_record(ms[i], ms, base, chain),
{
    assert(ms.take(i + 1).drop_last() =~= ms.take(i));
}

/// An offset in the type format buffer is at most its length.
pub proof fn lemma_type_offset_bound(ms: Seq<MethodSpec>, t: Type)
    ensures
        0 <= ndr64_type_offset(ms, t) <= ndr64_type_format(ms).len(),
{
    let ts = unique_types_of(ms);
    if ts.contains(t) {
        let k = ts.index_of(t);
        lemma_type_entries_prefix(ts, k);
    }
}

/// Appends the fields of a procedure format record.
fn push_proc_fields(buf: &mut Vec<u8>, flags: u32, stack_size: u32, client_size: u32, server_size: u32, count: u16)
    ensures
        final(buf)@ == old(buf)@ + (le32(flags as int) + le32(stack_size as int) + le32(client_size as int)
            + le32(server_size as int) + le16(0) + le16(0) + le16(count as int) + le16(NDR64_EXTENSION_SIZE as int)),
{
    let ghost start = buf@;
    push_u32(buf, flags);
    push_u32(buf, stack_size);
    push_u32(buf, client_size);
    push_u32(buf, server_size);
    push_u16(buf, 0);
    push_u16(buf, 0);
    push_u16(buf, count);
    push_u16(buf, NDR64_EXTENSION_SIZE);
    assert(buf@ =~= start + (le32(flags as int) + le32(stack_size as int) + le32(client_size as int)
        + le32(server_size as int) + le16(0) + le16(0) + le16(count as int) + le16(NDR64_EXTENSION_SIZE as int)));
}

/// Appends the bind-and-notify extension.
fn push_bind_extension(buf: &mut Vec<u8>)
    ensures
        final(buf)@ == old(buf)@ + ndr64_bind_extension(),
{
    let ghost start = buf@;
    buf.push(NDR64_FC_BIND_PRIMITIVE);
    buf.push(0);
    push_u16(buf, 0);
    buf.push(0);
    buf.push(0);
    push_u16(buf, 0);
    assert(buf@ =~= start + ndr64_bind_extension());
}

/// Appends the procedure format record and bind extension of `m`.
fn push_proc_format(buf: &mut Vec<u8>, m: &Method)
    requires
        m@.params.len() <= MAX_PARAMS,
    ensures
        final(buf)@ == old(buf)@ + ndr64_proc_format(m@) + ndr64_bind_extension(),
{
    let ghost start = buf@;
    assert(m.parameters@.len() == m@.params.len());
    let n = m.parameters.len() as u32;
    assert(n <= MAX_PARAMS);
    let string_param = method_has_string_param(m);
    let string_return = m.return_type == Some(Type::String);
    let scalar_return = m.return_type.is_some() && !string_return;
    assert(scalar_return == returns_scalar(m@));
    let count: u32 = n + if m.return_type.is_some() {
        1u32
    } else {
        0u32
    };
    let flags = NDR64_PROC_BASE_FLAGS | (if scalar_return {
        NDR64_PROC_HAS_RETURN
    } else {
        0u32
    }) | (if string_param {
        NDR64_PROC_CLIENT_MUST_SIZE
    } else {
        0u32
    }) | (if string_return {
        NDR64_PROC_IS_INTERPRETED | NDR64_PROC_SERVER_MUST_SIZE
    } else {
        0u32
    });
    let client_size: u32 = if string_param {
        0
    } else {
        STACK_SLOT as u32 * n
    };
    let server_size: u32 = if string_return {
        0
    } else {
        STACK_SLOT as u32 + if scalar_return {
            STACK_SLOT as u32
        } else {
            0u32
        }
    };
    push_proc_fields(buf, flags, STACK_SLOT as u32 * (1 + count), client_size, server_size, count as u16);
    push_bind_extension(buf);
    assert(buf@ =~= start + ndr64_proc_format(m@) + ndr64_bind_extension());
}

/// Appends one parameter format record.
fn push_param_format(buf: &mut Vec<u8>, type_addr: u64, attributes: u16, slot: u32)
    ensures
        final(buf)@ == old(buf)@ + ndr64_param_format(type_addr as int, attributes, slot as int),
{
    let ghost start = buf@;
    push_u64(buf, type_addr);
    push_u16(buf, attributes);
    push_u16(buf, 0);
    push_u32(buf, slot);
    assert(buf@ =~= start + ndr64_param_format(type_addr as int, attributes, slot as int));
}

/// Appends the parameter and return format records of `m`.
#[verifier::rlimit(40)]
fn push_param_formats(
    buf: &mut Vec<u8>,
    m: &Method,
    types: &Vec<Type>,
    type_format_addr: u64,
    out_string_chain_addr: u64,
    Ghost(ms): Ghost<Seq<MethodSpec>>,
)
    requires
        m@.params.len() <= MAX_PARAMS,
        types@ == unique_types_of(ms),
        types@.len() <= MAX_TOTAL_SLOTS,
        forall|i: int, j: int| 0 <= i < j < types@.len() ==> types@[i] != types@[j],
        type_format_addr + ndr64_type_format(ms).len() <= u64::MAX,
    ensures
        final(buf)@ == old(buf)@ + ndr64_param_formats(m@.params, ms, type_format_addr as int)
            + ndr64_return_format(
            m@,
            ms,
            type_format_addr as int,
            out_string_chain_addr as int,
        ),
{
    let ghost start = buf@;
    let ghost ps = m@.params;
    let ghost base = type_format_addr as int;
    proof {
        assert(ps.take(0) =~= Seq::<ParamSpec>::empty());
        assert(buf@ =~= start + ndr64_param_formats(ps.take(0), ms, base));
    }
    for j in 0..m.parameters.len()
        invariant
            ps == m@.params,
            ps.len() <= MAX_PARAMS,
            base == type_format_addr as int,
            types@ == unique_types_of(ms),
            types@.len() <= MAX_TOTAL_SLOTS,
            forall|a: int, b: int| 0 <= a < b < types@.len() ==> types@[a] != types@[b],
            type_format_addr + ndr64_type_format(ms).len() <= u64::MAX,
            buf@ == start + ndr64_param_formats(ps.take(j as int), ms, base),
    {
        let p = &m.parameters[j];
        assert(p@ == ps[j as int]);
        let offset = type_offset_in(types, p.ty);
        assert(offset == ndr64_type_offset(ms, ps[j as int].ty));
        proof {
            lemma_type_offset_bound(ms, p.ty);
            assert(ps.take(j + 1).drop_last() =~= ps.take(j as int));
        }
        let ghost before = buf@;
        let ghost record = ndr64_param_format(
            base + ndr64_type_offset(ms, ps[j as int].ty),
            ndr64_param_attributes_of(ps[j as int]),
            STACK_SLOT * (j + 1),
        );
        push_param_format(
            buf,
            type_format_addr + offset as u64,
            p.ndr64_param_attributes(),
            STACK_SLOT as u32 * (j as u32 + 1),
        );
        assert(buf@ == before + record);
        assert(ndr64_param_formats(ps.take(j + 1), ms, base) == ndr64_param_formats(
            ps.take(j as int),
            ms,
            base,
        ) + record);
        assert(buf@ =~= start + ndr64_param_formats(ps.take(j + 1), ms, base));
    }
    proof {
        assert(ps.take(ps.len() as int) =~= ps);
    }
    let ghost mid = buf@;
    let slot: u32 = STACK_SLOT as u32 * (m.parameters.len() as u32 + 1);
    match m.return_type {
        Some(Type::Simple(b)) => {
            let offset = type_offset_in(types, Type::Simple(b));
            proof {
                lemma_type_offset_bound(ms, Type::Simple(b));
            }
            push_param_format(
                buf,
                type_format_addr + offset as u64,
                NDR64_IS_OUT | NDR64_IS_RETURN | NDR64_IS_BASE_TYPE | NDR64_IS_BY_VALUE,
                slot,
            );
        },
        Some(Type::String) => {
            push_param_format(
                buf,
                out_string_chain_addr,
                NDR64_MUST_SIZE | NDR64_MUST_FREE | NDR64_IS_OUT | NDR64_USE_CACHE,
                slot,
            );
        },
        None => {},
    }
    assert(buf@ =~= mid + ndr64_return_format(m@, ms, base, out_string_chain_addr as int));
}

/// Appends everything the procedure buffer holds for `m`.
fn push_proc_record(
    buf: &mut Vec<u8>,
    m: &Method,
    types: &Vec<Type>,
    type_format_addr: u64,
    out_string_chain_addr: u64,
    Ghost(ms): Ghost<Seq<MethodSpec>>,
)
    requires
        m@.params.len() <= MAX_PARAMS,
        types@ == unique_types_of(ms),
        types@.len() <= MAX_TOTAL_SLOTS,
        forall|i: int, j: int| 0 <= i < j < types@.len() ==> types@[i] != types@[j],
        type_format_addr + ndr64_type_format(ms).len() <= u64::MAX,
    ensures
        final(buf)@ == old(buf)@ + ndr64_proc_record(
            m@,
            ms,
            type_format_addr as int,
            out_string_chain_addr as int,
        ),
{
    let ghost start = buf@;
    push_proc_format(buf, m);
    let ghost mid = buf@;
    push_param_formats(buf, m, types, type_format_addr, out_string_chain_addr, Ghost(ms));
    assert(buf@ =~= start + ndr64_proc_record(
        m@,
        ms,
        type_format_addr as int,
        out_string_chain_addr as int,
    ));
}

/// Builds the NDR64 procedure buffer, one contiguous allocation for all
/// methods, and the offset of each method's records in it. The type format
/// buffer lies at `type_format_addr`; the pointer chain of a string return
/// value lies at `out_string_chain_addr`.
pub fn generate_ndr64_proc_data(
    interface: &Interface,
    type_format_addr: u64,
    out_string_chain_addr: u64,
) -> (r: (Vec<u8>, Vec<usize>))
    requires
        within_wire_limits(interface@),
        type_format_addr + ndr64_type_format(interface@.methods).len() <= u64::MAX,
    ensures
        r.0@ == ndr64_proc_buffer(
            interface@.methods,
            type_format_addr as int,
            out_string_chain_addr as int,
        ),
        r.1@ == ndr64_proc_offsets(
            interface@.methods,
            type_format_addr as int,
            out_string_chain_addr as int,
        ),
{
    let ghost ms = interface@.methods;
    let ghost base = type_format_addr as int;
    let ghost chain = out_string_chain_addr as int;
    let types = interface.unique_types();
    proof {
        lemma_dedup_props(interface_types(ms));
        lemma_interface_types_len(ms);
        assert(ms.take(0) =~= Seq::<MethodSpec>::empty());
    }
    let mut buffer: Vec<u8> = Vec::new();
    let mut offsets: Vec<usize> = Vec::new();
    for i in 0..interface.methods.len()
        invariant
            ms == interface@.methods,
            base == type_format_addr as int,
            chain == out_string_chain_addr as int,
            within_wire_limits(interface@),
            types@ == unique_types_of(ms),
            types@.len() <= MAX_TOTAL_SLOTS,
            forall|a: int, b: int| 0 <= a < b < types@.len() ==> types@[a] != types@[b],
            type_format_addr + ndr64_type_format(ms).len() <= u64::MAX,
            buffer@ == ndr64_procs(ms.take(i as int), ms, base, chain),
            offsets@ == Seq::new(
                i as nat,
                |k: int| ndr64_procs(ms.take(k), ms, base, chain).len() as usize,
            ),
    {
        let method = &interface.methods[i];
        assert(method@ == ms[i as int]);
        assert(method@.params.len() <= MAX_PARAMS);
        proof {
            lemma_ndr64_procs_prefix(ms, base, chain, i as int);
        }
        let ghost before = offsets@;
        offsets.push(buffer.len());
        assert(offsets@ =~= Seq::new(
            (i + 1) as nat,
            |k: int| ndr64_procs(ms.take(k), ms, base, chain).len() as usize,
        ));
        push_proc_record(
            &mut buffer,
            method,
            &types,
            type_format_addr,
            out_string_chain_addr,
            Ghost(ms),
        );
    }
    proof {
        assert(ms.take(ms.len() as int) =~= ms);
        assert(offsets@ =~= ndr64_proc_offsets(ms, base, chain));
    }
    (buffer, offsets)
}

/// A 16-byte NDR64 pointer record: format code, flags, two reserved
/// bytes, alignment padding, and the address of the pointee.
pub open spec fn ndr64_pointer_record(code: u8, flags: u8, pointee: int) -> Seq<u8> {
    seq![code, flags] + le16(0) + le32(0) + le64(pointee)
}

/// The unique pointer of a string return value, pointing at the
/// conformant wide string record at `string_type_addr`.
pub fn ndr64_out_string_unique_pointer(string_type_addr: u64) -> (r: Vec<u8>)
    ensures
        r@ == ndr64_pointer_record(NDR64_FC_UP, 0, string_type_addr as int),
{
    let mut r: Vec<u8> = Vec::new();
    r.push(NDR64_FC_UP);
    r.push(0);
    push_u16(&mut r, 0);
    push_u32(&mut r, 0);
    push_u64(&mut r, string_type_addr);
    assert(r@ =~= ndr64_pointer_record(NDR64_FC_UP, 0, string_type_addr as int));
    r
}

/// The reference pointer of a string return value, allocated on the stack
/// and dereferenced, pointing at the unique pointer at `unique_pointer_addr`.
pub fn ndr64_out_string_ref_pointer(unique_pointer_addr: u64) -> (r: Vec<u8>)
    ensures
        r@ == ndr64_pointer_record(
            NDR64_FC_RP,
            FC_ALLOCED_ON_STACK_POINTER_DEREF,
            unique_pointer_addr as int,
        ),
{
    let mut r: Vec<u8> = Vec::new();
    r.push(NDR64_FC_RP);
    r.push(FC_ALLOCED_ON_STACK_POINTER_DEREF);
    push_u16(&mut r, 0);
    push_u32(&mut r, 0);
    push_u64(&mut r, unique_pointer_addr);
    assert(r@ =~= ndr64_pointer_record(
        NDR64_FC_RP,
        FC_ALLOCED_ON_STACK_POINTER_DEREF,
        unique_pointer_addr as int,
    ));
    r
}

} // verus!
