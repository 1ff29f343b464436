//! The format data of one client or server instance, assembled from the
//! interface model.
use vstd::prelude::*;

use crate::ndr::{
    legacy_oi2_flags, generate_proc_header, generate_type_format_string, covers_string_types, has_key,
    interface_keys, legacy_keys, legacy_proc_header, legacy_proc_offsets, legacy_type_format,
    legacy_type_offsets, method_keys, offsets_view, param_keys, KeySpec, TypeKey,
};
use crate::ndr64::{
    any_string_return, compute_type_offset, generate_ndr64_type_format, has_string_return,
    ndr64_proc_buffer, ndr64_proc_flags, ndr64_type_format, ndr64_type_offset,
};
use crate::types::{within_wire_limits, Interface, InterfaceSpec, MethodSpec, ParamSpec, Type};
use crate::unique::lemma_dedup_props;

verus! {

/// The format data of both wire revisions that does not depend on where
/// buffers are placed in memory.
#[derive(Debug)]
pub struct StubFormats {
    /// Legacy type format string.
    pub type_format: Vec<u8>,
    /// Offset of each legacy type descriptor.
    pub type_offsets: Vec<(TypeKey, u16)>,
    /// Legacy procedure format string.
    pub proc_header: Vec<u8>,
    /// Offset of each method's record in `proc_header`.
    pub format_offsets: Vec<u16>,
    /// NDR64 type format buffer.
    pub ndr64_type_format: Vec<u8>,
    /// Whether a method returns a string, so that the instance must own the
    /// NDR64 pointer chain of a string return.
    pub needs_out_string_chain: bool,
    /// Offset of the conformant string record in `ndr64_type_format`.
    pub ndr64_string_type_offset: usize,
}

/// The value a `StubFormats` stands for.
pub struct StubFormatsSpec {
    pub type_format: Seq<u8>,
    pub type_offsets: Seq<(KeySpec, u16)>,
    pub proc_header: Seq<u8>,
    pub format_offsets: Seq<u16>,
    pub ndr64_type_format: Seq<u8>,
    pub needs_out_string_chain: bool,
    pub ndr64_string_type_offset: int,
}

impl View for StubFormats {
    type V = StubFormatsSpec;

    open spec fn view(&self) -> StubFormatsSpec {
        StubFormatsSpec {
            type_format: self.type_format@,
            type_offsets: offsets_view(self.type_offsets@),
            proc_header: self.proc_header@,
            format_offsets: self.format_offsets@,
            ndr64_type_format: self.ndr64_type_format@,
            needs_out_string_chain: self.needs_out_string_chain,
            ndr64_string_type_offset: self.ndr64_string_type_offset as int,
        }
    }
}

/// The format data of an interface with methods `ms`.
pub open spec fn stub_formats_of(ms: Seq<MethodSpec>) -> StubFormatsSpec {
    StubFormatsSpec {
        type_format: legacy_type_format(ms),
        type_offsets: legacy_type_offsets(ms),
        proc_header: legacy_proc_header(ms, legacy_type_offsets(ms)),
        format_offsets: legacy_proc_offsets(ms, legacy_type_offsets(ms)),
        ndr64_type_format: ndr64_type_format(ms),
        needs_out_string_chain: any_string_return(ms),
        ndr64_string_type_offset: ndr64_type_offset(ms, Type::String),
    }
}

/// A string parameter needs its own key.
proof fn lemma_param_keys_contain(ps: Seq<ParamSpec>, j: int)
    requires
        0 <= j < ps.len(),
        ps[j].ty == Type::String,
    ensures
        param_keys(ps).contains(KeySpec::Param(ps[j])),
    decreases ps.len(),
{
    let k = KeySpec::Param(ps[j]);
    if j == ps.len() - 1 {
        assert(param_keys(ps)[param_keys(ps).len() - 1] == k);
    } else {
        lemma_param_keys_contain(ps.drop_last(), j);
        let t = param_keys(ps.drop_last());
        let w = choose|w: int| 0 <= w < t.len() && t[w] == k;
        assert(param_keys(ps)[w] == k);
    }
}

/// Every key a method needs is among the keys of the interface.
proof fn lemma_interface_keys_contain(ms: Seq<MethodSpec>, i: int, k: KeySpec)
    requires
        0 <= i < ms.len(),
        method_keys(ms[i]).contains(k),
    ensures
        interface_keys(ms).contains(k),
    decreases ms.len(),
{
    let rest = interface_keys(ms.drop_last());
    if i == ms.len() - 1 {
        let w = choose|w: int| 0 <= w < method_keys(ms[i]).len() && method_keys(ms[i])[w] == k;
        assert(interface_keys(ms)[rest.len() + w] == k);
    } else {
        assert(ms.drop_last()[i] == ms[i]);
        lemma_interface_keys_contain(ms.drop_last(), i, k);
        let w = choose|w: int| 0 <= w < rest.len() && rest[w] == k;
        assert(interface_keys(ms)[w] == k);
    }
}

/// A key of the interface has an entry in the offset table.
proof fn lemma_table_has(ms: Seq<MethodSpec>, k: KeySpec)
    requires
        interface_keys(ms).contains(k),
    ensures
        has_key(legacy_type_offsets(ms), k),
{
    lemma_dedup_props(interface_keys(ms));
    let ks = legacy_keys(ms);
    let w = choose|w: int| 0 <= w < ks.len() && ks[w] == k;
    assert(legacy_type_offsets(ms)[w].0 == k);
}

/// The offset table of an interface covers every string it marshals.
pub proof fn lemma_type_offsets_cover(ms: Seq<MethodSpec>)
    ensures
        covers_string_types(legacy_type_offsets(ms), ms),
{
    assert forall|i: int, j: int|
        0 <= i < ms.len() && 0 <= j < ms[i].params.len() && ms[i].params[j].ty
            == Type::String implies has_key(
        legacy_type_offsets(ms),
        KeySpec::Param(#[trigger] ms[i].params[j]),
    ) by {
        let k = KeySpec::Param(ms[i].params[j]);
        lemma_param_keys_contain(ms[i].params, j);
        let p = param_keys(ms[i].params);
        let w = choose|w: int| 0 <= w < p.len() && p[w] == k;
        assert(method_keys(ms[i])[w] == k);
        lemma_interface_keys_contain(ms, i, k);
        lemma_table_has(ms, k);
    }
    assert forall|i: int|
        0 <= i < ms.len() && #[trigger] ms[i].ret == Some(Type::String) implies has_key(
        legacy_type_offsets(ms),
        KeySpec::ReturnString,
    ) by {
        let m = method_keys(ms[i]);
        assert(m[m.len() - 1] == KeySpec::ReturnString);
        lemma_interface_keys_contain(ms, i, KeySpec::ReturnString);
        lemma_table_has(ms, KeySpec::ReturnString);
    }
}

/// Assembles the format data of both wire revisions.
pub fn assemble_formats(interface: &Interface) -> (r: StubFormats)
    requires
        within_wire_limits(interface@),
    ensures
        r@ == stub_formats_of(interface@.methods),
{
    let (type_format, type_offsets) = generate_type_format_string(interface);
    proof {
        lemma_type_offsets_cover(interface@.methods);
    }
    let (proc_header, format_offsets) = generate_proc_header(interface, &type_offsets);
    let ndr64_type_format = generate_ndr64_type_format(interface);
    let needs_out_string_chain = has_string_return(interface);
    let ndr64_string_type_offset = compute_type_offset(interface, &Type::String);
    StubFormats {
        type_format,
        type_offsets,
        proc_header,
        format_offsets,
        ndr64_type_format,
        needs_out_string_chain,
        ndr64_string_type_offset,
    }
}

/// Assembling from two models with the same methods yields byte-identical
/// format strings and offsets in both revisions, and identical flag
/// compositions for every procedure: the format data is a function of the
/// methods alone, with no hidden state.
pub proof fn lemma_assembly_deterministic(a: InterfaceSpec, b: InterfaceSpec)
    requires
        a.methods == b.methods,
    ensures
        stub_formats_of(a.methods) == stub_formats_of(b.methods),
        forall|base: int, chain: int|
            #[trigger] ndr64_proc_buffer(a.methods, base, chain) == ndr64_proc_buffer(
                b.methods,
                base,
                chain,
            ),
        forall|i: int|
            0 <= i < a.methods.len() ==> legacy_oi2_flags(#[trigger] a.methods[i])
                == legacy_oi2_flags(b.methods[i]) && ndr64_proc_flags(a.methods[i])
                == ndr64_proc_flags(b.methods[i]),
{
}

} // verus!
