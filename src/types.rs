//! The interface model: an interface, its ordered methods, their ordered
//! parameters, and the closed set of wire types.
use vstd::prelude::*;

use crate::constants::{
    FC_BYTE,
    FC_CHAR,
    FC_HYPER,
    FC_LONG,
    FC_SHORT,
    FC_ULONG,
    FC_USHORT,
    NDR64_FC_INT16,
    NDR64_FC_INT32,
    NDR64_FC_INT64,
    NDR64_FC_INT8,
    NDR64_IS_BASE_TYPE,
    NDR64_IS_BY_VALUE,
    NDR64_IS_IN,
    NDR64_IS_OUT,
    NDR64_IS_SIMPLE_REF,
    NDR64_MUST_FREE,
    NDR64_MUST_SIZE,
    PARAM_ATTRIBUTES_IS_BASE_TYPE,
    PARAM_ATTRIBUTES_IS_IN,
    PARAM_ATTRIBUTES_IS_OUT,
    PARAM_ATTRIBUTES_IS_SIMPLE_REF,
    PARAM_ATTRIBUTES_MUST_FREE,
    PARAM_ATTRIBUTES_MUST_SIZE,
};

verus! {

/// Version of an interface, as (major, minor).
#[derive(Clone, Copy, Debug, Default, PartialEq, Eq, Structural)]
pub struct InterfaceVersion {
    pub major: u16,
    pub minor: u16,
}

/// The identity and version an interface is declared with.
#[derive(Clone, Copy, Debug, PartialEq, Eq, Structural)]
pub struct InterfaceAttributes {
    pub guid: u128,
    pub version: InterfaceVersion,
}

/// A fixed-width integer type.
#[derive(Clone, Copy, Debug, PartialEq, Eq, Structural, Hash)]
pub enum BaseType {
    U8,
    I8,
    U16,
    I16,
    U32,
    I32,
    I64,
    U64,
}

impl BaseType {
    /// Code of this type in the legacy wire revision.
    pub open spec fn fc_code(self) -> u8 {
        match self {
            BaseType::U8 => FC_BYTE,
            BaseType::I8 => FC_CHAR,
            BaseType::U16 => FC_SHORT,
            BaseType::I16 => FC_USHORT,
            BaseType::U32 => FC_LONG,
            BaseType::I32 => FC_ULONG,
            BaseType::I64 => FC_HYPER,
            BaseType::U64 => FC_HYPER,
        }
    }

    /// Code of this type in the 64-bit wire revision.
    pub open spec fn ndr64_fc_code(self) -> u8 {
        match self {
            BaseType::U8 | BaseType::I8 => NDR64_FC_INT8,
            BaseType::U16 | BaseType::I16 => NDR64_FC_INT16,
            BaseType::U32 | BaseType::I32 => NDR64_FC_INT32,
            BaseType::U64 | BaseType::I64 => NDR64_FC_INT64,
        }
    }

    pub fn to_fc_value(&self) -> (r: u8)
        ensures
            r == self.fc_code(),
    {
        match self {
            BaseType::U8 => FC_BYTE,
            BaseType::I8 => FC_CHAR,
            BaseType::U16 => FC_SHORT,
            BaseType::I16 => FC_USHORT,
            BaseType::U32 => FC_LONG,
            BaseType::I32 => FC_ULONG,
            BaseType::I64 => FC_HYPER,
            BaseType::U64 => FC_HYPER,
        }
    }

    pub fn to_ndr64_fc_value(&self) -> (r: u8)
        ensures
            r == self.ndr64_fc_code(),
    {
        match self {
            BaseType::U8 | BaseType::I8 => NDR64_FC_INT8,
            BaseType::U16 | BaseType::I16 => NDR64_FC_INT16,
            BaseType::U32 | BaseType::I32 => NDR64_FC_INT32,
            BaseType::U64 | BaseType::I64 => NDR64_FC_INT64,
        }
    }
}

/// A wire type: a fixed-width integer or a conformant wide-character string.
#[derive(Clone, Copy, Debug, PartialEq, Eq, Structural, Hash)]
pub enum Type {
    String,
    Simple(BaseType),
}

impl Type {
    /// The Rust spelling of this type in a generated signature.
    pub open spec fn rust_name(self) -> Seq<char> {
        match self {
            Type::String => seq!['&', 's', 't', 'r'],
            Type::Simple(BaseType::U8) => seq!['u', '8'],
            Type::Simple(BaseType::I8) => seq!['i', '8'],
            Type::Simple(BaseType::U16) => seq!['u', '1', '6'],
            Type::Simple(BaseType::I16) => seq!['i', '1', '6'],
            Type::Simple(BaseType::U32) => seq!['u', '3', '2'],
            Type::Simple(BaseType::I32) => seq!['i', '3', '2'],
            Type::Simple(BaseType::U64) => seq!['u', '6', '4'],
            Type::Simple(BaseType::I64) => seq!['i', '6', '4'],
        }
    }

    /// The Rust spelling of this type in a generated signature.
    pub fn rust_type_name(&self) -> (r: &'static str)
        ensures
            r@ == self.rust_name(),
    {
        match self {
            Type::String => {
                proof {
                    reveal_strlit("&str");
                }
                "&str"
            },
            Type::Simple(BaseType::U8) => {
                proof {
                    reveal_strlit("u8");
                }
                "u8"
            },
            Type::Simple(BaseType::I8) => {
                proof {
                    reveal_strlit("i8");
                }
                "i8"
            },
            Type::Simple(BaseType::U16) => {
                proof {
                    reveal_strlit("u16");
                }
                "u16"
            },
            Type::Simple(BaseType::I16) => {
                proof {
                    reveal_strlit("i16");
                }
                "i16"
            },
            Type::Simple(BaseType::U32) => {
                proof {
                    reveal_strlit("u32");
                }
                "u32"
            },
            Type::Simple(BaseType::I32) => {
                proof {
                    reveal_strlit("i32");
                }
                "i32"
            },
            Type::Simple(BaseType::U64) => {
                proof {
                    reveal_strlit("u64");
                }
                "u64"
            },
            Type::Simple(BaseType::I64) => {
                proof {
                    reveal_strlit("i64");
                }
                "i64"
            },
        }
    }
}

/// The value a `Parameter` stands for.
pub struct ParamSpec {
    pub ty: Type,
    pub name: Seq<char>,
    pub is_in: bool,
    pub is_out: bool,
}

/// A method parameter; its position in the method is its stack slot.
#[derive(Clone, Debug)]
pub struct Parameter {
    pub ty: Type,
    pub name: String,
    pub is_in: bool,
    pub is_out: bool,
}

impl View for Parameter {
    type V = ParamSpec;

    open spec fn view(&self) -> ParamSpec {
        ParamSpec { ty: self.ty, name: self.name@, is_in: self.is_in, is_out: self.is_out }
    }
}

/// Legacy PARAM_ATTRIBUTES of a parameter: its direction, and how its type
/// is marshalled.
pub open spec fn legacy_param_attributes(p: ParamSpec) -> u16 {
    let direction = (if p.is_in {
        PARAM_ATTRIBUTES_IS_IN
    } else {
        0u16
    }) | (if p.is_out {
        PARAM_ATTRIBUTES_IS_OUT
    } else {
        0u16
    });
    let kind = match p.ty {
        Type::String => PARAM_ATTRIBUTES_MUST_SIZE | PARAM_ATTRIBUTES_MUST_FREE
            | PARAM_ATTRIBUTES_IS_SIMPLE_REF,
        Type::Simple(_) => PARAM_ATTRIBUTES_IS_BASE_TYPE,
    };
    direction | kind
}

/// NDR64 parameter attributes of a parameter.
pub open spec fn ndr64_param_attributes_of(p: ParamSpec) -> u16 {
    let direction = (if p.is_in {
        NDR64_IS_IN
    } else {
        0u16
    }) | (if p.is_out {
        NDR64_IS_OUT
    } else {
        0u16
    });
    let kind = match p.ty {
        Type::String => NDR64_MUST_SIZE | NDR64_MUST_FREE | NDR64_IS_SIMPLE_REF,
        Type::Simple(_) => NDR64_IS_BASE_TYPE | NDR64_IS_BY_VALUE,
    };
    direction | kind
}

impl Parameter {
    /// A copy with the same view.
    pub fn duplicate(&self) -> (r: Parameter)
        ensures
            r@ == self@,
    {
        Parameter { ty: self.ty, name: self.name.clone(), is_in: self.is_in, is_out: self.is_out }
    }

    /// Whether two parameters have the same identity: type, name and direction.
    pub fn same_identity(&self, other: &Parameter) -> (r: bool)
        ensures
            r == (self@ == other@),
    {
        self.ty == other.ty && self.is_in == other.is_in && self.is_out == other.is_out
            && self.name == other.name
    }

    /// The legacy PARAM_ATTRIBUTES of this parameter.
    pub fn param_attributes(&self) -> (r: u16)
        ensures
            r == legacy_param_attributes(self@),
    {
        let direction = (if self.is_in {
            PARAM_ATTRIBUTES_IS_IN
        } else {
            0u16
        }) | (if self.is_out {
            PARAM_ATTRIBUTES_IS_OUT
        } else {
            0u16
        });
        let kind = match self.ty {
            Type::String => PARAM_ATTRIBUTES_MUST_SIZE | PARAM_ATTRIBUTES_MUST_FREE
                | PARAM_ATTRIBUTES_IS_SIMPLE_REF,
            Type::Simple(_) => PARAM_ATTRIBUTES_IS_BASE_TYPE,
        };
        direction | kind
    }

    /// The NDR64 parameter attributes of this parameter.
    pub fn ndr64_param_attributes(&self) -> (r: u16)
        ensures
            r == ndr64_param_attributes_of(self@),
    {
        let direction = (if self.is_in {
            NDR64_IS_IN
        } else {
            0u16
        }) | (if self.is_out {
            NDR64_IS_OUT
        } else {
            0u16
        });
        let kind = match self.ty {
            Type::String => NDR64_MUST_SIZE | NDR64_MUST_FREE | NDR64_IS_SIMPLE_REF,
            Type::Simple(_) => NDR64_IS_BASE_TYPE | NDR64_IS_BY_VALUE,
        };
        direction | kind
    }
}

/// The value a `Method` stands for.
pub struct MethodSpec {
    pub ret: Option<Type>,
    pub name: Seq<char>,
    pub params: Seq<ParamSpec>,
}

/// A method; its position in the interface is its procedure index.
#[derive(Clone, Debug)]
pub struct Method {
    pub return_type: Option<Type>,
    pub name: String,
    pub parameters: Vec<Parameter>,
}

impl View for Method {
    type V = MethodSpec;

    open spec fn view(&self) -> MethodSpec {
        MethodSpec {
            ret: self.return_type,
            name: self.name@,
            params: self.parameters@.map_values(|p: Parameter| p@),
        }
    }
}

/// The value an `Interface` stands for.
pub struct InterfaceSpec {
    pub name: Seq<char>,
    pub uuid: u128,
    pub version: InterfaceVersion,
    pub methods: Seq<MethodSpec>,
}

/// An RPC interface: name, identity, version and ordered methods.
#[derive(Clone, Debug)]
pub struct Interface {
    pub name: String,
    pub uuid: u128,
    pub version: InterfaceVersion,
    pub methods: Vec<Method>,
}

impl View for Interface {
    type V = InterfaceSpec;

    open spec fn view(&self) -> InterfaceSpec {
        InterfaceSpec {
            name: self.name@,
            uuid: self.uuid,
            version: self.version,
            methods: self.methods@.map_values(|m: Method| m@),
        }
    }
}

/// Largest number of parameters of one method: the parameter count,
/// with a synthesized return slot, is a single byte.
pub const MAX_PARAMS: usize = 254;

/// Largest number of stack slots (parameters, plus one per method) over
/// the whole interface; it keeps every 2-byte offset, index and size of
/// both format strings in range.
pub const MAX_TOTAL_SLOTS: usize = 1800;

/// Number of parameters of all methods, plus one per method.
pub open spec fn total_slots(ms: Seq<MethodSpec>) -> int
    decreases ms.len(),
{
    if ms.len() == 0 {
        0
    } else {
        total_slots(ms.drop_last()) + ms.last().params.len() + 1
    }
}

/// The interface fits the field widths of the wire formats.
pub open spec fn within_wire_limits(i: InterfaceSpec) -> bool {
    &&& total_slots(i.methods) <= MAX_TOTAL_SLOTS
    &&& forall|k: int| 0 <= k < i.methods.len() ==> #[trigger] i.methods[k].params.len() <= MAX_PARAMS
}

/// A prefix of the methods has no more slots than all of them.
pub proof fn lemma_total_slots_prefix(ms: Seq<MethodSpec>, i: int)
    requires
        0 <= i <= ms.len(),
    ensures
        total_slots(ms.take(i)) <= total_slots(ms),
        i < ms.len() ==> total_slots(ms.take(i + 1)) == total_slots(ms.take(i))
            + ms[i].params.len() + 1,
    decreases ms.len(),
{
    if i < ms.len() {
        assert(ms.take(i + 1).drop_last() =~= ms.take(i));
        lemma_total_slots_prefix(ms.drop_last(), i);
        assert(ms.drop_last().take(i) =~= ms.take(i));
    } else {
        assert(ms.take(i) =~= ms);
    }
}

/// Every method has at least one slot.
pub proof fn lemma_total_slots_bounds(ms: Seq<MethodSpec>)
    ensures
        total_slots(ms) >= ms.len(),
    decreases ms.len(),
{
    if ms.len() > 0 {
        lemma_total_slots_bounds(ms.drop_last());
    }
}

impl Interface {
    /// Whether this interface fits the field widths of the wire formats.
    pub fn within_wire_limits(&self) -> (r: bool)
        ensures
            r == within_wire_limits(self@),
    {
        let ghost ms = self@.methods;
        let mut total: usize = 0;
        for i in 0..self.methods.len()
            invariant
                ms == self@.methods,
                total == total_slots(ms.take(i as int)),
                total <= MAX_TOTAL_SLOTS,
                forall|k: int| 0 <= k < i ==> #[trigger] ms[k].params.len() <= MAX_PARAMS,
        {
            proof {
                lemma_total_slots_prefix(ms, i as int);
                lemma_total_slots_prefix(ms, i as int + 1);
            }
            let n = self.methods[i].parameters.len();
            if n > MAX_PARAMS || n >= MAX_TOTAL_SLOTS - total {
                return false;
            }
            total = total + n + 1;
        }
        proof {
            assert(ms.take(ms.len() as int) =~= ms);
        }
        true
    }
}

} // verus!
