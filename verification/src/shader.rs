//! WGSL source to struct list: parsing and validation by naga, then the
//! verified analysis of the module's type table.
use vstd::prelude::*;
use crate::analysis::{
    analyze_types, opt_string_view, refers_backward, structs_from_types, types_view,
    ArraySizeModel, MemberInfo, MemberRecord, ScalarKindModel, TypeInfo, TypeRecord, TypeShape,
};
use crate::wgsl::{structs_view, WgslStruct};

verus! {

#[verifier::external_type_specification]
#[verifier::external_body]
pub struct ExNagaModule(naga::Module);

/// The type table (`Module::types`) of a naga module, entry by entry in
/// arena order, as the accessors below read it.
pub uninterp spec fn module_types(m: naga::Module) -> Seq<TypeInfo>;

/// The module that `naga::front::wgsl::parse_str` builds from `source`;
/// `None` where it reports an error.
pub uninterp spec fn wgsl_module(source: Seq<char>) -> Option<naga::Module>;

/// Whether a validator made with `ValidationFlags::all()` and
/// `Capabilities::all()` accepts the module `m`.
pub uninterp spec fn module_validates(m: naga::Module) -> bool;

/// Type table of the module that `naga::front::wgsl::parse_str` builds from
/// `source`; `None` where it reports an error.
pub open spec fn wgsl_parse_types(source: Seq<char>) -> Option<Seq<TypeInfo>> {
    match wgsl_module(source) {
        Some(m) => Some(module_types(m)),
        None => None,
    }
}

/// Whether `source` parses as WGSL and the validator with all flags and
/// all capabilities accepts the module.
pub open spec fn wgsl_validates(source: Seq<char>) -> bool {
    match wgsl_module(source) {
        Some(m) => module_validates(m),
        None => false,
    }
}

/// `naga::front::wgsl::parse_str`: fails exactly where the named parse has
/// no result, and otherwise gives that module (parsing depends on the
/// source alone). The error text is naga's message, left unstated.
#[verifier::external_body]
fn parse_wgsl(source: &str) -> (r: Result<naga::Module, String>)
    ensures
        r is Ok <==> wgsl_module(source@) is Some,
        r matches Ok(m) ==> wgsl_module(source@) == Some(m),
{
    match naga::front::wgsl::parse_str(source) {
        Ok(m) => Ok(m),
        Err(e) => Err(format!("{}", e)),
    }
}

/// `naga::valid::Validator::validate` on a validator made by
/// `Validator::new(ValidationFlags::all(), Capabilities::all())`: it accepts
/// exactly the modules that the named answer accepts (a fresh validator
/// with fixed flags and capabilities answers from the module alone); when
/// it accepts, every type refers only to types before it in the arena
/// (naga checks this in its handle validation). Which modules it accepts,
/// and its error text, are left unstated.
#[verifier::external_body]
fn validate_module(m: &naga::Module) -> (r: Result<(), String>)
    ensures
        r is Ok <==> module_validates(*m),
        r is Ok ==> refers_backward(module_types(*m)),
{
    let flags = naga::valid::ValidationFlags::all();
    let mut validator = naga::valid::Validator::new(flags, naga::valid::Capabilities::all());
    match validator.validate(m) {
        Ok(_) => Ok(()),
        Err(e) => Err(format!("{}", e)),
    }
}

/// `UniqueArena::len` of the type table.
#[verifier::external_body]
fn type_count(m: &naga::Module) -> (n: usize)
    ensures
        n == module_types(*m).len(),
{
    m.types.len()
}

/// Name of type `i`.
#[verifier::external_body]
fn type_label(m: &naga::Module, i: usize) -> (r: Option<String>)
    requires
        i < module_types(*m).len(),
    ensures
        opt_string_view(r) == module_types(*m)[i as int].name,
{
    match m.types.iter().nth(i) {
        Some((_, t)) => t.name.clone(),
        None => None,
    }
}

/// Shape of type `i` (`TypeInner`'s variant with its sizes and array base index).
#[verifier::external_body]
fn type_shape(m: &naga::Module, i: usize) -> (r: TypeShape)
    requires
        i < module_types(*m).len(),
    ensures
        r == module_types(*m)[i as int].shape,
{
    let t = match m.types.iter().nth(i) {
        Some((_, t)) => t,
        None => return TypeShape::Other,
    };
    match &t.inner {
        naga::TypeInner::Scalar(_) => TypeShape::Scalar,
        naga::TypeInner::Vector { size, .. } => TypeShape::Vector(*size as u32),
        naga::TypeInner::Matrix { columns, rows, .. } => TypeShape::Matrix(*columns as u32, *rows as u32),
        naga::TypeInner::Array { base, .. } => TypeShape::Array(base.index()),
        naga::TypeInner::Struct { .. } => TypeShape::Struct,
        _ => TypeShape::Other,
    }
}

/// Scalar kind of type `i` (for a scalar, vector or matrix).
#[verifier::external_body]
fn type_scalar_kind(m: &naga::Module, i: usize) -> (r: ScalarKindModel)
    requires
        i < module_types(*m).len(),
    ensures
        r == module_types(*m)[i as int].kind,
{
    let kind = match m.types.iter().nth(i).map(|(_, t)| &t.inner) {
        Some(naga::TypeInner::Scalar(s)) => s.kind,
        Some(naga::TypeInner::Vector { scalar, .. }) => scalar.kind,
        Some(naga::TypeInner::Matrix { scalar, .. }) => scalar.kind,
        _ => naga::ScalarKind::Bool,
    };
    match kind {
        naga::ScalarKind::Sint => ScalarKindModel::Sint,
        naga::ScalarKind::Uint => ScalarKindModel::Uint,
        naga::ScalarKind::Float => ScalarKindModel::Float,
        naga::ScalarKind::Bool => ScalarKindModel::Bool,
        naga::ScalarKind::AbstractInt => ScalarKindModel::AbstractInt,
        naga::ScalarKind::AbstractFloat => ScalarKindModel::AbstractFloat,
    }
}

/// Length of array type `i`.
#[verifier::external_body]
fn type_array_size(m: &naga::Module, i: usize) -> (r: ArraySizeModel)
    requires
        i < module_types(*m).len(),
    ensures
        r == module_types(*m)[i as int].array_size,
{
    match m.types.iter().nth(i).map(|(_, t)| &t.inner) {
        Some(naga::TypeInner::Array { size: naga::ArraySize::Constant(n), .. }) => ArraySizeModel::Constant(n.get()),
        Some(naga::TypeInner::Array { size: naga::ArraySize::Pending(_), .. }) => ArraySizeModel::Pending,
        _ => ArraySizeModel::Dynamic,
    }
}

/// Number of members of struct type `i`.
#[verifier::external_body]
fn type_member_count(m: &naga::Module, i: usize) -> (n: usize)
    requires
        i < module_types(*m).len(),
    ensures
        n == module_types(*m)[i as int].members.len(),
{
    match m.types.iter().nth(i).map(|(_, t)| &t.inner) {
        Some(naga::TypeInner::Struct { members, .. }) => members.len(),
        _ => 0,
    }
}

/// Member `j` of struct type `i`: its name, the index of its type and its offset.
#[verifier::external_body]
fn type_member(m: &naga::Module, i: usize, j: usize) -> (r: MemberRecord)
    requires
        i < module_types(*m).len(),
        j < module_types(*m)[i as int].members.len(),
    ensures
        r@ == module_types(*m)[i as int].members[j as int],
{
    match m.types.iter().nth(i).map(|(_, t)| &t.inner) {
        Some(naga::TypeInner::Struct { members, .. }) => MemberRecord {
            name: members[j].name.clone(),
            ty: members[j].ty.index(),
            offset: members[j].offset,
        },
        _ => MemberRecord { name: None, ty: 0, offset: 0 },
    }
}

/// The type table of `m` as records.
pub fn read_type_table(m: &naga::Module) -> (r: Vec<TypeRecord>)
    ensures
        types_view(r@) == module_types(*m),
{
    let ghost table = module_types(*m);
    let n = type_count(m);
    let mut r: Vec<TypeRecord> = Vec::new();
    let mut i: usize = 0;
    while i < n
        invariant
            n == table.len(),
            table == module_types(*m),
            i <= n,
            types_view(r@) == table.subrange(0, i as int),
        decreases n - i,
    {
        let count = type_member_count(m, i);
        let mut members: Vec<MemberRecord> = Vec::new();
        let mut j: usize = 0;
        while j < count
            invariant
                i < n,
                n == table.len(),
                table == module_types(*m),
                count == table[i as int].members.len(),
                j <= count,
                members@.map_values(|x: MemberRecord| x@) == table[i as int].members.subrange(
                    0,
                    j as int,
                ),
            decreases count - j,
        {
            let mr = type_member(m, i, j);
            let ghost prev = members@;
            members.push(mr);
            j = j + 1;
            proof {
                assert(members@.map_values(|x: MemberRecord| x@) =~= prev.map_values(
                    |x: MemberRecord| x@,
                ).push(mr@));
                assert(table[i as int].members.subrange(0, j as int) =~= table[i as int].members.subrange(
                    0,
                    j - 1,
                ).push(table[i as int].members[j - 1]));
            }
        }
        let rec = TypeRecord {
            name: type_label(m, i),
            shape: type_shape(m, i),
            kind: type_scalar_kind(m, i),
            array_size: type_array_size(m, i),
            members,
        };
        proof {
            assert(table[i as int].members.subrange(0, count as int) =~= table[i as int].members);
            assert(rec@ == table[i as int]);
        }
        let ghost prev = r@;
        r.push(rec);
        i = i + 1;
        proof {
            assert(types_view(r@) =~= types_view(prev).push(rec@));
            assert(table.subrange(0, i as int) =~= table.subrange(0, i - 1).push(table[i - 1]));
        }
    }
    proof {
        assert(table.subrange(0, n as int) =~= table);
    }
    r
}

/// Parses and validates WGSL `source` (with all validation flags and all
/// capabilities) and lists its user structs with the Rust spelling of
/// every member's type. Fails where naga cannot parse the source or the
/// validator rejects it; otherwise gives exactly the analysis of the
/// parsed type table, or its error.
pub fn analize_wgsl_source(source: &str) -> (r: Result<Vec<WgslStruct>, String>)
    ensures
        !wgsl_validates(source@) ==> r is Err,
        wgsl_validates(source@) ==> match wgsl_parse_types(source@) {
            Some(t) => refers_backward(t) && match analyze_types(t, 0, seq![]) {
                Ok(v) => r is Ok && structs_view(r->Ok_0@) == v,
                Err(e) => r is Err && r->Err_0@ == e,
            },
            None => false,
        },
{
    let module = match parse_wgsl(source) {
        Ok(m) => m,
        Err(e) => {
            return Err(e);
        },
    };
    match validate_module(&module) {
        Ok(()) => {},
        Err(e) => {
            return Err(e);
        },
    }
    let types = read_type_table(&module);
    structs_from_types(types.as_slice())
}

} // verus!
