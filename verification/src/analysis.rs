//! From the type table of a parsed WGSL module to the list of its structs,
//! and from the structs of several shader files to one list of uniform
//! structs.
use vstd::prelude::*;
use crate::text::{dec, dec_string, starts_with, str_eq, str_starts_with};
use crate::wgsl::{
    strings_view, structs_view, vars_equal, vars_view, StructView, VarTypeView, VarView, WgslStruct,
    WgslStructVar, WgslStructVarType,
};

verus! {

/// Kind of a scalar type.
#[derive(Clone, Copy, Debug, PartialEq, Eq, Structural)]
pub enum ScalarKindModel {
    Sint,
    Uint,
    Float,
    Bool,
    AbstractInt,
    AbstractFloat,
}

/// Length of an array type.
#[derive(Clone, Copy, Debug, PartialEq, Eq, Structural)]
pub enum ArraySizeModel {
    Constant(u32),
    Pending,
    Dynamic,
}

/// The shape of a type in a module's type table. A vector's size and a
/// matrix's dimensions are component counts (2, 3 or 4); an array names its
/// element type by its index in the table.
#[derive(Clone, Copy, Debug, PartialEq, Eq, Structural)]
pub enum TypeShape {
    Scalar,
    Vector(u32),
    Matrix(u32, u32),
    Array(usize),
    Struct,
    Other,
}

/// A struct member as the type table records it.
#[derive(Clone, Debug)]
pub struct MemberRecord {
    pub name: Option<String>,
    pub ty: usize,
    pub offset: u32,
}

/// One entry of a module's type table: its name, shape, the scalar kind of
/// a scalar, vector or matrix (`Bool` for other types), the length of an
/// array (`Dynamic` for other types) and the members of a struct (none for
/// other types).
#[derive(Clone, Debug)]
pub struct TypeRecord {
    pub name: Option<String>,
    pub shape: TypeShape,
    pub kind: ScalarKindModel,
    pub array_size: ArraySizeModel,
    pub members: Vec<MemberRecord>,
}

pub struct MemberInfo {
    pub name: Option<Seq<char>>,
    pub ty: usize,
    pub offset: u32,
}

pub struct TypeInfo {
    pub name: Option<Seq<char>>,
    pub shape: TypeShape,
    pub kind: ScalarKindModel,
    pub array_size: ArraySizeModel,
    pub members: Seq<MemberInfo>,
}

pub open spec fn opt_string_view(o: Option<String>) -> Option<Seq<char>> {
    match o {
        Some(s) => Some(s@),
        None => None,
    }
}

impl View for MemberRecord {
    type V = MemberInfo;

    open spec fn view(&self) -> MemberInfo {
        MemberInfo { name: opt_string_view(self.name), ty: self.ty, offset: self.offset }
    }
}

impl View for TypeRecord {
    type V = TypeInfo;

    open spec fn view(&self) -> TypeInfo {
        TypeInfo {
            name: opt_string_view(self.name),
            shape: self.shape,
            kind: self.kind,
            array_size: self.array_size,
            members: self.members@.map_values(|m: MemberRecord| m@),
        }
    }
}

pub open spec fn types_view(v: Seq<TypeRecord>) -> Seq<TypeInfo> {
    v.map_values(|t: TypeRecord| t@)
}

/// Every type refers only to types before it in the table (what a valid
/// module guarantees).
pub open spec fn refers_backward(types: Seq<TypeInfo>) -> bool {
    &&& forall|i: int|
        0 <= i < types.len() ==> match #[trigger] types[i].shape {
            TypeShape::Array(b) => b < i,
            _ => true,
        }
    &&& forall|i: int, j: int|
        0 <= i < types.len() && 0 <= j < types[i].members.len() ==> #[trigger] types[i].members[j].ty
            < i
}

pub open spec fn var_type(rusty: Seq<char>, required: Seq<Seq<char>>) -> VarTypeView {
    VarTypeView { rusty, required_structs: required }
}

/// Rust spelling of the type at index `h`, or why it has none.
pub open spec fn element_type(types: Seq<TypeInfo>, h: int) -> Result<VarTypeView, Seq<char>>
    decreases h,
{
    if h < 0 || h >= types.len() {
        Err("Unsupported TypeInner"@)
    } else {
        let t = types[h];
        match t.shape {
            TypeShape::Scalar => match t.kind {
                ScalarKindModel::Float => Ok(var_type("f32"@, seq![])),
                ScalarKindModel::Sint => Ok(var_type("i32"@, seq![])),
                ScalarKindModel::Uint => Ok(var_type("u32"@, seq![])),
                _ => Err("unknown scalar type"@),
            },
            TypeShape::Vector(n) => {
                let dim = if n == 2 {
                    "2"@
                } else if n == 3 {
                    "3"@
                } else {
                    "4"@
                };
                match t.kind {
                    ScalarKindModel::Float => Ok(var_type("Vec"@ + dim, seq![])),
                    ScalarKindModel::Sint => Ok(var_type("IVec"@ + dim, seq![])),
                    ScalarKindModel::Uint => Ok(var_type("UVec"@ + dim, seq![])),
                    _ => Err("unknown Vector type"@),
                }
            },
            TypeShape::Matrix(c, r) => if c == 4 && r == 4 {
                Ok(var_type("Mat4"@, seq![]))
            } else if c == 3 && r == 3 {
                Ok(var_type("Mat3"@, seq![]))
            } else {
                Err("unknown Matrix size"@)
            },
            TypeShape::Array(b) => if b < h {
                match element_type(types, b as int) {
                    Err(e) => Err(e),
                    Ok(base) => match t.array_size {
                        ArraySizeModel::Constant(n) => Ok(
                            var_type(
                                "["@ + base.rusty + "; "@ + dec(n as nat) + "]"@,
                                seq![base.rusty],
                            ),
                        ),
                        ArraySizeModel::Pending => Err("Pending array sizes unsupported"@),
                        ArraySizeModel::Dynamic => Err("dynamic array sizes unsupported"@),
                    },
                }
            } else {
                Err("Unsupported TypeInner"@)
            },
            TypeShape::Struct => match t.name {
                Some(n) => Ok(var_type(n, seq![])),
                None => Err("Unnamed struct found"@),
            },
            TypeShape::Other => Err("Unsupported TypeInner"@),
        }
    }
}

/// Members `j..` of struct `n` (at index `i`), appended to `acc`.
pub open spec fn struct_members(
    types: Seq<TypeInfo>,
    i: int,
    n: Seq<char>,
    j: int,
    acc: Seq<VarView>,
) -> Result<Seq<VarView>, Seq<char>>
    decreases types[i].members.len() - j,
{
    if j < 0 || j >= types[i].members.len() {
        Ok(acc)
    } else {
        let m = types[i].members[j];
        match m.name {
            None => Err("namless struct var at: "@ + n),
            Some(mn) => match element_type(types, m.ty as int) {
                Err(e) => Err("Error parsing type for "@ + n + "."@ + mn + ": "@ + e),
                Ok(t) => struct_members(
                    types,
                    i,
                    n,
                    j + 1,
                    acc.push(VarView { name: mn, type_: t, offset: m.offset }),
                ),
            },
        }
    }
}

/// Built-in structs, which the analysis skips.
pub open spec fn is_builtin_struct_name(n: Seq<char>) -> bool {
    (n.len() > 0 && n[0] == '_') || starts_with(n, "gl_"@)
}

/// The user structs of the type table from index `i` on, appended to `acc`.
pub open spec fn analyze_types(types: Seq<TypeInfo>, i: int, acc: Seq<StructView>) -> Result<
    Seq<StructView>,
    Seq<char>,
>
    decreases types.len() - i,
{
    if i < 0 || i >= types.len() {
        Ok(acc)
    } else if types[i].shape == TypeShape::Struct {
        match types[i].name {
            None => Err("namless struct"@),
            Some(n) => if is_builtin_struct_name(n) {
                analyze_types(types, i + 1, acc)
            } else {
                match struct_members(types, i, n, 0, seq![]) {
                    Err(e) => Err(e),
                    Ok(vars) => analyze_types(types, i + 1, acc.push(StructView { name: n, vars })),
                }
            },
        }
    } else {
        analyze_types(types, i + 1, acc)
    }
}

fn literal(s: &str) -> (r: String)
    ensures
        r@ == s@,
{
    String::from_str(s)
}

fn simple_type(rusty: String) -> (r: WgslStructVarType)
    ensures
        r@ == var_type(rusty@, seq![]),
{
    let r = WgslStructVarType { rusty, required_structs: Vec::new() };
    proof {
        assert(strings_view(r.required_structs@) =~= seq![]);
    }
    r
}

/// Rust spelling of the type at index `handle` of the table.
pub fn get_element_type(types: &[TypeRecord], handle: usize) -> (r: Result<WgslStructVarType, String>)
    requires
        handle < types@.len(),
    ensures
        match element_type(types_view(types@), handle as int) {
            Ok(t) => r is Ok && r->Ok_0@ == t,
            Err(e) => r is Err && r->Err_0@ == e,
        },
    decreases handle,
{
    let t = &types[handle];
    proof {
        assert(types_view(types@)[handle as int] == t@);
    }
    match t.shape {
        TypeShape::Scalar => match t.kind {
            ScalarKindModel::Float => Ok(simple_type(literal("f32"))),
            ScalarKindModel::Sint => Ok(simple_type(literal("i32"))),
            ScalarKindModel::Uint => Ok(simple_type(literal("u32"))),
            _ => Err(literal("unknown scalar type")),
        },
        TypeShape::Vector(n) => {
            let mut rusty = match t.kind {
                ScalarKindModel::Float => literal("Vec"),
                ScalarKindModel::Sint => literal("IVec"),
                ScalarKindModel::Uint => literal("UVec"),
                _ => {
                    return Err(literal("unknown Vector type"));
                },
            };
            if n == 2 {
                rusty.append("2");
            } else if n == 3 {
                rusty.append("3");
            } else {
                rusty.append("4");
            }
            Ok(simple_type(rusty))
        },
        TypeShape::Matrix(c, r) => {
            if c == 4 && r == 4 {
                Ok(simple_type(literal("Mat4")))
            } else if c == 3 && r == 3 {
                Ok(simple_type(literal("Mat3")))
            } else {
                Err(literal("unknown Matrix size"))
            }
        },
        TypeShape::Array(b) => {
            if b >= handle {
                return Err(literal("Unsupported TypeInner"));
            }
            let base = match get_element_type(types, b) {
                Ok(x) => x,
                Err(e) => {
                    return Err(e);
                },
            };
            match t.array_size {
                ArraySizeModel::Constant(n) => {
                    let mut rusty = literal("[");
                    rusty.append(base.rusty.as_str());
                    rusty.append("; ");
                    let ns = dec_string(n as u64);
                    rusty.append(ns.as_str());
                    rusty.append("]");
                    let mut req: Vec<String> = Vec::new();
                    req.push(base.rusty);
                    let r = WgslStructVarType { rusty, required_structs: req };
                    proof {
                        assert(strings_view(r.required_structs@) =~= seq![base@.rusty]);
                        assert(r.rusty@ =~= "["@ + base@.rusty + "; "@ + dec(n as nat) + "]"@);
                    }
                    Ok(r)
                },
                ArraySizeModel::Pending => Err(literal("Pending array sizes unsupported")),
                ArraySizeModel::Dynamic => Err(literal("dynamic array sizes unsupported")),
            }
        },
        TypeShape::Struct => match &t.name {
            Some(n) => Ok(simple_type(n.clone())),
            None => Err(literal("Unnamed struct found")),
        },
        TypeShape::Other => Err(literal("Unsupported TypeInner")),
    }
}

/// The user structs of a module's type table, with the Rust spelling of
/// every member's type, in table order.
pub fn structs_from_types(types: &[TypeRecord]) -> (r: Result<Vec<WgslStruct>, String>)
    requires
        refers_backward(types_view(types@)),
    ensures
        match analyze_types(types_view(types@), 0, seq![]) {
            Ok(s) => r is Ok && structs_view(r->Ok_0@) == s,
            Err(e) => r is Err && r->Err_0@ == e,
        },
{
    let ghost tv = types_view(types@);
    let mut structs: Vec<WgslStruct> = Vec::new();
    let mut i: usize = 0;
    proof {
        assert(structs_view(structs@) =~= seq![]);
    }
    while i < types.len()
        invariant
            i <= types@.len(),
            tv == types_view(types@),
            refers_backward(tv),
            analyze_types(tv, 0, seq![]) == analyze_types(tv, i as int, structs_view(structs@)),
        decreases types@.len() - i,
    {
        let t = &types[i];
        proof {
            assert(tv[i as int] == t@);
        }
        if t.shape == TypeShape::Struct {
            let struct_name = match &t.name {
                Some(n) => n,
                None => {
                    return Err(literal("namless struct"));
                },
            };
            let first_underscore = struct_name.as_str().unicode_len() > 0
                && struct_name.as_str().get_char(0) == '_';
            if first_underscore || str_starts_with(struct_name.as_str(), "gl_") {
                i = i + 1;
                continue;
            }
            let mut vars: Vec<WgslStructVar> = Vec::new();
            let mut j: usize = 0;
            proof {
                assert(vars_view(vars@) =~= seq![]);
            }
            while j < t.members.len()
                invariant
                    i < types@.len(),
                    t == types@[i as int],
                    tv == types_view(types@),
                    refers_backward(tv),
                    tv[i as int] == t@,
                    t@.shape == TypeShape::Struct,
                    t@.name == Some(struct_name@),
                    !is_builtin_struct_name(struct_name@),
                    analyze_types(tv, 0, seq![]) == analyze_types(
                        tv,
                        i as int,
                        structs_view(structs@),
                    ),
                    j <= t.members@.len(),
                    struct_members(tv, i as int, struct_name@, 0, seq![]) == struct_members(
                        tv,
                        i as int,
                        struct_name@,
                        j as int,
                        vars_view(vars@),
                    ),
                decreases t.members@.len() - j,
            {
                let m = &t.members[j];
                proof {
                    assert(tv[i as int].members[j as int] == m@);
                    assert(m.ty < i);
                }
                let member_name = match &m.name {
                    Some(n) => n,
                    None => {
                        let mut e = literal("namless struct var at: ");
                        e.append(struct_name.as_str());
                        return Err(e);
                    },
                };
                let type_ = match get_element_type(types, m.ty) {
                    Ok(x) => x,
                    Err(err) => {
                        let mut e = literal("Error parsing type for ");
                        e.append(struct_name.as_str());
                        e.append(".");
                        e.append(member_name.as_str());
                        e.append(": ");
                        e.append(err.as_str());
                        proof {
                            assert(e@ =~= "Error parsing type for "@ + struct_name@ + "."@
                                + member_name@ + ": "@ + err@);
                        }
                        return Err(e);
                    },
                };
                let v = WgslStructVar { name: member_name.clone(), type_, offset: m.offset };
                let ghost prev = vars@;
                vars.push(v);
                j = j + 1;
                proof {
                    assert(vars_view(vars@) =~= vars_view(prev).push(v@));
                }
            }
            let s = WgslStruct { name: struct_name.clone(), vars };
            let ghost prev = structs@;
            structs.push(s);
            proof {
                assert(structs_view(structs@) =~= structs_view(prev).push(s@));
            }
        }
        i = i + 1;
    }
    Ok(structs)
}

/// Struct names that the uniform pass collects.
pub open spec fn is_uniform_struct_name(n: Seq<char>) -> bool {
    starts_with(n, "Ubo"@) || starts_with(n, "Uc"@)
}

pub enum Merge {
    Merged(Seq<StructView>),
    Conflict(Seq<char>),
}

/// Index of the first struct in `list` called `name`.
pub open spec fn find_named(list: Seq<StructView>, name: Seq<char>) -> Option<int>
    decreases list.len(),
{
    if list.len() == 0 {
        None
    } else {
        match find_named(list.drop_last(), name) {
            Some(k) => Some(k),
            None => if list.last().name == name {
                Some(list.len() - 1)
            } else {
                None
            },
        }
    }
}

/// Collects the uniform structs of `groups` (group `i`, struct `j` on) into
/// `acc`; a struct seen before must have the same members.
pub open spec fn merge_uniform_structs(
    groups: Seq<Seq<StructView>>,
    i: int,
    j: int,
    acc: Seq<StructView>,
) -> Merge
    decreases groups.len() - i, groups[i].len() - j,
{
    if i < 0 || i >= groups.len() {
        Merge::Merged(acc)
    } else if j < 0 || j >= groups[i].len() {
        merge_uniform_structs(groups, i + 1, 0, acc)
    } else {
        let s = groups[i][j];
        if !is_uniform_struct_name(s.name) {
            merge_uniform_structs(groups, i, j + 1, acc)
        } else {
            match find_named(acc, s.name) {
                Some(k) => if acc[k].vars != s.vars {
                    Merge::Conflict(
                        "two structs with the same name have diffrent containts: "@ + s.name,
                    )
                } else {
                    merge_uniform_structs(groups, i, j + 1, acc)
                },
                None => merge_uniform_structs(groups, i, j + 1, acc.push(s)),
            }
        }
    }
}

pub open spec fn groups_view(g: Seq<Vec<WgslStruct>>) -> Seq<Seq<StructView>> {
    g.map_values(|v: Vec<WgslStruct>| structs_view(v@))
}

fn find_named_exec(list: &Vec<WgslStruct>, name: &String) -> (r: Option<usize>)
    ensures
        r matches Some(k) ==> k < list@.len() && find_named(structs_view(list@), name@) == Some(
            k as int,
        ),
        r is None ==> find_named(structs_view(list@), name@) is None,
{
    let mut i: usize = 0;
    while i < list.len()
        invariant
            i <= list@.len(),
            find_named(structs_view(list@).subrange(0, i as int), name@) is None,
        decreases list@.len() - i,
    {
        if list[i].name == *name {
            proof {
                assert(structs_view(list@).subrange(0, i + 1).drop_last() =~= structs_view(
                    list@,
                ).subrange(0, i as int));
                lemma_find_named_prefix(structs_view(list@), i + 1, name@);
            }
            return Some(i);
        }
        i = i + 1;
        proof {
            assert(structs_view(list@).subrange(0, i as int).drop_last() =~= structs_view(
                list@,
            ).subrange(0, i - 1));
        }
    }
    proof {
        assert(structs_view(list@).subrange(0, i as int) =~= structs_view(list@));
    }
    None
}

proof fn lemma_find_named_prefix(list: Seq<StructView>, n: int, name: Seq<char>)
    requires
        0 <= n <= list.len(),
        find_named(list.subrange(0, n), name) is Some,
    ensures
        find_named(list, name) == find_named(list.subrange(0, n), name),
    decreases list.len() - n,
{
    if n < list.len() {
        assert(list.subrange(0, n + 1).drop_last() =~= list.subrange(0, n));
        lemma_find_named_prefix(list, n + 1, name);
    } else {
        assert(list.subrange(0, n) =~= list);
    }
}

/// Collects the structs named `Ubo...` or `Uc...` of every analysed shader,
/// each name once, in order of first appearance. Two structs with one name
/// and different members are an error.
pub fn wgsl_analisys_to_ubos(analisys: &[Vec<WgslStruct>]) -> (r: Result<Vec<WgslStruct>, String>)
    ensures
        match merge_uniform_structs(groups_view(analisys@), 0, 0, seq![]) {
            Merge::Merged(s) => r is Ok && structs_view(r->Ok_0@) == s,
            Merge::Conflict(e) => r is Err && r->Err_0@ == e,
        },
{
    let ghost g = groups_view(analisys@);
    let mut final_ubo: Vec<WgslStruct> = Vec::new();
    let mut i: usize = 0;
    proof {
        assert(structs_view(final_ubo@) =~= seq![]);
    }
    while i < analisys.len()
        invariant
            i <= analisys@.len(),
            g == groups_view(analisys@),
            merge_uniform_structs(g, 0, 0, seq![]) == merge_uniform_structs(
                g,
                i as int,
                0,
                structs_view(final_ubo@),
            ),
        decreases analisys@.len() - i,
    {
        let anlize = &analisys[i];
        proof {
            assert(g[i as int] == structs_view(anlize@));
        }
        let mut j: usize = 0;
        while j < anlize.len()
            invariant
                i < analisys@.len(),
                anlize == analisys@[i as int],
                g == groups_view(analisys@),
                g[i as int] == structs_view(anlize@),
                j <= anlize@.len(),
                merge_uniform_structs(g, 0, 0, seq![]) == merge_uniform_structs(
                    g,
                    i as int,
                    j as int,
                    structs_view(final_ubo@),
                ),
            decreases anlize@.len() - j,
        {
            let struc = &anlize[j];
            proof {
                assert(g[i as int][j as int] == struc@);
            }
            if !str_starts_with(struc.name.as_str(), "Ubo") && !str_starts_with(
                struc.name.as_str(),
                "Uc",
            ) {
                j = j + 1;
                continue;
            }
            match find_named_exec(&final_ubo, &struc.name) {
                Some(k) => {
                    proof {
                        assert(structs_view(final_ubo@)[k as int] == final_ubo@[k as int]@);
                    }
                    if !vars_equal(&final_ubo[k].vars, &struc.vars) {
                        let mut e = literal(
                            "two structs with the same name have diffrent containts: ",
                        );
                        e.append(struc.name.as_str());
                        return Err(e);
                    }
                },
                None => {
                    let ghost prev = final_ubo@;
                    let d = struc.duplicate();
                    final_ubo.push(d);
                    proof {
                        assert(structs_view(final_ubo@) =~= structs_view(prev).push(struc@));
                    }
                },
            }
            j = j + 1;
        }
        i = i + 1;
    }
    Ok(final_ubo)
}


/// No two structs of `list` share a name.
pub open spec fn names_unique(list: Seq<StructView>) -> bool {
    forall|a: int, b: int| 0 <= a < b < list.len() ==> #[trigger] list[a].name != #[trigger] list[b].name
}

/// Every struct of `list` has a uniform struct name.
pub open spec fn all_uniform(list: Seq<StructView>) -> bool {
    forall|a: int| 0 <= a < list.len() ==> is_uniform_struct_name(#[trigger] list[a].name)
}

/// `list` holds a struct with the name and the members of `t`.
pub open spec fn represented(list: Seq<StructView>, t: StructView) -> bool {
    exists|k: int| 0 <= k < list.len() && #[trigger] list[k].name == t.name && list[k].vars == t.vars
}

/// Struct `j` of group `i` exists.
pub open spec fn in_groups(groups: Seq<Seq<StructView>>, i: int, j: int) -> bool {
    0 <= i < groups.len() && 0 <= j < groups[i].len()
}

/// `t` is one of the structs of `groups`.
pub open spec fn from_groups(groups: Seq<Seq<StructView>>, t: StructView) -> bool {
    exists|i: int, j: int| in_groups(groups, i, j) && #[trigger] groups[i][j] == t
}

proof fn lemma_find_named(list: Seq<StructView>, name: Seq<char>)
    ensures
        find_named(list, name) matches Some(k) ==> 0 <= k < list.len() && list[k].name == name,
        find_named(list, name) is None ==> forall|k: int| 0 <= k < list.len() ==> #[trigger] list[k].name != name,
    decreases list.len(),
{
    if list.len() > 0 {
        lemma_find_named(list.drop_last(), name);
        if find_named(list.drop_last(), name) is None {
            assert forall|k: int| 0 <= k < list.len() - 1 implies #[trigger] list[k].name != name by {
                assert(list.drop_last()[k] == list[k]);
            }
        } else {
            let k = find_named(list.drop_last(), name)->Some_0;
            assert(list.drop_last()[k] == list[k]);
        }
    }
}

proof fn lemma_merge(groups: Seq<Seq<StructView>>, i: int, j: int, acc: Seq<StructView>)
    requires
        0 <= i,
        0 <= j,
        names_unique(acc),
        all_uniform(acc),
        forall|k: int| 0 <= k < acc.len() ==> from_groups(groups, #[trigger] acc[k]),
        forall|a: int, b: int|
            #![trigger groups[a][b]]
            in_groups(groups, a, b) && (a < i || (a == i && b < j)) && is_uniform_struct_name(
                groups[a][b].name,
            ) ==> represented(acc, groups[a][b]),
    ensures
        merge_uniform_structs(groups, i, j, acc) matches Merge::Merged(s) ==> {
            &&& names_unique(s)
            &&& all_uniform(s)
            &&& forall|a: int, b: int|
                #![trigger groups[a][b]]
                in_groups(groups, a, b) && is_uniform_struct_name(groups[a][b].name) ==> represented(
                    s,
                    groups[a][b],
                )
            &&& forall|k: int| 0 <= k < s.len() ==> from_groups(groups, #[trigger] s[k])
        },
        merge_uniform_structs(groups, i, j, acc) matches Merge::Conflict(m) ==> exists|
            a1: int,
            b1: int,
            a2: int,
            b2: int,
        |
            #![trigger groups[a1][b1], groups[a2][b2]]
            in_groups(groups, a1, b1) && in_groups(groups, a2, b2) && groups[a1][b1].name
                == groups[a2][b2].name && is_uniform_struct_name(groups[a1][b1].name)
                && groups[a1][b1].vars != groups[a2][b2].vars && m
                == "two structs with the same name have diffrent containts: "@ + groups[a2][b2].name,
    decreases groups.len() - i, groups[i].len() - j,
{
    if i >= groups.len() {
    } else if j >= groups[i].len() {
        lemma_merge(groups, i + 1, 0, acc);
    } else {
        let t = groups[i][j];
        if !is_uniform_struct_name(t.name) {
            lemma_merge(groups, i, j + 1, acc);
        } else {
            lemma_find_named(acc, t.name);
            match find_named(acc, t.name) {
                Some(k) => {
                    if acc[k].vars != t.vars {
                        assert(from_groups(groups, acc[k]));
                        let (a1, b1) = choose|a1: int, b1: int|
                            in_groups(groups, a1, b1) && #[trigger] groups[a1][b1] == acc[k];
                        assert(in_groups(groups, i, j) && groups[i][j] == t);
                    } else {
                        assert(represented(acc, t));
                        lemma_merge(groups, i, j + 1, acc);
                    }
                },
                None => {
                    let acc2 = acc.push(t);
                    assert(acc2[acc.len() as int] == t);
                    assert forall|k: int| 0 <= k < acc2.len() implies from_groups(groups, #[trigger] acc2[k]) by {
                        if k < acc.len() {
                            assert(acc2[k] == acc[k]);
                        } else {
                            assert(in_groups(groups, i, j) && groups[i][j] == acc2[k]);
                        }
                    }
                    assert forall|a: int, b: int|
                        in_groups(groups, a, b) && (a < i || (a == i && b < j + 1))
                            && is_uniform_struct_name(
                            #[trigger] groups[a][b].name,
                        ) implies represented(acc2, groups[a][b]) by {
                        if a == i && b == j {
                            assert(acc2[acc.len() as int] == groups[a][b]);
                        } else {
                            let k = choose|k: int|
                                0 <= k < acc.len() && #[trigger] acc[k].name == groups[a][b].name
                                    && acc[k].vars == groups[a][b].vars;
                            assert(acc2[k] == acc[k]);
                        }
                    }
                    assert forall|x: int, y: int| 0 <= x < y < acc2.len() implies #[trigger] acc2[x].name
                        != #[trigger] acc2[y].name by {
                        if y == acc.len() {
                            assert(acc[x].name != t.name);
                        } else {
                            assert(acc2[x] == acc[x] && acc2[y] == acc[y]);
                        }
                    }
                    assert forall|x: int| 0 <= x < acc2.len() implies is_uniform_struct_name(
                        #[trigger] acc2[x].name,
                    ) by {
                        if x < acc.len() {
                            assert(acc2[x] == acc[x]);
                        }
                    }
                    lemma_merge(groups, i, j + 1, acc2);
                },
            }
        }
    }
}

/// What the uniform pass gives for the structs of all shaders: where it
/// succeeds, each name once, every name a uniform one (`Ubo...` or
/// `Uc...`), and every uniform struct of every shader present with its
/// members; where it fails, two uniform structs share a name and differ
/// in their members, and the error names them.
pub proof fn lemma_uniform_merge(groups: Seq<Seq<StructView>>)
    ensures
        merge_uniform_structs(groups, 0, 0, seq![]) matches Merge::Merged(s) ==> {
            &&& names_unique(s)
            &&& all_uniform(s)
            &&& forall|a: int, b: int|
                #![trigger groups[a][b]]
                in_groups(groups, a, b) && is_uniform_struct_name(groups[a][b].name) ==> represented(
                    s,
                    groups[a][b],
                )
            &&& forall|k: int| 0 <= k < s.len() ==> from_groups(groups, #[trigger] s[k])
        },
        merge_uniform_structs(groups, 0, 0, seq![]) matches Merge::Conflict(m) ==> exists|
            a1: int,
            b1: int,
            a2: int,
            b2: int,
        |
            #![trigger groups[a1][b1], groups[a2][b2]]
            in_groups(groups, a1, b1) && in_groups(groups, a2, b2) && groups[a1][b1].name
                == groups[a2][b2].name && is_uniform_struct_name(groups[a1][b1].name)
                && groups[a1][b1].vars != groups[a2][b2].vars && m
                == "two structs with the same name have diffrent containts: "@ + groups[a2][b2].name,
{
    lemma_merge(groups, 0, 0, seq![]);
}


/// All structs of `groups`, group after group.
pub open spec fn concat_groups(groups: Seq<Seq<StructView>>) -> Seq<StructView>
    decreases groups.len(),
{
    if groups.len() == 0 {
        Seq::empty()
    } else {
        groups[0] + concat_groups(groups.drop_first())
    }
}

/// The structs of `groups` from struct `j` of group `i` on, in the order in
/// which the uniform pass visits them.
pub open spec fn structs_from(groups: Seq<Seq<StructView>>, i: int, j: int) -> Seq<StructView>
    decreases groups.len() - i, groups[i].len() - j,
{
    if i < 0 || i >= groups.len() {
        Seq::empty()
    } else if j < 0 || j >= groups[i].len() {
        structs_from(groups, i + 1, 0)
    } else {
        seq![groups[i][j]] + structs_from(groups, i, j + 1)
    }
}

/// The uniform pass over a flat list of structs, collecting into `acc`.
pub open spec fn merge_list(list: Seq<StructView>, acc: Seq<StructView>) -> Merge
    decreases list.len(),
{
    if list.len() == 0 {
        Merge::Merged(acc)
    } else {
        let s = list[0];
        if !is_uniform_struct_name(s.name) {
            merge_list(list.drop_first(), acc)
        } else {
            match find_named(acc, s.name) {
                Some(k) => if acc[k].vars != s.vars {
                    Merge::Conflict(
                        "two structs with the same name have diffrent containts: "@ + s.name,
                    )
                } else {
                    merge_list(list.drop_first(), acc)
                },
                None => merge_list(list.drop_first(), acc.push(s)),
            }
        }
    }
}

proof fn lemma_merge_is_flat(groups: Seq<Seq<StructView>>, i: int, j: int, acc: Seq<StructView>)
    ensures
        merge_uniform_structs(groups, i, j, acc) == merge_list(structs_from(groups, i, j), acc),
    decreases groups.len() - i, groups[i].len() - j,
{
    if i < 0 || i >= groups.len() {
    } else if j < 0 || j >= groups[i].len() {
        lemma_merge_is_flat(groups, i + 1, 0, acc);
    } else {
        let t = groups[i][j];
        let rest = structs_from(groups, i, j + 1);
        let l = seq![t] + rest;
        assert(l[0] == t);
        assert(l.drop_first() =~= rest);
        if !is_uniform_struct_name(t.name) {
            lemma_merge_is_flat(groups, i, j + 1, acc);
        } else {
            match find_named(acc, t.name) {
                Some(k) => {
                    lemma_merge_is_flat(groups, i, j + 1, acc);
                },
                None => {
                    lemma_merge_is_flat(groups, i, j + 1, acc.push(t));
                },
            }
        }
    }
}

proof fn lemma_concat_unfold(groups: Seq<Seq<StructView>>)
    ensures
        groups.len() == 0 ==> concat_groups(groups) == Seq::<StructView>::empty(),
        groups.len() > 0 ==> concat_groups(groups) == groups[0] + concat_groups(groups.drop_first()),
{
}

proof fn lemma_concat_single(g: Seq<StructView>)
    ensures
        concat_groups(seq![g]) == g,
{
    let one = seq![g];
    lemma_concat_unfold(one);
    lemma_concat_unfold(one.drop_first());
    assert(one.drop_first().len() == 0);
    assert(one[0] == g);
    assert(g + Seq::<StructView>::empty() =~= g);
}

proof fn lemma_structs_from_concat(groups: Seq<Seq<StructView>>, i: int, j: int)
    requires
        0 <= i < groups.len(),
        0 <= j <= groups[i].len(),
    ensures
        structs_from(groups, i, j) == groups[i].subrange(j, groups[i].len() as int) + concat_groups(
            groups.subrange(i + 1, groups.len() as int),
        ),
    decreases groups.len() - i, groups[i].len() - j,
{
    let tail = groups.subrange(i + 1, groups.len() as int);
    lemma_concat_unfold(tail);
    if j == groups[i].len() {
        assert(structs_from(groups, i, j) == structs_from(groups, i + 1, 0));
        assert(groups[i].subrange(j, groups[i].len() as int) =~= Seq::<StructView>::empty());
        if i + 1 == groups.len() {
            assert(structs_from(groups, i + 1, 0) == Seq::<StructView>::empty());
            assert(tail.len() == 0);
            assert(Seq::<StructView>::empty() + concat_groups(tail) =~= Seq::<StructView>::empty());
        } else {
            lemma_structs_from_concat(groups, i + 1, 0);
            assert(tail.drop_first() =~= groups.subrange(i + 2, groups.len() as int));
            assert(tail[0] == groups[i + 1]);
            assert(groups[i + 1].subrange(0, groups[i + 1].len() as int) =~= groups[i + 1]);
            assert(Seq::<StructView>::empty() + concat_groups(tail) =~= concat_groups(tail));
        }
    } else {
        assert(structs_from(groups, i, j) == seq![groups[i][j]] + structs_from(groups, i, j + 1));
        lemma_structs_from_concat(groups, i, j + 1);
        assert(seq![groups[i][j]] + (groups[i].subrange(j + 1, groups[i].len() as int) + concat_groups(tail))
            =~= groups[i].subrange(j, groups[i].len() as int) + concat_groups(tail));
    }
}

proof fn lemma_structs_from_start(groups: Seq<Seq<StructView>>)
    ensures
        structs_from(groups, 0, 0) == concat_groups(groups),
{
    if groups.len() > 0 {
        lemma_structs_from_concat(groups, 0, 0);
        assert(groups.subrange(1, groups.len() as int) =~= groups.drop_first());
        assert(groups[0].subrange(0, groups[0].len() as int) =~= groups[0]);
    }
}

/// The uniform pass does not depend on how the structs are grouped into
/// shader files: it gives the same as one group holding all structs,
/// group after group.
pub proof fn lemma_merge_ignores_grouping(groups: Seq<Seq<StructView>>)
    ensures
        merge_uniform_structs(groups, 0, 0, seq![]) == merge_uniform_structs(
            seq![concat_groups(groups)],
            0,
            0,
            seq![],
        ),
{
    lemma_merge_is_flat(groups, 0, 0, seq![]);
    lemma_structs_from_start(groups);
    let one = seq![concat_groups(groups)];
    lemma_merge_is_flat(one, 0, 0, seq![]);
    lemma_structs_from_start(one);
    lemma_concat_single(concat_groups(groups));
}

proof fn lemma_merge_list_of_merged(s: Seq<StructView>, k: int)
    requires
        0 <= k <= s.len(),
        names_unique(s),
        all_uniform(s),
    ensures
        merge_list(s.subrange(k, s.len() as int), s.subrange(0, k)) == Merge::Merged(s),
    decreases s.len() - k,
{
    if k == s.len() {
        assert(s.subrange(0, k) =~= s);
    } else {
        let l = s.subrange(k, s.len() as int);
        let acc = s.subrange(0, k);
        assert(l[0] == s[k]);
        assert(is_uniform_struct_name(s[k].name));
        lemma_find_named(acc, s[k].name);
        if find_named(acc, s[k].name) is Some {
            let idx = find_named(acc, s[k].name)->Some_0;
            assert(acc[idx] == s[idx]);
            assert(s[idx].name != s[k].name);
        }
        assert(l.drop_first() =~= s.subrange(k + 1, s.len() as int));
        assert(acc.push(s[k]) =~= s.subrange(0, k + 1));
        lemma_merge_list_of_merged(s, k + 1);
    }
}

/// Running the uniform pass again over what it gave keeps it as it is.
pub proof fn lemma_merge_idempotent(groups: Seq<Seq<StructView>>)
    ensures
        merge_uniform_structs(groups, 0, 0, seq![]) matches Merge::Merged(s) ==> merge_uniform_structs(
            seq![s],
            0,
            0,
            seq![],
        ) == Merge::Merged(s),
{
    lemma_uniform_merge(groups);
    if let Merge::Merged(s) = merge_uniform_structs(groups, 0, 0, seq![]) {
        let one = seq![s];
        lemma_merge_is_flat(one, 0, 0, seq![]);
        lemma_structs_from_start(one);
        lemma_concat_single(s);
        lemma_merge_list_of_merged(s, 0);
        assert(s.subrange(0, s.len() as int) =~= s);
        assert(s.subrange(0, 0) =~= Seq::<StructView>::empty());
    }
}


proof fn lemma_merge_list_skip(l: Seq<StructView>, k: int, x: StructView, acc: Seq<StructView>)
    requires
        0 <= k <= l.len(),
        !is_uniform_struct_name(x.name),
    ensures
        merge_list(l.insert(k, x), acc) == merge_list(l, acc),
    decreases l.len(),
{
    let m = l.insert(k, x);
    if k == 0 {
        assert(m[0] == x);
        assert(m.drop_first() =~= l);
    } else {
        assert(m[0] == l[0]);
        assert(m.drop_first() =~= l.drop_first().insert(k - 1, x));
        let t = l[0];
        if !is_uniform_struct_name(t.name) {
            lemma_merge_list_skip(l.drop_first(), k - 1, x, acc);
        } else {
            match find_named(acc, t.name) {
                Some(j) => {
                    lemma_merge_list_skip(l.drop_first(), k - 1, x, acc);
                },
                None => {
                    lemma_merge_list_skip(l.drop_first(), k - 1, x, acc.push(t));
                },
            }
        }
    }
}

/// A struct whose name starts with neither `Ubo` nor `Uc` (a shader's own
/// helper struct) plays no part in the uniform pass: putting it anywhere
/// in a shader's list of structs changes nothing, neither the merged list
/// nor a conflict. With `lemma_merge_ignores_grouping` this holds for
/// structs spread over any number of shaders.
pub proof fn lemma_merge_ignores_other_structs(l: Seq<StructView>, k: int, x: StructView)
    requires
        0 <= k <= l.len(),
        !starts_with(x.name, "Ubo"@),
        !starts_with(x.name, "Uc"@),
    ensures
        merge_uniform_structs(seq![l.insert(k, x)], 0, 0, seq![]) == merge_uniform_structs(
            seq![l],
            0,
            0,
            seq![],
        ),
{
    let a = seq![l.insert(k, x)];
    let b = seq![l];
    lemma_merge_is_flat(a, 0, 0, seq![]);
    lemma_structs_from_start(a);
    lemma_concat_single(l.insert(k, x));
    lemma_merge_is_flat(b, 0, 0, seq![]);
    lemma_structs_from_start(b);
    lemma_concat_single(l);
    lemma_merge_list_skip(l, k, x, seq![]);
}

/// Every struct of the merged list is named `Ubo...` or `Uc...`.
pub proof fn lemma_merged_names(groups: Seq<Seq<StructView>>)
    ensures
        merge_uniform_structs(groups, 0, 0, seq![]) matches Merge::Merged(r) ==> forall|i: int|
            0 <= i < r.len() ==> starts_with(#[trigger] r[i].name, "Ubo"@) || starts_with(
                r[i].name,
                "Uc"@,
            ),
{
    lemma_uniform_merge(groups);
}


/// The scalar kind that a Rust spelling of a scalar or vector names by its
/// first letter: `i`/`I` signed, `u`/`U` unsigned, `f` or a bare `Vec`
/// float.
pub open spec fn spelled_kind(r: Seq<char>) -> Option<ScalarKindModel> {
    if r.len() == 0 {
        None
    } else if r[0] == 'i' || r[0] == 'I' {
        Some(ScalarKindModel::Sint)
    } else if r[0] == 'u' || r[0] == 'U' {
        Some(ScalarKindModel::Uint)
    } else if r[0] == 'f' || r[0] == 'V' {
        Some(ScalarKindModel::Float)
    } else {
        None
    }
}

/// The Rust spelling of a scalar or vector member keeps its WGSL scalar
/// kind: a signed integer is spelled `i32` or `IVec..`, an unsigned one
/// `u32` or `UVec..`, a float `f32` or `Vec..`; so two kinds never share
/// a spelling.
pub proof fn lemma_spelling_keeps_kind(types: Seq<TypeInfo>, h: int)
    requires
        0 <= h < types.len(),
        element_type(types, h) is Ok,
        types[h].shape is Scalar || types[h].shape is Vector,
    ensures
        spelled_kind(element_type(types, h)->Ok_0.rusty) == Some(types[h].kind),
{
    reveal_strlit("f32");
    reveal_strlit("i32");
    reveal_strlit("u32");
    reveal_strlit("Vec");
    reveal_strlit("IVec");
    reveal_strlit("UVec");
    let r = element_type(types, h)->Ok_0.rusty;
    if types[h].shape is Vector {
        let n = types[h].shape->Vector_0;
        let dim = if n == 2 {
            "2"@
        } else if n == 3 {
            "3"@
        } else {
            "4"@
        };
        let pre = match types[h].kind {
            ScalarKindModel::Float => "Vec"@,
            ScalarKindModel::Sint => "IVec"@,
            _ => "UVec"@,
        };
        assert(r == pre + dim);
        assert(r[0] == pre[0]);
    }
}

} // verus!
