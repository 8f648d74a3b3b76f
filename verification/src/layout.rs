//! Uniform-buffer layout of WGSL structs and the Rust code generated for
//! them: `#[repr(C)]` structs with explicit padding, their `Default` impls,
//! and the `Ubo` fields of the generated asset table.
use vstd::prelude::*;
use crate::text::{
    chars_of, count_char, dec, first_index, lemma_first_index, lower_text, parse_u32,
    parse_u32_range, push_dec, range_eq, scan_char, starts_with, str_eq, str_lowercase,
    str_starts_with, string_of_range, trim, trim_bounds,
};
use crate::analysis::{element_type, ScalarKindModel, TypeInfo, TypeShape};
use crate::wgsl::{structs_view, StructView, VarView, WgslStruct, WgslStructVar};

verus! {

/// The four pieces of generated code that the layout pass appends to.
pub struct GenCode {
    pub struct_code: Seq<char>,
    pub fn_code: Seq<char>,
    pub ret_code: Seq<char>,
    pub ret_struct_code: Seq<char>,
}

/// Result of laying out a type: `(size, align)`, an error message, or a run
/// that never returns normally (unbounded recursion or arithmetic overflow).
pub enum Outcome {
    Value(u32, u32),
    Failure(Seq<char>),
    Diverges,
}

pub struct Step {
    pub outcome: Outcome,
    pub out: GenCode,
}

/// State of the member loop of one struct.
pub struct Acc {
    pub cur: u32,
    pub max_align: u32,
    pub pads: u32,
    pub fields: Seq<char>,
    pub defaults: Seq<char>,
    pub out: GenCode,
}

pub enum Fold {
    Continue(Acc),
    Stop(Step),
}

pub open spec fn gen_code(s: String, f: String, r: String, rs: String) -> GenCode {
    GenCode { struct_code: s@, fn_code: f@, ret_code: r@, ret_struct_code: rs@ }
}

/// Size and alignment of the built-in scalar, vector and matrix types.
pub open spec fn builtin_layout(t: Seq<char>) -> Option<(u32, u32)> {
    if t == "i32"@ || t == "u32"@ || t == "f32"@ {
        Some((4u32, 4u32))
    } else if t == "Vec2"@ || t == "IVec2"@ || t == "UVec2"@ {
        Some((8u32, 8u32))
    } else if t == "Vec3"@ || t == "IVec3"@ || t == "UVec3"@ {
        Some((12u32, 16u32))
    } else if t == "Vec4"@ || t == "IVec4"@ || t == "UVec4"@ {
        Some((16u32, 16u32))
    } else if t == "Mat3"@ {
        Some((48u32, 16u32))
    } else if t == "Mat4"@ {
        Some((64u32, 16u32))
    } else {
        None
    }
}

/// A Rust type spelled `[...]`.
pub open spec fn is_array_type(r: Seq<char>) -> bool {
    r.len() > 0 && r[0] == '[' && r.last() == ']'
}

/// Text between the brackets of an array type.
pub open spec fn array_inner(r: Seq<char>) -> Seq<char> {
    r.subrange(1, r.len() - 1)
}

/// An array type of the form `[T; N]` (exactly one `;`).
pub open spec fn is_sized_array(r: Seq<char>) -> bool {
    is_array_type(r) && count_char(array_inner(r), ';') == 1
}

/// The element type named by `r`: `T` for `[T; N]`, else `r` itself.
pub open spec fn element_name(r: Seq<char>) -> Seq<char> {
    if is_sized_array(r) {
        trim(array_inner(r).subrange(0, first_index(array_inner(r), ';')))
    } else {
        r
    }
}

/// The element count of `r`: `N` for `[T; N]` when `N` parses, else 1.
pub open spec fn element_count(r: Seq<char>) -> u32 {
    if is_sized_array(r) {
        let inner = array_inner(r);
        match parse_u32(trim(inner.subrange(first_index(inner, ';') + 1, inner.len() as int))) {
            Some(n) => n,
            None => 1u32,
        }
    } else {
        1u32
    }
}

/// Index of the first struct called `name`.
pub open spec fn find_struct(ubos: Seq<StructView>, name: Seq<char>) -> Option<int>
    decreases ubos.len(),
{
    if ubos.len() == 0 {
        None
    } else {
        match find_struct(ubos.drop_last(), name) {
            Some(k) => Some(k),
            None => if ubos.last().name == name {
                Some(ubos.len() - 1)
            } else {
                None
            },
        }
    }
}

/// `x` rounded up to a multiple of `a` by the bit trick of the generator.
pub open spec fn align_up(x: u32, a: u32) -> u32 {
    ((x + a - 1) as u32) & !((a - 1) as u32)
}

/// Layout of an array of `n` elements of size `s` and alignment `a`. The
/// stride is computed as `(s + a - 1) & !(a - 1)`, left to right, so it
/// overflows once `s + a` passes `u32::MAX`.
pub open spec fn array_outcome(s: u32, a: u32, n: u32) -> Outcome {
    if a == 0 || s + a > u32::MAX || align_up(s, a) * n > u32::MAX {
        Outcome::Diverges
    } else {
        Outcome::Value((align_up(s, a) * n) as u32, a)
    }
}

pub open spec fn struct_header(name: Seq<char>) -> Seq<char> {
    "\n#[repr(C)]\n#[derive(Copy, Clone, bytemuck::Pod, bytemuck::Zeroable)]\npub struct "@ + name
        + " {"@
}

pub open spec fn default_header(name: Seq<char>) -> Seq<char> {
    "\n        impl Default for "@ + name
        + " {\n            fn default() -> Self {\n                Self {"@
}

pub open spec fn pad_field(pc: u32, n: u32) -> Seq<char> {
    "\npub _pad"@ + dec(pc as nat) + ": [u8; "@ + dec(n as nat) + "],"@
}

pub open spec fn pad_default(pc: u32, n: u32) -> Seq<char> {
    "\n_pad"@ + dec(pc as nat) + ": [0; "@ + dec(n as nat) + "],"@
}

pub open spec fn field_line(name: Seq<char>, rusty: Seq<char>) -> Seq<char> {
    "\npub "@ + name + ": "@ + rusty + ","@
}

/// The `Default` value written for a member of type `rusty`.
pub open spec fn default_value(rusty: Seq<char>) -> Seq<char> {
    if rusty == "i32"@ || rusty == "u32"@ {
        "0"@
    } else if rusty == "f32"@ {
        "0.0"@
    } else if rusty == "Vec2"@ || rusty == "IVec2"@ || rusty == "UVec2"@ || rusty == "Vec3"@
        || rusty == "IVec3"@ || rusty == "UVec3"@ || rusty == "Vec4"@ || rusty == "IVec4"@
        || rusty == "UVec4"@ {
        rusty + "::ZERO"@
    } else if rusty == "Mat3"@ || rusty == "Mat4"@ {
        rusty + "::IDENTITY"@
    } else {
        "Default::default()"@
    }
}

pub open spec fn default_line(name: Seq<char>, rusty: Seq<char>) -> Seq<char> {
    "\n"@ + name + ": "@ + default_value(rusty) + ","@
}

pub open spec fn struct_footer(defaults: Seq<char>) -> Seq<char> {
    "\n}\n"@ + defaults + "\n}\n}\n}\n\n"@
}

/// Code appended to the asset table for the `Ubo` struct `name` whose
/// table entry is called `vn`: its construction, its return entry and its
/// field.
pub open spec fn ubo_entries_named(out: GenCode, name: Seq<char>, vn: Seq<char>) -> GenCode {
    GenCode {
        struct_code: out.struct_code,
        fn_code: out.fn_code + "\nlet mut "@ + vn + " = Ubo::new(context, "@ + name
            + "::default());"@,
        ret_code: out.ret_code + "\n"@ + vn + ","@,
        ret_struct_code: out.ret_struct_code + "\npub "@ + vn + ": Ubo<"@ + name + ">,"@,
    }
}

/// Code appended to the asset table for a struct whose name starts with
/// `Ubo`; its entry is called by the lower-cased struct name.
pub open spec fn ubo_entries(out: GenCode, name: Seq<char>) -> GenCode {
    ubo_entries_named(out, name, lower_text(name))
}

/// Layout of one member type, with the code emitted for the structs it needs.
pub open spec fn var_layout(ubos: Seq<StructView>, var: VarView, out: GenCode, fuel: nat) -> Step
    decreases fuel, 0nat, 0nat,
{
    let r = var.type_.rusty;
    let tn = element_name(r);
    let base = match builtin_layout(tn) {
        Some(sa) => Step { outcome: Outcome::Value(sa.0, sa.1), out },
        None => if var.type_.required_structs.len() >= 1 {
            let req = var.type_.required_structs[0];
            match find_struct(ubos, req) {
                Some(k) => if fuel == 0 {
                    Step { outcome: Outcome::Diverges, out }
                } else {
                    struct_layout(ubos, ubos[k], out, (fuel - 1) as nat)
                },
                None => Step {
                    outcome: Outcome::Failure("required struct doesnt exist: "@ + req),
                    out,
                },
            }
        } else {
            Step {
                outcome: Outcome::Failure("cant give aligment for something unknown: "@ + tn),
                out,
            }
        },
    };
    match base.outcome {
        Outcome::Value(s, a) => if is_array_type(r) {
            Step { outcome: array_outcome(s, a, element_count(r)), out: base.out }
        } else {
            base
        },
        _ => base,
    }
}

/// Places member `var` (of layout `(vs, va)`) after the members in `acc`.
pub open spec fn place_var(name: Seq<char>, var: VarView, vs: u32, va: u32, acc: Acc) -> Fold {
    let ma = if va > acc.max_align {
        va
    } else {
        acc.max_align
    };
    if var.offset < acc.cur {
        Fold::Stop(
            Step {
                outcome: Outcome::Failure("overlap in: "@ + name + " at: "@ + var.name),
                out: acc.out,
            },
        )
    } else if var.offset > acc.cur && acc.pads == u32::MAX {
        Fold::Stop(Step { outcome: Outcome::Diverges, out: acc.out })
    } else if var.offset as int + vs as int > u32::MAX {
        Fold::Stop(Step { outcome: Outcome::Diverges, out: acc.out })
    } else {
        let padded = var.offset > acc.cur;
        let pad = (var.offset - acc.cur) as u32;
        let fields = if padded {
            acc.fields + pad_field(acc.pads, pad)
        } else {
            acc.fields
        };
        let defaults = if padded {
            acc.defaults + pad_default(acc.pads, pad)
        } else {
            acc.defaults
        };
        Fold::Continue(
            Acc {
                cur: (var.offset + vs) as u32,
                max_align: ma,
                pads: if padded {
                    (acc.pads + 1) as u32
                } else {
                    acc.pads
                },
                fields: fields + field_line(var.name, var.type_.rusty),
                defaults: defaults + default_line(var.name, var.type_.rusty),
                out: acc.out,
            },
        )
    }
}

/// Lays out one member: first its type (which may emit nested structs), then its place.
pub open spec fn field_step(
    ubos: Seq<StructView>,
    name: Seq<char>,
    var: VarView,
    acc: Acc,
    fuel: nat,
) -> Fold
    decreases fuel, 1nat, 0nat,
{
    let st = var_layout(ubos, var, acc.out, fuel);
    match st.outcome {
        Outcome::Value(vs, va) => place_var(name, var, vs, va, Acc { out: st.out, ..acc }),
        _ => Fold::Stop(st),
    }
}

/// Lays out the members of `ubo` from index `i` on.
pub open spec fn fields_layout(
    ubos: Seq<StructView>,
    ubo: StructView,
    i: int,
    acc: Acc,
    fuel: nat,
) -> Fold
    decreases fuel, 1nat, ubo.vars.len() - i,
{
    if i < 0 || i >= ubo.vars.len() {
        Fold::Continue(acc)
    } else {
        match field_step(ubos, ubo.name, ubo.vars[i], acc, fuel) {
            Fold::Stop(s) => Fold::Stop(s),
            Fold::Continue(a) => fields_layout(ubos, ubo, i + 1, a, fuel),
        }
    }
}

/// Closes a struct: trailing padding to a multiple of its alignment, the
/// struct text, and the asset-table entries of a `Ubo` struct. The size is
/// rounded as `(cur + max_align - 1) & !(max_align - 1)`, left to right, so
/// it overflows once `cur + max_align` passes `u32::MAX`.
pub open spec fn finish_struct(name: Seq<char>, acc: Acc) -> Step {
    if acc.max_align > 0 && acc.cur + acc.max_align > u32::MAX {
        Step { outcome: Outcome::Diverges, out: acc.out }
    } else {
        let final_size = if acc.max_align > 0 {
            align_up(acc.cur, acc.max_align)
        } else {
            0u32
        };
        if final_size < acc.cur {
            Step { outcome: Outcome::Diverges, out: acc.out }
        } else {
            let end = (final_size - acc.cur) as u32;
            let fields = if end > 0 {
                acc.fields + pad_field(acc.pads, end)
            } else {
                acc.fields
            };
            let defaults = if end > 0 {
                acc.defaults + pad_default(acc.pads, end)
            } else {
                acc.defaults
            };
            let out1 = GenCode {
                struct_code: acc.out.struct_code + fields + struct_footer(defaults),
                ..acc.out
            };
            Step {
                outcome: Outcome::Value(final_size, acc.max_align),
                out: if starts_with(name, "Ubo"@) {
                    ubo_entries(out1, name)
                } else {
                    out1
                },
            }
        }
    }
}

pub open spec fn start_acc(name: Seq<char>, out: GenCode) -> Acc {
    Acc {
        cur: 0,
        max_align: 0,
        pads: 0,
        fields: struct_header(name),
        defaults: default_header(name),
        out,
    }
}

/// Layout of struct `ubo` and the code emitted for it and the structs it needs.
pub open spec fn struct_layout(ubos: Seq<StructView>, ubo: StructView, out: GenCode, fuel: nat) -> Step
    decreases fuel, 2nat, 0nat,
{
    match fields_layout(ubos, ubo, 0, start_acc(ubo.name, out), fuel) {
        Fold::Stop(s) => s,
        Fold::Continue(acc) => finish_struct(ubo.name, acc),
    }
}

/// Recursion budget that every run over `ubos` that returns needs: a chain
/// of nested structs never visits a struct twice.
pub open spec fn fuel_for(ubos: Seq<StructView>) -> nat {
    ubos.len() + 1
}

pub open spec fn outcome_matches(r: Result<(u32, u32), String>, o: Outcome) -> bool {
    match o {
        Outcome::Value(s, a) => r == Ok::<(u32, u32), String>((s, a)),
        Outcome::Failure(m) => r is Err && r->Err_0@ == m,
        Outcome::Diverges => false,
    }
}

/// Why laying out a type gave no size: the message of a refused input, or
/// a run that would not return normally.
enum LayoutFail {
    Message(String),
    Diverges,
}

spec fn outcome_result(r: Result<(u32, u32), LayoutFail>, o: Outcome) -> bool {
    match o {
        Outcome::Value(s, a) => r == Ok::<(u32, u32), LayoutFail>((s, a)),
        Outcome::Failure(m) => r matches Err(LayoutFail::Message(e)) && e@ == m,
        Outcome::Diverges => r matches Err(LayoutFail::Diverges),
    }
}

fn builtin_layout_exec(v: &Vec<char>, a: usize, b: usize) -> (r: Option<(u32, u32)>)
    requires
        a <= b <= v@.len(),
    ensures
        r == builtin_layout(v@.subrange(a as int, b as int)),
{
    if range_eq(v, a, b, "i32") || range_eq(v, a, b, "u32") || range_eq(v, a, b, "f32") {
        Some((4, 4))
    } else if range_eq(v, a, b, "Vec2") || range_eq(v, a, b, "IVec2") || range_eq(
        v,
        a,
        b,
        "UVec2",
    ) {
        Some((8, 8))
    } else if range_eq(v, a, b, "Vec3") || range_eq(v, a, b, "IVec3") || range_eq(
        v,
        a,
        b,
        "UVec3",
    ) {
        Some((12, 16))
    } else if range_eq(v, a, b, "Vec4") || range_eq(v, a, b, "IVec4") || range_eq(
        v,
        a,
        b,
        "UVec4",
    ) {
        Some((16, 16))
    } else if range_eq(v, a, b, "Mat3") {
        Some((48, 16))
    } else if range_eq(v, a, b, "Mat4") {
        Some((64, 16))
    } else {
        None
    }
}

fn default_value_exec(rusty: &str) -> (r: String)
    ensures
        r@ == default_value(rusty@),
{
    if str_eq(rusty, "i32") || str_eq(rusty, "u32") {
        String::from_str("0")
    } else if str_eq(rusty, "f32") {
        String::from_str("0.0")
    } else if str_eq(rusty, "Vec2") || str_eq(rusty, "IVec2") || str_eq(rusty, "UVec2")
        || str_eq(rusty, "Vec3") || str_eq(rusty, "IVec3") || str_eq(rusty, "UVec3") || str_eq(
        rusty,
        "Vec4",
    ) || str_eq(rusty, "IVec4") || str_eq(rusty, "UVec4") {
        let mut s = String::from_str(rusty);
        s.append("::ZERO");
        s
    } else if str_eq(rusty, "Mat3") || str_eq(rusty, "Mat4") {
        let mut s = String::from_str(rusty);
        s.append("::IDENTITY");
        s
    } else {
        String::from_str("Default::default()")
    }
}

fn append_pad_field(s: &mut String, pc: u32, n: u32)
    ensures
        final(s)@ == old(s)@ + pad_field(pc, n),
{
    s.append("\npub _pad");
    push_dec(s, pc as u64);
    s.append(": [u8; ");
    push_dec(s, n as u64);
    s.append("],");
    proof {
        assert(final(s)@ =~= old(s)@ + pad_field(pc, n));
    }
}

fn append_pad_default(s: &mut String, pc: u32, n: u32)
    ensures
        final(s)@ == old(s)@ + pad_default(pc, n),
{
    s.append("\n_pad");
    push_dec(s, pc as u64);
    s.append(": [0; ");
    push_dec(s, n as u64);
    s.append("],");
    proof {
        assert(final(s)@ =~= old(s)@ + pad_default(pc, n));
    }
}

fn append_field_line(s: &mut String, name: &str, rusty: &str)
    ensures
        final(s)@ == old(s)@ + field_line(name@, rusty@),
{
    s.append("\npub ");
    s.append(name);
    s.append(": ");
    s.append(rusty);
    s.append(",");
    proof {
        assert(final(s)@ =~= old(s)@ + field_line(name@, rusty@));
    }
}

fn append_default_line(s: &mut String, name: &str, rusty: &str)
    ensures
        final(s)@ == old(s)@ + default_line(name@, rusty@),
{
    let dv = default_value_exec(rusty);
    s.append("\n");
    s.append(name);
    s.append(": ");
    s.append(dv.as_str());
    s.append(",");
    proof {
        assert(final(s)@ =~= old(s)@ + default_line(name@, rusty@));
    }
}

fn find_struct_exec(ubos: &[WgslStruct], name: &String) -> (r: Option<usize>)
    ensures
        r matches Some(k) ==> find_struct(structs_view(ubos@), name@) == Some(k as int) && k
            < ubos@.len(),
        r is None ==> find_struct(structs_view(ubos@), name@) is None,
{
    let mut i: usize = 0;
    while i < ubos.len()
        invariant
            i <= ubos@.len(),
            find_struct(structs_view(ubos@).subrange(0, i as int), name@) is None,
        decreases ubos@.len() - i,
    {
        if ubos[i].name == *name {
            proof {
                assert(structs_view(ubos@).subrange(0, i + 1).drop_last() =~= structs_view(
                    ubos@,
                ).subrange(0, i as int));
                lemma_find_struct_prefix(structs_view(ubos@), i as int + 1);
            }
            return Some(i);
        }
        i = i + 1;
        proof {
            assert(structs_view(ubos@).subrange(0, i as int).drop_last() =~= structs_view(
                ubos@,
            ).subrange(0, i - 1));
        }
    }
    proof {
        assert(structs_view(ubos@).subrange(0, i as int) =~= structs_view(ubos@));
    }
    None
}

/// A match in a prefix is the first match of the whole list.
proof fn lemma_find_struct_prefix(ubos: Seq<StructView>, n: int)
    requires
        0 <= n <= ubos.len(),
        find_struct(ubos.subrange(0, n), ubos[n - 1].name) is Some,
    ensures
        find_struct(ubos, ubos[n - 1].name) == find_struct(ubos.subrange(0, n), ubos[n - 1].name),
    decreases ubos.len() - n,
{
    if n < ubos.len() {
        lemma_find_struct_prefix_general(ubos, n, ubos[n - 1].name);
    } else {
        assert(ubos.subrange(0, n) =~= ubos);
    }
}

proof fn lemma_find_struct_prefix_general(ubos: Seq<StructView>, n: int, name: Seq<char>)
    requires
        0 <= n <= ubos.len(),
        find_struct(ubos.subrange(0, n), name) is Some,
    ensures
        find_struct(ubos, name) == find_struct(ubos.subrange(0, n), name),
    decreases ubos.len() - n,
{
    if n < ubos.len() {
        assert(ubos.subrange(0, n + 1).drop_last() =~= ubos.subrange(0, n));
        lemma_find_struct_prefix_general(ubos, n + 1, name);
    } else {
        assert(ubos.subrange(0, n) =~= ubos);
    }
}

/// Splits the Rust type in `v` into the char range of its element type, its
/// element count, and whether it is an array.
fn decompose(v: &Vec<char>) -> (r: (usize, usize, u32, bool))
    ensures
        r.0 <= r.1 <= v@.len(),
        v@.subrange(r.0 as int, r.1 as int) == element_name(v@),
        r.2 == element_count(v@),
        r.3 == is_array_type(v@),
{
    let n = v.len();
    let is_arr = n > 0 && v[0] == '[' && v[n - 1] == ']';
    if !is_arr {
        proof {
            assert(v@.subrange(0, n as int) =~= v@);
        }
        return (0, n, 1, false);
    }
    let (count, pos) = scan_char(v, 1, n - 1, ';');
    let ghost inner = array_inner(v@);
    proof {
        assert(inner =~= v@.subrange(1, n - 1));
        lemma_first_index(inner, ';');
    }
    if count != 1 {
        proof {
            assert(v@.subrange(0, n as int) =~= v@);
        }
        return (0, n, 1, true);
    }
    let p = match pos {
        Some(p) => p,
        None => {
            proof {
                assert(false);
            }
            0
        },
    };
    let (a, b) = trim_bounds(v, 1, p);
    let (c, d) = trim_bounds(v, p + 1, n - 1);
    let len = match parse_u32_range(v, c, d) {
        Some(x) => x,
        None => 1,
    };
    proof {
        assert(inner.subrange(0, first_index(inner, ';')) =~= v@.subrange(1, p as int));
        assert(inner.subrange(first_index(inner, ';') + 1, inner.len() as int) =~= v@.subrange(
            p + 1,
            n - 1,
        ));
    }
    (a, b, len, true)
}

/// The layout of a member type before an array's element count is
/// applied: a built-in type, or a struct of `ubos` laid out with one level
/// of fuel less.
spec fn var_base(ubos: Seq<StructView>, var: VarView, out: GenCode, fuel: nat) -> Step {
    let tn = element_name(var.type_.rusty);
    match builtin_layout(tn) {
        Some(sa) => Step { outcome: Outcome::Value(sa.0, sa.1), out },
        None => if var.type_.required_structs.len() >= 1 {
            let req = var.type_.required_structs[0];
            match find_struct(ubos, req) {
                Some(k) => if fuel == 0 {
                    Step { outcome: Outcome::Diverges, out }
                } else {
                    struct_layout(ubos, ubos[k], out, (fuel - 1) as nat)
                },
                None => Step {
                    outcome: Outcome::Failure("required struct doesnt exist: "@ + req),
                    out,
                },
            }
        } else {
            Step {
                outcome: Outcome::Failure("cant give aligment for something unknown: "@ + tn),
                out,
            }
        },
    }
}

proof fn lemma_var_layout_base(ubos: Seq<StructView>, var: VarView, out: GenCode, fuel: nat)
    ensures
        ({
            let base = var_base(ubos, var, out, fuel);
            var_layout(ubos, var, out, fuel) == match base.outcome {
                Outcome::Value(s, a) => if is_array_type(var.type_.rusty) {
                    Step { outcome: array_outcome(s, a, element_count(var.type_.rusty)), out: base.out }
                } else {
                    base
                },
                _ => base,
            }
        }),
{
}

/// The layout of a member type before its element count (see `var_base`).
#[verifier::spinoff_prover]
#[verifier::rlimit(60)]
fn var_base_exec(
    var: &WgslStructVar,
    ubos: &[WgslStruct],
    struct_code: &mut String,
    fn_code: &mut String,
    ret_code: &mut String,
    ret_struct_code: &mut String,
    fuel: u128,
    v: &Vec<char>,
    a: usize,
    b: usize,
) -> (r: Result<(u32, u32), LayoutFail>)
    requires
        v@ == var@.type_.rusty,
        a <= b <= v@.len(),
        v@.subrange(a as int, b as int) == element_name(v@),
    ensures
        ({
            let st = var_base(
                structs_view(ubos@),
                var@,
                gen_code(*old(struct_code), *old(fn_code), *old(ret_code), *old(ret_struct_code)),
                fuel as nat,
            );
            &&& outcome_result(r, st.outcome)
            &&& !(st.outcome is Diverges) ==> gen_code(
                *final(struct_code),
                *final(fn_code),
                *final(ret_code),
                *final(ret_struct_code),
            ) == st.out
        }),
    decreases fuel, 0nat,
{
    let ghost ubs = structs_view(ubos@);
    match builtin_layout_exec(v, a, b) {
        Some(sa) => Ok(sa),
        None => {
            if var.type_.required_structs.len() >= 1 {
                let req = &var.type_.required_structs[0];
                match find_struct_exec(ubos, req) {
                    Some(k) => {
                        proof {
                            assert(ubs[k as int] == ubos@[k as int]@);
                        }
                        if fuel == 0 {
                            return Err(LayoutFail::Diverges);
                        }
                        struct_layout_exec(
                            &ubos[k],
                            ubos,
                            struct_code,
                            fn_code,
                            ret_code,
                            ret_struct_code,
                            fuel - 1,
                        )
                    },
                    None => {
                        let mut m = String::from_str("required struct doesnt exist: ");
                        m.append(req.as_str());
                        Err(LayoutFail::Message(m))
                    },
                }
            } else {
                let mut m = String::from_str("cant give aligment for something unknown: ");
                let tn = string_of_range(v, a, b);
                m.append(tn.as_str());
                Err(LayoutFail::Message(m))
            }
        },
    }
}

/// Layout of one member type (see `var_layout`).
#[verifier::spinoff_prover]
#[verifier::rlimit(60)]
fn var_layout_exec(
    var: &WgslStructVar,
    ubos: &[WgslStruct],
    struct_code: &mut String,
    fn_code: &mut String,
    ret_code: &mut String,
    ret_struct_code: &mut String,
    fuel: u128,
) -> (r: Result<(u32, u32), LayoutFail>)
    ensures
        ({
            let st = var_layout(
                structs_view(ubos@),
                var@,
                gen_code(*old(struct_code), *old(fn_code), *old(ret_code), *old(ret_struct_code)),
                fuel as nat,
            );
            &&& outcome_result(r, st.outcome)
            &&& !(st.outcome is Diverges) ==> gen_code(
                *final(struct_code),
                *final(fn_code),
                *final(ret_code),
                *final(ret_struct_code),
            ) == st.out
        }),
    decreases fuel, 1nat,
{
    let ghost ubs = structs_view(ubos@);
    let ghost out0 = gen_code(*struct_code, *fn_code, *ret_code, *ret_struct_code);
    let ghost base = var_base(ubs, var@, out0, fuel as nat);
    let ghost st = var_layout(ubs, var@, out0, fuel as nat);
    proof {
        lemma_var_layout_base(ubs, var@, out0, fuel as nat);
    }
    let v = chars_of(var.type_.rusty.as_str());
    let (a, b, count, is_arr) = decompose(&v);
    let res = var_base_exec(var, ubos, struct_code, fn_code, ret_code, ret_struct_code, fuel, &v, a, b);
    let (base_size, align) = match res {
        Ok(x) => x,
        Err(e) => {
            proof {
                assert(!(base.outcome is Value));
                assert(st == base);
            }
            return Err(e);
        },
    };
    proof {
        assert(base.outcome == Outcome::Value(base_size, align));
    }
    if is_arr {
        proof {
            assert(st == Step { outcome: array_outcome(base_size, align, count), out: base.out });
        }
        match array_layout_exec(base_size, align, count) {
            Some(x) => Ok(x),
            None => Err(LayoutFail::Diverges),
        }
    } else {
        proof {
            assert(st == base);
        }
        Ok((base_size, align))
    }
}

/// Outcome of emitting the code of every struct of `ubos` from index `i` on
/// (structs whose name starts with `Uc` are only emitted when another struct
/// needs them).
pub enum Emit {
    Done(GenCode),
    Failed(Seq<char>, GenCode),
    Diverges,
}

pub open spec fn emit_structs(ubos: Seq<StructView>, i: int, out: GenCode, fuel: nat) -> Emit
    decreases ubos.len() - i,
{
    if i < 0 || i >= ubos.len() {
        Emit::Done(out)
    } else if starts_with(ubos[i].name, "Uc"@) {
        emit_structs(ubos, i + 1, out, fuel)
    } else {
        let st = struct_layout(ubos, ubos[i], out, fuel);
        match st.outcome {
            Outcome::Value(_, _) => emit_structs(ubos, i + 1, st.out, fuel),
            Outcome::Failure(m) => Emit::Failed(m, st.out),
            Outcome::Diverges => Emit::Diverges,
        }
    }
}

/// Size and alignment of a struct member's type in uniform-buffer layout.
/// Appends to `struct_code` the Rust structs of the structs it needs (and
/// their `Ubo` entries to the other three buffers).
pub fn get_var_size_anigment(
    var: &WgslStructVar,
    ubos: &[WgslStruct],
    struct_code: &mut String,
    fn_code: &mut String,
    ret_code: &mut String,
    ret_struct_code: &mut String,
) -> (r: Result<(u32, u32), String>)
    requires
        !(var_layout(
            structs_view(ubos@),
            var@,
            gen_code(*old(struct_code), *old(fn_code), *old(ret_code), *old(ret_struct_code)),
            fuel_for(structs_view(ubos@)),
        ).outcome is Diverges),
    ensures
        ({
            let st = var_layout(
                structs_view(ubos@),
                var@,
                gen_code(*old(struct_code), *old(fn_code), *old(ret_code), *old(ret_struct_code)),
                fuel_for(structs_view(ubos@)),
            );
            &&& outcome_matches(r, st.outcome)
            &&& gen_code(*final(struct_code), *final(fn_code), *final(ret_code), *final(ret_struct_code)) == st.out
        }),
{
    let fuel: u128 = ubos.len() as u128 + 1;
    match var_layout_exec(var, ubos, struct_code, fn_code, ret_code, ret_struct_code, fuel) {
        Ok(x) => Ok(x),
        Err(LayoutFail::Message(m)) => Err(m),
        Err(LayoutFail::Diverges) => Err(String::new()),
    }
}

/// Emits the Rust struct (with `Default` impl) of every struct in `ubos`,
/// and for each `Ubo...` struct its field, constructor and return entries.
pub fn create_rust_ubo_structs(
    ubos: &[WgslStruct],
    struct_code: &mut String,
    fn_code: &mut String,
    ret_code: &mut String,
    ret_struct_code: &mut String,
) -> (r: Result<(), String>)
    requires
        !(emit_structs(
            structs_view(ubos@),
            0,
            gen_code(*old(struct_code), *old(fn_code), *old(ret_code), *old(ret_struct_code)),
            fuel_for(structs_view(ubos@)),
        ) is Diverges),
    ensures
        match emit_structs(
            structs_view(ubos@),
            0,
            gen_code(*old(struct_code), *old(fn_code), *old(ret_code), *old(ret_struct_code)),
            fuel_for(structs_view(ubos@)),
        ) {
            Emit::Done(o) => r is Ok && gen_code(
                *final(struct_code),
                *final(fn_code),
                *final(ret_code),
                *final(ret_struct_code),
            ) == o,
            Emit::Failed(m, o) => r is Err && r->Err_0@ == m && gen_code(
                *final(struct_code),
                *final(fn_code),
                *final(ret_code),
                *final(ret_struct_code),
            ) == o,
            Emit::Diverges => false,
        },
{
    match try_create_rust_ubo_structs(ubos, struct_code, fn_code, ret_code, ret_struct_code) {
        Some(r) => r,
        None => Err(String::new()),
    }
}

/// `create_rust_ubo_structs` for any `ubos`: `None` where laying the
/// structs out would not return normally (a struct that contains itself,
/// or a size or a padding count past `u32::MAX`); the four buffers then
/// hold what was appended before that point.
pub fn try_create_rust_ubo_structs(
    ubos: &[WgslStruct],
    struct_code: &mut String,
    fn_code: &mut String,
    ret_code: &mut String,
    ret_struct_code: &mut String,
) -> (r: Option<Result<(), String>>)
    ensures
        match emit_structs(
            structs_view(ubos@),
            0,
            gen_code(*old(struct_code), *old(fn_code), *old(ret_code), *old(ret_struct_code)),
            fuel_for(structs_view(ubos@)),
        ) {
            Emit::Done(o) => r == Some(Ok::<(), String>(())) && gen_code(
                *final(struct_code),
                *final(fn_code),
                *final(ret_code),
                *final(ret_struct_code),
            ) == o,
            Emit::Failed(m, o) => r matches Some(Err(e)) && e@ == m && gen_code(
                *final(struct_code),
                *final(fn_code),
                *final(ret_code),
                *final(ret_struct_code),
            ) == o,
            Emit::Diverges => r is None,
        },
{
    let ghost ubs = structs_view(ubos@);
    let ghost fuel = fuel_for(ubs);
    let ghost total = emit_structs(
        ubs,
        0,
        gen_code(*struct_code, *fn_code, *ret_code, *ret_struct_code),
        fuel,
    );
    let efuel: u128 = ubos.len() as u128 + 1;
    let mut i: usize = 0;
    while i < ubos.len()
        invariant
            i <= ubos@.len(),
            ubs == structs_view(ubos@),
            fuel == fuel_for(ubs),
            efuel as nat == fuel,
            total == emit_structs(
                ubs,
                0,
                gen_code(*old(struct_code), *old(fn_code), *old(ret_code), *old(ret_struct_code)),
                fuel,
            ),
            total == emit_structs(
                ubs,
                i as int,
                gen_code(*struct_code, *fn_code, *ret_code, *ret_struct_code),
                fuel,
            ),
        decreases ubos@.len() - i,
    {
        let ubo = &ubos[i];
        proof {
            assert(ubs[i as int] == ubo@);
        }
        if str_starts_with(ubo.name.as_str(), "Uc") {
            i = i + 1;
            continue;
        }
        let r = struct_layout_exec(
            ubo,
            ubos,
            struct_code,
            fn_code,
            ret_code,
            ret_struct_code,
            efuel,
        );
        match r {
            Ok(_) => {},
            Err(LayoutFail::Message(e)) => {
                return Some(Err(e));
            },
            Err(LayoutFail::Diverges) => {
                return None;
            },
        }
        i = i + 1;
    }
    Some(Ok(()))
}

/// Size and alignment of `n` elements of size `s` and alignment `a`.
fn array_layout_exec(s: u32, a: u32, n: u32) -> (r: Option<(u32, u32)>)
    ensures
        match r {
            Some(x) => array_outcome(s, a, n) == Outcome::Value(x.0, x.1),
            None => array_outcome(s, a, n) is Diverges,
        },
{
    if a == 0 || s as u64 + a as u64 > 0xffff_ffffu64 {
        return None;
    }
    let stride = (s + a - 1) & !(a - 1);
    assert(stride == align_up(s, a));
    assert((stride as u64) * (n as u64) <= 0xffff_ffffu64 * 0xffff_ffffu64) by (nonlinear_arith)
        requires
            stride <= 0xffff_ffffu32,
            n <= 0xffff_ffffu32,
    ;
    let total: u64 = stride as u64 * n as u64;
    if total > 0xffff_ffffu64 {
        return None;
    }
    Some((total as u32, a))
}

/// Appends the asset-table entries of the `Ubo` struct `struct_name`,
/// whose entry is called `var_name`, to the constructor code, the return
/// list and the field list.
pub fn append_ubo_entries(
    struct_name: &str,
    var_name: &str,
    fn_code: &mut String,
    ret_code: &mut String,
    ret_struct_code: &mut String,
)
    ensures
        ({
            let out = ubo_entries_named(
                GenCode {
                    struct_code: Seq::empty(),
                    fn_code: old(fn_code)@,
                    ret_code: old(ret_code)@,
                    ret_struct_code: old(ret_struct_code)@,
                },
                struct_name@,
                var_name@,
            );
            &&& final(fn_code)@ == out.fn_code
            &&& final(ret_code)@ == out.ret_code
            &&& final(ret_struct_code)@ == out.ret_struct_code
        }),
{
    fn_code.append("\nlet mut ");
    fn_code.append(var_name);
    fn_code.append(" = Ubo::new(context, ");
    fn_code.append(struct_name);
    fn_code.append("::default());");
    ret_code.append("\n");
    ret_code.append(var_name);
    ret_code.append(",");
    ret_struct_code.append("\npub ");
    ret_struct_code.append(var_name);
    ret_struct_code.append(": Ubo<");
    ret_struct_code.append(struct_name);
    ret_struct_code.append(">,");
    proof {
        assert(final(fn_code)@ =~= old(fn_code)@ + "\nlet mut "@ + var_name@ + " = Ubo::new(context, "@
            + struct_name@ + "::default());"@);
        assert(final(ret_code)@ =~= old(ret_code)@ + "\n"@ + var_name@ + ","@);
        assert(final(ret_struct_code)@ =~= old(ret_struct_code)@ + "\npub "@ + var_name@ + ": Ubo<"@
            + struct_name@ + ">,"@);
    }
}

/// Size and alignment of the struct `ubo` in uniform-buffer layout.
/// Appends its Rust struct (and those of the structs it needs) to
/// `struct_code`, and for a `Ubo...` struct its entries to the other three
/// buffers.
pub fn process_struct_and_give_aligment(
    ubo: &WgslStruct,
    ubos: &[WgslStruct],
    struct_code: &mut String,
    fn_code: &mut String,
    ret_code: &mut String,
    ret_struct_code: &mut String,
) -> (r: Result<(u32, u32), String>)
    requires
        !(struct_layout(
            structs_view(ubos@),
            ubo@,
            gen_code(*old(struct_code), *old(fn_code), *old(ret_code), *old(ret_struct_code)),
            fuel_for(structs_view(ubos@)),
        ).outcome is Diverges),
    ensures
        ({
            let st = struct_layout(
                structs_view(ubos@),
                ubo@,
                gen_code(*old(struct_code), *old(fn_code), *old(ret_code), *old(ret_struct_code)),
                fuel_for(structs_view(ubos@)),
            );
            &&& outcome_matches(r, st.outcome)
            &&& gen_code(*final(struct_code), *final(fn_code), *final(ret_code), *final(ret_struct_code)) == st.out
        }),
{
    let fuel: u128 = ubos.len() as u128 + 1;
    match struct_layout_exec(ubo, ubos, struct_code, fn_code, ret_code, ret_struct_code, fuel) {
        Ok(x) => Ok(x),
        Err(LayoutFail::Message(m)) => Err(m),
        Err(LayoutFail::Diverges) => Err(String::new()),
    }
}

/// `process_struct_and_give_aligment` within `fuel` levels of nested
/// structs.
fn struct_layout_exec(
    ubo: &WgslStruct,
    ubos: &[WgslStruct],
    struct_code: &mut String,
    fn_code: &mut String,
    ret_code: &mut String,
    ret_struct_code: &mut String,
    fuel: u128,
) -> (r: Result<(u32, u32), LayoutFail>)
    ensures
        ({
            let st = struct_layout(
                structs_view(ubos@),
                ubo@,
                gen_code(*old(struct_code), *old(fn_code), *old(ret_code), *old(ret_struct_code)),
                fuel as nat,
            );
            &&& outcome_result(r, st.outcome)
            &&& !(st.outcome is Diverges) ==> gen_code(
                *final(struct_code),
                *final(fn_code),
                *final(ret_code),
                *final(ret_struct_code),
            ) == st.out
        }),
    decreases fuel, 2nat,
{
    let ghost ubs = structs_view(ubos@);
    let ghost out0 = gen_code(*struct_code, *fn_code, *ret_code, *ret_struct_code);
    let ghost total = struct_layout(ubs, ubo@, out0, fuel as nat);
    let struct_name = ubo.name.as_str();
    let var_name = str_lowercase(struct_name);
    let mut current_offset: u32 = 0;
    let mut max_align: u32 = 0;
    let mut pad_counter: u32 = 0;
    let mut fields = String::from_str(
        "\n#[repr(C)]\n#[derive(Copy, Clone, bytemuck::Pod, bytemuck::Zeroable)]\npub struct ",
    );
    fields.append(struct_name);
    fields.append(" {");
    let mut defaults = String::from_str("\n        impl Default for ");
    defaults.append(struct_name);
    defaults.append(" {\n            fn default() -> Self {\n                Self {");
    proof {
        assert(fields@ =~= struct_header(ubo@.name));
        assert(defaults@ =~= default_header(ubo@.name));
    }
    let mut i: usize = 0;
    while i < ubo.vars.len()
        invariant
            i <= ubo.vars@.len(),
            ubs == structs_view(ubos@),
            total == struct_layout(ubs, ubo@, out0, fuel as nat),
            out0 == gen_code(*old(struct_code), *old(fn_code), *old(ret_code), *old(ret_struct_code)),
            var_name@ == lower_text(ubo@.name),
            struct_name@ == ubo@.name,
            total == (match fields_layout(
                ubs,
                ubo@,
                i as int,
                Acc {
                    cur: current_offset,
                    max_align,
                    pads: pad_counter,
                    fields: fields@,
                    defaults: defaults@,
                    out: gen_code(*struct_code, *fn_code, *ret_code, *ret_struct_code),
                },
                fuel as nat,
            ) {
                Fold::Stop(s) => s,
                Fold::Continue(acc) => finish_struct(ubo@.name, acc),
            }),
        decreases ubo.vars@.len() - i,
    {
        let var = &ubo.vars[i];
        let ghost acc = Acc {
            cur: current_offset,
            max_align,
            pads: pad_counter,
            fields: fields@,
            defaults: defaults@,
            out: gen_code(*struct_code, *fn_code, *ret_code, *ret_struct_code),
        };
        let ghost st = var_layout(ubs, var@, acc.out, fuel as nat);
        proof {
            assert(ubo@.vars[i as int] == var@);
            assert(fields_layout(ubs, ubo@, i as int, acc, fuel as nat) == (match field_step(
                ubs,
                ubo@.name,
                var@,
                acc,
                fuel as nat,
            ) {
                Fold::Stop(s) => Fold::Stop(s),
                Fold::Continue(a) => fields_layout(ubs, ubo@, i + 1, a, fuel as nat),
            }));
            assert(field_step(ubs, ubo@.name, var@, acc, fuel as nat) == (match st.outcome {
                Outcome::Value(vs, va) => place_var(ubo@.name, var@, vs, va, Acc { out: st.out, ..acc }),
                _ => Fold::Stop(st),
            }));
        }
        let res = var_layout_exec(var, ubos, struct_code, fn_code, ret_code, ret_struct_code, fuel);
        let (var_size, var_align) = match res {
            Ok(x) => x,
            Err(e) => {
                return Err(e);
            },
        };
        let ghost acc1 = Acc { out: st.out, ..acc };
        if var.offset < current_offset {
            let mut m = String::from_str("overlap in: ");
            m.append(struct_name);
            m.append(" at: ");
            m.append(var.name.as_str());
            proof {
                assert(m@ =~= "overlap in: "@ + ubo@.name + " at: "@ + var@.name);
            }
            return Err(LayoutFail::Message(m));
        }
        if var.offset > current_offset && pad_counter == u32::MAX {
            return Err(LayoutFail::Diverges);
        }
        if var.offset as u64 + var_size as u64 > 0xffff_ffffu64 {
            return Err(LayoutFail::Diverges);
        }
        if var_align > max_align {
            max_align = var_align;
        }
        if var.offset > current_offset {
            let padding_needed = var.offset - current_offset;
            append_pad_field(&mut fields, pad_counter, padding_needed);
            append_pad_default(&mut defaults, pad_counter, padding_needed);
            pad_counter = pad_counter + 1;
            current_offset = var.offset;
        }
        append_field_line(&mut fields, var.name.as_str(), var.type_.rusty.as_str());
        append_default_line(&mut defaults, var.name.as_str(), var.type_.rusty.as_str());
        current_offset = current_offset + var_size;
        i = i + 1;
        proof {
            assert(fields@ =~= (if acc.cur < var@.offset {
                acc.fields + pad_field(acc.pads, (var@.offset - acc.cur) as u32)
            } else {
                acc.fields
            }) + field_line(var@.name, var@.type_.rusty));
            assert(defaults@ =~= (if acc.cur < var@.offset {
                acc.defaults + pad_default(acc.pads, (var@.offset - acc.cur) as u32)
            } else {
                acc.defaults
            }) + default_line(var@.name, var@.type_.rusty));
        }
    }
    if max_align > 0 && current_offset as u64 + max_align as u64 > 0xffff_ffffu64 {
        return Err(LayoutFail::Diverges);
    }
    let final_size = if max_align > 0 {
        (current_offset + max_align - 1) & !(max_align - 1)
    } else {
        0
    };
    if final_size < current_offset {
        return Err(LayoutFail::Diverges);
    }
    let end_padding = final_size - current_offset;
    if end_padding > 0 {
        append_pad_field(&mut fields, pad_counter, end_padding);
        append_pad_default(&mut defaults, pad_counter, end_padding);
    }
    let ghost fields_before = fields@;
    fields.append("\n}\n");
    fields.append(defaults.as_str());
    fields.append("\n}\n}\n}\n\n");
    proof {
        assert(fields@ =~= fields_before + struct_footer(defaults@));
    }
    let ghost sc_before = struct_code@;
    struct_code.append(fields.as_str());
    proof {
        assert(struct_code@ =~= sc_before + fields_before + struct_footer(defaults@));
    }
    if str_starts_with(struct_name, "Ubo") {
        append_ubo_entries(struct_name, var_name.as_str(), fn_code, ret_code, ret_struct_code);
    }
    Ok((final_size, max_align))
}


/// Alignments that uniform layout gives a type: 4, 8 or 16 bytes, or 0
/// for a struct without members.
pub open spec fn alignment_ok(a: u32) -> bool {
    a == 0 || a == 4 || a == 8 || a == 16
}

proof fn lemma_align_up(x: u32, a: u32)
    requires
        a == 4 || a == 8 || a == 16,
        x + a <= u32::MAX,
    ensures
        align_up(x, a) % a == 0,
        x <= align_up(x, a),
{
    assert(((a == 4 || a == 8 || a == 16) && x + a <= 0xffff_ffffu32) ==> ((((x + a - 1) as u32) & !((a
        - 1) as u32)) % a == 0 && x <= (((x + a - 1) as u32) & !((a - 1) as u32)))) by (bit_vector);
}

proof fn lemma_var_layout_aligned(ubos: Seq<StructView>, var: VarView, out: GenCode, fuel: nat)
    ensures
        var_layout(ubos, var, out, fuel).outcome matches Outcome::Value(s, a) ==> alignment_ok(a)
            && (a == 0 ==> s == 0),
    decreases fuel, 0nat, 0nat,
{
    let tn = element_name(var.type_.rusty);
    if builtin_layout(tn) is None && var.type_.required_structs.len() >= 1 {
        let req = var.type_.required_structs[0];
        if let Some(k) = find_struct(ubos, req) {
            if fuel > 0 {
                lemma_struct_layout_aligned(ubos, ubos[k], out, (fuel - 1) as nat);
            }
        }
    }
}

proof fn lemma_fields_aligned(ubos: Seq<StructView>, ubo: StructView, i: int, acc: Acc, fuel: nat)
    requires
        alignment_ok(acc.max_align),
    ensures
        fields_layout(ubos, ubo, i, acc, fuel) matches Fold::Continue(a) ==> alignment_ok(a.max_align),
        fields_layout(ubos, ubo, i, acc, fuel) matches Fold::Stop(st) ==> !(st.outcome is Value),
    decreases fuel, 1nat, ubo.vars.len() - i,
{
    if 0 <= i < ubo.vars.len() {
        let var = ubo.vars[i];
        lemma_var_layout_aligned(ubos, var, acc.out, fuel);
        let st = var_layout(ubos, var, acc.out, fuel);
        assert(fields_layout(ubos, ubo, i, acc, fuel) == (match field_step(ubos, ubo.name, var, acc, fuel) {
            Fold::Stop(s) => Fold::Stop(s),
            Fold::Continue(a) => fields_layout(ubos, ubo, i + 1, a, fuel),
        }));
        assert(field_step(ubos, ubo.name, var, acc, fuel) == (match st.outcome {
            Outcome::Value(vs, va) => place_var(ubo.name, var, vs, va, Acc { out: st.out, ..acc }),
            _ => Fold::Stop(st),
        }));
        if let Outcome::Value(vs, va) = st.outcome {
            let p = place_var(ubo.name, var, vs, va, Acc { out: st.out, ..acc });
            if let Fold::Continue(a) = p {
                assert(alignment_ok(a.max_align));
                lemma_fields_aligned(ubos, ubo, i + 1, a, fuel);
            }
        }
    }
}

proof fn lemma_struct_layout_aligned(ubos: Seq<StructView>, ubo: StructView, out: GenCode, fuel: nat)
    ensures
        struct_layout(ubos, ubo, out, fuel).outcome matches Outcome::Value(s, a) ==> alignment_ok(a)
            && (a == 0 ==> s == 0) && (a > 0 ==> s % a == 0),
    decreases fuel, 2nat, 0nat,
{
    lemma_fields_aligned(ubos, ubo, 0, start_acc(ubo.name, out), fuel);
    if let Fold::Continue(acc) = fields_layout(ubos, ubo, 0, start_acc(ubo.name, out), fuel) {
        assert(alignment_ok(acc.max_align));
        if acc.max_align > 0 && acc.cur + acc.max_align <= u32::MAX {
            lemma_align_up(acc.cur, acc.max_align);
        }
        assert(struct_layout(ubos, ubo, out, fuel) == finish_struct(ubo.name, acc));
    }
}

/// In uniform layout every struct's alignment is 4, 8 or 16 bytes (0 for
/// a struct without members, whose size is then 0), and its size is a
/// multiple of its alignment; a member's alignment is one of the same.
pub proof fn lemma_layout_aligned(ubos: Seq<StructView>, ubo: StructView, var: VarView, out: GenCode, fuel: nat)
    ensures
        struct_layout(ubos, ubo, out, fuel).outcome matches Outcome::Value(s, a) ==> alignment_ok(a)
            && (a == 0 ==> s == 0) && (a > 0 ==> s % a == 0),
        var_layout(ubos, var, out, fuel).outcome matches Outcome::Value(s, a) ==> alignment_ok(a)
            && (a == 0 ==> s == 0),
{
    lemma_struct_layout_aligned(ubos, ubo, out, fuel);
    lemma_var_layout_aligned(ubos, var, out, fuel);
}

proof fn lemma_builtin_i32()
    ensures
        builtin_layout("i32"@) == Some((4u32, 4u32)),
        element_name("i32"@) == "i32"@,
        !is_array_type("i32"@),
{
    reveal_strlit("i32");
    reveal_strlit("u32");
    reveal_strlit("f32");
    reveal_strlit("Vec2");
    reveal_strlit("IVec2");
    reveal_strlit("UVec2");
    reveal_strlit("Vec3");
    reveal_strlit("IVec3");
    reveal_strlit("UVec3");
    reveal_strlit("Vec4");
    reveal_strlit("IVec4");
    reveal_strlit("UVec4");
    reveal_strlit("Mat3");
    reveal_strlit("Mat4");
    assert("i32"@[0] != "u32"@[0]);
    assert("i32"@[0] != "f32"@[0]);
    assert("i32"@.len() != "Vec2"@.len());
    assert("i32"@.len() != "IVec2"@.len());
    assert("i32"@.len() != "UVec2"@.len());
    assert("i32"@.len() != "Vec3"@.len());
    assert("i32"@.len() != "IVec3"@.len());
    assert("i32"@.len() != "UVec3"@.len());
    assert("i32"@.len() != "Vec4"@.len());
    assert("i32"@.len() != "IVec4"@.len());
    assert("i32"@.len() != "UVec4"@.len());
    assert("i32"@.len() != "Mat3"@.len());
    assert("i32"@.len() != "Mat4"@.len());
    assert("i32"@[0] != '[');
}

proof fn lemma_builtin_u32()
    ensures
        builtin_layout("u32"@) == Some((4u32, 4u32)),
        element_name("u32"@) == "u32"@,
        !is_array_type("u32"@),
{
    reveal_strlit("i32");
    reveal_strlit("u32");
    reveal_strlit("f32");
    reveal_strlit("Vec2");
    reveal_strlit("IVec2");
    reveal_strlit("UVec2");
    reveal_strlit("Vec3");
    reveal_strlit("IVec3");
    reveal_strlit("UVec3");
    reveal_strlit("Vec4");
    reveal_strlit("IVec4");
    reveal_strlit("UVec4");
    reveal_strlit("Mat3");
    reveal_strlit("Mat4");
    assert("u32"@[0] != "i32"@[0]);
    assert("u32"@[0] != "f32"@[0]);
    assert("u32"@.len() != "Vec2"@.len());
    assert("u32"@.len() != "IVec2"@.len());
    assert("u32"@.len() != "UVec2"@.len());
    assert("u32"@.len() != "Vec3"@.len());
    assert("u32"@.len() != "IVec3"@.len());
    assert("u32"@.len() != "UVec3"@.len());
    assert("u32"@.len() != "Vec4"@.len());
    assert("u32"@.len() != "IVec4"@.len());
    assert("u32"@.len() != "UVec4"@.len());
    assert("u32"@.len() != "Mat3"@.len());
    assert("u32"@.len() != "Mat4"@.len());
    assert("u32"@[0] != '[');
}

proof fn lemma_builtin_f32()
    ensures
        builtin_layout("f32"@) == Some((4u32, 4u32)),
        element_name("f32"@) == "f32"@,
        !is_array_type("f32"@),
{
    reveal_strlit("i32");
    reveal_strlit("u32");
    reveal_strlit("f32");
    reveal_strlit("Vec2");
    reveal_strlit("IVec2");
    reveal_strlit("UVec2");
    reveal_strlit("Vec3");
    reveal_strlit("IVec3");
    reveal_strlit("UVec3");
    reveal_strlit("Vec4");
    reveal_strlit("IVec4");
    reveal_strlit("UVec4");
    reveal_strlit("Mat3");
    reveal_strlit("Mat4");
    assert("f32"@[0] != "i32"@[0]);
    assert("f32"@[0] != "u32"@[0]);
    assert("f32"@.len() != "Vec2"@.len());
    assert("f32"@.len() != "IVec2"@.len());
    assert("f32"@.len() != "UVec2"@.len());
    assert("f32"@.len() != "Vec3"@.len());
    assert("f32"@.len() != "IVec3"@.len());
    assert("f32"@.len() != "UVec3"@.len());
    assert("f32"@.len() != "Vec4"@.len());
    assert("f32"@.len() != "IVec4"@.len());
    assert("f32"@.len() != "UVec4"@.len());
    assert("f32"@.len() != "Mat3"@.len());
    assert("f32"@.len() != "Mat4"@.len());
    assert("f32"@[0] != '[');
}

proof fn lemma_builtin_vec2()
    ensures
        builtin_layout("Vec2"@) == Some((8u32, 8u32)),
        element_name("Vec2"@) == "Vec2"@,
        !is_array_type("Vec2"@),
{
    reveal_strlit("i32");
    reveal_strlit("u32");
    reveal_strlit("f32");
    reveal_strlit("Vec2");
    reveal_strlit("IVec2");
    reveal_strlit("UVec2");
    reveal_strlit("Vec3");
    reveal_strlit("IVec3");
    reveal_strlit("UVec3");
    reveal_strlit("Vec4");
    reveal_strlit("IVec4");
    reveal_strlit("UVec4");
    reveal_strlit("Mat3");
    reveal_strlit("Mat4");
    assert("Vec2"@.len() != "i32"@.len());
    assert("Vec2"@.len() != "u32"@.len());
    assert("Vec2"@.len() != "f32"@.len());
    assert("Vec2"@.len() != "IVec2"@.len());
    assert("Vec2"@.len() != "UVec2"@.len());
    assert("Vec2"@[3] != "Vec3"@[3]);
    assert("Vec2"@.len() != "IVec3"@.len());
    assert("Vec2"@.len() != "UVec3"@.len());
    assert("Vec2"@[3] != "Vec4"@[3]);
    assert("Vec2"@.len() != "IVec4"@.len());
    assert("Vec2"@.len() != "UVec4"@.len());
    assert("Vec2"@[0] != "Mat3"@[0]);
    assert("Vec2"@[0] != "Mat4"@[0]);
    assert("Vec2"@[0] != '[');
}

proof fn lemma_builtin_ivec2()
    ensures
        builtin_layout("IVec2"@) == Some((8u32, 8u32)),
        element_name("IVec2"@) == "IVec2"@,
        !is_array_type("IVec2"@),
{
    reveal_strlit("i32");
    reveal_strlit("u32");
    reveal_strlit("f32");
    reveal_strlit("Vec2");
    reveal_strlit("IVec2");
    reveal_strlit("UVec2");
    reveal_strlit("Vec3");
    reveal_strlit("IVec3");
    reveal_strlit("UVec3");
    reveal_strlit("Vec4");
    reveal_strlit("IVec4");
    reveal_strlit("UVec4");
    reveal_strlit("Mat3");
    reveal_strlit("Mat4");
    assert("IVec2"@.len() != "i32"@.len());
    assert("IVec2"@.len() != "u32"@.len());
    assert("IVec2"@.len() != "f32"@.len());
    assert("IVec2"@.len() != "Vec2"@.len());
    assert("IVec2"@[0] != "UVec2"@[0]);
    assert("IVec2"@.len() != "Vec3"@.len());
    assert("IVec2"@[4] != "IVec3"@[4]);
    assert("IVec2"@[0] != "UVec3"@[0]);
    assert("IVec2"@.len() != "Vec4"@.len());
    assert("IVec2"@[4] != "IVec4"@[4]);
    assert("IVec2"@[0] != "UVec4"@[0]);
    assert("IVec2"@.len() != "Mat3"@.len());
    assert("IVec2"@.len() != "Mat4"@.len());
    assert("IVec2"@[0] != '[');
}

proof fn lemma_builtin_uvec2()
    ensures
        builtin_layout("UVec2"@) == Some((8u32, 8u32)),
        element_name("UVec2"@) == "UVec2"@,
        !is_array_type("UVec2"@),
{
    reveal_strlit("i32");
    reveal_strlit("u32");
    reveal_strlit("f32");
    reveal_strlit("Vec2");
    reveal_strlit("IVec2");
    reveal_strlit("UVec2");
    reveal_strlit("Vec3");
    reveal_strlit("IVec3");
    reveal_strlit("UVec3");
    reveal_strlit("Vec4");
    reveal_strlit("IVec4");
    reveal_strlit("UVec4");
    reveal_strlit("Mat3");
    reveal_strlit("Mat4");
    assert("UVec2"@.len() != "i32"@.len());
    assert("UVec2"@.len() != "u32"@.len());
    assert("UVec2"@.len() != "f32"@.len());
    assert("UVec2"@.len() != "Vec2"@.len());
    assert("UVec2"@[0] != "IVec2"@[0]);
    assert("UVec2"@.len() != "Vec3"@.len());
    assert("UVec2"@[0] != "IVec3"@[0]);
    assert("UVec2"@[4] != "UVec3"@[4]);
    assert("UVec2"@.len() != "Vec4"@.len());
    assert("UVec2"@[0] != "IVec4"@[0]);
    assert("UVec2"@[4] != "UVec4"@[4]);
    assert("UVec2"@.len() != "Mat3"@.len());
    assert("UVec2"@.len() != "Mat4"@.len());
    assert("UVec2"@[0] != '[');
}

proof fn lemma_builtin_vec3()
    ensures
        builtin_layout("Vec3"@) == Some((12u32, 16u32)),
        element_name("Vec3"@) == "Vec3"@,
        !is_array_type("Vec3"@),
{
    reveal_strlit("i32");
    reveal_strlit("u32");
    reveal_strlit("f32");
    reveal_strlit("Vec2");
    reveal_strlit("IVec2");
    reveal_strlit("UVec2");
    reveal_strlit("Vec3");
    reveal_strlit("IVec3");
    reveal_strlit("UVec3");
    reveal_strlit("Vec4");
    reveal_strlit("IVec4");
    reveal_strlit("UVec4");
    reveal_strlit("Mat3");
    reveal_strlit("Mat4");
    assert("Vec3"@.len() != "i32"@.len());
    assert("Vec3"@.len() != "u32"@.len());
    assert("Vec3"@.len() != "f32"@.len());
    assert("Vec3"@[3] != "Vec2"@[3]);
    assert("Vec3"@.len() != "IVec2"@.len());
    assert("Vec3"@.len() != "UVec2"@.len());
    assert("Vec3"@.len() != "IVec3"@.len());
    assert("Vec3"@.len() != "UVec3"@.len());
    assert("Vec3"@[3] != "Vec4"@[3]);
    assert("Vec3"@.len() != "IVec4"@.len());
    assert("Vec3"@.len() != "UVec4"@.len());
    assert("Vec3"@[0] != "Mat3"@[0]);
    assert("Vec3"@[0] != "Mat4"@[0]);
    assert("Vec3"@[0] != '[');
}

proof fn lemma_builtin_ivec3()
    ensures
        builtin_layout("IVec3"@) == Some((12u32, 16u32)),
        element_name("IVec3"@) == "IVec3"@,
        !is_array_type("IVec3"@),
{
    reveal_strlit("i32");
    reveal_strlit("u32");
    reveal_strlit("f32");
    reveal_strlit("Vec2");
    reveal_strlit("IVec2");
    reveal_strlit("UVec2");
    reveal_strlit("Vec3");
    reveal_strlit("IVec3");
    reveal_strlit("UVec3");
    reveal_strlit("Vec4");
    reveal_strlit("IVec4");
    reveal_strlit("UVec4");
    reveal_strlit("Mat3");
    reveal_strlit("Mat4");
    assert("IVec3"@.len() != "i32"@.len());
    assert("IVec3"@.len() != "u32"@.len());
    assert("IVec3"@.len() != "f32"@.len());
    assert("IVec3"@.len() != "Vec2"@.len());
    assert("IVec3"@[4] != "IVec2"@[4]);
    assert("IVec3"@[0] != "UVec2"@[0]);
    assert("IVec3"@.len() != "Vec3"@.len());
    assert("IVec3"@[0] != "UVec3"@[0]);
    assert("IVec3"@.len() != "Vec4"@.len());
    assert("IVec3"@[4] != "IVec4"@[4]);
    assert("IVec3"@[0] != "UVec4"@[0]);
    assert("IVec3"@.len() != "Mat3"@.len());
    assert("IVec3"@.len() != "Mat4"@.len());
    assert("IVec3"@[0] != '[');
}

proof fn lemma_builtin_uvec3()
    ensures
        builtin_layout("UVec3"@) == Some((12u32, 16u32)),
        element_name("UVec3"@) == "UVec3"@,
        !is_array_type("UVec3"@),
{
    reveal_strlit("i32");
    reveal_strlit("u32");
    reveal_strlit("f32");
    reveal_strlit("Vec2");
    reveal_strlit("IVec2");
    reveal_strlit("UVec2");
    reveal_strlit("Vec3");
    reveal_strlit("IVec3");
    reveal_strlit("UVec3");
    reveal_strlit("Vec4");
    reveal_strlit("IVec4");
    reveal_strlit("UVec4");
    reveal_strlit("Mat3");
    reveal_strlit("Mat4");
    assert("UVec3"@.len() != "i32"@.len());
    assert("UVec3"@.len() != "u32"@.len());
    assert("UVec3"@.len() != "f32"@.len());
    assert("UVec3"@.len() != "Vec2"@.len());
    assert("UVec3"@[0] != "IVec2"@[0]);
    assert("UVec3"@[4] != "UVec2"@[4]);
    assert("UVec3"@.len() != "Vec3"@.len());
    assert("UVec3"@[0] != "IVec3"@[0]);
    assert("UVec3"@.len() != "Vec4"@.len());
    assert("UVec3"@[0] != "IVec4"@[0]);
    assert("UVec3"@[4] != "UVec4"@[4]);
    assert("UVec3"@.len() != "Mat3"@.len());
    assert("UVec3"@.len() != "Mat4"@.len());
    assert("UVec3"@[0] != '[');
}

proof fn lemma_builtin_vec4()
    ensures
        builtin_layout("Vec4"@) == Some((16u32, 16u32)),
        element_name("Vec4"@) == "Vec4"@,
        !is_array_type("Vec4"@),
{
    reveal_strlit("i32");
    reveal_strlit("u32");
    reveal_strlit("f32");
    reveal_strlit("Vec2");
    reveal_strlit("IVec2");
    reveal_strlit("UVec2");
    reveal_strlit("Vec3");
    reveal_strlit("IVec3");
    reveal_strlit("UVec3");
    reveal_strlit("Vec4");
    reveal_strlit("IVec4");
    reveal_strlit("UVec4");
    reveal_strlit("Mat3");
    reveal_strlit("Mat4");
    assert("Vec4"@.len() != "i32"@.len());
    assert("Vec4"@.len() != "u32"@.len());
    assert("Vec4"@.len() != "f32"@.len());
    assert("Vec4"@[3] != "Vec2"@[3]);
    assert("Vec4"@.len() != "IVec2"@.len());
    assert("Vec4"@.len() != "UVec2"@.len());
    assert("Vec4"@[3] != "Vec3"@[3]);
    assert("Vec4"@.len() != "IVec3"@.len());
    assert("Vec4"@.len() != "UVec3"@.len());
    assert("Vec4"@.len() != "IVec4"@.len());
    assert("Vec4"@.len() != "UVec4"@.len());
    assert("Vec4"@[0] != "Mat3"@[0]);
    assert("Vec4"@[0] != "Mat4"@[0]);
    assert("Vec4"@[0] != '[');
}

proof fn lemma_builtin_ivec4()
    ensures
        builtin_layout("IVec4"@) == Some((16u32, 16u32)),
        element_name("IVec4"@) == "IVec4"@,
        !is_array_type("IVec4"@),
{
    reveal_strlit("i32");
    reveal_strlit("u32");
    reveal_strlit("f32");
    reveal_strlit("Vec2");
    reveal_strlit("IVec2");
    reveal_strlit("UVec2");
    reveal_strlit("Vec3");
    reveal_strlit("IVec3");
    reveal_strlit("UVec3");
    reveal_strlit("Vec4");
    reveal_strlit("IVec4");
    reveal_strlit("UVec4");
    reveal_strlit("Mat3");
    reveal_strlit("Mat4");
    assert("IVec4"@.len() != "i32"@.len());
    assert("IVec4"@.len() != "u32"@.len());
    assert("IVec4"@.len() != "f32"@.len());
    assert("IVec4"@.len() != "Vec2"@.len());
    assert("IVec4"@[4] != "IVec2"@[4]);
    assert("IVec4"@[0] != "UVec2"@[0]);
    assert("IVec4"@.len() != "Vec3"@.len());
    assert("IVec4"@[4] != "IVec3"@[4]);
    assert("IVec4"@[0] != "UVec3"@[0]);
    assert("IVec4"@.len() != "Vec4"@.len());
    assert("IVec4"@[0] != "UVec4"@[0]);
    assert("IVec4"@.len() != "Mat3"@.len());
    assert("IVec4"@.len() != "Mat4"@.len());
    assert("IVec4"@[0] != '[');
}

proof fn lemma_builtin_uvec4()
    ensures
        builtin_layout("UVec4"@) == Some((16u32, 16u32)),
        element_name("UVec4"@) == "UVec4"@,
        !is_array_type("UVec4"@),
{
    reveal_strlit("i32");
    reveal_strlit("u32");
    reveal_strlit("f32");
    reveal_strlit("Vec2");
    reveal_strlit("IVec2");
    reveal_strlit("UVec2");
    reveal_strlit("Vec3");
    reveal_strlit("IVec3");
    reveal_strlit("UVec3");
    reveal_strlit("Vec4");
    reveal_strlit("IVec4");
    reveal_strlit("UVec4");
    reveal_strlit("Mat3");
    reveal_strlit("Mat4");
    assert("UVec4"@.len() != "i32"@.len());
    assert("UVec4"@.len() != "u32"@.len());
    assert("UVec4"@.len() != "f32"@.len());
    assert("UVec4"@.len() != "Vec2"@.len());
    assert("UVec4"@[0] != "IVec2"@[0]);
    assert("UVec4"@[4] != "UVec2"@[4]);
    assert("UVec4"@.len() != "Vec3"@.len());
    assert("UVec4"@[0] != "IVec3"@[0]);
    assert("UVec4"@[4] != "UVec3"@[4]);
    assert("UVec4"@.len() != "Vec4"@.len());
    assert("UVec4"@[0] != "IVec4"@[0]);
    assert("UVec4"@.len() != "Mat3"@.len());
    assert("UVec4"@.len() != "Mat4"@.len());
    assert("UVec4"@[0] != '[');
}

proof fn lemma_builtin_mat3()
    ensures
        builtin_layout("Mat3"@) == Some((48u32, 16u32)),
        element_name("Mat3"@) == "Mat3"@,
        !is_array_type("Mat3"@),
{
    reveal_strlit("i32");
    reveal_strlit("u32");
    reveal_strlit("f32");
    reveal_strlit("Vec2");
    reveal_strlit("IVec2");
    reveal_strlit("UVec2");
    reveal_strlit("Vec3");
    reveal_strlit("IVec3");
    reveal_strlit("UVec3");
    reveal_strlit("Vec4");
    reveal_strlit("IVec4");
    reveal_strlit("UVec4");
    reveal_strlit("Mat3");
    reveal_strlit("Mat4");
    assert("Mat3"@.len() != "i32"@.len());
    assert("Mat3"@.len() != "u32"@.len());
    assert("Mat3"@.len() != "f32"@.len());
    assert("Mat3"@[0] != "Vec2"@[0]);
    assert("Mat3"@.len() != "IVec2"@.len());
    assert("Mat3"@.len() != "UVec2"@.len());
    assert("Mat3"@[0] != "Vec3"@[0]);
    assert("Mat3"@.len() != "IVec3"@.len());
    assert("Mat3"@.len() != "UVec3"@.len());
    assert("Mat3"@[0] != "Vec4"@[0]);
    assert("Mat3"@.len() != "IVec4"@.len());
    assert("Mat3"@.len() != "UVec4"@.len());
    assert("Mat3"@[3] != "Mat4"@[3]);
    assert("Mat3"@[0] != '[');
}

proof fn lemma_builtin_mat4()
    ensures
        builtin_layout("Mat4"@) == Some((64u32, 16u32)),
        element_name("Mat4"@) == "Mat4"@,
        !is_array_type("Mat4"@),
{
    reveal_strlit("i32");
    reveal_strlit("u32");
    reveal_strlit("f32");
    reveal_strlit("Vec2");
    reveal_strlit("IVec2");
    reveal_strlit("UVec2");
    reveal_strlit("Vec3");
    reveal_strlit("IVec3");
    reveal_strlit("UVec3");
    reveal_strlit("Vec4");
    reveal_strlit("IVec4");
    reveal_strlit("UVec4");
    reveal_strlit("Mat3");
    reveal_strlit("Mat4");
    assert("Mat4"@.len() != "i32"@.len());
    assert("Mat4"@.len() != "u32"@.len());
    assert("Mat4"@.len() != "f32"@.len());
    assert("Mat4"@[0] != "Vec2"@[0]);
    assert("Mat4"@.len() != "IVec2"@.len());
    assert("Mat4"@.len() != "UVec2"@.len());
    assert("Mat4"@[0] != "Vec3"@[0]);
    assert("Mat4"@.len() != "IVec3"@.len());
    assert("Mat4"@.len() != "UVec3"@.len());
    assert("Mat4"@[0] != "Vec4"@[0]);
    assert("Mat4"@.len() != "IVec4"@.len());
    assert("Mat4"@.len() != "UVec4"@.len());
    assert("Mat4"@[3] != "Mat3"@[3]);
    assert("Mat4"@[0] != '[');
}

/// Alignment of a WGSL vector of `n` four-byte components in a uniform
/// buffer: 8 bytes for two components, 16 for three or four.
pub open spec fn vector_align(n: int) -> u32 {
    if n == 2 {
        8
    } else {
        16
    }
}

/// The uniform-buffer layout `(size, align)` of a WGSL type by its shape,
/// whatever its scalar kind: a scalar takes 4 bytes aligned to 4; a
/// vector of `n` components takes `4 * n` bytes aligned to
/// `vector_align(n)`; a matrix of `c` columns of `r` rows takes `c`
/// columns, each aligned as a vector of `r`.
pub open spec fn wgsl_layout(shape: TypeShape) -> Option<(u32, u32)> {
    match shape {
        TypeShape::Scalar => Some((4u32, 4u32)),
        TypeShape::Vector(n) => if 2 <= n <= 4 {
            Some(((4 * n) as u32, vector_align(n as int)))
        } else {
            None
        },
        TypeShape::Matrix(c, r) => if 2 <= c <= 4 && 2 <= r <= 4 {
            Some(((c * vector_align(r as int)) as u32, vector_align(r as int)))
        } else {
            None
        },
        _ => None,
    }
}

/// The layout that the uniform pass gives a struct member is the WGSL
/// layout of the type that the shader analysis read for it (see
/// `wgsl_layout`), and lays out no other struct: a three-component vector
/// takes 12 bytes, so a scalar right after it at offset 12 fits.
pub proof fn lemma_member_layout_follows_wgsl(
    types: Seq<TypeInfo>,
    h: int,
    ubos: Seq<StructView>,
    var: VarView,
    out: GenCode,
    fuel: nat,
)
    requires
        0 <= h < types.len(),
        element_type(types, h) is Ok,
        var.type_ == element_type(types, h)->Ok_0,
        wgsl_layout(types[h].shape) is Some,
    ensures
        var_layout(ubos, var, out, fuel).outcome == Outcome::Value(
            wgsl_layout(types[h].shape)->Some_0.0,
            wgsl_layout(types[h].shape)->Some_0.1,
        ),
        var_layout(ubos, var, out, fuel).out == out,
{
    let t = types[h];
    match t.shape {
        TypeShape::Scalar => match t.kind {
            ScalarKindModel::Float => lemma_builtin_f32(),
            ScalarKindModel::Sint => lemma_builtin_i32(),
            ScalarKindModel::Uint => lemma_builtin_u32(),
            _ => {},
        },
        TypeShape::Vector(n) => match t.kind {
            ScalarKindModel::Float => if n == 2 {
                lemma_spelled_vec2();
                lemma_builtin_vec2();
            } else if n == 3 {
                lemma_spelled_vec3();
                lemma_builtin_vec3();
            } else {
                lemma_spelled_vec4();
                lemma_builtin_vec4();
            },
            ScalarKindModel::Sint => if n == 2 {
                lemma_spelled_ivec2();
                lemma_builtin_ivec2();
            } else if n == 3 {
                lemma_spelled_ivec3();
                lemma_builtin_ivec3();
            } else {
                lemma_spelled_ivec4();
                lemma_builtin_ivec4();
            },
            ScalarKindModel::Uint => if n == 2 {
                lemma_spelled_uvec2();
                lemma_builtin_uvec2();
            } else if n == 3 {
                lemma_spelled_uvec3();
                lemma_builtin_uvec3();
            } else {
                lemma_spelled_uvec4();
                lemma_builtin_uvec4();
            },
            _ => {},
        },
        TypeShape::Matrix(c, r) => {
            if c == 4 && r == 4 {
                lemma_builtin_mat4();
            } else {
                lemma_builtin_mat3();
            }
        },
        _ => {},
    }
}

proof fn lemma_spelled_vec2()
    ensures
        "Vec"@ + "2"@ == "Vec2"@,
{
    reveal_strlit("Vec");
    reveal_strlit("2");
    reveal_strlit("Vec2");
    assert("Vec"@ + "2"@ =~= "Vec2"@);
}

proof fn lemma_spelled_vec3()
    ensures
        "Vec"@ + "3"@ == "Vec3"@,
{
    reveal_strlit("Vec");
    reveal_strlit("3");
    reveal_strlit("Vec3");
    assert("Vec"@ + "3"@ =~= "Vec3"@);
}

proof fn lemma_spelled_vec4()
    ensures
        "Vec"@ + "4"@ == "Vec4"@,
{
    reveal_strlit("Vec");
    reveal_strlit("4");
    reveal_strlit("Vec4");
    assert("Vec"@ + "4"@ =~= "Vec4"@);
}

proof fn lemma_spelled_ivec2()
    ensures
        "IVec"@ + "2"@ == "IVec2"@,
{
    reveal_strlit("IVec");
    reveal_strlit("2");
    reveal_strlit("IVec2");
    assert("IVec"@ + "2"@ =~= "IVec2"@);
}

proof fn lemma_spelled_ivec3()
    ensures
        "IVec"@ + "3"@ == "IVec3"@,
{
    reveal_strlit("IVec");
    reveal_strlit("3");
    reveal_strlit("IVec3");
    assert("IVec"@ + "3"@ =~= "IVec3"@);
}

proof fn lemma_spelled_ivec4()
    ensures
        "IVec"@ + "4"@ == "IVec4"@,
{
    reveal_strlit("IVec");
    reveal_strlit("4");
    reveal_strlit("IVec4");
    assert("IVec"@ + "4"@ =~= "IVec4"@);
}

proof fn lemma_spelled_uvec2()
    ensures
        "UVec"@ + "2"@ == "UVec2"@,
{
    reveal_strlit("UVec");
    reveal_strlit("2");
    reveal_strlit("UVec2");
    assert("UVec"@ + "2"@ =~= "UVec2"@);
}

proof fn lemma_spelled_uvec3()
    ensures
        "UVec"@ + "3"@ == "UVec3"@,
{
    reveal_strlit("UVec");
    reveal_strlit("3");
    reveal_strlit("UVec3");
    assert("UVec"@ + "3"@ =~= "UVec3"@);
}

proof fn lemma_spelled_uvec4()
    ensures
        "UVec"@ + "4"@ == "UVec4"@,
{
    reveal_strlit("UVec");
    reveal_strlit("4");
    reveal_strlit("UVec4");
    assert("UVec"@ + "4"@ =~= "UVec4"@);
}

} // verus!
