//! The records that WGSL analysis produces: structs, their members and the
//! Rust spelling of each member's type, with their mathematical views.
use vstd::prelude::*;

verus! {

/// Rust spelling of a WGSL member type, and the structs it needs to exist.
#[derive(Clone, Debug)]
pub struct WgslStructVarType {
    pub rusty: String,
    pub required_structs: Vec<String>,
}

/// One member of a WGSL struct.
#[derive(Clone, Debug)]
pub struct WgslStructVar {
    pub name: String,
    pub type_: WgslStructVarType,
    pub offset: u32,
}

/// A named WGSL struct and its members, in declaration order.
#[derive(Clone, Debug)]
pub struct WgslStruct {
    pub name: String,
    pub vars: Vec<WgslStructVar>,
}

pub struct VarTypeView {
    pub rusty: Seq<char>,
    pub required_structs: Seq<Seq<char>>,
}

pub struct VarView {
    pub name: Seq<char>,
    pub type_: VarTypeView,
    pub offset: u32,
}

pub struct StructView {
    pub name: Seq<char>,
    pub vars: Seq<VarView>,
}

pub open spec fn strings_view(v: Seq<String>) -> Seq<Seq<char>> {
    v.map_values(|s: String| s@)
}

impl View for WgslStructVarType {
    type V = VarTypeView;

    open spec fn view(&self) -> VarTypeView {
        VarTypeView { rusty: self.rusty@, required_structs: strings_view(self.required_structs@) }
    }
}

impl View for WgslStructVar {
    type V = VarView;

    open spec fn view(&self) -> VarView {
        VarView { name: self.name@, type_: self.type_@, offset: self.offset }
    }
}

pub open spec fn vars_view(v: Seq<WgslStructVar>) -> Seq<VarView> {
    v.map_values(|x: WgslStructVar| x@)
}

impl View for WgslStruct {
    type V = StructView;

    open spec fn view(&self) -> StructView {
        StructView { name: self.name@, vars: vars_view(self.vars@) }
    }
}

pub open spec fn structs_view(v: Seq<WgslStruct>) -> Seq<StructView> {
    v.map_values(|x: WgslStruct| x@)
}

/// A copy of `v` with the same contents.
pub fn clone_strings(v: &Vec<String>) -> (r: Vec<String>)
    ensures
        strings_view(r@) == strings_view(v@),
{
    let mut r: Vec<String> = Vec::new();
    let mut i: usize = 0;
    while i < v.len()
        invariant
            i <= v@.len(),
            strings_view(r@) == strings_view(v@).subrange(0, i as int),
        decreases v@.len() - i,
    {
        let c = v[i].clone();
        let ghost prev = r@;
        r.push(c);
        i = i + 1;
        proof {
            assert(c@ == v@[i - 1]@);
            assert(strings_view(r@) =~= strings_view(prev).push(c@));
            assert(strings_view(v@).subrange(0, i as int) =~= strings_view(v@).subrange(
                0,
                i - 1,
            ).push(v@[i - 1]@));
            assert(strings_view(r@) =~= strings_view(v@).subrange(0, i as int));
        }
    }
    proof {
        assert(strings_view(v@).subrange(0, i as int) =~= strings_view(v@));
    }
    r
}

impl WgslStructVarType {
    /// A copy with the same contents.
    pub fn duplicate(&self) -> (r: WgslStructVarType)
        ensures
            r@ == self@,
    {
        WgslStructVarType {
            rusty: self.rusty.clone(),
            required_structs: clone_strings(&self.required_structs),
        }
    }
}

impl WgslStructVar {
    /// A copy with the same contents.
    pub fn duplicate(&self) -> (r: WgslStructVar)
        ensures
            r@ == self@,
    {
        WgslStructVar { name: self.name.clone(), type_: self.type_.duplicate(), offset: self.offset }
    }
}

impl WgslStruct {
    /// A copy with the same contents.
    pub fn duplicate(&self) -> (r: WgslStruct)
        ensures
            r@ == self@,
    {
        let mut vars: Vec<WgslStructVar> = Vec::new();
        let mut i: usize = 0;
        while i < self.vars.len()
            invariant
                i <= self.vars@.len(),
                vars_view(vars@) == vars_view(self.vars@).subrange(0, i as int),
            decreases self.vars@.len() - i,
        {
            let d = self.vars[i].duplicate();
            let ghost prev = vars@;
            vars.push(d);
            i = i + 1;
            proof {
                assert(vars_view(vars@) =~= vars_view(prev).push(d@));
                assert(vars_view(self.vars@).subrange(0, i as int) =~= vars_view(
                    self.vars@,
                ).subrange(0, i - 1).push(self.vars@[i - 1]@));
                assert(vars_view(vars@) =~= vars_view(self.vars@).subrange(0, i as int));
            }
        }
        proof {
            assert(vars_view(self.vars@).subrange(0, i as int) =~= vars_view(self.vars@));
        }
        WgslStruct { name: self.name.clone(), vars }
    }
}

/// Whether two string lists hold the same strings in the same order.
pub fn strings_equal(a: &Vec<String>, b: &Vec<String>) -> (r: bool)
    ensures
        r == (strings_view(a@) == strings_view(b@)),
{
    if a.len() != b.len() {
        proof {
            assert(strings_view(a@).len() != strings_view(b@).len());
        }
        return false;
    }
    let mut i: usize = 0;
    while i < a.len()
        invariant
            a@.len() == b@.len(),
            i <= a@.len(),
            forall|k: int| 0 <= k < i ==> a@[k]@ == b@[k]@,
        decreases a@.len() - i,
    {
        if a[i] != b[i] {
            proof {
                assert(strings_view(a@)[i as int] != strings_view(b@)[i as int]);
            }
            return false;
        }
        i = i + 1;
    }
    proof {
        assert(strings_view(a@) =~= strings_view(b@));
    }
    true
}

/// Whether two member lists are equal (what `==` on `Vec<WgslStructVar>` decides).
pub fn vars_equal(a: &Vec<WgslStructVar>, b: &Vec<WgslStructVar>) -> (r: bool)
    ensures
        r == (vars_view(a@) == vars_view(b@)),
{
    if a.len() != b.len() {
        proof {
            assert(vars_view(a@).len() != vars_view(b@).len());
        }
        return false;
    }
    let mut i: usize = 0;
    while i < a.len()
        invariant
            a@.len() == b@.len(),
            i <= a@.len(),
            forall|k: int| 0 <= k < i ==> a@[k]@ == b@[k]@,
        decreases a@.len() - i,
    {
        let x = &a[i];
        let y = &b[i];
        let same = x.name == y.name && x.offset == y.offset && x.type_.rusty == y.type_.rusty
            && strings_equal(&x.type_.required_structs, &y.type_.required_structs);
        if !same {
            proof {
                assert(vars_view(a@)[i as int] != vars_view(b@)[i as int]);
            }
            return false;
        }
        i = i + 1;
    }
    proof {
        assert(vars_view(a@) =~= vars_view(b@));
    }
    true
}

} // verus!
