//! How the bake step treats the files of the asset folder: what a file's
//! extension makes of it, the data slot and mesh number that it takes in
//! the game's asset archive, and whether the shader analyses of a run can
//! be used.
use vstd::prelude::*;
use crate::bake::{
    append_mesh_asset, append_texture_asset, mesh_enum_line, mesh_gen_line, ret_entry, ret_field,
    texture_fn_line, texture_settings_known,
};
use crate::config::TextureJson;
use crate::text::str_eq;
use crate::wgsl::WgslStruct;

verus! {

/// What the bake step does with an asset file.
#[derive(PartialEq, Eq, Structural, Clone, Copy, Debug)]
pub enum AssetKind {
    /// A WGSL shader: its structs are analysed.
    Shader,
    /// A texture: it takes a data slot.
    Texture,
    /// A render texture: code only, no data slot.
    RenderTexture,
    /// A model: each of its mesh files takes a data slot and a mesh number.
    Model,
    /// Anything else is left out.
    Other,
}

/// The kind of an asset file with the extension `ext`.
pub open spec fn kind_of(ext: Seq<char>) -> AssetKind {
    if ext == "wgsl"@ {
        AssetKind::Shader
    } else if ext == "png"@ {
        AssetKind::Texture
    } else if ext == "renderTexture"@ {
        AssetKind::RenderTexture
    } else if ext == "blend"@ {
        AssetKind::Model
    } else {
        AssetKind::Other
    }
}

/// The kind of an asset file with the extension `ext`.
pub fn asset_kind(ext: &str) -> (k: AssetKind)
    ensures
        k == kind_of(ext@),
{
    if str_eq(ext, "wgsl") {
        AssetKind::Shader
    } else if str_eq(ext, "png") {
        AssetKind::Texture
    } else if str_eq(ext, "renderTexture") {
        AssetKind::RenderTexture
    } else if str_eq(ext, "blend") {
        AssetKind::Model
    } else {
        AssetKind::Other
    }
}

/// The paths of a list of files.
pub open spec fn file_paths(v: Seq<String>) -> Seq<Seq<char>> {
    v.map_values(|f: String| f@)
}

/// The files of the game's asset archive as the bake step lists them, and
/// the number of mesh files among them. A file's place in `files` is the
/// data slot by which the generated code reads it.
pub struct AssetSlots {
    pub files: Vec<String>,
    pub meshes: i32,
}

impl AssetSlots {
    /// Nothing listed yet.
    pub fn new() -> (r: AssetSlots)
        ensures
            r.files@.len() == 0,
            r.meshes == 0,
    {
        AssetSlots { files: Vec::new(), meshes: 0 }
    }

    /// Lists the texture `file`: it takes the next data slot (its place in
    /// the list, as an `i32`), and the texture called `var_name` with the
    /// settings `json` is read from that slot by the code appended to
    /// `fn_code`, with its entries appended to `ret_code` and
    /// `ret_struct_code`.
    pub fn push_texture(
        &mut self,
        file: &str,
        var_name: &str,
        json: &TextureJson,
        fn_code: &mut String,
        ret_code: &mut String,
        ret_struct_code: &mut String,
    )
        requires
            texture_settings_known(*json),
        ensures
            file_paths(final(self).files@) == file_paths(old(self).files@).push(file@),
            final(self).meshes == old(self).meshes,
            final(fn_code)@ == old(fn_code)@ + texture_fn_line(
                var_name@,
                old(self).files@.len() as i32,
                *json,
            ),
            final(ret_code)@ == old(ret_code)@ + ret_entry(var_name@),
            final(ret_struct_code)@ == old(ret_struct_code)@ + ret_field(var_name@, "TextureS"@),
    {
        let slot = self.files.len() as i32;
        append_texture_asset(var_name, slot, json, fn_code, ret_code, ret_struct_code);
        let ghost before = self.files@;
        self.files.push(String::from_str(file));
        proof {
            assert(file_paths(self.files@) =~= file_paths(before).push(file@));
        }
    }

    /// Lists the mesh file `file` of a model: it takes the next data slot
    /// and the next mesh number, by which the code appended to `smf_gen`
    /// and `smf_enum` for the mesh called `smf_var_name` reads it.
    pub fn push_mesh(&mut self, file: &str, smf_var_name: &str, smf_gen: &mut String, smf_enum: &mut String)
        requires
            old(self).meshes < i32::MAX,
        ensures
            file_paths(final(self).files@) == file_paths(old(self).files@).push(file@),
            final(self).meshes == old(self).meshes + 1,
            final(smf_gen)@ == old(smf_gen)@ + mesh_gen_line(smf_var_name@, old(self).files@.len() as i32),
            final(smf_enum)@ == old(smf_enum)@ + mesh_enum_line(smf_var_name@, old(self).meshes),
    {
        let slot = self.files.len() as i32;
        append_mesh_asset(smf_var_name, slot, self.meshes, smf_gen, smf_enum);
        let ghost before = self.files@;
        self.files.push(String::from_str(file));
        self.meshes = self.meshes + 1;
        proof {
            assert(file_paths(self.files@) =~= file_paths(before).push(file@));
        }
    }
}

/// The error of a bake run in which some shader could not be analysed.
pub open spec fn shader_failure_message() -> Seq<char> {
    "errors while compiling wgsl"@
}

/// The struct lists of the analysed shaders, in order, where every shader
/// was analysed; otherwise the run fails with one error for all of them.
pub fn gather_analyses(results: Vec<Result<Vec<WgslStruct>, String>>) -> (r: Result<
    Vec<Vec<WgslStruct>>,
    String,
>)
    ensures
        (forall|k: int| 0 <= k < results@.len() ==> (#[trigger] results@[k]) is Ok) ==> r is Ok
            && r->Ok_0@.len() == results@.len() && forall|k: int|
            0 <= k < results@.len() ==> #[trigger] r->Ok_0@[k] == results@[k]->Ok_0,
        (exists|k: int| 0 <= k < results@.len() && (#[trigger] results@[k]) is Err) ==> r is Err
            && r->Err_0@ == shader_failure_message(),
{
    let ghost all = results@;
    let n = results.len();
    let mut rest = results;
    let mut out: Vec<Vec<WgslStruct>> = Vec::new();
    let mut failed = false;
    let mut i: usize = 0;
    while rest.len() > 0
        invariant
            i + rest@.len() == all.len(),
            all.len() == n,
            rest@ == all.subrange(i as int, all.len() as int),
            failed <==> exists|k: int| 0 <= k < i && (#[trigger] all[k]) is Err,
            !failed ==> out@.len() == i && forall|k: int| 0 <= k < i ==> #[trigger] out@[k] == all[k]->Ok_0,
        decreases rest@.len(),
    {
        let next = rest.remove(0);
        proof {
            assert(next == all[i as int]);
            assert(rest@ =~= all.subrange(i + 1, all.len() as int));
        }
        match next {
            Ok(v) => {
                if !failed {
                    out.push(v);
                }
            },
            Err(_) => {
                failed = true;
            },
        }
        i = i + 1;
    }
    if failed {
        Err(String::from_str("errors while compiling wgsl"))
    } else {
        Ok(out)
    }
}

} // verus!
