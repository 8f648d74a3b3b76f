//! Code generation of the bake step: asset variable names, the Rust
//! spelling of sampler, address-mode and texture-format settings, the
//! constructor lines of textures, render textures and meshes, and the text
//! of the generated asset module.
use vstd::prelude::*;
use crate::config::{BakeSettings, RenderTextureAttachmentJson, RenderTextureJson, TextureJson};
use crate::text::{
    dec, find_from, int_dec, push_dec, push_int, replace_all, str_eq, str_find, str_replace,
    string_of_range, chars_of,
};

verus! {

/// Variable name of an asset: its path with `\` turned into `/`, the
/// project's asset and data directory prefixes removed, and `/` and `.`
/// turned into `_`.
pub open spec fn path_var_name(p: Seq<char>) -> Seq<char> {
    replace_all(
        replace_all(
            replace_all(
                replace_all(replace_all(p, "\\"@, "/"@), "smq_proj/assets/"@, ""@),
                "smq_proj/data/"@,
                ""@,
            ),
            "/"@,
            "_"@,
        ),
        "."@,
        "_"@,
    )
}

/// Name under which a baked file is stored in the game's asset archive.
pub open spec fn archive_name(p: Seq<char>) -> Seq<char> {
    replace_all(
        replace_all(replace_all(replace_all(p, "\\"@, "/"@), "smq_proj/data/"@, ""@), "/"@, "_"@),
        "."@,
        "_"@,
    )
}

proof fn lemma_single_char_literals()
    ensures
        "\\"@.len() == 1,
        "/"@.len() == 1,
        "."@.len() == 1,
        "smq_proj/assets/"@.len() > 0,
        "smq_proj/data/"@.len() > 0,
{
    reveal_strlit("\\");
    reveal_strlit("/");
    reveal_strlit(".");
    reveal_strlit("smq_proj/assets/");
    reveal_strlit("smq_proj/data/");
}

/// The variable name that the generated code gives the asset at `path`.
pub fn path_to_var(path: &str) -> (r: String)
    ensures
        r@ == path_var_name(path@),
{
    proof {
        lemma_single_char_literals();
    }
    let a = str_replace(path, "\\", "/");
    let b = str_replace(a.as_str(), "smq_proj/assets/", "");
    let c = str_replace(b.as_str(), "smq_proj/data/", "");
    let d = str_replace(c.as_str(), "/", "_");
    str_replace(d.as_str(), ".", "_")
}

/// The archive name of the baked file at `path`.
pub fn archive_asset_name(path: &str) -> (r: String)
    ensures
        r@ == archive_name(path@),
{
    proof {
        lemma_single_char_literals();
    }
    let a = str_replace(path, "\\", "/");
    let b = str_replace(a.as_str(), "smq_proj/data/", "");
    let c = str_replace(b.as_str(), "/", "_");
    str_replace(c.as_str(), ".", "_")
}

proof fn lemma_replace_removes(s: Seq<char>, c: char, to: Seq<char>)
    requires
        !to.contains(c),
    ensures
        !replace_all(s, seq![c], to).contains(c),
    decreases s.len(),
{
    let from = seq![c];
    let r = replace_all(s, from, to);
    if s.len() >= 1 {
        if s.subrange(0, 1) == from {
            lemma_replace_removes(s.subrange(1, s.len() as int), c, to);
            let rest = replace_all(s.subrange(1, s.len() as int), from, to);
            assert(r == to + rest);
            assert forall|i: int| 0 <= i < r.len() implies r[i] != c by {
                if i < to.len() {
                    assert(r[i] == to[i]);
                } else {
                    assert(r[i] == rest[i - to.len()]);
                }
            }
        } else {
            lemma_replace_removes(s.drop_first(), c, to);
            let rest = replace_all(s.drop_first(), from, to);
            assert(s[0] != c) by {
                if s[0] == c {
                    assert(s.subrange(0, 1) =~= from);
                }
            }
            assert forall|i: int| 0 <= i < r.len() implies r[i] != c by {
                if i > 0 {
                    assert(r[i] == rest[i - 1]);
                }
            }
        }
    }
}

proof fn lemma_replace_keeps_absent(s: Seq<char>, from: Seq<char>, to: Seq<char>, x: char)
    requires
        !s.contains(x),
        !to.contains(x),
    ensures
        !replace_all(s, from, to).contains(x),
    decreases s.len(),
{
    let r = replace_all(s, from, to);
    if from.len() == 0 || s.len() < from.len() {
    } else if s.subrange(0, from.len() as int) == from {
        let t = s.subrange(from.len() as int, s.len() as int);
        assert forall|i: int| 0 <= i < t.len() implies t[i] != x by {
            assert(t[i] == s[i + from.len()]);
        }
        lemma_replace_keeps_absent(t, from, to, x);
        let rest = replace_all(t, from, to);
        assert forall|i: int| 0 <= i < r.len() implies r[i] != x by {
            if i < to.len() {
                assert(r[i] == to[i]);
            } else {
                assert(r[i] == rest[i - to.len()]);
            }
        }
    } else {
        let t = s.drop_first();
        assert forall|i: int| 0 <= i < t.len() implies t[i] != x by {
            assert(t[i] == s[i + 1]);
        }
        lemma_replace_keeps_absent(t, from, to, x);
        let rest = replace_all(t, from, to);
        assert forall|i: int| 0 <= i < r.len() implies r[i] != x by {
            if i > 0 {
                assert(r[i] == rest[i - 1]);
            } else {
                assert(r[0] == s[0]);
            }
        }
    }
}

proof fn lemma_separator_literals()
    ensures
        "\\"@ == seq!['\\'],
        "/"@ == seq!['/'],
        "."@ == seq!['.'],
        "_"@ == seq!['_'],
        ""@ == Seq::<char>::empty(),
{
    reveal_strlit("\\");
    reveal_strlit("/");
    reveal_strlit(".");
    reveal_strlit("_");
    reveal_strlit("");
}

/// The variable name of an asset holds no path separator (`/` or `\`)
/// and no `.`: the whole path folds into one name.
pub proof fn lemma_var_name_is_flat(p: Seq<char>)
    ensures
        !path_var_name(p).contains('/'),
        !path_var_name(p).contains('\\'),
        !path_var_name(p).contains('.'),
{
    lemma_separator_literals();
    let a = replace_all(p, "\\"@, "/"@);
    lemma_replace_removes(p, '\\', "/"@);
    let b = replace_all(a, "smq_proj/assets/"@, ""@);
    lemma_replace_keeps_absent(a, "smq_proj/assets/"@, ""@, '\\');
    let c = replace_all(b, "smq_proj/data/"@, ""@);
    lemma_replace_keeps_absent(b, "smq_proj/data/"@, ""@, '\\');
    let d = replace_all(c, "/"@, "_"@);
    lemma_replace_removes(c, '/', "_"@);
    lemma_replace_keeps_absent(c, "/"@, "_"@, '\\');
    lemma_replace_removes(d, '.', "_"@);
    lemma_replace_keeps_absent(d, "."@, "_"@, '\\');
    lemma_replace_keeps_absent(d, "."@, "_"@, '/');
}

/// The archive name of a baked file holds no path separator (`/` or `\`)
/// and no `.`.
pub proof fn lemma_archive_name_is_flat(p: Seq<char>)
    ensures
        !archive_name(p).contains('/'),
        !archive_name(p).contains('\\'),
        !archive_name(p).contains('.'),
{
    lemma_separator_literals();
    let a = replace_all(p, "\\"@, "/"@);
    lemma_replace_removes(p, '\\', "/"@);
    let b = replace_all(a, "smq_proj/data/"@, ""@);
    lemma_replace_keeps_absent(a, "smq_proj/data/"@, ""@, '\\');
    let c = replace_all(b, "/"@, "_"@);
    lemma_replace_removes(b, '/', "_"@);
    lemma_replace_keeps_absent(b, "/"@, "_"@, '\\');
    lemma_replace_removes(c, '.', "_"@);
    lemma_replace_keeps_absent(c, "."@, "_"@, '\\');
    lemma_replace_keeps_absent(c, "."@, "_"@, '/');
}

/// Path of an asset below the project's asset directory: what follows the
/// first `smq_proj/assets/` in the path (with `\` read as `/`).
pub open spec fn asset_relative_path(p: Seq<char>) -> Option<Seq<char>> {
    let q = replace_all(p, "\\"@, "/"@);
    let k = find_from(q, "smq_proj/assets/"@, 0);
    if k < 0 {
        None
    } else {
        Some(q.subrange(k + "smq_proj/assets/"@.len(), q.len() as int))
    }
}

/// The part of an asset path below `smq_proj/assets/`; `None` for a path
/// outside the asset directory.
pub fn descriptor_relative_path(path: &str) -> (r: Option<String>)
    ensures
        match asset_relative_path(path@) {
            Some(rest) => r matches Some(s) && s@ == rest,
            None => r is None,
        },
{
    proof {
        lemma_single_char_literals();
    }
    let q = str_replace(path, "\\", "/");
    let prefix = "smq_proj/assets/";
    match str_find(q.as_str(), prefix) {
        Some(k) => {
            let qs = q.as_str();
            let v = chars_of(qs);
            let n = v.len();
            let plen = prefix.unicode_len();
            assert(k + plen <= n);
            Some(string_of_range(&v, k + plen, n))
        },
        None => None,
    }
}

/// `base` joined with the relative path `rest` as a Unix path: `rest` after
/// a `/`, or `rest` alone where it is absolute.
pub open spec fn joined(base: Seq<char>, rest: Seq<char>) -> Seq<char> {
    if rest.len() > 0 && rest[0] == '/' {
        rest
    } else {
        base + "/"@ + rest
    }
}

/// Where an asset's file and settings are kept: the data folders
/// `smq_proj/data/file` and `smq_proj/data/json` joined with the asset's path
/// below the asset directory; `None` for a path outside it.
pub open spec fn descriptor_targets_of(p: Seq<char>) -> Option<(Seq<char>, Seq<char>)> {
    match asset_relative_path(p) {
        Some(rest) => Some((joined("smq_proj/data/file"@, rest), joined("smq_proj/data/json"@, rest))),
        None => None,
    }
}

fn join_exec(base: &str, rest: &str) -> (r: String)
    ensures
        r@ == joined(base@, rest@),
{
    if rest.unicode_len() > 0 && rest.get_char(0) == '/' {
        String::from_str(rest)
    } else {
        let mut r = String::from_str(base);
        r.append("/");
        r.append(rest);
        r
    }
}

/// The paths of an asset's file and settings in the data folders (see
/// `descriptor_targets_of`).
pub fn descriptor_targets(path: &str) -> (r: Option<(String, String)>)
    ensures
        match descriptor_targets_of(path@) {
            Some((f, j)) => r matches Some((rf, rj)) && rf@ == f && rj@ == j,
            None => r is None,
        },
{
    match descriptor_relative_path(path) {
        Some(rest) => Some(
            (join_exec("smq_proj/data/file", rest.as_str()), join_exec("smq_proj/data/json", rest.as_str())),
        ),
        None => None,
    }
}

/// Sampler settings that the bake step knows.
pub open spec fn known_sampler(s: Seq<char>) -> bool {
    s == "Nearest"@ || s == "Bilinear"@ || s == "Trilinear"@ || s == "NearestMapped"@
}

pub open spec fn sampler_code(s: Seq<char>) -> Seq<char> {
    "smq_engine::SamplingMode::"@ + s
}

/// Address-mode settings that the bake step knows.
pub open spec fn known_address_mode(s: Seq<char>) -> bool {
    s == "Clamp"@ || s == "Repeat"@
}

pub open spec fn address_mode_code(s: Seq<char>) -> Seq<char> {
    if s == "Clamp"@ {
        "AddressMode::ClampToEdge"@
    } else {
        "AddressMode::Repeat"@
    }
}

/// Texture formats that the bake step knows.
#[verifier::opaque]
pub open spec fn known_texture_format(s: Seq<char>) -> bool {
    ||| s == "R8Unorm"@
    ||| s == "R8Snorm"@
    ||| s == "R8Uint"@
    ||| s == "R8Sint"@
    ||| s == "R16Uint"@
    ||| s == "R16Sint"@
    ||| s == "R16Float"@
    ||| s == "Rg8Unorm"@
    ||| s == "Rg8Snorm"@
    ||| s == "Rg8Uint"@
    ||| s == "Rg8Sint"@
    ||| s == "R32Uint"@
    ||| s == "R32Sint"@
    ||| s == "R32Float"@
    ||| s == "Rg16Uint"@
    ||| s == "Rg16Sint"@
    ||| s == "Rg16Float"@
    ||| s == "Rgba8Unorm"@
    ||| s == "Rgba8UnormSrgb"@
    ||| s == "Rgba8Snorm"@
    ||| s == "Rgba8Uint"@
    ||| s == "Rgba8Sint"@
    ||| s == "Bgra8Unorm"@
    ||| s == "Bgra8UnormSrgb"@
    ||| s == "Rgb9e5Ufloat"@
    ||| s == "Rgb10a2Unorm"@
    ||| s == "Rg11b10Float"@
    ||| s == "Rg32Uint"@
    ||| s == "Rg32Sint"@
    ||| s == "Rg32Float"@
    ||| s == "Rgba16Uint"@
    ||| s == "Rgba16Sint"@
    ||| s == "Rgba16Float"@
    ||| s == "Rgba32Uint"@
    ||| s == "Rgba32Sint"@
    ||| s == "Rgba32Float"@
    ||| s == "Stencil8"@
    ||| s == "Depth16Unorm"@
    ||| s == "Depth24Plus"@
    ||| s == "Depth24PlusStencil8"@
    ||| s == "Depth32Float"@
    ||| s == "Depth32FloatStencil8"@
    ||| s == "Bc1RgbaUnorm"@
    ||| s == "Bc1RgbaUnormSrgb"@
    ||| s == "Bc2RgbaUnorm"@
    ||| s == "Bc2RgbaUnormSrgb"@
    ||| s == "Bc3RgbaUnorm"@
    ||| s == "Bc3RgbaUnormSrgb"@
    ||| s == "Bc4RUnorm"@
    ||| s == "Bc4RSnorm"@
    ||| s == "Bc5RgUnorm"@
    ||| s == "Bc5RgSnorm"@
    ||| s == "Bc6hRgbUfloat"@
    ||| s == "Bc6hRgbFloat"@
    ||| s == "Bc7RgbaUnorm"@
    ||| s == "Bc7RgbaUnormSrgb"@
    ||| s == "Etc2Rgb8Unorm"@
    ||| s == "Etc2Rgb8UnormSrgb"@
    ||| s == "Etc2Rgb8A1Unorm"@
    ||| s == "Etc2Rgb8A1UnormSrgb"@
    ||| s == "Etc2Rgba8Unorm"@
    ||| s == "Etc2Rgba8UnormSrgb"@
    ||| s == "EacR11Unorm"@
    ||| s == "EacR11Snorm"@
    ||| s == "EacRg11Unorm"@
    ||| s == "EacRg11Snorm"@
}

pub open spec fn texture_format_code(s: Seq<char>) -> Seq<char> {
    "TextureFormat::"@ + s
}

/// Whether `strng` is a sampler setting that `sampler_str_to_code` knows.
pub fn is_known_sampler(strng: &str) -> (b: bool)
    ensures
        b == known_sampler(strng@),
{
    str_eq(strng, "Nearest") || str_eq(strng, "Bilinear") || str_eq(strng, "Trilinear") || str_eq(
        strng,
        "NearestMapped",
    )
}

/// Whether `strng` is an address mode that `adresat_str_to_code` knows.
pub fn is_known_address_mode(strng: &str) -> (b: bool)
    ensures
        b == known_address_mode(strng@),
{
    str_eq(strng, "Clamp") || str_eq(strng, "Repeat")
}

/// Whether `s` is a texture format that `texture_format_str_to_code` knows.
pub fn is_known_texture_format(s: &str) -> (b: bool)
    ensures
        b == known_texture_format(s@),
{
    proof {
        reveal(known_texture_format);
    }
    str_eq(s, "R8Unorm") ||
        str_eq(s, "R8Snorm") ||
        str_eq(s, "R8Uint") ||
        str_eq(s, "R8Sint") ||
        str_eq(s, "R16Uint") ||
        str_eq(s, "R16Sint") ||
        str_eq(s, "R16Float") ||
        str_eq(s, "Rg8Unorm") ||
        str_eq(s, "Rg8Snorm") ||
        str_eq(s, "Rg8Uint") ||
        str_eq(s, "Rg8Sint") ||
        str_eq(s, "R32Uint") ||
        str_eq(s, "R32Sint") ||
        str_eq(s, "R32Float") ||
        str_eq(s, "Rg16Uint") ||
        str_eq(s, "Rg16Sint") ||
        str_eq(s, "Rg16Float") ||
        str_eq(s, "Rgba8Unorm") ||
        str_eq(s, "Rgba8UnormSrgb") ||
        str_eq(s, "Rgba8Snorm") ||
        str_eq(s, "Rgba8Uint") ||
        str_eq(s, "Rgba8Sint") ||
        str_eq(s, "Bgra8Unorm") ||
        str_eq(s, "Bgra8UnormSrgb") ||
        str_eq(s, "Rgb9e5Ufloat") ||
        str_eq(s, "Rgb10a2Unorm") ||
        str_eq(s, "Rg11b10Float") ||
        str_eq(s, "Rg32Uint") ||
        str_eq(s, "Rg32Sint") ||
        str_eq(s, "Rg32Float") ||
        str_eq(s, "Rgba16Uint") ||
        str_eq(s, "Rgba16Sint") ||
        str_eq(s, "Rgba16Float") ||
        str_eq(s, "Rgba32Uint") ||
        str_eq(s, "Rgba32Sint") ||
        str_eq(s, "Rgba32Float") ||
        str_eq(s, "Stencil8") ||
        str_eq(s, "Depth16Unorm") ||
        str_eq(s, "Depth24Plus") ||
        str_eq(s, "Depth24PlusStencil8") ||
        str_eq(s, "Depth32Float") ||
        str_eq(s, "Depth32FloatStencil8") ||
        str_eq(s, "Bc1RgbaUnorm") ||
        str_eq(s, "Bc1RgbaUnormSrgb") ||
        str_eq(s, "Bc2RgbaUnorm") ||
        str_eq(s, "Bc2RgbaUnormSrgb") ||
        str_eq(s, "Bc3RgbaUnorm") ||
        str_eq(s, "Bc3RgbaUnormSrgb") ||
        str_eq(s, "Bc4RUnorm") ||
        str_eq(s, "Bc4RSnorm") ||
        str_eq(s, "Bc5RgUnorm") ||
        str_eq(s, "Bc5RgSnorm") ||
        str_eq(s, "Bc6hRgbUfloat") ||
        str_eq(s, "Bc6hRgbFloat") ||
        str_eq(s, "Bc7RgbaUnorm") ||
        str_eq(s, "Bc7RgbaUnormSrgb") ||
        str_eq(s, "Etc2Rgb8Unorm") ||
        str_eq(s, "Etc2Rgb8UnormSrgb") ||
        str_eq(s, "Etc2Rgb8A1Unorm") ||
        str_eq(s, "Etc2Rgb8A1UnormSrgb") ||
        str_eq(s, "Etc2Rgba8Unorm") ||
        str_eq(s, "Etc2Rgba8UnormSrgb") ||
        str_eq(s, "EacR11Unorm") ||
        str_eq(s, "EacR11Snorm") ||
        str_eq(s, "EacRg11Unorm") ||
        str_eq(s, "EacRg11Snorm")
}

/// Rust expression of a sampler setting.
pub fn sampler_str_to_code(strng: &str) -> (r: String)
    requires
        known_sampler(strng@),
    ensures
        r@ == sampler_code(strng@),
{
    let mut r = String::from_str("smq_engine::SamplingMode::");
    r.append(strng);
    r
}

/// Rust expression of an address-mode setting.
pub fn adresat_str_to_code(strng: &str) -> (r: String)
    requires
        known_address_mode(strng@),
    ensures
        r@ == address_mode_code(strng@),
{
    if str_eq(strng, "Clamp") {
        String::from_str("AddressMode::ClampToEdge")
    } else {
        String::from_str("AddressMode::Repeat")
    }
}

/// Rust expression of a texture format setting.
pub fn texture_format_str_to_code(strng: &str) -> (r: String)
    requires
        known_texture_format(strng@),
    ensures
        r@ == texture_format_code(strng@),
{
    let mut r = String::from_str("TextureFormat::");
    r.append(strng);
    r
}

/// A texture's settings that the bake step can turn into code.
pub open spec fn texture_settings_known(t: TextureJson) -> bool {
    known_sampler(t.sampler@) && known_texture_format(t.format@) && known_address_mode(
        t.repeater@,
    )
}

/// Constructor line of a texture asset.
pub open spec fn texture_fn_line(var: Seq<char>, index: i32, t: TextureJson) -> Seq<char> {
    "\nlet "@ + var + " = TextureS::new(context, ssf_data["@ + int_dec(index as int)
        + "].as_ref(), "@ + sampler_code(t.sampler@) + ", "@ + dec(t.mipmaps as nat) + ", "@
        + texture_format_code(t.format@) + ", "@ + address_mode_code(t.repeater@) + ", Some(\""@
        + var + "\"));"@
}

/// Return-list entry of an asset.
pub open spec fn ret_entry(var: Seq<char>) -> Seq<char> {
    "\n"@ + var + ","@
}

/// Field of an asset in the generated asset table.
pub open spec fn ret_field(var: Seq<char>, ty: Seq<char>) -> Seq<char> {
    "\npub "@ + var + ": "@ + ty + ","@
}

/// Appends the constructor line, return entry and table field of the
/// texture asset `var_name`, stored at `index` of the asset archive.
pub fn append_texture_asset(
    var_name: &str,
    index: i32,
    texture_json: &TextureJson,
    fn_code: &mut String,
    ret_code: &mut String,
    ret_struct_code: &mut String,
)
    requires
        texture_settings_known(*texture_json),
    ensures
        final(fn_code)@ == old(fn_code)@ + texture_fn_line(var_name@, index, *texture_json),
        final(ret_code)@ == old(ret_code)@ + ret_entry(var_name@),
        final(ret_struct_code)@ == old(ret_struct_code)@ + ret_field(var_name@, "TextureS"@),
{
    let sampler = sampler_str_to_code(texture_json.sampler.as_str());
    let format = texture_format_str_to_code(texture_json.format.as_str());
    let address = adresat_str_to_code(texture_json.repeater.as_str());
    fn_code.append("\nlet ");
    fn_code.append(var_name);
    fn_code.append(" = TextureS::new(context, ssf_data[");
    push_int(fn_code, index as i64);
    fn_code.append("].as_ref(), ");
    fn_code.append(sampler.as_str());
    fn_code.append(", ");
    push_dec(fn_code, texture_json.mipmaps as u64);
    fn_code.append(", ");
    fn_code.append(format.as_str());
    fn_code.append(", ");
    fn_code.append(address.as_str());
    fn_code.append(", Some(\"");
    fn_code.append(var_name);
    fn_code.append("\"));");
    ret_code.append("\n");
    ret_code.append(var_name);
    ret_code.append(",");
    ret_struct_code.append("\npub ");
    ret_struct_code.append(var_name);
    ret_struct_code.append(": ");
    ret_struct_code.append("TextureS");
    ret_struct_code.append(",");
    proof {
        assert(final(fn_code)@ =~= old(fn_code)@ + texture_fn_line(var_name@, index, *texture_json));
        assert(final(ret_code)@ =~= old(ret_code)@ + ret_entry(var_name@));
        assert(final(ret_struct_code)@ =~= old(ret_struct_code)@ + ret_field(var_name@, "TextureS"@));
    }
}

#[verifier::opaque]
pub open spec fn usage_flag(on: bool, name: Seq<char>) -> Seq<char> {
    if on {
        name
    } else {
        Seq::<char>::empty()
    }
}

/// Rust expression of a set of texture usages.
pub open spec fn usages_code(
    copy_dst: bool,
    copy_src: bool,
    render_attachment: bool,
    storage_atomic: bool,
    storage_binding: bool,
    texture_binding: bool,
) -> Seq<char> {
    usage_flag(copy_dst, "TextureUsages::COPY_DST | "@) + usage_flag(
        copy_src,
        "TextureUsages::COPY_SRC | "@,
    ) + usage_flag(render_attachment, "TextureUsages::RENDER_ATTACHMENT | "@) + usage_flag(
        storage_atomic,
        "TextureUsages::STORAGE_ATOMIC | "@,
    ) + usage_flag(storage_binding, "TextureUsages::STORAGE_BINDING | "@) + usage_flag(
        texture_binding,
        "TextureUsages::TEXTURE_BINDING | "@,
    ) + "TextureUsages::empty()"@
}

fn push_flag(s: &mut String, on: bool, name: &str)
    ensures
        final(s)@ == old(s)@ + usage_flag(on, name@),
{
    proof {
        reveal(usage_flag);
    }
    if on {
        s.append(name);
    } else {
        proof {
            assert(old(s)@ + usage_flag(on, name@) =~= old(s)@);
        }
    }
}

fn push_usages(
    s: &mut String,
    copy_dst: bool,
    copy_src: bool,
    render_attachment: bool,
    storage_atomic: bool,
    storage_binding: bool,
    texture_binding: bool,
)
    ensures
        final(s)@ == old(s)@ + usages_code(
            copy_dst,
            copy_src,
            render_attachment,
            storage_atomic,
            storage_binding,
            texture_binding,
        ),
{
    let mut u = String::new();
    push_flag(&mut u, copy_dst, "TextureUsages::COPY_DST | ");
    push_flag(&mut u, copy_src, "TextureUsages::COPY_SRC | ");
    push_flag(&mut u, render_attachment, "TextureUsages::RENDER_ATTACHMENT | ");
    push_flag(&mut u, storage_atomic, "TextureUsages::STORAGE_ATOMIC | ");
    push_flag(&mut u, storage_binding, "TextureUsages::STORAGE_BINDING | ");
    push_flag(&mut u, texture_binding, "TextureUsages::TEXTURE_BINDING | ");
    u.append("TextureUsages::empty()");
    proof {
        assert(u@ =~= usages_code(
            copy_dst,
            copy_src,
            render_attachment,
            storage_atomic,
            storage_binding,
            texture_binding,
        ));
    }
    s.append(u.as_str());
}

/// Opening of a color attachment's description: its format.
pub open spec fn attachment_head(a: RenderTextureAttachmentJson) -> Seq<char> {
    "\n("@ + texture_format_code(a.format@) + ", "@
}

/// Closing of a color attachment's description: its label.
pub open spec fn attachment_tail(var: Seq<char>, i: nat) -> Seq<char> {
    ", Some(\""@ + var + "_"@ + dec(i) + "\")),"@
}

/// Description of color attachment `i` of render texture `var`.
pub open spec fn attachment_line(var: Seq<char>, i: nat, a: RenderTextureAttachmentJson) -> Seq<
    char,
> {
    attachment_head(a) + usages_code(
        a.usages_COPY_DST,
        a.usages_COPY_SRC,
        a.usages_RENDER_ATTACHMENT,
        a.usages_STORAGE_ATOMIC,
        a.usages_STORAGE_BINDING,
        a.usages_TEXTURE_BINDING,
    ) + attachment_tail(var, i)
}

/// Descriptions of all color attachments, in order.
pub open spec fn attachments_code(var: Seq<char>, atts: Seq<RenderTextureAttachmentJson>) -> Seq<
    char,
>
    decreases atts.len(),
{
    if atts.len() == 0 {
        Seq::<char>::empty()
    } else {
        attachments_code(var, atts.drop_last()) + attachment_line(
            var,
            (atts.len() - 1) as nat,
            atts.last(),
        )
    }
}

/// Description of the depth attachment of render texture `var`.
pub open spec fn depth_code(var: Seq<char>, rt: RenderTextureJson) -> Seq<char> {
    match rt.depth_attachment {
        Some(d) => "Some(("@ + texture_format_code(d@) + ", "@ + usages_code(
            rt.depth_usages_COPY_DST,
            rt.depth_usages_COPY_SRC,
            rt.depth_usages_RENDER_ATTACHMENT,
            rt.depth_usages_STORAGE_ATOMIC,
            rt.depth_usages_STORAGE_BINDING,
            rt.depth_usages_TEXTURE_BINDING,
        ) + ", Some(\""@ + var + "_depth\")))"@,
        None => "None"@,
    }
}

/// A render texture's settings that the bake step can turn into code.
pub open spec fn render_texture_settings_known(rt: RenderTextureJson) -> bool {
    &&& forall|i: int| 0 <= i < rt.attachments@.len() ==> known_texture_format(
        #[trigger] rt.attachments@[i].format@,
    )
    &&& rt.depth_attachment matches Some(d) ==> known_texture_format(d@)
}

/// Constructor line of a render texture asset.
pub open spec fn render_texture_fn_line(var: Seq<char>, rt: RenderTextureJson) -> Seq<char> {
    "\nlet "@ + var + " = RenderTexture::new(context, "@ + dec(rt.width as nat) + ", "@ + dec(
        rt.height as nat,
    ) + ", &["@ + attachments_code(var, rt.attachments@) + "], "@ + depth_code(var, rt) + ");"@
}

fn push_attachment_head(s: &mut String, a: &RenderTextureAttachmentJson)
    requires
        known_texture_format(a.format@),
    ensures
        final(s)@ == old(s)@ + attachment_head(*a),
{
    let format = texture_format_str_to_code(a.format.as_str());
    s.append("\n(");
    s.append(format.as_str());
    s.append(", ");
}

fn push_attachment_tail(s: &mut String, var: &str, i: usize)
    ensures
        final(s)@ == old(s)@ + attachment_tail(var@, i as nat),
{
    s.append(", Some(\"");
    s.append(var);
    s.append("_");
    push_dec(s, i as u64);
    s.append("\")),");
}

fn push_attachment_line(s: &mut String, var: &str, i: usize, a: &RenderTextureAttachmentJson)
    requires
        known_texture_format(a.format@),
    ensures
        final(s)@ == old(s)@ + attachment_line(var@, i as nat, *a),
{
    push_attachment_head(s, a);
    push_usages(
        s,
        a.usages_COPY_DST,
        a.usages_COPY_SRC,
        a.usages_RENDER_ATTACHMENT,
        a.usages_STORAGE_ATOMIC,
        a.usages_STORAGE_BINDING,
        a.usages_TEXTURE_BINDING,
    );
    push_attachment_tail(s, var, i);
    proof {
        let h = attachment_head(*a);
        let u = usages_code(
            a.usages_COPY_DST,
            a.usages_COPY_SRC,
            a.usages_RENDER_ATTACHMENT,
            a.usages_STORAGE_ATOMIC,
            a.usages_STORAGE_BINDING,
            a.usages_TEXTURE_BINDING,
        );
        let t = attachment_tail(var@, i as nat);
        assert(old(s)@ + h + u + t =~= old(s)@ + (h + u + t));
    }
}

fn attachments_text(var_name: &str, rt: &RenderTextureJson) -> (r: String)
    requires
        render_texture_settings_known(*rt),
    ensures
        r@ == attachments_code(var_name@, rt.attachments@),
{
    let mut attachments_data = String::new();
    let mut i: usize = 0;
    while i < rt.attachments.len()
        invariant
            i <= rt.attachments@.len(),
            render_texture_settings_known(*rt),
            attachments_data@ == attachments_code(var_name@, rt.attachments@.subrange(0, i as int)),
        decreases rt.attachments@.len() - i,
    {
        let ghost prev = rt.attachments@.subrange(0, i as int);
        push_attachment_line(&mut attachments_data, var_name, i, &rt.attachments[i]);
        i = i + 1;
        proof {
            assert(rt.attachments@.subrange(0, i as int).drop_last() =~= prev);
        }
    }
    proof {
        assert(rt.attachments@.subrange(0, i as int) =~= rt.attachments@);
    }
    attachments_data
}

fn depth_text(var_name: &str, rt: &RenderTextureJson) -> (r: String)
    requires
        render_texture_settings_known(*rt),
    ensures
        r@ == depth_code(var_name@, *rt),
{
    let mut depth_data = String::new();
    match &rt.depth_attachment {
        Some(depth) => {
            let format = texture_format_str_to_code(depth.as_str());
            depth_data.append("Some((");
            depth_data.append(format.as_str());
            depth_data.append(", ");
            push_usages(
                &mut depth_data,
                rt.depth_usages_COPY_DST,
                rt.depth_usages_COPY_SRC,
                rt.depth_usages_RENDER_ATTACHMENT,
                rt.depth_usages_STORAGE_ATOMIC,
                rt.depth_usages_STORAGE_BINDING,
                rt.depth_usages_TEXTURE_BINDING,
            );
            depth_data.append(", Some(\"");
            depth_data.append(var_name);
            depth_data.append("_depth\")))");
        },
        None => {
            depth_data.append("None");
        },
    }
    proof {
        assert(depth_data@ =~= depth_code(var_name@, *rt));
    }
    depth_data
}

/// Appends the constructor line, return entry and table field of the render
/// texture asset `var_name`.
pub fn append_render_texture_asset(
    var_name: &str,
    rt: &RenderTextureJson,
    fn_code: &mut String,
    ret_code: &mut String,
    ret_struct_code: &mut String,
)
    requires
        render_texture_settings_known(*rt),
    ensures
        final(fn_code)@ == old(fn_code)@ + render_texture_fn_line(var_name@, *rt),
        final(ret_code)@ == old(ret_code)@ + ret_entry(var_name@),
        final(ret_struct_code)@ == old(ret_struct_code)@ + ret_field(var_name@, "RenderTexture"@),
{
    let attachments_data = attachments_text(var_name, rt);
    let depth_data = depth_text(var_name, rt);
    fn_code.append("\nlet ");
    fn_code.append(var_name);
    fn_code.append(" = RenderTexture::new(context, ");
    push_dec(fn_code, rt.width as u64);
    fn_code.append(", ");
    push_dec(fn_code, rt.height as u64);
    fn_code.append(", &[");
    fn_code.append(attachments_data.as_str());
    fn_code.append("], ");
    fn_code.append(depth_data.as_str());
    fn_code.append(");");
    ret_code.append("\n");
    ret_code.append(var_name);
    ret_code.append(",");
    ret_struct_code.append("\npub ");
    ret_struct_code.append(var_name);
    ret_struct_code.append(": ");
    ret_struct_code.append("RenderTexture");
    ret_struct_code.append(",");
    proof {
        assert(final(fn_code)@ =~= old(fn_code)@ + render_texture_fn_line(var_name@, *rt));
        assert(final(ret_code)@ =~= old(ret_code)@ + ret_entry(var_name@));
        assert(final(ret_struct_code)@ =~= old(ret_struct_code)@ + ret_field(
            var_name@,
            "RenderTexture"@,
        ));
    }
}

/// Constructor entry of a mesh in the generated mesh array.
pub open spec fn mesh_gen_line(name: Seq<char>, index: i32) -> Seq<char> {
    "\nMesh::new(context, ssf_data["@ + int_dec(index as int) + "].as_ref(), 32, Some(\""@ + name
        + "\")).unwrap(),"@
}

/// Variant of a mesh in the generated `Meshes` enum.
pub open spec fn mesh_enum_line(name: Seq<char>, number: i32) -> Seq<char> {
    name + " = "@ + int_dec(number as int) + ","@
}

/// Appends the array entry and enum variant of mesh `smf_var_name`, stored
/// at `index` of the asset archive and numbered `number`.
pub fn append_mesh_asset(
    smf_var_name: &str,
    index: i32,
    number: i32,
    smf_gen: &mut String,
    smf_enum: &mut String,
)
    ensures
        final(smf_gen)@ == old(smf_gen)@ + mesh_gen_line(smf_var_name@, index),
        final(smf_enum)@ == old(smf_enum)@ + mesh_enum_line(smf_var_name@, number),
{
    smf_gen.append("\nMesh::new(context, ssf_data[");
    push_int(smf_gen, index as i64);
    smf_gen.append("].as_ref(), 32, Some(\"");
    smf_gen.append(smf_var_name);
    smf_gen.append("\")).unwrap(),");
    smf_enum.append(smf_var_name);
    smf_enum.append(" = ");
    push_int(smf_enum, number as i64);
    smf_enum.append(",");
    proof {
        assert(final(smf_gen)@ =~= old(smf_gen)@ + mesh_gen_line(smf_var_name@, index));
        assert(final(smf_enum)@ =~= old(smf_enum)@ + mesh_enum_line(smf_var_name@, number));
    }
}

/// Code that builds the blit bind group and pipeline from attachment `at`
/// of render texture `an`.
pub open spec fn blit_setup_code(an: Seq<char>, at: Seq<char>) -> Seq<char> {
    "\n            let blit_group = BindGroupS::new(context, &[\n                "@ + an
        + ".attachments["@ + at
        + "].get_texture_binding(ShaderStages::FRAGMENT, true),\n                "@ + an
        + ".attachments["@ + at
        + "].get_sampler_binding(ShaderStages::FRAGMENT)\n            ], None);\n\n            let blitinfo = context.create_blit_pipeline(&blit_group);\n        "@
}

pub open spec fn blit_ret_code() -> Seq<char> {
    "blitinfo,\n            blit_group,"@
}

pub open spec fn blit_ret_struct_code() -> Seq<char> {
    "pub blitinfo: BlitInfo,\n            pub blit_group: BindGroupS,"@
}

/// Appends the blit setup when the settings ask for it; fails when they ask
/// for it without naming the render texture to blit.
pub fn append_blit_code(
    settings: &BakeSettings,
    buttom: &mut String,
    ret: &mut String,
    ret_struct: &mut String,
) -> (r: Result<(), String>)
    ensures
        !settings.generate_blit_code ==> {
            &&& r is Ok
            &&& final(buttom)@ == old(buttom)@
            &&& final(ret)@ == old(ret)@
            &&& final(ret_struct)@ == old(ret_struct)@
        },
        settings.generate_blit_code && settings.render_texture_path is None ==> {
            &&& r is Err
            &&& r->Err_0@ == "using blit gen wydouth setting renderTexture to blit"@
            &&& final(buttom)@ == old(buttom)@
            &&& final(ret)@ == old(ret)@
            &&& final(ret_struct)@ == old(ret_struct)@
        },
        settings.generate_blit_code && settings.render_texture_path is Some ==> {
            &&& r is Ok
            &&& final(buttom)@ == old(buttom)@ + blit_setup_code(
                path_var_name(settings.render_texture_path->0@),
                settings.render_texture_attachment@,
            )
            &&& final(ret)@ == old(ret)@ + blit_ret_code()
            &&& final(ret_struct)@ == old(ret_struct)@ + blit_ret_struct_code()
        },
{
    if !settings.generate_blit_code {
        return Ok(());
    }
    let path = match &settings.render_texture_path {
        Some(p) => p,
        None => {
            return Err(String::from_str("using blit gen wydouth setting renderTexture to blit"));
        },
    };
    let attachment_name = path_to_var(path.as_str());
    let attachment = settings.render_texture_attachment.as_str();
    buttom.append("\n            let blit_group = BindGroupS::new(context, &[\n                ");
    buttom.append(attachment_name.as_str());
    buttom.append(".attachments[");
    buttom.append(attachment);
    buttom.append("].get_texture_binding(ShaderStages::FRAGMENT, true),\n                ");
    buttom.append(attachment_name.as_str());
    buttom.append(".attachments[");
    buttom.append(attachment);
    buttom.append(
        "].get_sampler_binding(ShaderStages::FRAGMENT)\n            ], None);\n\n            let blitinfo = context.create_blit_pipeline(&blit_group);\n        ",
    );
    ret.append("blitinfo,\n            blit_group,");
    ret_struct.append("pub blitinfo: BlitInfo,\n            pub blit_group: BindGroupS,");
    proof {
        assert(final(buttom)@ =~= old(buttom)@ + blit_setup_code(
            path_var_name(settings.render_texture_path->0@),
            settings.render_texture_attachment@,
        ));
    }
    Ok(())
}

/// The pieces of the generated asset module.
pub struct GenPieces {
    pub smf_enum: Seq<char>,
    pub struct_code: Seq<char>,
    pub outside: Seq<char>,
    pub ret_struct_code: Seq<char>,
    pub ret_struct: Seq<char>,
    pub smf_files: i32,
    pub smf_gen: Seq<char>,
    pub top: Seq<char>,
    pub fn_code: Seq<char>,
    pub buttom: Seq<char>,
    pub ret_code: Seq<char>,
    pub ret: Seq<char>,
}

/// Text of the generated asset module.
pub open spec fn gen_module_text(p: GenPieces) -> Seq<char> {
    "\n// this code is generated by code\n// if you change this file your changes will be deleted\n\n#![allow(non_snake_case, unused, non_camel_case_types)]\n\nuse glam::*;\nuse smq_engine::*;\nuse wgpu::*;\n\n#[repr(usize)]\n#[derive(Clone, Copy)]\npub enum Meshes {\n"@
        + p.smf_enum + "\n}\n\n"@ + p.struct_code + "\n\n"@ + p.outside
        + "\n\npub struct GenAssets {\n    "@ + p.ret_struct_code + "\n    "@ + p.ret_struct
        + "\n    pub meshes: [Mesh; "@ + int_dec(p.smf_files as int)
        + "]\n}\n\nimpl GenAssets {\n    pub fn init_gen_assets<D>(context: &Context<D>, ssf_data: &[SSFAsset]) -> Self {\n        let meshes = [\n            "@
        + p.smf_gen + "\n        ];\n        "@ + p.top + "\n        "@ + p.fn_code
        + "\n        "@ + p.buttom + "\n        return Self {\n            "@ + p.ret_code
        + "\n            "@ + p.ret + "\n            meshes\n        };\n    }\n}\n"@
}

/// The generated asset module's source text.
pub fn gen_module_source(
    smf_enum: &str,
    struct_code: &str,
    outside: &str,
    ret_struct_code: &str,
    ret_struct: &str,
    smf_files: i32,
    smf_gen: &str,
    top: &str,
    fn_code: &str,
    buttom: &str,
    ret_code: &str,
    ret: &str,
) -> (r: String)
    ensures
        r@ == gen_module_text(
            GenPieces {
                smf_enum: smf_enum@,
                struct_code: struct_code@,
                outside: outside@,
                ret_struct_code: ret_struct_code@,
                ret_struct: ret_struct@,
                smf_files,
                smf_gen: smf_gen@,
                top: top@,
                fn_code: fn_code@,
                buttom: buttom@,
                ret_code: ret_code@,
                ret: ret@,
            },
        ),
{
    let mut code = String::from_str(
        "\n// this code is generated by code\n// if you change this file your changes will be deleted\n\n#![allow(non_snake_case, unused, non_camel_case_types)]\n\nuse glam::*;\nuse smq_engine::*;\nuse wgpu::*;\n\n#[repr(usize)]\n#[derive(Clone, Copy)]\npub enum Meshes {\n",
    );
    code.append(smf_enum);
    code.append("\n}\n\n");
    code.append(struct_code);
    code.append("\n\n");
    code.append(outside);
    code.append("\n\npub struct GenAssets {\n    ");
    code.append(ret_struct_code);
    code.append("\n    ");
    code.append(ret_struct);
    code.append("\n    pub meshes: [Mesh; ");
    push_int(&mut code, smf_files as i64);
    code.append(
        "]\n}\n\nimpl GenAssets {\n    pub fn init_gen_assets<D>(context: &Context<D>, ssf_data: &[SSFAsset]) -> Self {\n        let meshes = [\n            ",
    );
    code.append(smf_gen);
    code.append("\n        ];\n        ");
    code.append(top);
    code.append("\n        ");
    code.append(fn_code);
    code.append("\n        ");
    code.append(buttom);
    code.append("\n        return Self {\n            ");
    code.append(ret_code);
    code.append("\n            ");
    code.append(ret);
    code.append("\n            meshes\n        };\n    }\n}\n");
    proof {
        assert(code@ =~= gen_module_text(
            GenPieces {
                smf_enum: smf_enum@,
                struct_code: struct_code@,
                outside: outside@,
                ret_struct_code: ret_struct_code@,
                ret_struct: ret_struct@,
                smf_files,
                smf_gen: smf_gen@,
                top: top@,
                fn_code: fn_code@,
                buttom: buttom@,
                ret_code: ret_code@,
                ret: ret@,
            },
        ));
    }
    code
}

} // verus!
