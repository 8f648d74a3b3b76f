//! Reading of the texture settings that asset description files spell out
//! as text: face culling, sampler settings, texture usages and texture
//! formats (with the ASTC block and channel spelled inside the name).
use vstd::prelude::*;
use crate::text::{chars_of, chars_start_with, lower_text, starts_with, str_eq, str_lowercase};

verus! {

/// Which triangle face a pipeline culls.
#[derive(Clone, Copy, Debug, PartialEq, Eq)]
pub enum FaceModel {
    Front,
    Back,
}

/// The culled face named by `s`; `None` for any other text.
pub open spec fn face_of(s: Seq<char>) -> Option<FaceModel> {
    if s == "Back"@ {
        Some(FaceModel::Back)
    } else if s == "Front"@ {
        Some(FaceModel::Front)
    } else {
        None
    }
}

/// The culled face named by `s` (`"Back"` or `"Front"`); `None` otherwise.
pub fn str_to_face_culling(s: &str) -> (r: Option<FaceModel>)
    ensures
        r == face_of(s@),
{
    if str_eq(s, "Back") {
        Some(FaceModel::Back)
    } else if str_eq(s, "Front") {
        Some(FaceModel::Front)
    } else {
        None
    }
}

/// Texel filtering of a sampler.
#[derive(Clone, Copy, Debug, PartialEq, Eq)]
pub enum FilterModel {
    Nearest,
    Linear,
}

/// How a sampler treats coordinates outside the texture.
#[derive(Clone, Copy, Debug, PartialEq, Eq)]
pub enum AddressModel {
    ClampToEdge,
    Repeat,
    MirrorRepeat,
}

/// The settings of a sampler that a texture description chooses; the
/// rest of the sampler keeps its defaults.
#[derive(Clone, Copy, Debug, PartialEq, Eq)]
pub struct SamplerModel {
    pub address_mode_u: AddressModel,
    pub address_mode_v: AddressModel,
    pub address_mode_w: AddressModel,
    pub mag_filter: FilterModel,
    pub min_filter: FilterModel,
    pub mipmap_filter: FilterModel,
}

/// Filters `(mag, min, mipmap)` of an already lower-cased sampling name.
pub open spec fn filters_of(sample: Seq<char>) -> (FilterModel, FilterModel, FilterModel) {
    if sample == "bilinear"@ {
        (FilterModel::Linear, FilterModel::Linear, FilterModel::Nearest)
    } else if sample == "trilinear"@ {
        (FilterModel::Linear, FilterModel::Linear, FilterModel::Linear)
    } else {
        (FilterModel::Nearest, FilterModel::Nearest, FilterModel::Nearest)
    }
}

/// Address mode of an already lower-cased repeat name.
pub open spec fn address_of(repeat: Seq<char>) -> AddressModel {
    if repeat == "clamp"@ {
        AddressModel::ClampToEdge
    } else if repeat == "mirror"@ {
        AddressModel::MirrorRepeat
    } else {
        AddressModel::Repeat
    }
}

/// The sampler chosen by lower-cased sampling and repeat names.
pub open spec fn sampler_of(sample: Seq<char>, repeat: Seq<char>) -> SamplerModel {
    let f = filters_of(sample);
    let a = address_of(repeat);
    SamplerModel {
        address_mode_u: a,
        address_mode_v: a,
        address_mode_w: a,
        mag_filter: f.0,
        min_filter: f.1,
        mipmap_filter: f.2,
    }
}

/// The sampler chosen by sampling and repeat names that are already in
/// lower case: `bilinear` and `trilinear` filter linearly (trilinear also
/// between mip levels), anything else is nearest; `clamp` clamps to the
/// edge, `mirror` mirrors, anything else repeats.
pub fn sampler_from_lowercase(sample: &str, repeat: &str) -> (r: SamplerModel)
    ensures
        r == sampler_of(sample@, repeat@),
{
    let (mag_filter, min_filter, mipmap_filter) = if str_eq(sample, "bilinear") {
        (FilterModel::Linear, FilterModel::Linear, FilterModel::Nearest)
    } else if str_eq(sample, "trilinear") {
        (FilterModel::Linear, FilterModel::Linear, FilterModel::Linear)
    } else {
        (FilterModel::Nearest, FilterModel::Nearest, FilterModel::Nearest)
    };
    let address_mode = if str_eq(repeat, "clamp") {
        AddressModel::ClampToEdge
    } else if str_eq(repeat, "mirror") {
        AddressModel::MirrorRepeat
    } else {
        AddressModel::Repeat
    };
    SamplerModel {
        address_mode_u: address_mode,
        address_mode_v: address_mode,
        address_mode_w: address_mode,
        mag_filter,
        min_filter,
        mipmap_filter,
    }
}

/// The sampler of a texture description: its sampling and repeat names
/// are compared without regard to case.
pub fn parse_sampler(sample: &str, repeat: &str) -> (r: SamplerModel)
    ensures
        r == sampler_of(lower_text(sample@), lower_text(repeat@)),
{
    let s = str_lowercase(sample);
    let a = str_lowercase(repeat);
    sampler_from_lowercase(s.as_str(), a.as_str())
}

/// The usages a texture is created with.
#[derive(Clone, Copy, Debug, PartialEq, Eq)]
pub struct UsagesModel {
    pub copy_src: bool,
    pub copy_dst: bool,
    pub texture_binding: bool,
    pub storage_binding: bool,
    pub render_attachment: bool,
}

/// Whether `name` is one of `names`.
pub open spec fn mentions(names: Seq<Seq<char>>, name: Seq<char>) -> bool {
    exists|i: int| 0 <= i < names.len() && #[trigger] names[i] == name
}

/// The usages that `names` list, each name read on its own; unknown names
/// add nothing.
pub open spec fn listed_usages(names: Seq<Seq<char>>) -> UsagesModel {
    UsagesModel {
        copy_src: mentions(names, "COPY_SRC"@),
        copy_dst: mentions(names, "COPY_DST"@),
        texture_binding: mentions(names, "TEXTURE_BINDING"@),
        storage_binding: mentions(names, "STORAGE_BINDING"@),
        render_attachment: mentions(names, "RENDER_ATTACHMENT"@),
    }
}

/// Whether no usage is set.
pub open spec fn usages_empty(u: UsagesModel) -> bool {
    !u.copy_src && !u.copy_dst && !u.texture_binding && !u.storage_binding && !u.render_attachment
}

/// The usages that a render texture attachment gets when it names none.
pub open spec fn default_attachment_usages() -> UsagesModel {
    UsagesModel {
        copy_src: false,
        copy_dst: false,
        texture_binding: true,
        storage_binding: false,
        render_attachment: true,
    }
}

/// The usages named by `names`, or render-attachment and texture-binding
/// use where they name none that is known.
pub open spec fn usages_of(names: Seq<Seq<char>>) -> UsagesModel {
    let u = listed_usages(names);
    if usages_empty(u) {
        default_attachment_usages()
    } else {
        u
    }
}

/// A texture is never created without a usage: where the names list none
/// that is known, it gets render-attachment and texture-binding use; and
/// every known name that is listed is granted.
pub proof fn lemma_usages_never_empty(names: Seq<Seq<char>>)
    ensures
        !usages_empty(usages_of(names)),
        mentions(names, "COPY_SRC"@) ==> usages_of(names).copy_src,
        mentions(names, "COPY_DST"@) ==> usages_of(names).copy_dst,
        mentions(names, "TEXTURE_BINDING"@) ==> usages_of(names).texture_binding,
        mentions(names, "STORAGE_BINDING"@) ==> usages_of(names).storage_binding,
        mentions(names, "RENDER_ATTACHMENT"@) ==> usages_of(names).render_attachment,
{
}

/// The view of a list of strings: their characters.
pub open spec fn names_view(v: Seq<String>) -> Seq<Seq<char>> {
    Seq::new(v.len(), |i: int| v[i]@)
}

proof fn lemma_mentions_push(pre: Seq<Seq<char>>, x: Seq<char>, n: Seq<char>)
    ensures
        mentions(pre.push(x), n) == (mentions(pre, n) || x == n),
{
    let post = pre.push(x);
    if mentions(post, n) {
        let k = choose|k: int| 0 <= k < post.len() && #[trigger] post[k] == n;
        if k < pre.len() {
            assert(pre[k] == n);
        }
    }
    if mentions(pre, n) {
        let k = choose|k: int| 0 <= k < pre.len() && #[trigger] pre[k] == n;
        assert(post[k] == n);
    }
    if x == n {
        assert(post[pre.len() as int] == n);
    }
}

/// The usages that `usages` name (see `usages_of`).
pub fn parse_texture_usages(usages: &[String]) -> (r: UsagesModel)
    ensures
        r == usages_of(names_view(usages@)),
{
    let ghost names = names_view(usages@);
    let mut r = UsagesModel {
        copy_src: false,
        copy_dst: false,
        texture_binding: false,
        storage_binding: false,
        render_attachment: false,
    };
    let mut i: usize = 0;
    while i < usages.len()
        invariant
            i <= usages@.len(),
            names == names_view(usages@),
            r == listed_usages(names.subrange(0, i as int)),
        decreases usages@.len() - i,
    {
        let u = usages[i].as_str();
        let ghost pre = names.subrange(0, i as int);
        proof {
            assert(names.subrange(0, i + 1) =~= pre.push(names[i as int]));
            lemma_mentions_push(pre, names[i as int], "COPY_SRC"@);
            lemma_mentions_push(pre, names[i as int], "COPY_DST"@);
            lemma_mentions_push(pre, names[i as int], "TEXTURE_BINDING"@);
            lemma_mentions_push(pre, names[i as int], "STORAGE_BINDING"@);
            lemma_mentions_push(pre, names[i as int], "RENDER_ATTACHMENT"@);
        }
        if str_eq(u, "COPY_SRC") {
            r.copy_src = true;
        } else if str_eq(u, "COPY_DST") {
            r.copy_dst = true;
        } else if str_eq(u, "TEXTURE_BINDING") {
            r.texture_binding = true;
        } else if str_eq(u, "STORAGE_BINDING") {
            r.storage_binding = true;
        } else if str_eq(u, "RENDER_ATTACHMENT") {
            r.render_attachment = true;
        }
        proof {
            assert(names[i as int] == u@);
            reveal_strlit("COPY_SRC");
            reveal_strlit("COPY_DST");
            reveal_strlit("TEXTURE_BINDING");
            reveal_strlit("STORAGE_BINDING");
            reveal_strlit("RENDER_ATTACHMENT");
            assert("COPY_SRC"@[5] != "COPY_DST"@[5]);
            assert("TEXTURE_BINDING"@[0] != "STORAGE_BINDING"@[0]);
        }
        i = i + 1;
    }
    proof {
        assert(names.subrange(0, usages@.len() as int) =~= names);
    }
    if !r.copy_src && !r.copy_dst && !r.texture_binding && !r.storage_binding
        && !r.render_attachment {
        r = UsagesModel {
            copy_src: false,
            copy_dst: false,
            texture_binding: true,
            storage_binding: false,
            render_attachment: true,
        };
    }
    r
}

/// Block size of an ASTC-compressed format.
#[derive(Clone, Copy, Debug, PartialEq, Eq)]
pub enum AstcBlockModel {
    B4x4,
    B5x4,
    B5x5,
    B6x5,
    B6x6,
    B8x5,
    B8x6,
    B8x8,
    B10x5,
    B10x6,
    B10x8,
    B10x10,
    B12x10,
    B12x12,
}

/// Channel encoding of an ASTC-compressed format.
#[derive(Clone, Copy, Debug, PartialEq, Eq)]
pub enum AstcChannelModel {
    Unorm,
    UnormSrgb,
    Hdr,
}

/// A texture format.
#[derive(Clone, Copy, Debug, PartialEq, Eq)]
pub enum TextureFormatModel {
    R8Unorm,
    R8Snorm,
    R8Uint,
    R8Sint,
    R16Uint,
    R16Sint,
    R16Unorm,
    R16Snorm,
    R16Float,
    Rg8Unorm,
    Rg8Snorm,
    Rg8Uint,
    Rg8Sint,
    R32Uint,
    R32Sint,
    R32Float,
    Rg16Uint,
    Rg16Sint,
    Rg16Unorm,
    Rg16Snorm,
    Rg16Float,
    Rgba8Unorm,
    Rgba8UnormSrgb,
    Rgba8Snorm,
    Rgba8Uint,
    Rgba8Sint,
    Bgra8Unorm,
    Bgra8UnormSrgb,
    Rgb10a2Unorm,
    Rgb10a2Uint,
    Rg32Uint,
    Rg32Sint,
    Rg32Float,
    Rgba16Uint,
    Rgba16Sint,
    Rgba16Unorm,
    Rgba16Snorm,
    Rgba16Float,
    Rgba32Uint,
    Rgba32Sint,
    Rgba32Float,
    Depth16Unorm,
    Depth24Plus,
    Depth24PlusStencil8,
    Depth32Float,
    Depth32FloatStencil8,
    Stencil8,
    Bc1RgbaUnorm,
    Bc1RgbaUnormSrgb,
    Bc2RgbaUnorm,
    Bc2RgbaUnormSrgb,
    Bc3RgbaUnorm,
    Bc3RgbaUnormSrgb,
    Bc4RUnorm,
    Bc4RSnorm,
    Bc5RgUnorm,
    Bc5RgSnorm,
    Bc6hRgbUfloat,
    Bc7RgbaUnorm,
    Bc7RgbaUnormSrgb,
    Etc2Rgb8Unorm,
    Etc2Rgb8UnormSrgb,
    Etc2Rgb8A1Unorm,
    Etc2Rgb8A1UnormSrgb,
    Etc2Rgba8Unorm,
    Etc2Rgba8UnormSrgb,
    EacR11Unorm,
    EacR11Snorm,
    EacRg11Unorm,
    EacRg11Snorm,
    Astc { block: AstcBlockModel, channel: AstcChannelModel },
}

/// The format named `s` among the formats that are not ASTC; the fallback
/// format `Bgra8UnormSrgb` for a name that is not known.
pub open spec fn named_format(s: Seq<char>) -> TextureFormatModel {
    if s == "R8Unorm"@ {
        TextureFormatModel::R8Unorm
    } else if s == "R8Snorm"@ {
        TextureFormatModel::R8Snorm
    } else if s == "R8Uint"@ {
        TextureFormatModel::R8Uint
    } else if s == "R8Sint"@ {
        TextureFormatModel::R8Sint
    } else if s == "R16Uint"@ {
        TextureFormatModel::R16Uint
    } else if s == "R16Sint"@ {
        TextureFormatModel::R16Sint
    } else if s == "R16Unorm"@ {
        TextureFormatModel::R16Unorm
    } else if s == "R16Snorm"@ {
        TextureFormatModel::R16Snorm
    } else if s == "R16Float"@ {
        TextureFormatModel::R16Float
    } else if s == "Rg8Unorm"@ {
        TextureFormatModel::Rg8Unorm
    } else if s == "Rg8Snorm"@ {
        TextureFormatModel::Rg8Snorm
    } else if s == "Rg8Uint"@ {
        TextureFormatModel::Rg8Uint
    } else if s == "Rg8Sint"@ {
        TextureFormatModel::Rg8Sint
    } else if s == "R32Uint"@ {
        TextureFormatModel::R32Uint
    } else if s == "R32Sint"@ {
        TextureFormatModel::R32Sint
    } else if s == "R32Float"@ {
        TextureFormatModel::R32Float
    } else if s == "Rg16Uint"@ {
        TextureFormatModel::Rg16Uint
    } else if s == "Rg16Sint"@ {
        TextureFormatModel::Rg16Sint
    } else if s == "Rg16Unorm"@ {
        TextureFormatModel::Rg16Unorm
    } else if s == "Rg16Snorm"@ {
        TextureFormatModel::Rg16Snorm
    } else if s == "Rg16Float"@ {
        TextureFormatModel::Rg16Float
    } else if s == "Rgba8Unorm"@ {
        TextureFormatModel::Rgba8Unorm
    } else if s == "Rgba8UnormSrgb"@ {
        TextureFormatModel::Rgba8UnormSrgb
    } else if s == "Rgba8Snorm"@ {
        TextureFormatModel::Rgba8Snorm
    } else if s == "Rgba8Uint"@ {
        TextureFormatModel::Rgba8Uint
    } else if s == "Rgba8Sint"@ {
        TextureFormatModel::Rgba8Sint
    } else if s == "Bgra8Unorm"@ {
        TextureFormatModel::Bgra8Unorm
    } else if s == "Bgra8UnormSrgb"@ {
        TextureFormatModel::Bgra8UnormSrgb
    } else if s == "Rgb10a2Unorm"@ {
        TextureFormatModel::Rgb10a2Unorm
    } else if s == "Rgb10a2Uint"@ {
        TextureFormatModel::Rgb10a2Uint
    } else if s == "Rg32Uint"@ {
        TextureFormatModel::Rg32Uint
    } else if s == "Rg32Sint"@ {
        TextureFormatModel::Rg32Sint
    } else if s == "Rg32Float"@ {
        TextureFormatModel::Rg32Float
    } else if s == "Rgba16Uint"@ {
        TextureFormatModel::Rgba16Uint
    } else if s == "Rgba16Sint"@ {
        TextureFormatModel::Rgba16Sint
    } else if s == "Rgba16Unorm"@ {
        TextureFormatModel::Rgba16Unorm
    } else if s == "Rgba16Snorm"@ {
        TextureFormatModel::Rgba16Snorm
    } else if s == "Rgba16Float"@ {
        TextureFormatModel::Rgba16Float
    } else if s == "Rgba32Uint"@ {
        TextureFormatModel::Rgba32Uint
    } else if s == "Rgba32Sint"@ {
        TextureFormatModel::Rgba32Sint
    } else if s == "Rgba32Float"@ {
        TextureFormatModel::Rgba32Float
    } else if s == "Depth16Unorm"@ {
        TextureFormatModel::Depth16Unorm
    } else if s == "Depth24Plus"@ {
        TextureFormatModel::Depth24Plus
    } else if s == "Depth24PlusStencil8"@ {
        TextureFormatModel::Depth24PlusStencil8
    } else if s == "Depth32Float"@ {
        TextureFormatModel::Depth32Float
    } else if s == "Depth32FloatStencil8"@ {
        TextureFormatModel::Depth32FloatStencil8
    } else if s == "Stencil8"@ {
        TextureFormatModel::Stencil8
    } else if s == "Bc1RgbaUnorm"@ {
        TextureFormatModel::Bc1RgbaUnorm
    } else if s == "Bc1RgbaUnormSrgb"@ {
        TextureFormatModel::Bc1RgbaUnormSrgb
    } else if s == "Bc2RgbaUnorm"@ {
        TextureFormatModel::Bc2RgbaUnorm
    } else if s == "Bc2RgbaUnormSrgb"@ {
        TextureFormatModel::Bc2RgbaUnormSrgb
    } else if s == "Bc3RgbaUnorm"@ {
        TextureFormatModel::Bc3RgbaUnorm
    } else if s == "Bc3RgbaUnormSrgb"@ {
        TextureFormatModel::Bc3RgbaUnormSrgb
    } else if s == "Bc4RUnorm"@ {
        TextureFormatModel::Bc4RUnorm
    } else if s == "Bc4RSnorm"@ {
        TextureFormatModel::Bc4RSnorm
    } else if s == "Bc5RgUnorm"@ {
        TextureFormatModel::Bc5RgUnorm
    } else if s == "Bc5RgSnorm"@ {
        TextureFormatModel::Bc5RgSnorm
    } else if s == "Bc6hRgbUfloat"@ {
        TextureFormatModel::Bc6hRgbUfloat
    } else if s == "Bc7RgbaUnorm"@ {
        TextureFormatModel::Bc7RgbaUnorm
    } else if s == "Bc7RgbaUnormSrgb"@ {
        TextureFormatModel::Bc7RgbaUnormSrgb
    } else if s == "Etc2Rgb8Unorm"@ {
        TextureFormatModel::Etc2Rgb8Unorm
    } else if s == "Etc2Rgb8UnormSrgb"@ {
        TextureFormatModel::Etc2Rgb8UnormSrgb
    } else if s == "Etc2Rgb8A1Unorm"@ {
        TextureFormatModel::Etc2Rgb8A1Unorm
    } else if s == "Etc2Rgb8A1UnormSrgb"@ {
        TextureFormatModel::Etc2Rgb8A1UnormSrgb
    } else if s == "Etc2Rgba8Unorm"@ {
        TextureFormatModel::Etc2Rgba8Unorm
    } else if s == "Etc2Rgba8UnormSrgb"@ {
        TextureFormatModel::Etc2Rgba8UnormSrgb
    } else if s == "EacR11Unorm"@ {
        TextureFormatModel::EacR11Unorm
    } else if s == "EacR11Snorm"@ {
        TextureFormatModel::EacR11Snorm
    } else if s == "EacRg11Unorm"@ {
        TextureFormatModel::EacRg11Unorm
    } else if s == "EacRg11Snorm"@ {
        TextureFormatModel::EacRg11Snorm
    } else {
        TextureFormatModel::Bgra8UnormSrgb
    }
}

/// The ASTC block size that `r` begins with, and the length of its
/// spelling; the sizes are tried in a fixed order.
pub open spec fn astc_block_of(r: Seq<char>) -> Option<(AstcBlockModel, int)> {
    if starts_with(r, "4x4"@) {
        Some((AstcBlockModel::B4x4, "4x4"@.len() as int))
    } else if starts_with(r, "5x4"@) {
        Some((AstcBlockModel::B5x4, "5x4"@.len() as int))
    } else if starts_with(r, "5x5"@) {
        Some((AstcBlockModel::B5x5, "5x5"@.len() as int))
    } else if starts_with(r, "6x5"@) {
        Some((AstcBlockModel::B6x5, "6x5"@.len() as int))
    } else if starts_with(r, "6x6"@) {
        Some((AstcBlockModel::B6x6, "6x6"@.len() as int))
    } else if starts_with(r, "8x5"@) {
        Some((AstcBlockModel::B8x5, "8x5"@.len() as int))
    } else if starts_with(r, "8x6"@) {
        Some((AstcBlockModel::B8x6, "8x6"@.len() as int))
    } else if starts_with(r, "8x8"@) {
        Some((AstcBlockModel::B8x8, "8x8"@.len() as int))
    } else if starts_with(r, "10x5"@) {
        Some((AstcBlockModel::B10x5, "10x5"@.len() as int))
    } else if starts_with(r, "10x6"@) {
        Some((AstcBlockModel::B10x6, "10x6"@.len() as int))
    } else if starts_with(r, "10x8"@) {
        Some((AstcBlockModel::B10x8, "10x8"@.len() as int))
    } else if starts_with(r, "10x10"@) {
        Some((AstcBlockModel::B10x10, "10x10"@.len() as int))
    } else if starts_with(r, "12x10"@) {
        Some((AstcBlockModel::B12x10, "12x10"@.len() as int))
    } else if starts_with(r, "12x12"@) {
        Some((AstcBlockModel::B12x12, "12x12"@.len() as int))
    } else {
        None
    }
}

/// The ASTC channel encoding spelled exactly `c`.
pub open spec fn astc_channel_of(c: Seq<char>) -> Option<AstcChannelModel> {
    if c == "RgbaUnorm"@ {
        Some(AstcChannelModel::Unorm)
    } else if c == "RgbaUnormSrgb"@ {
        Some(AstcChannelModel::UnormSrgb)
    } else if c == "RgbaHdr"@ {
        Some(AstcChannelModel::Hdr)
    } else {
        None
    }
}

/// The ASTC format spelled `r` after the `Astc` prefix: a block size, then
/// a channel encoding; the fallback format where either is not known.
pub open spec fn astc_format(r: Seq<char>) -> TextureFormatModel {
    match astc_block_of(r) {
        Some((block, n)) => match astc_channel_of(r.subrange(n, r.len() as int)) {
            Some(channel) => TextureFormatModel::Astc { block, channel },
            None => TextureFormatModel::Bgra8UnormSrgb,
        },
        None => TextureFormatModel::Bgra8UnormSrgb,
    }
}

/// The texture format spelled `s`.
pub open spec fn texture_format_of(s: Seq<char>) -> TextureFormatModel {
    if starts_with(s, "Astc"@) {
        astc_format(s.subrange("Astc"@.len() as int, s.len() as int))
    } else {
        named_format(s)
    }
}

fn named_format_exec(s: &str) -> (f: TextureFormatModel)
    ensures
        f == named_format(s@),
{
    if str_eq(s, "R8Unorm") {
        TextureFormatModel::R8Unorm
    } else if str_eq(s, "R8Snorm") {
        TextureFormatModel::R8Snorm
    } else if str_eq(s, "R8Uint") {
        TextureFormatModel::R8Uint
    } else if str_eq(s, "R8Sint") {
        TextureFormatModel::R8Sint
    } else if str_eq(s, "R16Uint") {
        TextureFormatModel::R16Uint
    } else if str_eq(s, "R16Sint") {
        TextureFormatModel::R16Sint
    } else if str_eq(s, "R16Unorm") {
        TextureFormatModel::R16Unorm
    } else if str_eq(s, "R16Snorm") {
        TextureFormatModel::R16Snorm
    } else if str_eq(s, "R16Float") {
        TextureFormatModel::R16Float
    } else if str_eq(s, "Rg8Unorm") {
        TextureFormatModel::Rg8Unorm
    } else if str_eq(s, "Rg8Snorm") {
        TextureFormatModel::Rg8Snorm
    } else if str_eq(s, "Rg8Uint") {
        TextureFormatModel::Rg8Uint
    } else if str_eq(s, "Rg8Sint") {
        TextureFormatModel::Rg8Sint
    } else if str_eq(s, "R32Uint") {
        TextureFormatModel::R32Uint
    } else if str_eq(s, "R32Sint") {
        TextureFormatModel::R32Sint
    } else if str_eq(s, "R32Float") {
        TextureFormatModel::R32Float
    } else if str_eq(s, "Rg16Uint") {
        TextureFormatModel::Rg16Uint
    } else if str_eq(s, "Rg16Sint") {
        TextureFormatModel::Rg16Sint
    } else if str_eq(s, "Rg16Unorm") {
        TextureFormatModel::Rg16Unorm
    } else if str_eq(s, "Rg16Snorm") {
        TextureFormatModel::Rg16Snorm
    } else if str_eq(s, "Rg16Float") {
        TextureFormatModel::Rg16Float
    } else if str_eq(s, "Rgba8Unorm") {
        TextureFormatModel::Rgba8Unorm
    } else if str_eq(s, "Rgba8UnormSrgb") {
        TextureFormatModel::Rgba8UnormSrgb
    } else if str_eq(s, "Rgba8Snorm") {
        TextureFormatModel::Rgba8Snorm
    } else if str_eq(s, "Rgba8Uint") {
        TextureFormatModel::Rgba8Uint
    } else if str_eq(s, "Rgba8Sint") {
        TextureFormatModel::Rgba8Sint
    } else if str_eq(s, "Bgra8Unorm") {
        TextureFormatModel::Bgra8Unorm
    } else if str_eq(s, "Bgra8UnormSrgb") {
        TextureFormatModel::Bgra8UnormSrgb
    } else if str_eq(s, "Rgb10a2Unorm") {
        TextureFormatModel::Rgb10a2Unorm
    } else if str_eq(s, "Rgb10a2Uint") {
        TextureFormatModel::Rgb10a2Uint
    } else if str_eq(s, "Rg32Uint") {
        TextureFormatModel::Rg32Uint
    } else if str_eq(s, "Rg32Sint") {
        TextureFormatModel::Rg32Sint
    } else if str_eq(s, "Rg32Float") {
        TextureFormatModel::Rg32Float
    } else if str_eq(s, "Rgba16Uint") {
        TextureFormatModel::Rgba16Uint
    } else if str_eq(s, "Rgba16Sint") {
        TextureFormatModel::Rgba16Sint
    } else if str_eq(s, "Rgba16Unorm") {
        TextureFormatModel::Rgba16Unorm
    } else if str_eq(s, "Rgba16Snorm") {
        TextureFormatModel::Rgba16Snorm
    } else if str_eq(s, "Rgba16Float") {
        TextureFormatModel::Rgba16Float
    } else if str_eq(s, "Rgba32Uint") {
        TextureFormatModel::Rgba32Uint
    } else if str_eq(s, "Rgba32Sint") {
        TextureFormatModel::Rgba32Sint
    } else if str_eq(s, "Rgba32Float") {
        TextureFormatModel::Rgba32Float
    } else if str_eq(s, "Depth16Unorm") {
        TextureFormatModel::Depth16Unorm
    } else if str_eq(s, "Depth24Plus") {
        TextureFormatModel::Depth24Plus
    } else if str_eq(s, "Depth24PlusStencil8") {
        TextureFormatModel::Depth24PlusStencil8
    } else if str_eq(s, "Depth32Float") {
        TextureFormatModel::Depth32Float
    } else if str_eq(s, "Depth32FloatStencil8") {
        TextureFormatModel::Depth32FloatStencil8
    } else if str_eq(s, "Stencil8") {
        TextureFormatModel::Stencil8
    } else if str_eq(s, "Bc1RgbaUnorm") {
        TextureFormatModel::Bc1RgbaUnorm
    } else if str_eq(s, "Bc1RgbaUnormSrgb") {
        TextureFormatModel::Bc1RgbaUnormSrgb
    } else if str_eq(s, "Bc2RgbaUnorm") {
        TextureFormatModel::Bc2RgbaUnorm
    } else if str_eq(s, "Bc2RgbaUnormSrgb") {
        TextureFormatModel::Bc2RgbaUnormSrgb
    } else if str_eq(s, "Bc3RgbaUnorm") {
        TextureFormatModel::Bc3RgbaUnorm
    } else if str_eq(s, "Bc3RgbaUnormSrgb") {
        TextureFormatModel::Bc3RgbaUnormSrgb
    } else if str_eq(s, "Bc4RUnorm") {
        TextureFormatModel::Bc4RUnorm
    } else if str_eq(s, "Bc4RSnorm") {
        TextureFormatModel::Bc4RSnorm
    } else if str_eq(s, "Bc5RgUnorm") {
        TextureFormatModel::Bc5RgUnorm
    } else if str_eq(s, "Bc5RgSnorm") {
        TextureFormatModel::Bc5RgSnorm
    } else if str_eq(s, "Bc6hRgbUfloat") {
        TextureFormatModel::Bc6hRgbUfloat
    } else if str_eq(s, "Bc7RgbaUnorm") {
        TextureFormatModel::Bc7RgbaUnorm
    } else if str_eq(s, "Bc7RgbaUnormSrgb") {
        TextureFormatModel::Bc7RgbaUnormSrgb
    } else if str_eq(s, "Etc2Rgb8Unorm") {
        TextureFormatModel::Etc2Rgb8Unorm
    } else if str_eq(s, "Etc2Rgb8UnormSrgb") {
        TextureFormatModel::Etc2Rgb8UnormSrgb
    } else if str_eq(s, "Etc2Rgb8A1Unorm") {
        TextureFormatModel::Etc2Rgb8A1Unorm
    } else if str_eq(s, "Etc2Rgb8A1UnormSrgb") {
        TextureFormatModel::Etc2Rgb8A1UnormSrgb
    } else if str_eq(s, "Etc2Rgba8Unorm") {
        TextureFormatModel::Etc2Rgba8Unorm
    } else if str_eq(s, "Etc2Rgba8UnormSrgb") {
        TextureFormatModel::Etc2Rgba8UnormSrgb
    } else if str_eq(s, "EacR11Unorm") {
        TextureFormatModel::EacR11Unorm
    } else if str_eq(s, "EacR11Snorm") {
        TextureFormatModel::EacR11Snorm
    } else if str_eq(s, "EacRg11Unorm") {
        TextureFormatModel::EacRg11Unorm
    } else if str_eq(s, "EacRg11Snorm") {
        TextureFormatModel::EacRg11Snorm
    } else {
        TextureFormatModel::Bgra8UnormSrgb
    }
}

fn astc_block_exec(r: &Vec<char>) -> (b: Option<(AstcBlockModel, usize)>)
    ensures
        match astc_block_of(r@) {
            Some((block, n)) => b matches Some((bb, nn)) && bb == block && nn == n,
            None => b is None,
        },
        b matches Some((_, n)) ==> n <= r@.len(),
{
    if chars_start_with(r, "4x4") {
        Some((AstcBlockModel::B4x4, "4x4".unicode_len()))
    } else if chars_start_with(r, "5x4") {
        Some((AstcBlockModel::B5x4, "5x4".unicode_len()))
    } else if chars_start_with(r, "5x5") {
        Some((AstcBlockModel::B5x5, "5x5".unicode_len()))
    } else if chars_start_with(r, "6x5") {
        Some((AstcBlockModel::B6x5, "6x5".unicode_len()))
    } else if chars_start_with(r, "6x6") {
        Some((AstcBlockModel::B6x6, "6x6".unicode_len()))
    } else if chars_start_with(r, "8x5") {
        Some((AstcBlockModel::B8x5, "8x5".unicode_len()))
    } else if chars_start_with(r, "8x6") {
        Some((AstcBlockModel::B8x6, "8x6".unicode_len()))
    } else if chars_start_with(r, "8x8") {
        Some((AstcBlockModel::B8x8, "8x8".unicode_len()))
    } else if chars_start_with(r, "10x5") {
        Some((AstcBlockModel::B10x5, "10x5".unicode_len()))
    } else if chars_start_with(r, "10x6") {
        Some((AstcBlockModel::B10x6, "10x6".unicode_len()))
    } else if chars_start_with(r, "10x8") {
        Some((AstcBlockModel::B10x8, "10x8".unicode_len()))
    } else if chars_start_with(r, "10x10") {
        Some((AstcBlockModel::B10x10, "10x10".unicode_len()))
    } else if chars_start_with(r, "12x10") {
        Some((AstcBlockModel::B12x10, "12x10".unicode_len()))
    } else if chars_start_with(r, "12x12") {
        Some((AstcBlockModel::B12x12, "12x12".unicode_len()))
    } else {
        None
    }
}

fn astc_channel_exec(c: &Vec<char>) -> (r: Option<AstcChannelModel>)
    ensures
        r == astc_channel_of(c@),
{
    let s = crate::text::string_of_range(c, 0, c.len());
    proof {
        assert(c@.subrange(0, c@.len() as int) =~= c@);
    }
    if str_eq(s.as_str(), "RgbaUnorm") {
        Some(AstcChannelModel::Unorm)
    } else if str_eq(s.as_str(), "RgbaUnormSrgb") {
        Some(AstcChannelModel::UnormSrgb)
    } else if str_eq(s.as_str(), "RgbaHdr") {
        Some(AstcChannelModel::Hdr)
    } else {
        None
    }
}

/// The texture format spelled `s`: an ASTC format spelled as `Astc`, a
/// block size such as `6x6` and a channel encoding such as `RgbaUnorm`, or
/// one of the other formats by its name; `Bgra8UnormSrgb` for text that
/// names no format.
pub fn str_to_texture_format(s: &str) -> (f: TextureFormatModel)
    ensures
        f == texture_format_of(s@),
{
    let mut v = chars_of(s);
    if chars_start_with(&v, "Astc") {
        let n = "Astc".unicode_len();
        let r = v.split_off(n);
        match astc_block_exec(&r) {
            Some((block, k)) => {
                let mut rr = r;
                let c = rr.split_off(k);
                match astc_channel_exec(&c) {
                    Some(channel) => TextureFormatModel::Astc { block, channel },
                    None => TextureFormatModel::Bgra8UnormSrgb,
                }
            },
            None => TextureFormatModel::Bgra8UnormSrgb,
        }
    } else {
        named_format_exec(s)
    }
}

/// One color attachment of a render texture description file.
#[derive(Clone, Debug)]
pub struct RenderTextureTextureEdit {
    pub format: String,
    pub usage: Vec<String>,
}

/// A render texture description file.
#[derive(Clone, Debug)]
pub struct RenderTextureEdit {
    pub width: u32,
    pub height: u32,
    pub format: String,
    pub color_attachments: Vec<RenderTextureTextureEdit>,
    pub depth_format: Option<String>,
}

/// Format and usages of a texture to create.
#[derive(Clone, Copy, Debug, PartialEq, Eq)]
pub struct AttachmentPlan {
    pub format: TextureFormatModel,
    pub usage: UsagesModel,
}

/// The textures that a render texture description asks for: all of
/// `width` by `height`, one per color attachment and one for depth where a
/// depth format is given.
#[derive(Clone, Debug)]
pub struct RenderTexturePlan {
    pub width: u32,
    pub height: u32,
    pub attachments: Vec<AttachmentPlan>,
    pub depth: Option<AttachmentPlan>,
}

/// The texture that a color attachment description asks for.
pub open spec fn attachment_plan_of(e: RenderTextureTextureEdit) -> AttachmentPlan {
    AttachmentPlan { format: texture_format_of(e.format@), usage: usages_of(names_view(e.usage@)) }
}

/// Whether `plan` is what the description `edit` asks for: the size is
/// kept, each color attachment is read in order, and the depth texture, if
/// any, has the named format and render-attachment and texture-binding use.
pub open spec fn is_plan_of(plan: RenderTexturePlan, edit: RenderTextureEdit) -> bool {
    &&& plan.width == edit.width
    &&& plan.height == edit.height
    &&& plan.attachments@.len() == edit.color_attachments@.len()
    &&& forall|i: int|
        0 <= i < plan.attachments@.len() ==> #[trigger] plan.attachments@[i] == attachment_plan_of(
            edit.color_attachments@[i],
        )
    &&& match edit.depth_format {
        Some(d) => plan.depth == Some(
            AttachmentPlan { format: texture_format_of(d@), usage: default_attachment_usages() },
        ),
        None => plan.depth is None,
    }
}

/// The textures that the render texture description `edit` asks for.
pub fn render_texture_plan(edit: &RenderTextureEdit) -> (plan: RenderTexturePlan)
    ensures
        is_plan_of(plan, *edit),
{
    let mut attachments: Vec<AttachmentPlan> = Vec::new();
    let mut i: usize = 0;
    while i < edit.color_attachments.len()
        invariant
            i <= edit.color_attachments@.len(),
            attachments@.len() == i,
            forall|k: int|
                0 <= k < i ==> #[trigger] attachments@[k] == attachment_plan_of(
                    edit.color_attachments@[k],
                ),
        decreases edit.color_attachments@.len() - i,
    {
        let a = &edit.color_attachments[i];
        let format = str_to_texture_format(a.format.as_str());
        let usage = parse_texture_usages(a.usage.as_slice());
        attachments.push(AttachmentPlan { format, usage });
        i = i + 1;
    }
    let depth = match &edit.depth_format {
        Some(d) => Some(
            AttachmentPlan {
                format: str_to_texture_format(d.as_str()),
                usage: UsagesModel {
                    copy_src: false,
                    copy_dst: false,
                    texture_binding: true,
                    storage_binding: false,
                    render_attachment: true,
                },
            },
        ),
        None => None,
    };
    RenderTexturePlan { width: edit.width, height: edit.height, attachments, depth }
}

/// The name of a format other than ASTC, as settings files spell it.
pub open spec fn format_name(f: TextureFormatModel) -> Seq<char> {
    match f {
        TextureFormatModel::R8Sint => "R8Sint"@,
        TextureFormatModel::R8Uint => "R8Uint"@,
        TextureFormatModel::R8Snorm => "R8Snorm"@,
        TextureFormatModel::R8Unorm => "R8Unorm"@,
        TextureFormatModel::R32Sint => "R32Sint"@,
        TextureFormatModel::R16Sint => "R16Sint"@,
        TextureFormatModel::Rg8Sint => "Rg8Sint"@,
        TextureFormatModel::R32Uint => "R32Uint"@,
        TextureFormatModel::R16Uint => "R16Uint"@,
        TextureFormatModel::Rg8Uint => "Rg8Uint"@,
        TextureFormatModel::Stencil8 => "Stencil8"@,
        TextureFormatModel::R16Snorm => "R16Snorm"@,
        TextureFormatModel::Rg8Snorm => "Rg8Snorm"@,
        TextureFormatModel::R16Unorm => "R16Unorm"@,
        TextureFormatModel::Rg8Unorm => "Rg8Unorm"@,
        TextureFormatModel::R32Float => "R32Float"@,
        TextureFormatModel::R16Float => "R16Float"@,
        TextureFormatModel::Rg32Sint => "Rg32Sint"@,
        TextureFormatModel::Rg16Sint => "Rg16Sint"@,
        TextureFormatModel::Rg32Uint => "Rg32Uint"@,
        TextureFormatModel::Rg16Uint => "Rg16Uint"@,
        TextureFormatModel::Rg16Snorm => "Rg16Snorm"@,
        TextureFormatModel::Bc4RSnorm => "Bc4RSnorm"@,
        TextureFormatModel::Rg16Unorm => "Rg16Unorm"@,
        TextureFormatModel::Bc4RUnorm => "Bc4RUnorm"@,
        TextureFormatModel::Rg32Float => "Rg32Float"@,
        TextureFormatModel::Rg16Float => "Rg16Float"@,
        TextureFormatModel::Rgba8Sint => "Rgba8Sint"@,
        TextureFormatModel::Rgba8Uint => "Rgba8Uint"@,
        TextureFormatModel::Rgba8Snorm => "Rgba8Snorm"@,
        TextureFormatModel::Bc5RgSnorm => "Bc5RgSnorm"@,
        TextureFormatModel::Rgba8Unorm => "Rgba8Unorm"@,
        TextureFormatModel::Bgra8Unorm => "Bgra8Unorm"@,
        TextureFormatModel::Bc5RgUnorm => "Bc5RgUnorm"@,
        TextureFormatModel::Rgba32Sint => "Rgba32Sint"@,
        TextureFormatModel::Rgba16Sint => "Rgba16Sint"@,
        TextureFormatModel::Rgba32Uint => "Rgba32Uint"@,
        TextureFormatModel::Rgba16Uint => "Rgba16Uint"@,
        TextureFormatModel::EacR11Snorm => "EacR11Snorm"@,
        TextureFormatModel::Rgba16Snorm => "Rgba16Snorm"@,
        TextureFormatModel::EacR11Unorm => "EacR11Unorm"@,
        TextureFormatModel::Rgba16Unorm => "Rgba16Unorm"@,
        TextureFormatModel::Depth24Plus => "Depth24Plus"@,
        TextureFormatModel::Rgba32Float => "Rgba32Float"@,
        TextureFormatModel::Rgba16Float => "Rgba16Float"@,
        TextureFormatModel::Rgb10a2Uint => "Rgb10a2Uint"@,
        TextureFormatModel::EacRg11Snorm => "EacRg11Snorm"@,
        TextureFormatModel::EacRg11Unorm => "EacRg11Unorm"@,
        TextureFormatModel::Rgb10a2Unorm => "Rgb10a2Unorm"@,
        TextureFormatModel::Depth16Unorm => "Depth16Unorm"@,
        TextureFormatModel::Bc1RgbaUnorm => "Bc1RgbaUnorm"@,
        TextureFormatModel::Bc2RgbaUnorm => "Bc2RgbaUnorm"@,
        TextureFormatModel::Bc3RgbaUnorm => "Bc3RgbaUnorm"@,
        TextureFormatModel::Bc7RgbaUnorm => "Bc7RgbaUnorm"@,
        TextureFormatModel::Depth32Float => "Depth32Float"@,
        TextureFormatModel::Etc2Rgb8Unorm => "Etc2Rgb8Unorm"@,
        TextureFormatModel::Bc6hRgbUfloat => "Bc6hRgbUfloat"@,
        TextureFormatModel::Rgba8UnormSrgb => "Rgba8UnormSrgb"@,
        TextureFormatModel::Bgra8UnormSrgb => "Bgra8UnormSrgb"@,
        TextureFormatModel::Etc2Rgba8Unorm => "Etc2Rgba8Unorm"@,
        TextureFormatModel::Etc2Rgb8A1Unorm => "Etc2Rgb8A1Unorm"@,
        TextureFormatModel::Bc1RgbaUnormSrgb => "Bc1RgbaUnormSrgb"@,
        TextureFormatModel::Bc2RgbaUnormSrgb => "Bc2RgbaUnormSrgb"@,
        TextureFormatModel::Bc3RgbaUnormSrgb => "Bc3RgbaUnormSrgb"@,
        TextureFormatModel::Bc7RgbaUnormSrgb => "Bc7RgbaUnormSrgb"@,
        TextureFormatModel::Etc2Rgb8UnormSrgb => "Etc2Rgb8UnormSrgb"@,
        TextureFormatModel::Etc2Rgba8UnormSrgb => "Etc2Rgba8UnormSrgb"@,
        TextureFormatModel::Depth24PlusStencil8 => "Depth24PlusStencil8"@,
        TextureFormatModel::Etc2Rgb8A1UnormSrgb => "Etc2Rgb8A1UnormSrgb"@,
        TextureFormatModel::Depth32FloatStencil8 => "Depth32FloatStencil8"@,
        TextureFormatModel::Astc { .. } => "Astc"@,
    }
}

/// A format other than ASTC is read from its own name: the format that
/// the name of `f` spells has that same name, so no name is read as
/// another format.
pub proof fn lemma_format_read_from_name(f: TextureFormatModel)
    requires
        !(f is Astc),
    ensures
        format_name(named_format(format_name(f))) == format_name(f),
        !starts_with(format_name(f), "Astc"@) ==> format_name(texture_format_of(format_name(f)))
            == format_name(f),
{
    match f {
        TextureFormatModel::Bc1RgbaUnorm => {},
        TextureFormatModel::Bc1RgbaUnormSrgb => {},
        TextureFormatModel::Bc2RgbaUnorm => {},
        TextureFormatModel::Bc2RgbaUnormSrgb => {},
        TextureFormatModel::Bc3RgbaUnorm => {},
        TextureFormatModel::Bc3RgbaUnormSrgb => {},
        TextureFormatModel::Bc4RSnorm => {},
        TextureFormatModel::Bc4RUnorm => {},
        TextureFormatModel::Bc5RgSnorm => {},
        TextureFormatModel::Bc5RgUnorm => {},
        TextureFormatModel::Bc6hRgbUfloat => {},
        TextureFormatModel::Bc7RgbaUnorm => {},
        TextureFormatModel::Bc7RgbaUnormSrgb => {},
        TextureFormatModel::Bgra8Unorm => {},
        TextureFormatModel::Bgra8UnormSrgb => {},
        TextureFormatModel::Depth16Unorm => {},
        TextureFormatModel::Depth24Plus => {},
        TextureFormatModel::Depth24PlusStencil8 => {},
        TextureFormatModel::Depth32Float => {},
        TextureFormatModel::Depth32FloatStencil8 => {},
        TextureFormatModel::EacR11Snorm => {},
        TextureFormatModel::EacR11Unorm => {},
        TextureFormatModel::EacRg11Snorm => {},
        TextureFormatModel::EacRg11Unorm => {},
        TextureFormatModel::Etc2Rgb8A1Unorm => {},
        TextureFormatModel::Etc2Rgb8A1UnormSrgb => {},
        TextureFormatModel::Etc2Rgb8Unorm => {},
        TextureFormatModel::Etc2Rgb8UnormSrgb => {},
        TextureFormatModel::Etc2Rgba8Unorm => {},
        TextureFormatModel::Etc2Rgba8UnormSrgb => {},
        TextureFormatModel::R16Float => {},
        TextureFormatModel::R16Sint => {},
        TextureFormatModel::R16Snorm => {},
        TextureFormatModel::R16Uint => {},
        TextureFormatModel::R16Unorm => {},
        TextureFormatModel::R32Float => {},
        TextureFormatModel::R32Sint => {},
        TextureFormatModel::R32Uint => {},
        TextureFormatModel::R8Sint => {},
        TextureFormatModel::R8Snorm => {},
        TextureFormatModel::R8Uint => {},
        TextureFormatModel::R8Unorm => {},
        TextureFormatModel::Rg16Float => {},
        TextureFormatModel::Rg16Sint => {},
        TextureFormatModel::Rg16Snorm => {},
        TextureFormatModel::Rg16Uint => {},
        TextureFormatModel::Rg16Unorm => {},
        TextureFormatModel::Rg32Float => {},
        TextureFormatModel::Rg32Sint => {},
        TextureFormatModel::Rg32Uint => {},
        TextureFormatModel::Rg8Sint => {},
        TextureFormatModel::Rg8Snorm => {},
        TextureFormatModel::Rg8Uint => {},
        TextureFormatModel::Rg8Unorm => {},
        TextureFormatModel::Rgb10a2Uint => {},
        TextureFormatModel::Rgb10a2Unorm => {},
        TextureFormatModel::Rgba16Float => {},
        TextureFormatModel::Rgba16Sint => {},
        TextureFormatModel::Rgba16Snorm => {},
        TextureFormatModel::Rgba16Uint => {},
        TextureFormatModel::Rgba16Unorm => {},
        TextureFormatModel::Rgba32Float => {},
        TextureFormatModel::Rgba32Sint => {},
        TextureFormatModel::Rgba32Uint => {},
        TextureFormatModel::Rgba8Sint => {},
        TextureFormatModel::Rgba8Snorm => {},
        TextureFormatModel::Rgba8Uint => {},
        TextureFormatModel::Rgba8Unorm => {},
        TextureFormatModel::Rgba8UnormSrgb => {},
        TextureFormatModel::Stencil8 => {},
        TextureFormatModel::Astc { .. } => {},
    }
}

/// The spelling of an ASTC block size in a format name.
pub open spec fn astc_block_name(b: AstcBlockModel) -> Seq<char> {
    match b {
        AstcBlockModel::B4x4 => "4x4"@,
        AstcBlockModel::B5x4 => "5x4"@,
        AstcBlockModel::B5x5 => "5x5"@,
        AstcBlockModel::B6x5 => "6x5"@,
        AstcBlockModel::B6x6 => "6x6"@,
        AstcBlockModel::B8x5 => "8x5"@,
        AstcBlockModel::B8x6 => "8x6"@,
        AstcBlockModel::B8x8 => "8x8"@,
        AstcBlockModel::B10x5 => "10x5"@,
        AstcBlockModel::B10x6 => "10x6"@,
        AstcBlockModel::B10x8 => "10x8"@,
        AstcBlockModel::B10x10 => "10x10"@,
        AstcBlockModel::B12x10 => "12x10"@,
        AstcBlockModel::B12x12 => "12x12"@,
    }
}

/// The spelling of an ASTC channel encoding in a format name.
pub open spec fn astc_channel_name(c: AstcChannelModel) -> Seq<char> {
    match c {
        AstcChannelModel::Unorm => "RgbaUnorm"@,
        AstcChannelModel::UnormSrgb => "RgbaUnormSrgb"@,
        AstcChannelModel::Hdr => "RgbaHdr"@,
    }
}

proof fn lemma_astc_channel_names(c: AstcChannelModel)
    ensures
        astc_channel_of(astc_channel_name(c)) == Some(c),
{
    reveal_strlit("RgbaUnorm");
    reveal_strlit("RgbaUnormSrgb");
    reveal_strlit("RgbaHdr");
    assert("RgbaUnormSrgb"@.len() != "RgbaUnorm"@.len());
    assert("RgbaHdr"@.len() != "RgbaUnorm"@.len());
    assert("RgbaHdr"@.len() != "RgbaUnormSrgb"@.len());
}

proof fn lemma_astc_block_4_by_4(rest: Seq<char>)
    ensures
        astc_block_of("4x4"@ + rest) == Some((AstcBlockModel::B4x4, "4x4"@.len() as int)),
{
    reveal_strlit("4x4");
    reveal_strlit("5x4");
    reveal_strlit("5x5");
    reveal_strlit("6x5");
    reveal_strlit("6x6");
    reveal_strlit("8x5");
    reveal_strlit("8x6");
    reveal_strlit("8x8");
    reveal_strlit("10x5");
    reveal_strlit("10x6");
    reveal_strlit("10x8");
    reveal_strlit("10x10");
    reveal_strlit("12x10");
    reveal_strlit("12x12");
    let s = "4x4"@ + rest;
    assert(forall|k: int| 0 <= k < "4x4"@.len() ==> s[k] == "4x4"@[k]);

    assert(s.subrange(0, "4x4"@.len() as int) =~= "4x4"@);
}

proof fn lemma_astc_block_5_by_4(rest: Seq<char>)
    ensures
        astc_block_of("5x4"@ + rest) == Some((AstcBlockModel::B5x4, "5x4"@.len() as int)),
{
    reveal_strlit("4x4");
    reveal_strlit("5x4");
    reveal_strlit("5x5");
    reveal_strlit("6x5");
    reveal_strlit("6x6");
    reveal_strlit("8x5");
    reveal_strlit("8x6");
    reveal_strlit("8x8");
    reveal_strlit("10x5");
    reveal_strlit("10x6");
    reveal_strlit("10x8");
    reveal_strlit("10x10");
    reveal_strlit("12x10");
    reveal_strlit("12x12");
    let s = "5x4"@ + rest;
    assert(forall|k: int| 0 <= k < "5x4"@.len() ==> s[k] == "5x4"@[k]);
    assert(!starts_with(s, "4x4"@)) by {
        if "4x4"@.len() <= s.len() {
            assert(s.subrange(0, "4x4"@.len() as int)[0] == s[0]);
        }
    }
    assert(s.subrange(0, "5x4"@.len() as int) =~= "5x4"@);
}

proof fn lemma_astc_block_5_by_5(rest: Seq<char>)
    ensures
        astc_block_of("5x5"@ + rest) == Some((AstcBlockModel::B5x5, "5x5"@.len() as int)),
{
    reveal_strlit("4x4");
    reveal_strlit("5x4");
    reveal_strlit("5x5");
    reveal_strlit("6x5");
    reveal_strlit("6x6");
    reveal_strlit("8x5");
    reveal_strlit("8x6");
    reveal_strlit("8x8");
    reveal_strlit("10x5");
    reveal_strlit("10x6");
    reveal_strlit("10x8");
    reveal_strlit("10x10");
    reveal_strlit("12x10");
    reveal_strlit("12x12");
    let s = "5x5"@ + rest;
    assert(forall|k: int| 0 <= k < "5x5"@.len() ==> s[k] == "5x5"@[k]);
    assert(!starts_with(s, "4x4"@)) by {
        if "4x4"@.len() <= s.len() {
            assert(s.subrange(0, "4x4"@.len() as int)[0] == s[0]);
        }
    }
    assert(!starts_with(s, "5x4"@)) by {
        if "5x4"@.len() <= s.len() {
            assert(s.subrange(0, "5x4"@.len() as int)[2] == s[2]);
        }
    }
    assert(s.subrange(0, "5x5"@.len() as int) =~= "5x5"@);
}

proof fn lemma_astc_block_6_by_5(rest: Seq<char>)
    ensures
        astc_block_of("6x5"@ + rest) == Some((AstcBlockModel::B6x5, "6x5"@.len() as int)),
{
    reveal_strlit("4x4");
    reveal_strlit("5x4");
    reveal_strlit("5x5");
    reveal_strlit("6x5");
    reveal_strlit("6x6");
    reveal_strlit("8x5");
    reveal_strlit("8x6");
    reveal_strlit("8x8");
    reveal_strlit("10x5");
    reveal_strlit("10x6");
    reveal_strlit("10x8");
    reveal_strlit("10x10");
    reveal_strlit("12x10");
    reveal_strlit("12x12");
    let s = "6x5"@ + rest;
    assert(forall|k: int| 0 <= k < "6x5"@.len() ==> s[k] == "6x5"@[k]);
    assert(!starts_with(s, "4x4"@)) by {
        if "4x4"@.len() <= s.len() {
            assert(s.subrange(0, "4x4"@.len() as int)[0] == s[0]);
        }
    }
    assert(!starts_with(s, "5x4"@)) by {
        if "5x4"@.len() <= s.len() {
            assert(s.subrange(0, "5x4"@.len() as int)[0] == s[0]);
        }
    }
    assert(!starts_with(s, "5x5"@)) by {
        if "5x5"@.len() <= s.len() {
            assert(s.subrange(0, "5x5"@.len() as int)[0] == s[0]);
        }
    }
    assert(s.subrange(0, "6x5"@.len() as int) =~= "6x5"@);
}

proof fn lemma_astc_block_6_by_6(rest: Seq<char>)
    ensures
        astc_block_of("6x6"@ + rest) == Some((AstcBlockModel::B6x6, "6x6"@.len() as int)),
{
    reveal_strlit("4x4");
    reveal_strlit("5x4");
    reveal_strlit("5x5");
    reveal_strlit("6x5");
    reveal_strlit("6x6");
    reveal_strlit("8x5");
    reveal_strlit("8x6");
    reveal_strlit("8x8");
    reveal_strlit("10x5");
    reveal_strlit("10x6");
    reveal_strlit("10x8");
    reveal_strlit("10x10");
    reveal_strlit("12x10");
    reveal_strlit("12x12");
    let s = "6x6"@ + rest;
    assert(forall|k: int| 0 <= k < "6x6"@.len() ==> s[k] == "6x6"@[k]);
    assert(!starts_with(s, "4x4"@)) by {
        if "4x4"@.len() <= s.len() {
            assert(s.subrange(0, "4x4"@.len() as int)[0] == s[0]);
        }
    }
    assert(!starts_with(s, "5x4"@)) by {
        if "5x4"@.len() <= s.len() {
            assert(s.subrange(0, "5x4"@.len() as int)[0] == s[0]);
        }
    }
    assert(!starts_with(s, "5x5"@)) by {
        if "5x5"@.len() <= s.len() {
            assert(s.subrange(0, "5x5"@.len() as int)[0] == s[0]);
        }
    }
    assert(!starts_with(s, "6x5"@)) by {
        if "6x5"@.len() <= s.len() {
            assert(s.subrange(0, "6x5"@.len() as int)[2] == s[2]);
        }
    }
    assert(s.subrange(0, "6x6"@.len() as int) =~= "6x6"@);
}

proof fn lemma_astc_block_8_by_5(rest: Seq<char>)
    ensures
        astc_block_of("8x5"@ + rest) == Some((AstcBlockModel::B8x5, "8x5"@.len() as int)),
{
    reveal_strlit("4x4");
    reveal_strlit("5x4");
    reveal_strlit("5x5");
    reveal_strlit("6x5");
    reveal_strlit("6x6");
    reveal_strlit("8x5");
    reveal_strlit("8x6");
    reveal_strlit("8x8");
    reveal_strlit("10x5");
    reveal_strlit("10x6");
    reveal_strlit("10x8");
    reveal_strlit("10x10");
    reveal_strlit("12x10");
    reveal_strlit("12x12");
    let s = "8x5"@ + rest;
    assert(forall|k: int| 0 <= k < "8x5"@.len() ==> s[k] == "8x5"@[k]);
    assert(!starts_with(s, "4x4"@)) by {
        if "4x4"@.len() <= s.len() {
            assert(s.subrange(0, "4x4"@.len() as int)[0] == s[0]);
        }
    }
    assert(!starts_with(s, "5x4"@)) by {
        if "5x4"@.len() <= s.len() {
            assert(s.subrange(0, "5x4"@.len() as int)[0] == s[0]);
        }
    }
    assert(!starts_with(s, "5x5"@)) by {
        if "5x5"@.len() <= s.len() {
            assert(s.subrange(0, "5x5"@.len() as int)[0] == s[0]);
        }
    }
    assert(!starts_with(s, "6x5"@)) by {
        if "6x5"@.len() <= s.len() {
            assert(s.subrange(0, "6x5"@.len() as int)[0] == s[0]);
        }
    }
    assert(!starts_with(s, "6x6"@)) by {
        if "6x6"@.len() <= s.len() {
            assert(s.subrange(0, "6x6"@.len() as int)[0] == s[0]);
        }
    }
    assert(s.subrange(0, "8x5"@.len() as int) =~= "8x5"@);
}

proof fn lemma_astc_block_8_by_6(rest: Seq<char>)
    ensures
        astc_block_of("8x6"@ + rest) == Some((AstcBlockModel::B8x6, "8x6"@.len() as int)),
{
    reveal_strlit("4x4");
    reveal_strlit("5x4");
    reveal_strlit("5x5");
    reveal_strlit("6x5");
    reveal_strlit("6x6");
    reveal_strlit("8x5");
    reveal_strlit("8x6");
    reveal_strlit("8x8");
    reveal_strlit("10x5");
    reveal_strlit("10x6");
    reveal_strlit("10x8");
    reveal_strlit("10x10");
    reveal_strlit("12x10");
    reveal_strlit("12x12");
    let s = "8x6"@ + rest;
    assert(forall|k: int| 0 <= k < "8x6"@.len() ==> s[k] == "8x6"@[k]);
    assert(!starts_with(s, "4x4"@)) by {
        if "4x4"@.len() <= s.len() {
            assert(s.subrange(0, "4x4"@.len() as int)[0] == s[0]);
        }
    }
    assert(!starts_with(s, "5x4"@)) by {
        if "5x4"@.len() <= s.len() {
            assert(s.subrange(0, "5x4"@.len() as int)[0] == s[0]);
        }
    }
    assert(!starts_with(s, "5x5"@)) by {
        if "5x5"@.len() <= s.len() {
            assert(s.subrange(0, "5x5"@.len() as int)[0] == s[0]);
        }
    }
    assert(!starts_with(s, "6x5"@)) by {
        if "6x5"@.len() <= s.len() {
            assert(s.subrange(0, "6x5"@.len() as int)[0] == s[0]);
        }
    }
    assert(!starts_with(s, "6x6"@)) by {
        if "6x6"@.len() <= s.len() {
            assert(s.subrange(0, "6x6"@.len() as int)[0] == s[0]);
        }
    }
    assert(!starts_with(s, "8x5"@)) by {
        if "8x5"@.len() <= s.len() {
            assert(s.subrange(0, "8x5"@.len() as int)[2] == s[2]);
        }
    }
    assert(s.subrange(0, "8x6"@.len() as int) =~= "8x6"@);
}

proof fn lemma_astc_block_8_by_8(rest: Seq<char>)
    ensures
        astc_block_of("8x8"@ + rest) == Some((AstcBlockModel::B8x8, "8x8"@.len() as int)),
{
    reveal_strlit("4x4");
    reveal_strlit("5x4");
    reveal_strlit("5x5");
    reveal_strlit("6x5");
    reveal_strlit("6x6");
    reveal_strlit("8x5");
    reveal_strlit("8x6");
    reveal_strlit("8x8");
    reveal_strlit("10x5");
    reveal_strlit("10x6");
    reveal_strlit("10x8");
    reveal_strlit("10x10");
    reveal_strlit("12x10");
    reveal_strlit("12x12");
    let s = "8x8"@ + rest;
    assert(forall|k: int| 0 <= k < "8x8"@.len() ==> s[k] == "8x8"@[k]);
    assert(!starts_with(s, "4x4"@)) by {
        if "4x4"@.len() <= s.len() {
            assert(s.subrange(0, "4x4"@.len() as int)[0] == s[0]);
        }
    }
    assert(!starts_with(s, "5x4"@)) by {
        if "5x4"@.len() <= s.len() {
            assert(s.subrange(0, "5x4"@.len() as int)[0] == s[0]);
        }
    }
    assert(!starts_with(s, "5x5"@)) by {
        if "5x5"@.len() <= s.len() {
            assert(s.subrange(0, "5x5"@.len() as int)[0] == s[0]);
        }
    }
    assert(!starts_with(s, "6x5"@)) by {
        if "6x5"@.len() <= s.len() {
            assert(s.subrange(0, "6x5"@.len() as int)[0] == s[0]);
        }
    }
    assert(!starts_with(s, "6x6"@)) by {
        if "6x6"@.len() <= s.len() {
            assert(s.subrange(0, "6x6"@.len() as int)[0] == s[0]);
        }
    }
    assert(!starts_with(s, "8x5"@)) by {
        if "8x5"@.len() <= s.len() {
            assert(s.subrange(0, "8x5"@.len() as int)[2] == s[2]);
        }
    }
    assert(!starts_with(s, "8x6"@)) by {
        if "8x6"@.len() <= s.len() {
            assert(s.subrange(0, "8x6"@.len() as int)[2] == s[2]);
        }
    }
    assert(s.subrange(0, "8x8"@.len() as int) =~= "8x8"@);
}

proof fn lemma_astc_block_10_by_5(rest: Seq<char>)
    ensures
        astc_block_of("10x5"@ + rest) == Some((AstcBlockModel::B10x5, "10x5"@.len() as int)),
{
    reveal_strlit("4x4");
    reveal_strlit("5x4");
    reveal_strlit("5x5");
    reveal_strlit("6x5");
    reveal_strlit("6x6");
    reveal_strlit("8x5");
    reveal_strlit("8x6");
    reveal_strlit("8x8");
    reveal_strlit("10x5");
    reveal_strlit("10x6");
    reveal_strlit("10x8");
    reveal_strlit("10x10");
    reveal_strlit("12x10");
    reveal_strlit("12x12");
    let s = "10x5"@ + rest;
    assert(forall|k: int| 0 <= k < "10x5"@.len() ==> s[k] == "10x5"@[k]);
    assert(!starts_with(s, "4x4"@)) by {
        if "4x4"@.len() <= s.len() {
            assert(s.subrange(0, "4x4"@.len() as int)[0] == s[0]);
        }
    }
    assert(!starts_with(s, "5x4"@)) by {
        if "5x4"@.len() <= s.len() {
            assert(s.subrange(0, "5x4"@.len() as int)[0] == s[0]);
        }
    }
    assert(!starts_with(s, "5x5"@)) by {
        if "5x5"@.len() <= s.len() {
            assert(s.subrange(0, "5x5"@.len() as int)[0] == s[0]);
        }
    }
    assert(!starts_with(s, "6x5"@)) by {
        if "6x5"@.len() <= s.len() {
            assert(s.subrange(0, "6x5"@.len() as int)[0] == s[0]);
        }
    }
    assert(!starts_with(s, "6x6"@)) by {
        if "6x6"@.len() <= s.len() {
            assert(s.subrange(0, "6x6"@.len() as int)[0] == s[0]);
        }
    }
    assert(!starts_with(s, "8x5"@)) by {
        if "8x5"@.len() <= s.len() {
            assert(s.subrange(0, "8x5"@.len() as int)[0] == s[0]);
        }
    }
    assert(!starts_with(s, "8x6"@)) by {
        if "8x6"@.len() <= s.len() {
            assert(s.subrange(0, "8x6"@.len() as int)[0] == s[0]);
        }
    }
    assert(!starts_with(s, "8x8"@)) by {
        if "8x8"@.len() <= s.len() {
            assert(s.subrange(0, "8x8"@.len() as int)[0] == s[0]);
        }
    }
    assert(s.subrange(0, "10x5"@.len() as int) =~= "10x5"@);
}

proof fn lemma_astc_block_10_by_6(rest: Seq<char>)
    ensures
        astc_block_of("10x6"@ + rest) == Some((AstcBlockModel::B10x6, "10x6"@.len() as int)),
{
    reveal_strlit("4x4");
    reveal_strlit("5x4");
    reveal_strlit("5x5");
    reveal_strlit("6x5");
    reveal_strlit("6x6");
    reveal_strlit("8x5");
    reveal_strlit("8x6");
    reveal_strlit("8x8");
    reveal_strlit("10x5");
    reveal_strlit("10x6");
    reveal_strlit("10x8");
    reveal_strlit("10x10");
    reveal_strlit("12x10");
    reveal_strlit("12x12");
    let s = "10x6"@ + rest;
    assert(forall|k: int| 0 <= k < "10x6"@.len() ==> s[k] == "10x6"@[k]);
    assert(!starts_with(s, "4x4"@)) by {
        if "4x4"@.len() <= s.len() {
            assert(s.subrange(0, "4x4"@.len() as int)[0] == s[0]);
        }
    }
    assert(!starts_with(s, "5x4"@)) by {
        if "5x4"@.len() <= s.len() {
            assert(s.subrange(0, "5x4"@.len() as int)[0] == s[0]);
        }
    }
    assert(!starts_with(s, "5x5"@)) by {
        if "5x5"@.len() <= s.len() {
            assert(s.subrange(0, "5x5"@.len() as int)[0] == s[0]);
        }
    }
    assert(!starts_with(s, "6x5"@)) by {
        if "6x5"@.len() <= s.len() {
            assert(s.subrange(0, "6x5"@.len() as int)[0] == s[0]);
        }
    }
    assert(!starts_with(s, "6x6"@)) by {
        if "6x6"@.len() <= s.len() {
            assert(s.subrange(0, "6x6"@.len() as int)[0] == s[0]);
        }
    }
    assert(!starts_with(s, "8x5"@)) by {
        if "8x5"@.len() <= s.len() {
            assert(s.subrange(0, "8x5"@.len() as int)[0] == s[0]);
        }
    }
    assert(!starts_with(s, "8x6"@)) by {
        if "8x6"@.len() <= s.len() {
            assert(s.subrange(0, "8x6"@.len() as int)[0] == s[0]);
        }
    }
    assert(!starts_with(s, "8x8"@)) by {
        if "8x8"@.len() <= s.len() {
            assert(s.subrange(0, "8x8"@.len() as int)[0] == s[0]);
        }
    }
    assert(!starts_with(s, "10x5"@)) by {
        if "10x5"@.len() <= s.len() {
            assert(s.subrange(0, "10x5"@.len() as int)[3] == s[3]);
        }
    }
    assert(s.subrange(0, "10x6"@.len() as int) =~= "10x6"@);
}

proof fn lemma_astc_block_10_by_8(rest: Seq<char>)
    ensures
        astc_block_of("10x8"@ + rest) == Some((AstcBlockModel::B10x8, "10x8"@.len() as int)),
{
    reveal_strlit("4x4");
    reveal_strlit("5x4");
    reveal_strlit("5x5");
    reveal_strlit("6x5");
    reveal_strlit("6x6");
    reveal_strlit("8x5");
    reveal_strlit("8x6");
    reveal_strlit("8x8");
    reveal_strlit("10x5");
    reveal_strlit("10x6");
    reveal_strlit("10x8");
    reveal_strlit("10x10");
    reveal_strlit("12x10");
    reveal_strlit("12x12");
    let s = "10x8"@ + rest;
    assert(forall|k: int| 0 <= k < "10x8"@.len() ==> s[k] == "10x8"@[k]);
    assert(!starts_with(s, "4x4"@)) by {
        if "4x4"@.len() <= s.len() {
            assert(s.subrange(0, "4x4"@.len() as int)[0] == s[0]);
        }
    }
    assert(!starts_with(s, "5x4"@)) by {
        if "5x4"@.len() <= s.len() {
            assert(s.subrange(0, "5x4"@.len() as int)[0] == s[0]);
        }
    }
    assert(!starts_with(s, "5x5"@)) by {
        if "5x5"@.len() <= s.len() {
            assert(s.subrange(0, "5x5"@.len() as int)[0] == s[0]);
        }
    }
    assert(!starts_with(s, "6x5"@)) by {
        if "6x5"@.len() <= s.len() {
            assert(s.subrange(0, "6x5"@.len() as int)[0] == s[0]);
        }
    }
    assert(!starts_with(s, "6x6"@)) by {
        if "6x6"@.len() <= s.len() {
            assert(s.subrange(0, "6x6"@.len() as int)[0] == s[0]);
        }
    }
    assert(!starts_with(s, "8x5"@)) by {
        if "8x5"@.len() <= s.len() {
            assert(s.subrange(0, "8x5"@.len() as int)[0] == s[0]);
        }
    }
    assert(!starts_with(s, "8x6"@)) by {
        if "8x6"@.len() <= s.len() {
            assert(s.subrange(0, "8x6"@.len() as int)[0] == s[0]);
        }
    }
    assert(!starts_with(s, "8x8"@)) by {
        if "8x8"@.len() <= s.len() {
            assert(s.subrange(0, "8x8"@.len() as int)[0] == s[0]);
        }
    }
    assert(!starts_with(s, "10x5"@)) by {
        if "10x5"@.len() <= s.len() {
            assert(s.subrange(0, "10x5"@.len() as int)[3] == s[3]);
        }
    }
    assert(!starts_with(s, "10x6"@)) by {
        if "10x6"@.len() <= s.len() {
            assert(s.subrange(0, "10x6"@.len() as int)[3] == s[3]);
        }
    }
    assert(s.subrange(0, "10x8"@.len() as int) =~= "10x8"@);
}

proof fn lemma_astc_block_10_by_10(rest: Seq<char>)
    ensures
        astc_block_of("10x10"@ + rest) == Some((AstcBlockModel::B10x10, "10x10"@.len() as int)),
{
    reveal_strlit("4x4");
    reveal_strlit("5x4");
    reveal_strlit("5x5");
    reveal_strlit("6x5");
    reveal_strlit("6x6");
    reveal_strlit("8x5");
    reveal_strlit("8x6");
    reveal_strlit("8x8");
    reveal_strlit("10x5");
    reveal_strlit("10x6");
    reveal_strlit("10x8");
    reveal_strlit("10x10");
    reveal_strlit("12x10");
    reveal_strlit("12x12");
    let s = "10x10"@ + rest;
    assert(forall|k: int| 0 <= k < "10x10"@.len() ==> s[k] == "10x10"@[k]);
    assert(!starts_with(s, "4x4"@)) by {
        if "4x4"@.len() <= s.len() {
            assert(s.subrange(0, "4x4"@.len() as int)[0] == s[0]);
        }
    }
    assert(!starts_with(s, "5x4"@)) by {
        if "5x4"@.len() <= s.len() {
            assert(s.subrange(0, "5x4"@.len() as int)[0] == s[0]);
        }
    }
    assert(!starts_with(s, "5x5"@)) by {
        if "5x5"@.len() <= s.len() {
            assert(s.subrange(0, "5x5"@.len() as int)[0] == s[0]);
        }
    }
    assert(!starts_with(s, "6x5"@)) by {
        if "6x5"@.len() <= s.len() {
            assert(s.subrange(0, "6x5"@.len() as int)[0] == s[0]);
        }
    }
    assert(!starts_with(s, "6x6"@)) by {
        if "6x6"@.len() <= s.len() {
            assert(s.subrange(0, "6x6"@.len() as int)[0] == s[0]);
        }
    }
    assert(!starts_with(s, "8x5"@)) by {
        if "8x5"@.len() <= s.len() {
            assert(s.subrange(0, "8x5"@.len() as int)[0] == s[0]);
        }
    }
    assert(!starts_with(s, "8x6"@)) by {
        if "8x6"@.len() <= s.len() {
            assert(s.subrange(0, "8x6"@.len() as int)[0] == s[0]);
        }
    }
    assert(!starts_with(s, "8x8"@)) by {
        if "8x8"@.len() <= s.len() {
            assert(s.subrange(0, "8x8"@.len() as int)[0] == s[0]);
        }
    }
    assert(!starts_with(s, "10x5"@)) by {
        if "10x5"@.len() <= s.len() {
            assert(s.subrange(0, "10x5"@.len() as int)[3] == s[3]);
        }
    }
    assert(!starts_with(s, "10x6"@)) by {
        if "10x6"@.len() <= s.len() {
            assert(s.subrange(0, "10x6"@.len() as int)[3] == s[3]);
        }
    }
    assert(!starts_with(s, "10x8"@)) by {
        if "10x8"@.len() <= s.len() {
            assert(s.subrange(0, "10x8"@.len() as int)[3] == s[3]);
        }
    }
    assert(s.subrange(0, "10x10"@.len() as int) =~= "10x10"@);
}

proof fn lemma_astc_block_12_by_10(rest: Seq<char>)
    ensures
        astc_block_of("12x10"@ + rest) == Some((AstcBlockModel::B12x10, "12x10"@.len() as int)),
{
    reveal_strlit("4x4");
    reveal_strlit("5x4");
    reveal_strlit("5x5");
    reveal_strlit("6x5");
    reveal_strlit("6x6");
    reveal_strlit("8x5");
    reveal_strlit("8x6");
    reveal_strlit("8x8");
    reveal_strlit("10x5");
    reveal_strlit("10x6");
    reveal_strlit("10x8");
    reveal_strlit("10x10");
    reveal_strlit("12x10");
    reveal_strlit("12x12");
    let s = "12x10"@ + rest;
    assert(forall|k: int| 0 <= k < "12x10"@.len() ==> s[k] == "12x10"@[k]);
    assert(!starts_with(s, "4x4"@)) by {
        if "4x4"@.len() <= s.len() {
            assert(s.subrange(0, "4x4"@.len() as int)[0] == s[0]);
        }
    }
    assert(!starts_with(s, "5x4"@)) by {
        if "5x4"@.len() <= s.len() {
            assert(s.subrange(0, "5x4"@.len() as int)[0] == s[0]);
        }
    }
    assert(!starts_with(s, "5x5"@)) by {
        if "5x5"@.len() <= s.len() {
            assert(s.subrange(0, "5x5"@.len() as int)[0] == s[0]);
        }
    }
    assert(!starts_with(s, "6x5"@)) by {
        if "6x5"@.len() <= s.len() {
            assert(s.subrange(0, "6x5"@.len() as int)[0] == s[0]);
        }
    }
    assert(!starts_with(s, "6x6"@)) by {
        if "6x6"@.len() <= s.len() {
            assert(s.subrange(0, "6x6"@.len() as int)[0] == s[0]);
        }
    }
    assert(!starts_with(s, "8x5"@)) by {
        if "8x5"@.len() <= s.len() {
            assert(s.subrange(0, "8x5"@.len() as int)[0] == s[0]);
        }
    }
    assert(!starts_with(s, "8x6"@)) by {
        if "8x6"@.len() <= s.len() {
            assert(s.subrange(0, "8x6"@.len() as int)[0] == s[0]);
        }
    }
    assert(!starts_with(s, "8x8"@)) by {
        if "8x8"@.len() <= s.len() {
            assert(s.subrange(0, "8x8"@.len() as int)[0] == s[0]);
        }
    }
    assert(!starts_with(s, "10x5"@)) by {
        if "10x5"@.len() <= s.len() {
            assert(s.subrange(0, "10x5"@.len() as int)[1] == s[1]);
        }
    }
    assert(!starts_with(s, "10x6"@)) by {
        if "10x6"@.len() <= s.len() {
            assert(s.subrange(0, "10x6"@.len() as int)[1] == s[1]);
        }
    }
    assert(!starts_with(s, "10x8"@)) by {
        if "10x8"@.len() <= s.len() {
            assert(s.subrange(0, "10x8"@.len() as int)[1] == s[1]);
        }
    }
    assert(!starts_with(s, "10x10"@)) by {
        if "10x10"@.len() <= s.len() {
            assert(s.subrange(0, "10x10"@.len() as int)[1] == s[1]);
        }
    }
    assert(s.subrange(0, "12x10"@.len() as int) =~= "12x10"@);
}

proof fn lemma_astc_block_12_by_12(rest: Seq<char>)
    ensures
        astc_block_of("12x12"@ + rest) == Some((AstcBlockModel::B12x12, "12x12"@.len() as int)),
{
    reveal_strlit("4x4");
    reveal_strlit("5x4");
    reveal_strlit("5x5");
    reveal_strlit("6x5");
    reveal_strlit("6x6");
    reveal_strlit("8x5");
    reveal_strlit("8x6");
    reveal_strlit("8x8");
    reveal_strlit("10x5");
    reveal_strlit("10x6");
    reveal_strlit("10x8");
    reveal_strlit("10x10");
    reveal_strlit("12x10");
    reveal_strlit("12x12");
    let s = "12x12"@ + rest;
    assert(forall|k: int| 0 <= k < "12x12"@.len() ==> s[k] == "12x12"@[k]);
    assert(!starts_with(s, "4x4"@)) by {
        if "4x4"@.len() <= s.len() {
            assert(s.subrange(0, "4x4"@.len() as int)[0] == s[0]);
        }
    }
    assert(!starts_with(s, "5x4"@)) by {
        if "5x4"@.len() <= s.len() {
            assert(s.subrange(0, "5x4"@.len() as int)[0] == s[0]);
        }
    }
    assert(!starts_with(s, "5x5"@)) by {
        if "5x5"@.len() <= s.len() {
            assert(s.subrange(0, "5x5"@.len() as int)[0] == s[0]);
        }
    }
    assert(!starts_with(s, "6x5"@)) by {
        if "6x5"@.len() <= s.len() {
            assert(s.subrange(0, "6x5"@.len() as int)[0] == s[0]);
        }
    }
    assert(!starts_with(s, "6x6"@)) by {
        if "6x6"@.len() <= s.len() {
            assert(s.subrange(0, "6x6"@.len() as int)[0] == s[0]);
        }
    }
    assert(!starts_with(s, "8x5"@)) by {
        if "8x5"@.len() <= s.len() {
            assert(s.subrange(0, "8x5"@.len() as int)[0] == s[0]);
        }
    }
    assert(!starts_with(s, "8x6"@)) by {
        if "8x6"@.len() <= s.len() {
            assert(s.subrange(0, "8x6"@.len() as int)[0] == s[0]);
        }
    }
    assert(!starts_with(s, "8x8"@)) by {
        if "8x8"@.len() <= s.len() {
            assert(s.subrange(0, "8x8"@.len() as int)[0] == s[0]);
        }
    }
    assert(!starts_with(s, "10x5"@)) by {
        if "10x5"@.len() <= s.len() {
            assert(s.subrange(0, "10x5"@.len() as int)[1] == s[1]);
        }
    }
    assert(!starts_with(s, "10x6"@)) by {
        if "10x6"@.len() <= s.len() {
            assert(s.subrange(0, "10x6"@.len() as int)[1] == s[1]);
        }
    }
    assert(!starts_with(s, "10x8"@)) by {
        if "10x8"@.len() <= s.len() {
            assert(s.subrange(0, "10x8"@.len() as int)[1] == s[1]);
        }
    }
    assert(!starts_with(s, "10x10"@)) by {
        if "10x10"@.len() <= s.len() {
            assert(s.subrange(0, "10x10"@.len() as int)[1] == s[1]);
        }
    }
    assert(!starts_with(s, "12x10"@)) by {
        if "12x10"@.len() <= s.len() {
            assert(s.subrange(0, "12x10"@.len() as int)[4] == s[4]);
        }
    }
    assert(s.subrange(0, "12x12"@.len() as int) =~= "12x12"@);
}

/// Every ASTC format is read from its name: `Astc`, the spelling of its
/// block size, then that of its channel encoding.
pub proof fn lemma_astc_names_round_trip(b: AstcBlockModel, c: AstcChannelModel)
    ensures
        texture_format_of("Astc"@ + astc_block_name(b) + astc_channel_name(c)) == (TextureFormatModel::Astc {
            block: b,
            channel: c,
        }),
{
    reveal_strlit("Astc");
    let bn = astc_block_name(b);
    let cn = astc_channel_name(c);
    let s = "Astc"@ + bn + cn;
    match b {
        AstcBlockModel::B4x4 => lemma_astc_block_4_by_4(astc_channel_name(c)),
        AstcBlockModel::B5x4 => lemma_astc_block_5_by_4(astc_channel_name(c)),
        AstcBlockModel::B5x5 => lemma_astc_block_5_by_5(astc_channel_name(c)),
        AstcBlockModel::B6x5 => lemma_astc_block_6_by_5(astc_channel_name(c)),
        AstcBlockModel::B6x6 => lemma_astc_block_6_by_6(astc_channel_name(c)),
        AstcBlockModel::B8x5 => lemma_astc_block_8_by_5(astc_channel_name(c)),
        AstcBlockModel::B8x6 => lemma_astc_block_8_by_6(astc_channel_name(c)),
        AstcBlockModel::B8x8 => lemma_astc_block_8_by_8(astc_channel_name(c)),
        AstcBlockModel::B10x5 => lemma_astc_block_10_by_5(astc_channel_name(c)),
        AstcBlockModel::B10x6 => lemma_astc_block_10_by_6(astc_channel_name(c)),
        AstcBlockModel::B10x8 => lemma_astc_block_10_by_8(astc_channel_name(c)),
        AstcBlockModel::B10x10 => lemma_astc_block_10_by_10(astc_channel_name(c)),
        AstcBlockModel::B12x10 => lemma_astc_block_12_by_10(astc_channel_name(c)),
        AstcBlockModel::B12x12 => lemma_astc_block_12_by_12(astc_channel_name(c)),
    }
    lemma_astc_channel_names(c);
    assert(s.subrange(0, 4) =~= "Astc"@);
    assert(s.subrange(4, s.len() as int) =~= bn + cn);
    assert((bn + cn).subrange(bn.len() as int, (bn + cn).len() as int) =~= cn);
}

/// Text that does not start with `Astc` and is no format's name reads as
/// the fallback format `Bgra8UnormSrgb`.
pub proof fn lemma_unknown_format_name(s: Seq<char>)
    requires
        !starts_with(s, "Astc"@),
        forall|f: TextureFormatModel| !(f is Astc) ==> s != format_name(f),
    ensures
        texture_format_of(s) == TextureFormatModel::Bgra8UnormSrgb,
{
    assert(s != format_name(TextureFormatModel::Stencil8));
    assert(s != format_name(TextureFormatModel::Depth24PlusStencil8));
    assert(s != format_name(TextureFormatModel::Depth32FloatStencil8));
    assert(s != format_name(TextureFormatModel::Etc2Rgb8A1UnormSrgb));
    assert(s != format_name(TextureFormatModel::Rgba8UnormSrgb));
    assert(s != format_name(TextureFormatModel::Etc2Rgba8UnormSrgb));
    assert(s != format_name(TextureFormatModel::Bgra8UnormSrgb));
    assert(s != format_name(TextureFormatModel::Etc2Rgb8UnormSrgb));
    assert(s != format_name(TextureFormatModel::Bc1RgbaUnormSrgb));
    assert(s != format_name(TextureFormatModel::Bc2RgbaUnormSrgb));
    assert(s != format_name(TextureFormatModel::Bc3RgbaUnormSrgb));
    assert(s != format_name(TextureFormatModel::Bc7RgbaUnormSrgb));
    assert(s != format_name(TextureFormatModel::EacR11Snorm));
    assert(s != format_name(TextureFormatModel::EacRg11Snorm));
    assert(s != format_name(TextureFormatModel::R16Snorm));
    assert(s != format_name(TextureFormatModel::Rgba16Snorm));
    assert(s != format_name(TextureFormatModel::Rg16Snorm));
    assert(s != format_name(TextureFormatModel::R8Snorm));
    assert(s != format_name(TextureFormatModel::Rgba8Snorm));
    assert(s != format_name(TextureFormatModel::Rg8Snorm));
    assert(s != format_name(TextureFormatModel::Bc4RSnorm));
    assert(s != format_name(TextureFormatModel::Bc5RgSnorm));
    assert(s != format_name(TextureFormatModel::EacR11Unorm));
    assert(s != format_name(TextureFormatModel::EacRg11Unorm));
    assert(s != format_name(TextureFormatModel::Etc2Rgb8A1Unorm));
    assert(s != format_name(TextureFormatModel::Rgb10a2Unorm));
    assert(s != format_name(TextureFormatModel::R16Unorm));
    assert(s != format_name(TextureFormatModel::Rgba16Unorm));
    assert(s != format_name(TextureFormatModel::Rg16Unorm));
    assert(s != format_name(TextureFormatModel::Depth16Unorm));
    assert(s != format_name(TextureFormatModel::R8Unorm));
    assert(s != format_name(TextureFormatModel::Rgba8Unorm));
    assert(s != format_name(TextureFormatModel::Etc2Rgba8Unorm));
    assert(s != format_name(TextureFormatModel::Bgra8Unorm));
    assert(s != format_name(TextureFormatModel::Etc2Rgb8Unorm));
    assert(s != format_name(TextureFormatModel::Rg8Unorm));
    assert(s != format_name(TextureFormatModel::Bc4RUnorm));
    assert(s != format_name(TextureFormatModel::Bc1RgbaUnorm));
    assert(s != format_name(TextureFormatModel::Bc2RgbaUnorm));
    assert(s != format_name(TextureFormatModel::Bc3RgbaUnorm));
    assert(s != format_name(TextureFormatModel::Bc7RgbaUnorm));
    assert(s != format_name(TextureFormatModel::Bc5RgUnorm));
    assert(s != format_name(TextureFormatModel::Depth24Plus));
    assert(s != format_name(TextureFormatModel::R32Float));
    assert(s != format_name(TextureFormatModel::Rgba32Float));
    assert(s != format_name(TextureFormatModel::Rg32Float));
    assert(s != format_name(TextureFormatModel::Depth32Float));
    assert(s != format_name(TextureFormatModel::R16Float));
    assert(s != format_name(TextureFormatModel::Rgba16Float));
    assert(s != format_name(TextureFormatModel::Rg16Float));
    assert(s != format_name(TextureFormatModel::Bc6hRgbUfloat));
    assert(s != format_name(TextureFormatModel::R32Sint));
    assert(s != format_name(TextureFormatModel::Rgba32Sint));
    assert(s != format_name(TextureFormatModel::Rg32Sint));
    assert(s != format_name(TextureFormatModel::R16Sint));
    assert(s != format_name(TextureFormatModel::Rgba16Sint));
    assert(s != format_name(TextureFormatModel::Rg16Sint));
    assert(s != format_name(TextureFormatModel::R8Sint));
    assert(s != format_name(TextureFormatModel::Rgba8Sint));
    assert(s != format_name(TextureFormatModel::Rg8Sint));
    assert(s != format_name(TextureFormatModel::R32Uint));
    assert(s != format_name(TextureFormatModel::Rgba32Uint));
    assert(s != format_name(TextureFormatModel::Rg32Uint));
    assert(s != format_name(TextureFormatModel::Rgb10a2Uint));
    assert(s != format_name(TextureFormatModel::R16Uint));
    assert(s != format_name(TextureFormatModel::Rgba16Uint));
    assert(s != format_name(TextureFormatModel::Rg16Uint));
    assert(s != format_name(TextureFormatModel::R8Uint));
    assert(s != format_name(TextureFormatModel::Rgba8Uint));
    assert(s != format_name(TextureFormatModel::Rg8Uint));
}

} // verus!
