//! The editor's per-asset settings records and its own settings, with the
//! defaults that a missing or unreadable settings file falls back to.
use vstd::prelude::*;

verus! {

/// Sampling, wrapping, format and mip levels of a texture asset.
#[derive(Debug, Clone)]
pub struct TextureJson {
    pub sampler: String,
    pub repeater: String,
    pub format: String,
    pub mipmaps: u8,
}

impl Default for TextureJson {
    fn default() -> (r: Self)
        ensures
            r.sampler@ == "Nearest"@,
            r.repeater@ == "Repeat"@,
            r.format@ == "Rgba8UnormSrgb"@,
            r.mipmaps == 1,
    {
        TextureJson {
            sampler: String::from_str("Nearest"),
            repeater: String::from_str("Repeat"),
            format: String::from_str("Rgba8UnormSrgb"),
            mipmaps: 1,
        }
    }
}

/// Format and usages of one color attachment of a render texture.
#[allow(non_snake_case)]
#[derive(Debug, Clone)]
pub struct RenderTextureAttachmentJson {
    pub format: String,
    pub usages_COPY_DST: bool,
    pub usages_COPY_SRC: bool,
    pub usages_RENDER_ATTACHMENT: bool,
    pub usages_STORAGE_ATOMIC: bool,
    pub usages_STORAGE_BINDING: bool,
    pub usages_TEXTURE_BINDING: bool,
}

impl Default for RenderTextureAttachmentJson {
    fn default() -> (r: Self)
        ensures
            r.format@ == "Rgba8UnormSrgb"@,
            !r.usages_COPY_DST,
            !r.usages_COPY_SRC,
            !r.usages_RENDER_ATTACHMENT,
            !r.usages_STORAGE_ATOMIC,
            !r.usages_STORAGE_BINDING,
            !r.usages_TEXTURE_BINDING,
    {
        RenderTextureAttachmentJson {
            format: String::from_str("Rgba8UnormSrgb"),
            usages_COPY_DST: false,
            usages_COPY_SRC: false,
            usages_RENDER_ATTACHMENT: false,
            usages_STORAGE_ATOMIC: false,
            usages_STORAGE_BINDING: false,
            usages_TEXTURE_BINDING: false,
        }
    }
}

/// Size, color attachments and optional depth attachment of a render texture.
#[allow(non_snake_case)]
#[derive(Debug, Clone)]
pub struct RenderTextureJson {
    pub width: u32,
    pub height: u32,
    pub attachments: Vec<RenderTextureAttachmentJson>,
    pub depth_attachment: Option<String>,
    pub depth_usages_COPY_DST: bool,
    pub depth_usages_COPY_SRC: bool,
    pub depth_usages_RENDER_ATTACHMENT: bool,
    pub depth_usages_STORAGE_ATOMIC: bool,
    pub depth_usages_STORAGE_BINDING: bool,
    pub depth_usages_TEXTURE_BINDING: bool,
}

impl Default for RenderTextureJson {
    fn default() -> (r: Self)
        ensures
            r.width == 1280,
            r.height == 720,
            r.attachments@.len() == 1,
            r.attachments@[0].format@ == "Rgba8UnormSrgb"@,
            !r.attachments@[0].usages_COPY_DST,
            !r.attachments@[0].usages_COPY_SRC,
            !r.attachments@[0].usages_RENDER_ATTACHMENT,
            !r.attachments@[0].usages_STORAGE_ATOMIC,
            !r.attachments@[0].usages_STORAGE_BINDING,
            !r.attachments@[0].usages_TEXTURE_BINDING,
            r.depth_attachment matches Some(d) && d@ == "Depth32Float"@,
            !r.depth_usages_COPY_DST,
            !r.depth_usages_COPY_SRC,
            !r.depth_usages_RENDER_ATTACHMENT,
            !r.depth_usages_STORAGE_ATOMIC,
            !r.depth_usages_STORAGE_BINDING,
            !r.depth_usages_TEXTURE_BINDING,
    {
        let mut attachments = Vec::new();
        attachments.push(RenderTextureAttachmentJson::default());
        RenderTextureJson {
            depth_attachment: Some(String::from_str("Depth32Float")),
            height: 720,
            width: 1280,
            attachments,
            depth_usages_COPY_DST: false,
            depth_usages_COPY_SRC: false,
            depth_usages_RENDER_ATTACHMENT: false,
            depth_usages_STORAGE_ATOMIC: false,
            depth_usages_STORAGE_BINDING: false,
            depth_usages_TEXTURE_BINDING: false,
        }
    }
}

/// The size presets of the render texture inspector.
#[derive(Clone, Copy, Debug, PartialEq, Eq)]
pub enum SizePreset {
    /// 1280 x 720
    Hd720,
    /// 1920 x 1080
    Hd1080,
    /// 3840 x 2160
    Uhd4k,
    /// 7680 x 4320
    Uhd8k,
    /// 384 x 216
    X24,
}

/// Width and height of a size preset.
pub open spec fn preset_size(p: SizePreset) -> (u32, u32) {
    match p {
        SizePreset::Hd720 => (1280, 720),
        SizePreset::Hd1080 => (1920, 1080),
        SizePreset::Uhd4k => (3840, 2160),
        SizePreset::Uhd8k => (7680, 4320),
        SizePreset::X24 => (384, 216),
    }
}

/// Whether `a` is a new color attachment: `Rgba8UnormSrgb` with no usage.
pub open spec fn is_new_attachment(a: RenderTextureAttachmentJson) -> bool {
    &&& a.format@ == "Rgba8UnormSrgb"@
    &&& !a.usages_COPY_DST
    &&& !a.usages_COPY_SRC
    &&& !a.usages_RENDER_ATTACHMENT
    &&& !a.usages_STORAGE_ATOMIC
    &&& !a.usages_STORAGE_BINDING
    &&& !a.usages_TEXTURE_BINDING
}

/// Whether `a` and `b` agree in everything but their size and attachments.
pub open spec fn same_depth_settings(a: RenderTextureJson, b: RenderTextureJson) -> bool {
    &&& a.depth_attachment == b.depth_attachment
    &&& a.depth_usages_COPY_DST == b.depth_usages_COPY_DST
    &&& a.depth_usages_COPY_SRC == b.depth_usages_COPY_SRC
    &&& a.depth_usages_RENDER_ATTACHMENT == b.depth_usages_RENDER_ATTACHMENT
    &&& a.depth_usages_STORAGE_ATOMIC == b.depth_usages_STORAGE_ATOMIC
    &&& a.depth_usages_STORAGE_BINDING == b.depth_usages_STORAGE_BINDING
    &&& a.depth_usages_TEXTURE_BINDING == b.depth_usages_TEXTURE_BINDING
}

impl RenderTextureJson {
    /// Sets the size to a preset; tells whether the size changed (the
    /// inspector then saves the settings and resets its size fields).
    pub fn apply_preset(&mut self, preset: SizePreset) -> (changed: bool)
        ensures
            (final(self).width, final(self).height) == preset_size(preset),
            final(self).attachments@ == old(self).attachments@,
            same_depth_settings(*final(self), *old(self)),
            changed == ((old(self).width, old(self).height) != preset_size(preset)),
    {
        let (w, h): (u32, u32) = match preset {
            SizePreset::Hd720 => (1280, 720),
            SizePreset::Hd1080 => (1920, 1080),
            SizePreset::Uhd4k => (3840, 2160),
            SizePreset::Uhd8k => (7680, 4320),
            SizePreset::X24 => (384, 216),
        };
        let changed = self.width != w || self.height != h;
        self.width = w;
        self.height = h;
        changed
    }

    /// Appends a new color attachment.
    pub fn add_attachment(&mut self)
        ensures
            final(self).attachments@.len() == old(self).attachments@.len() + 1,
            final(self).attachments@.subrange(0, old(self).attachments@.len() as int)
                == old(self).attachments@,
            is_new_attachment(final(self).attachments@.last()),
            final(self).width == old(self).width,
            final(self).height == old(self).height,
            same_depth_settings(*final(self), *old(self)),
    {
        self.attachments.push(RenderTextureAttachmentJson::default());
        proof {
            assert(final(self).attachments@.subrange(0, old(self).attachments@.len() as int)
                =~= old(self).attachments@);
        }
    }

    /// Removes the last color attachment, if there is one.
    pub fn remove_last_attachment(&mut self)
        ensures
            final(self).attachments@ == if old(self).attachments@.len() > 0 {
                old(self).attachments@.drop_last()
            } else {
                old(self).attachments@
            },
            final(self).width == old(self).width,
            final(self).height == old(self).height,
            same_depth_settings(*final(self), *old(self)),
    {
        let _ = self.attachments.pop();
    }

    /// The attachment that the inspector edits when `select_id` is
    /// selected: the first one where `select_id` is past the end.
    pub fn selected_attachment(&self, select_id: usize) -> (r: usize)
        ensures
            r == if select_id >= self.attachments@.len() {
                0
            } else {
                select_id
            },
    {
        if select_id >= self.attachments.len() {
            0
        } else {
            select_id
        }
    }
}

/// Removing the last attachment undoes adding one: the attachments are
/// those from before.
pub proof fn lemma_remove_undoes_add(
    before: Seq<RenderTextureAttachmentJson>,
    added: Seq<RenderTextureAttachmentJson>,
)
    requires
        added.len() == before.len() + 1,
        added.subrange(0, before.len() as int) == before,
    ensures
        added.len() > 0,
        added.drop_last() == before,
{
    assert(added.drop_last() =~= added.subrange(0, before.len() as int));
}

/// One variable of a hand-written uniform buffer.
#[derive(Debug, Clone)]
pub struct UboVarJson {
    pub type_: String,
    pub name: String,
}

impl Default for UboVarJson {
    fn default() -> (r: Self)
        ensures
            r.type_@ == "Mat4"@,
            r.name@ == "var1"@,
    {
        UboVarJson { type_: String::from_str("Mat4"), name: String::from_str("var1") }
    }
}

/// A hand-written uniform buffer: its variables and whether it is dynamic.
#[derive(Debug, Clone)]
pub struct UboJson {
    pub stuff: Vec<UboVarJson>,
    pub is_dynamic: bool,
}

impl Default for UboJson {
    fn default() -> (r: Self)
        ensures
            r.stuff@.len() == 1,
            r.stuff@[0].type_@ == "Mat4"@,
            r.stuff@[0].name@ == "var1"@,
            !r.is_dynamic,
    {
        let mut stuff = Vec::new();
        stuff.push(UboVarJson::default());
        UboJson { stuff, is_dynamic: false }
    }
}

/// A binding of a bind group: the dropped asset's path, which render-texture
/// attachment it uses (-1 is depth), and the shader stages that see it.
#[derive(Debug, Clone)]
pub struct BindGroupGroupJson {
    pub potential_path: String,
    pub render_texture_id: i32,
    pub standard_getter_id: u8,
    pub visibility_compute: bool,
    pub visibility_vertex: bool,
    pub visibility_fragment: bool,
}

/// Pipeline settings of a shader asset.
#[derive(Debug, Clone)]
pub struct WgslJson {
    pub bindgroups: [Option<BindGroupGroupJson>; 4],
    pub culling: String,
    pub is_full: bool,
    pub write_depth: bool,
    pub depth_compare: String,
    pub blend_mode: String,
    pub topology: String,
    pub is_compute: bool,
}

impl Default for WgslJson {
    fn default() -> (r: Self)
        ensures
            r.bindgroups@.len() == 4,
            forall|i: int| 0 <= i < 4 ==> r.bindgroups@[i] is None,
            r.culling@ == "None"@,
            r.is_full,
            r.write_depth,
            r.depth_compare@ == "Less"@,
            r.blend_mode@ == "Opaque"@,
            r.topology@ == "TriangleList"@,
            !r.is_compute,
    {
        WgslJson {
            bindgroups: [None, None, None, None],
            culling: String::from_str("None"),
            is_full: true,
            write_depth: true,
            depth_compare: String::from_str("Less"),
            blend_mode: String::from_str("Opaque"),
            topology: String::from_str("TriangleList"),
            is_compute: false,
        }
    }
}

/// The bindings of a bind-group asset; an empty slot is `None`.
#[derive(Debug, Clone)]
pub struct BindGroupJson {
    pub groups: Vec<Option<BindGroupGroupJson>>,
}

impl Default for BindGroupJson {
    fn default() -> (r: Self)
        ensures
            r.groups@.len() == 1,
            r.groups@[0] is None,
    {
        let mut groups = Vec::new();
        groups.push(None);
        BindGroupJson { groups }
    }
}

/// Settings of the bake step.
#[derive(Debug, Clone)]
pub struct BakeSettings {
    pub generate_blit_code: bool,
    pub render_texture_path: Option<String>,
    pub render_texture_attachment: String,
}

impl Default for BakeSettings {
    fn default() -> (r: Self)
        ensures
            r.generate_blit_code,
            r.render_texture_path is None,
            r.render_texture_attachment@ == "0"@,
    {
        BakeSettings {
            generate_blit_code: true,
            render_texture_path: None,
            render_texture_attachment: String::from_str("0"),
        }
    }
}

/// The editor's settings: the page shown and the bake settings.
#[derive(Debug, Clone)]
pub struct Settings {
    pub selected_setting: String,
    pub bake_settings: BakeSettings,
}

impl Default for Settings {
    fn default() -> (r: Self)
        ensures
            r.selected_setting@ == Seq::<char>::empty(),
            r.bake_settings.generate_blit_code,
            r.bake_settings.render_texture_path is None,
            r.bake_settings.render_texture_attachment@ == "0"@,
    {
        Settings { selected_setting: String::new(), bake_settings: BakeSettings::default() }
    }
}

/// The file and settings paths that an asset's descriptor points to.
#[derive(Debug, Clone)]
pub struct CommonFileDescriptor {
    pub file_path: String,
    pub json_path: String,
}

} // verus!
