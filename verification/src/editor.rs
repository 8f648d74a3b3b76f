//! The editor's window tabs and the state of its inspector panel.
use vstd::prelude::*;
use crate::text::str_eq;

verus! {

/// A tab of the editor window.
#[derive(Clone, Copy, Debug, PartialEq, Eq, Hash)]
pub enum EditorTab {
    Assets,
    Inspector,
    Viewport,
    Scene,
    Settings,
}

/// The title of a tab.
pub open spec fn tab_name(t: EditorTab) -> Seq<char> {
    match t {
        EditorTab::Assets => "assets"@,
        EditorTab::Inspector => "inspector"@,
        EditorTab::Viewport => "viewport"@,
        EditorTab::Scene => "scene"@,
        EditorTab::Settings => "settings"@,
    }
}

/// Every tab, in the order of the window menu.
pub open spec fn all_tabs() -> Seq<EditorTab> {
    seq![
        EditorTab::Assets,
        EditorTab::Inspector,
        EditorTab::Viewport,
        EditorTab::Scene,
        EditorTab::Settings,
    ]
}

impl EditorTab {
    /// The title of the tab.
    pub fn name(&self) -> (r: &'static str)
        ensures
            r@ == tab_name(*self),
    {
        match self {
            EditorTab::Assets => "assets",
            EditorTab::Inspector => "inspector",
            EditorTab::Viewport => "viewport",
            EditorTab::Scene => "scene",
            EditorTab::Settings => "settings",
        }
    }

    /// Every tab, in the order of the window menu.
    pub fn all() -> (r: [EditorTab; 5])
        ensures
            r@ == all_tabs(),
    {
        let r = [
            EditorTab::Assets,
            EditorTab::Inspector,
            EditorTab::Viewport,
            EditorTab::Scene,
            EditorTab::Settings,
        ];
        proof {
            assert(r@ =~= all_tabs());
        }
        r
    }
}

/// Every tab appears once in the window menu.
pub proof fn lemma_all_tabs_once()
    ensures
        all_tabs().len() == 5,
        forall|t: EditorTab| all_tabs().contains(t),
        forall|i: int, j: int| 0 <= i < j < all_tabs().len() ==> all_tabs()[i] != all_tabs()[j],
{
    assert forall|t: EditorTab| all_tabs().contains(t) by {
        match t {
            EditorTab::Assets => assert(all_tabs()[0] == t),
            EditorTab::Inspector => assert(all_tabs()[1] == t),
            EditorTab::Viewport => assert(all_tabs()[2] == t),
            EditorTab::Scene => assert(all_tabs()[3] == t),
            EditorTab::Settings => assert(all_tabs()[4] == t),
        }
    }
}

/// The kind of view that the inspector shows for a file.
#[derive(Clone, Copy, Debug, PartialEq, Eq)]
pub enum InspectorPanel {
    /// Texture settings of an image (`png`, `exr`, `jpg`).
    Image,
    /// Attachments of a render texture (`renderTexture`).
    RenderTexture,
    /// Mesh export of a Blender model (`blend`).
    Model,
    /// Fields of a uniform buffer (`ubo`).
    Ubo,
    /// Settings of a shader (`wgsl`).
    Wgsl,
    /// Entries of a bind group (`bindGroup`).
    BindGroup,
    /// Name and extension of any other file.
    Other,
}

/// The view that the inspector shows for a file with extension `ext`.
pub open spec fn panel_of(ext: Seq<char>) -> InspectorPanel {
    if ext == "png"@ || ext == "exr"@ || ext == "jpg"@ {
        InspectorPanel::Image
    } else if ext == "renderTexture"@ {
        InspectorPanel::RenderTexture
    } else if ext == "blend"@ {
        InspectorPanel::Model
    } else if ext == "ubo"@ {
        InspectorPanel::Ubo
    } else if ext == "wgsl"@ {
        InspectorPanel::Wgsl
    } else if ext == "bindGroup"@ {
        InspectorPanel::BindGroup
    } else {
        InspectorPanel::Other
    }
}

/// The view that the inspector shows for a file with extension `ext`
/// (compared as written, without regard to case changes).
pub fn panel_for_extension(ext: &str) -> (r: InspectorPanel)
    ensures
        r == panel_of(ext@),
{
    if str_eq(ext, "png") || str_eq(ext, "exr") || str_eq(ext, "jpg") {
        InspectorPanel::Image
    } else if str_eq(ext, "renderTexture") {
        InspectorPanel::RenderTexture
    } else if str_eq(ext, "blend") {
        InspectorPanel::Model
    } else if str_eq(ext, "ubo") {
        InspectorPanel::Ubo
    } else if str_eq(ext, "wgsl") {
        InspectorPanel::Wgsl
    } else if str_eq(ext, "bindGroup") {
        InspectorPanel::BindGroup
    } else {
        InspectorPanel::Other
    }
}

/// The inspector panel: the file it shows and whether it keeps showing
/// that file when another one is selected.
pub struct Inspector {
    locked: bool,
    path: Option<String>,
}

/// What the inspector holds: whether it is locked and the path it shows.
pub struct InspectorView {
    pub locked: bool,
    pub path: Option<Seq<char>>,
}

/// The characters of an optional path.
pub open spec fn opt_path(p: Option<String>) -> Option<Seq<char>> {
    match p {
        Some(s) => Some(s@),
        None => None,
    }
}

impl View for Inspector {
    type V = InspectorView;

    closed spec fn view(&self) -> InspectorView {
        InspectorView { locked: self.locked, path: opt_path(self.path) }
    }
}

impl Default for Inspector {
    /// Unlocked, showing nothing.
    fn default() -> (r: Inspector)
        ensures
            !r@.locked,
            r@.path is None,
    {
        Inspector { locked: false, path: None }
    }
}

impl Inspector {
    /// Whether the inspector keeps its file when the selection changes.
    pub fn locked(&self) -> (b: bool)
        ensures
            b == self@.locked,
    {
        self.locked
    }

    /// The path of the file the inspector shows.
    pub fn path(&self) -> (r: Option<&str>)
        ensures
            match r {
                Some(s) => self@.path == Some(s@),
                None => self@.path is None,
            },
    {
        match &self.path {
            Some(p) => Some(p.as_str()),
            None => None,
        }
    }

    /// Follows the asset selection `selected`, unless the inspector is
    /// locked.
    pub fn sync_selection(&mut self, selected: Option<&str>)
        ensures
            final(self)@.locked == old(self)@.locked,
            old(self)@.locked ==> final(self)@.path == old(self)@.path,
            !old(self)@.locked ==> final(self)@.path == match selected {
                Some(s) => Some(s@),
                None => None::<Seq<char>>,
            },
    {
        if !self.locked {
            self.path = match selected {
                Some(s) => Some(String::from_str(s)),
                None => None,
            };
        }
    }

    /// Flips the lock, as the lock button does.
    pub fn toggle_lock(&mut self)
        ensures
            final(self)@.locked == !old(self)@.locked,
            final(self)@.path == old(self)@.path,
    {
        self.locked = !self.locked;
    }

    /// The label of the lock button.
    pub fn lock_text(&self) -> (r: &'static str)
        ensures
            r@ == if self@.locked { "Locked"@ } else { "Unlocked"@ },
    {
        if self.locked {
            "Locked"
        } else {
            "Unlocked"
        }
    }
}

} // verus!
