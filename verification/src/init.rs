//! How the plugin comes up: what the compositor's backend, EGL and the GPU must
//! offer, and in which order things are set up.
use crate::capture::Extent;
use crate::format::{collect_formats, queryable_formats, FormatModifiers, OfferedFormat};
use crate::server::new_cookie;
use crate::text::{contains_word, join, utf8_string};
use vstd::prelude::*;

verus! {

/// Who must offer an extension.
#[derive(Debug, Clone, Copy, PartialEq, Eq, Structural)]
pub enum ExtensionOwner {
    Client,
    Display,
    Device,
}

/// Why the plugin does not come up.
#[derive(Debug)]
pub enum InitError {
    UnsupportedVersion,
    /// A list of extensions is no text.
    NotText(String),
    MissingExtension(ExtensionOwner, &'static str),
    QueryDisplayAttrib,
    QueryDeviceString,
    NoRoot,
    NoFormats,
    ShaderCompilation,
    ProgramLink,
}

impl InitError {
    pub open spec fn text(self) -> Seq<char> {
        match self {
            InitError::UnsupportedVersion => "Unsupported picom egl backend version"@,
            InitError::NotText(e) => e@,
            InitError::MissingExtension(ExtensionOwner::Client, name) =>
            "Required EGL client extension "@ + name@ + " not found"@,
            InitError::MissingExtension(ExtensionOwner::Display, name) => "Required EGL extension "@
                + name@ + " not found"@,
            InitError::MissingExtension(ExtensionOwner::Device, name) =>
            "Required EGL device extension "@ + name@ + " not found"@,
            InitError::QueryDisplayAttrib => "QueryDisplayAttribEXT failed"@,
            InitError::QueryDeviceString => "QueryDeviceStringEXT failed"@,
            InitError::NoRoot => "No root found"@,
            InitError::NoFormats => "No suitable modifier/formats found"@,
            InitError::ShaderCompilation => "Shader compilation failed"@,
            InitError::ProgramLink => "Program link failed"@,
        }
    }

    /// The error in words.
    pub fn message(&self) -> (s: String)
        ensures
            s@ == self.text(),
    {
        match self {
            InitError::UnsupportedVersion => "Unsupported picom egl backend version".to_owned(),
            InitError::NotText(e) => e.clone(),
            InitError::MissingExtension(owner, name) => {
                let head = match owner {
                    ExtensionOwner::Client => "Required EGL client extension ",
                    ExtensionOwner::Display => "Required EGL extension ",
                    ExtensionOwner::Device => "Required EGL device extension ",
                };
                join(join(head, name).as_str(), " not found")
            },
            InitError::QueryDisplayAttrib => "QueryDisplayAttribEXT failed".to_owned(),
            InitError::QueryDeviceString => "QueryDeviceStringEXT failed".to_owned(),
            InitError::NoRoot => "No root found".to_owned(),
            InitError::NoFormats => "No suitable modifier/formats found".to_owned(),
            InitError::ShaderCompilation => "Shader compilation failed".to_owned(),
            InitError::ProgramLink => "Program link failed".to_owned(),
        }
    }
}

/// The extensions that an owner must offer, in the order in which they are looked
/// for.
pub open spec fn required(owner: ExtensionOwner) -> Seq<Seq<char>> {
    match owner {
        ExtensionOwner::Client => seq!["EGL_EXT_device_base"@, "EGL_EXT_device_query"@],
        ExtensionOwner::Display => seq!["EGL_EXT_image_dma_buf_import_modifiers"@],
        ExtensionOwner::Device => seq!["EGL_EXT_device_drm_render_node"@],
    }
}

/// Every required extension is in the list.
pub open spec fn has_required(owner: ExtensionOwner, list: Seq<char>) -> bool {
    forall|i: int|
        0 <= i < required(owner).len() ==> crate::text::has_word(
            list,
            #[trigger] required(owner)[i],
        )
}

/// The first required extension that is not in the list.
pub open spec fn first_missing(owner: ExtensionOwner, list: Seq<char>, name: Seq<char>) -> bool {
    exists|i: int|
        {
            &&& 0 <= i < required(owner).len()
            &&& #[trigger] required(owner)[i] == name
            &&& !crate::text::has_word(list, name)
            &&& forall|j: int|
                0 <= j < i ==> crate::text::has_word(list, #[trigger] required(owner)[j])
        }
}

/// What a list of extensions means for coming up.
pub open spec fn extensions_checked(
    owner: ExtensionOwner,
    bytes: Seq<u8>,
    r: Result<(), InitError>,
) -> bool {
    let list = vstd::utf8::decode_utf8(bytes);
    if !vstd::utf8::valid_utf8(bytes) {
        r matches Err(InitError::NotText(e)) && e@ == crate::text::utf8_error_text(bytes)
    } else if has_required(owner, list) {
        r is Ok
    } else {
        r matches Err(InitError::MissingExtension(o, name)) && o == owner && first_missing(
            owner,
            list,
            name@,
        )
    }
}

/// Looks for the required extensions in a list: the names are parted by spaces.
pub fn egl_check_extensions(owner: ExtensionOwner, bytes: Vec<u8>) -> (r: Result<(), InitError>)
    ensures
        extensions_checked(owner, bytes@, r),
{
    let list = match utf8_string(bytes) {
        Ok(s) => s,
        Err(e) => {
            return Err(InitError::NotText(e));
        },
    };
    let first = match owner {
        ExtensionOwner::Client => "EGL_EXT_device_base",
        ExtensionOwner::Display => "EGL_EXT_image_dma_buf_import_modifiers",
        ExtensionOwner::Device => "EGL_EXT_device_drm_render_node",
    };
    assert(required(owner)[0] == first@);
    if !contains_word(list.as_str(), first) {
        return Err(InitError::MissingExtension(owner, first));
    }
    if matches!(owner, ExtensionOwner::Client) {
        let second = "EGL_EXT_device_query";
        assert(required(owner)[1] == second@);
        if !contains_word(list.as_str(), second) {
            return Err(InitError::MissingExtension(owner, second));
        }
    }
    Ok(())
}

/// How far the plugin has come up: what is waited for.
#[derive(Debug, Clone, Copy, PartialEq, Eq, Structural)]
pub enum InitStep {
    Version,
    ClientExtensions,
    DisplayExtensions,
    Device,
    DeviceExtensions,
    RenderNode,
    Formats,
    Screen,
    Modifiers,
    VertexShader,
    FragmentShader,
    Link,
    Viewport,
    Done,
}

/// What came of the last action.
#[derive(Debug)]
pub enum InitEvent {
    /// The version of the compositor's backend.
    Version { major: u64, minor: u64 },
    /// The extensions of the owner that was asked.
    Extensions(Vec<u8>),
    /// The display has a device.
    Device(bool),
    /// The path of the render node, if there is one.
    RenderNode(Option<String>),
    /// The formats that DMA buffers can be imported with.
    Formats(Vec<i32>),
    /// The size of the root window, if there is one.
    Screen(Option<(u16, u16)>),
    /// The modifiers of the formats that were asked for.
    Modifiers(Vec<OfferedFormat>),
    /// The status of compiling a shader or linking the program.
    GlStatus(i32),
    Viewport { x: i32, y: i32, width: i32, height: i32 },
}

/// What is done next.
#[derive(Debug)]
pub enum InitAction {
    QueryExtensions(ExtensionOwner),
    QueryDevice,
    QueryRenderNode,
    /// Open the render node, and ask for the formats of DMA buffers.
    OpenRenderNode(String),
    QueryScreen,
    /// Ask for the modifiers of these formats.
    QueryModifiers(Vec<u32>),
    /// Start the PipeWire thread with these formats, and the cursor monitor; then
    /// compile the vertex shader.
    StartThreads(Vec<FormatModifiers>),
    CompileFragmentShader,
    LinkProgram,
    QueryViewport,
    /// Set the scale of the program to the viewport, put the hooks in place, publish
    /// the cookie and start the server.
    Install { width: i32, height: i32, root_size: Extent, cookie: String },
}

pub const GL_OK: i32 = 1;

/// What is known while the plugin comes up.
#[verifier::ext_equal]
pub struct InitView {
    pub step: InitStep,
    pub screen: (u16, u16),
}

/// The version of the backend is one that the plugin works with.
pub open spec fn supported(major: u64, minor: u64) -> bool {
    major == 0 && minor >= 1
}

impl InitView {
    pub open spec fn start() -> InitView {
        InitView { step: InitStep::Version, screen: (0, 0) }
    }

    /// The owner whose extensions are waited for.
    pub open spec fn asked(self) -> Option<ExtensionOwner> {
        match self.step {
            InitStep::ClientExtensions => Some(ExtensionOwner::Client),
            InitStep::DisplayExtensions => Some(ExtensionOwner::Display),
            InitStep::DeviceExtensions => Some(ExtensionOwner::Device),
            _ => None,
        }
    }

    /// The event is what is waited for. A viewport starts at the origin.
    pub open spec fn expects(self, event: InitEvent) -> bool {
        match event {
            InitEvent::Version { .. } => self.step == InitStep::Version,
            InitEvent::Extensions(_) => self.asked() is Some,
            InitEvent::Device(_) => self.step == InitStep::Device,
            InitEvent::RenderNode(_) => self.step == InitStep::RenderNode,
            InitEvent::Formats(_) => self.step == InitStep::Formats,
            InitEvent::Screen(_) => self.step == InitStep::Screen,
            InitEvent::Modifiers(_) => self.step == InitStep::Modifiers,
            InitEvent::GlStatus(_) => self.step == InitStep::VertexShader || self.step
                == InitStep::FragmentShader || self.step == InitStep::Link,
            InitEvent::Viewport { x, y, .. } => self.step == InitStep::Viewport && x == 0 && y == 0,
        }
    }

    /// `r` is what the event leads to: an error exactly where something that the
    /// plugin needs is missing.
    pub open spec fn leads_to(self, event: InitEvent, r: Result<InitAction, InitError>) -> bool {
        match event {
            InitEvent::Version { major, minor } => if supported(major, minor) {
                r matches Ok(InitAction::QueryExtensions(ExtensionOwner::Client))
            } else {
                r matches Err(InitError::UnsupportedVersion)
            },
            InitEvent::Extensions(bytes) => {
                let owner = self.asked()->0;
                match r {
                    Ok(action) => {
                        &&& extensions_checked(owner, bytes@, Ok(()))
                        &&& match owner {
                            ExtensionOwner::Client => action == InitAction::QueryExtensions(
                                ExtensionOwner::Display,
                            ),
                            ExtensionOwner::Display => action is QueryDevice,
                            ExtensionOwner::Device => action is QueryRenderNode,
                        }
                    },
                    Err(e) => extensions_checked(owner, bytes@, Err(e)),
                }
            },
            InitEvent::Device(found) => if found {
                r matches Ok(InitAction::QueryExtensions(ExtensionOwner::Device))
            } else {
                r matches Err(InitError::QueryDisplayAttrib)
            },
            InitEvent::RenderNode(Some(path)) => r matches Ok(InitAction::OpenRenderNode(p)) && p@
                == path@,
            InitEvent::RenderNode(None) => r matches Err(InitError::QueryDeviceString),
            InitEvent::Formats(_) => r matches Ok(InitAction::QueryScreen),
            InitEvent::Screen(Some(_)) => r matches Ok(InitAction::QueryModifiers(_)),
            InitEvent::Screen(None) => r matches Err(InitError::NoRoot),
            InitEvent::Modifiers(all) => if crate::format::offers(
                all@,
                self.screen.0,
                self.screen.1,
            ).len() == 0 {
                r matches Err(InitError::NoFormats)
            } else {
                r matches Ok(InitAction::StartThreads(list)) && crate::format::format_views(list@)
                    == crate::format::offers(all@, self.screen.0, self.screen.1)
            },
            InitEvent::GlStatus(status) => if status != GL_OK {
                if self.step == InitStep::Link {
                    r matches Err(InitError::ProgramLink)
                } else {
                    r matches Err(InitError::ShaderCompilation)
                }
            } else if self.step == InitStep::VertexShader {
                r matches Ok(InitAction::CompileFragmentShader)
            } else if self.step == InitStep::FragmentShader {
                r matches Ok(InitAction::LinkProgram)
            } else {
                r matches Ok(InitAction::QueryViewport)
            },
            InitEvent::Viewport { width, height, .. } => r matches Ok(
                InitAction::Install { width: w, height: h, root_size, cookie },
            ) && w == width && h == height && root_size == (Extent {
                width: self.screen.0 as u32,
                height: self.screen.1 as u32,
            }) && crate::server::is_cookie(cookie@),
        }
    }

    /// What is known after an event that led to an action.
    pub open spec fn after(self, event: InitEvent) -> InitView {
        InitView {
            step: match self.step {
                InitStep::Version => InitStep::ClientExtensions,
                InitStep::ClientExtensions => InitStep::DisplayExtensions,
                InitStep::DisplayExtensions => InitStep::Device,
                InitStep::Device => InitStep::DeviceExtensions,
                InitStep::DeviceExtensions => InitStep::RenderNode,
                InitStep::RenderNode => InitStep::Formats,
                InitStep::Formats => InitStep::Screen,
                InitStep::Screen => InitStep::Modifiers,
                InitStep::Modifiers => InitStep::VertexShader,
                InitStep::VertexShader => InitStep::FragmentShader,
                InitStep::FragmentShader => InitStep::Link,
                InitStep::Link => InitStep::Viewport,
                InitStep::Viewport => InitStep::Done,
                InitStep::Done => InitStep::Done,
            },
            screen: match event {
                InitEvent::Screen(Some(size)) => size,
                _ => self.screen,
            },
        }
    }
}

/// The plugin coming up.
#[derive(Debug)]
pub struct PluginInit {
    step: InitStep,
    screen: (u16, u16),
    codes: Vec<u32>,
}

impl View for PluginInit {
    type V = InitView;

    closed spec fn view(&self) -> InitView {
        InitView { step: self.step, screen: self.screen }
    }
}

impl PluginInit {
    /// The formats whose modifiers are asked for.
    pub closed spec fn formats(&self) -> Seq<u32> {
        self.codes@
    }

    pub fn new() -> (p: PluginInit)
        ensures
            p@ == InitView::start(),
            p.formats() == Seq::<u32>::empty(),
    {
        PluginInit { step: InitStep::Version, screen: (0, 0), codes: Vec::new() }
    }

    /// Tells whether [`PluginInit::on_event`] may be called.
    pub fn can_step(&self, event: &InitEvent) -> (yes: bool)
        ensures
            yes == self@.expects(*event),
    {
        match event {
            InitEvent::Version { .. } => self.step == InitStep::Version,
            InitEvent::Extensions(_) => self.step == InitStep::ClientExtensions || self.step
                == InitStep::DisplayExtensions || self.step == InitStep::DeviceExtensions,
            InitEvent::Device(_) => self.step == InitStep::Device,
            InitEvent::RenderNode(_) => self.step == InitStep::RenderNode,
            InitEvent::Formats(_) => self.step == InitStep::Formats,
            InitEvent::Screen(_) => self.step == InitStep::Screen,
            InitEvent::Modifiers(_) => self.step == InitStep::Modifiers,
            InitEvent::GlStatus(_) => self.step == InitStep::VertexShader || self.step
                == InitStep::FragmentShader || self.step == InitStep::Link,
            InitEvent::Viewport { x, y, .. } => self.step == InitStep::Viewport && *x == 0 && *y
                == 0,
        }
    }

    /// Decides what follows an event.
    pub fn on_event(&mut self, event: InitEvent) -> (r: Result<InitAction, InitError>)
        requires
            old(self)@.expects(event),
        ensures
            old(self)@.leads_to(event, r),
            r is Ok ==> final(self)@ == old(self)@.after(event),
            r is Err ==> final(self)@ == old(self)@ && final(self).formats() == old(self).formats(),
            match event {
                InitEvent::Formats(formats) => {
                    &&& final(self).formats().no_duplicates()
                    &&& forall|code: u32|
                        final(self).formats().contains(code) <==> crate::format::capturable(
                            formats@,
                            code,
                        )
                },
                InitEvent::Screen(Some(_)) => r matches Ok(InitAction::QueryModifiers(codes))
                    && codes@ == old(self).formats() && final(self).formats() == old(
                    self,
                ).formats(),
                _ => final(self).formats() == old(self).formats(),
            },
    {
        let ghost before = self@;
        let action = match event {
            InitEvent::Version { major, minor } => {
                if major != 0 || minor < 1 {
                    return Err(InitError::UnsupportedVersion);
                }
                self.step = InitStep::ClientExtensions;
                InitAction::QueryExtensions(ExtensionOwner::Client)
            },
            InitEvent::Extensions(bytes) => {
                let owner = match self.step {
                    InitStep::ClientExtensions => ExtensionOwner::Client,
                    InitStep::DisplayExtensions => ExtensionOwner::Display,
                    _ => ExtensionOwner::Device,
                };
                match egl_check_extensions(owner, bytes) {
                    Ok(()) => {},
                    Err(e) => {
                        return Err(e);
                    },
                }
                match owner {
                    ExtensionOwner::Client => {
                        self.step = InitStep::DisplayExtensions;
                        InitAction::QueryExtensions(ExtensionOwner::Display)
                    },
                    ExtensionOwner::Display => {
                        self.step = InitStep::Device;
                        InitAction::QueryDevice
                    },
                    ExtensionOwner::Device => {
                        self.step = InitStep::RenderNode;
                        InitAction::QueryRenderNode
                    },
                }
            },
            InitEvent::Device(found) => {
                if !found {
                    return Err(InitError::QueryDisplayAttrib);
                }
                self.step = InitStep::DeviceExtensions;
                InitAction::QueryExtensions(ExtensionOwner::Device)
            },
            InitEvent::RenderNode(None) => {
                return Err(InitError::QueryDeviceString);
            },
            InitEvent::RenderNode(Some(path)) => {
                self.step = InitStep::Formats;
                InitAction::OpenRenderNode(path)
            },
            InitEvent::Formats(formats) => {
                self.codes = queryable_formats(&formats);
                self.step = InitStep::Screen;
                InitAction::QueryScreen
            },
            InitEvent::Screen(None) => {
                return Err(InitError::NoRoot);
            },
            InitEvent::Screen(Some(size)) => {
                self.screen = size;
                self.step = InitStep::Modifiers;
                let mut codes: Vec<u32> = Vec::new();
                codes.extend_from_slice(self.codes.as_slice());
                assert(codes@ =~= self.codes@);
                InitAction::QueryModifiers(codes)
            },
            InitEvent::Modifiers(all) => {
                match collect_formats(&all, self.screen.0, self.screen.1) {
                    None => {
                        return Err(InitError::NoFormats);
                    },
                    Some(list) => {
                        self.step = InitStep::VertexShader;
                        InitAction::StartThreads(list)
                    },
                }
            },
            InitEvent::GlStatus(status) => {
                if status != GL_OK {
                    if self.step == InitStep::Link {
                        return Err(InitError::ProgramLink);
                    }
                    return Err(InitError::ShaderCompilation);
                }
                match self.step {
                    InitStep::VertexShader => {
                        self.step = InitStep::FragmentShader;
                        InitAction::CompileFragmentShader
                    },
                    InitStep::FragmentShader => {
                        self.step = InitStep::Link;
                        InitAction::LinkProgram
                    },
                    _ => {
                        self.step = InitStep::Viewport;
                        InitAction::QueryViewport
                    },
                }
            },
            InitEvent::Viewport { x: _, y: _, width, height } => {
                self.step = InitStep::Done;
                InitAction::Install {
                    width,
                    height,
                    root_size: Extent::from_geometry(self.screen.0, self.screen.1),
                    cookie: new_cookie(),
                }
            },
        };
        assert(self@ =~= before.after(event));
        Ok(action)
    }
}

/// A run of events that the plugin waited for and that led to actions.
pub open spec fn came_up(events: Seq<InitEvent>) -> bool
    decreases events.len(),
{
    events.len() > 0 ==> {
        let before = events.drop_last();
        &&& came_up(before)
        &&& after_events(before).expects(events.last())
        &&& exists|action: InitAction| #[trigger]
            after_events(before).leads_to(events.last(), Ok(action))
    }
}

pub open spec fn after_events(events: Seq<InitEvent>) -> InitView
    decreases events.len(),
{
    if events.len() == 0 {
        InitView::start()
    } else {
        after_events(events.drop_last()).after(events.last())
    }
}

/// The number of a step.
pub open spec fn step_number(step: InitStep) -> int {
    match step {
        InitStep::Version => 0,
        InitStep::ClientExtensions => 1,
        InitStep::DisplayExtensions => 2,
        InitStep::Device => 3,
        InitStep::DeviceExtensions => 4,
        InitStep::RenderNode => 5,
        InitStep::Formats => 6,
        InitStep::Screen => 7,
        InitStep::Modifiers => 8,
        InitStep::VertexShader => 9,
        InitStep::FragmentShader => 10,
        InitStep::Link => 11,
        InitStep::Viewport => 12,
        InitStep::Done => 13,
    }
}

/// The plugin is only ever installed where the backend is supported and all required
/// extensions are there.
pub proof fn installed_only_where_supported(events: Seq<InitEvent>)
    requires
        came_up(events),
    ensures
        step_number(after_events(events).step) == events.len(),
        events.len() >= 1 ==> (events[0] matches InitEvent::Version { major, minor } && supported(
            major,
            minor,
        )),
        events.len() >= 2 ==> offers_extensions(ExtensionOwner::Client, events[1]),
        events.len() >= 3 ==> offers_extensions(ExtensionOwner::Display, events[2]),
        events.len() >= 5 ==> offers_extensions(ExtensionOwner::Device, events[4]),
    decreases events.len(),
{
    if events.len() > 0 {
        let before = events.drop_last();
        installed_only_where_supported(before);
        let n = events.len() - 1;
        assert(events.last() == events[n]);
        let action = choose|action: InitAction| #[trigger]
            after_events(before).leads_to(events.last(), Ok(action));
        assert(after_events(before).leads_to(events.last(), Ok(action)));
        assert forall|i: int| 0 <= i < n implies #[trigger] before[i] == events[i] by {}
        if n >= 1 {
            assert(before[0] == events[0]);
        }
        if n >= 2 {
            assert(before[1] == events[1]);
        }
        if n >= 3 {
            assert(before[2] == events[2]);
        }
        if n >= 5 {
            assert(before[4] == events[4]);
        }
    }
}

/// The event lists every extension that the owner must offer.
pub open spec fn offers_extensions(owner: ExtensionOwner, event: InitEvent) -> bool {
    event matches InitEvent::Extensions(bytes) && vstd::utf8::valid_utf8(bytes@) && has_required(
        owner,
        vstd::utf8::decode_utf8(bytes@),
    )
}

/// What is learned at each step on the way up.
pub open spec fn learned_at(i: int, event: InitEvent) -> bool {
    match event {
        InitEvent::Version { major, minor } => i == 0 && major == 0 && minor >= 1,
        InitEvent::Extensions(_) => i == 1 || i == 2 || i == 4,
        InitEvent::Device(found) => i == 3 && found,
        InitEvent::RenderNode(path) => i == 5 && path is Some,
        InitEvent::Formats(_) => i == 6,
        InitEvent::Screen(size) => i == 7 && size is Some,
        InitEvent::Modifiers(_) => i == 8,
        InitEvent::GlStatus(status) => 9 <= i <= 11 && status == 1,
        InitEvent::Viewport { x, y, .. } => i == 12 && x == 0 && y == 0,
    }
}

/// The plugin comes up in order, with nothing skipped, nothing twice and nothing missing,
/// and remembers the size of the screen that it learned on the way.
pub proof fn plugin_comes_up_in_order(events: Seq<InitEvent>)
    requires
        came_up(events),
    ensures
        events.len() <= 13,
        forall|i: int| 0 <= i < events.len() ==> learned_at(i, #[trigger] events[i]),
        events.len() >= 8 ==> after_events(events).screen == events[7]->Screen_0->0,
    decreases events.len(),
{
    installed_only_where_supported(events);
    if events.len() > 0 {
        let before = events.drop_last();
        plugin_comes_up_in_order(before);
        installed_only_where_supported(before);
        let n = events.len() - 1;
        let action = choose|action: InitAction| #[trigger]
            after_events(before).leads_to(events.last(), Ok(action));
        assert(after_events(before).leads_to(events.last(), Ok(action)));
        assert(events.last() == events[n]);
        assert forall|i: int| 0 <= i < events.len() implies learned_at(i, #[trigger] events[i]) by {
            if i < n {
                assert(before[i] == events[i]);
            }
        }
        if n >= 8 {
            assert(before[7] == events[7]);
        }
    }
}

/// A backend is refused exactly where its major version is not zero or its minor version
/// is.
pub proof fn backend_version_decides(
    v: InitView,
    major: u64,
    minor: u64,
    r: Result<InitAction, InitError>,
)
    requires
        v.leads_to(InitEvent::Version { major, minor }, r),
    ensures
        r is Err <==> major != 0 || minor == 0,
        r is Err ==> r->Err_0 is UnsupportedVersion,
        r is Ok ==> r->Ok_0 == InitAction::QueryExtensions(ExtensionOwner::Client),
{
}

/// A list of extensions is accepted exactly where it is text and holds each name that its
/// owner must offer as a word; where one is missing, that one is reported, with its owner,
/// and the first before the second.
pub proof fn extensions_decide(v: InitView, bytes: Vec<u8>, r: Result<InitAction, InitError>)
    requires
        v.leads_to(InitEvent::Extensions(bytes), r),
        v.expects(InitEvent::Extensions(bytes)),
    ensures
        ({
            let list = vstd::utf8::decode_utf8(bytes@);
            let text = vstd::utf8::valid_utf8(bytes@);
            let base = crate::text::has_word(list, "EGL_EXT_device_base"@);
            let query = crate::text::has_word(list, "EGL_EXT_device_query"@);
            let import = crate::text::has_word(list, "EGL_EXT_image_dma_buf_import_modifiers"@);
            let node = crate::text::has_word(list, "EGL_EXT_device_drm_render_node"@);
            &&& !text ==> r is Err && r->Err_0 is NotText
            &&& v.step == InitStep::ClientExtensions ==> {
                &&& r is Ok <==> text && base && query
                &&& r is Ok ==> r->Ok_0 == InitAction::QueryExtensions(ExtensionOwner::Display)
                &&& text && !base ==> missing(r, ExtensionOwner::Client, "EGL_EXT_device_base"@)
                &&& text && base && !query ==> missing(
                    r,
                    ExtensionOwner::Client,
                    "EGL_EXT_device_query"@,
                )
            }
            &&& v.step == InitStep::DisplayExtensions ==> {
                &&& r is Ok <==> text && import
                &&& r is Ok ==> r->Ok_0 is QueryDevice
                &&& text && !import ==> missing(
                    r,
                    ExtensionOwner::Display,
                    "EGL_EXT_image_dma_buf_import_modifiers"@,
                )
            }
            &&& v.step == InitStep::DeviceExtensions ==> {
                &&& r is Ok <==> text && node
                &&& r is Ok ==> r->Ok_0 is QueryRenderNode
                &&& text && !node ==> missing(
                    r,
                    ExtensionOwner::Device,
                    "EGL_EXT_device_drm_render_node"@,
                )
            }
            &&& v.step == InitStep::ClientExtensions || v.step == InitStep::DisplayExtensions
                || v.step == InitStep::DeviceExtensions
        }),
{
    let list = vstd::utf8::decode_utf8(bytes@);
    assert(required(ExtensionOwner::Client)[0] == "EGL_EXT_device_base"@);
    assert(required(ExtensionOwner::Client)[1] == "EGL_EXT_device_query"@);
    assert(required(ExtensionOwner::Display)[0] == "EGL_EXT_image_dma_buf_import_modifiers"@);
    assert(required(ExtensionOwner::Device)[0] == "EGL_EXT_device_drm_render_node"@);
}

/// The result reports a missing extension.
pub open spec fn missing(
    r: Result<InitAction, InitError>,
    owner: ExtensionOwner,
    name: Seq<char>,
) -> bool {
    r matches Err(InitError::MissingExtension(o, n)) && o == owner && n@ == name
}

/// A device, a render node and a screen are needed; the node is opened under the path that
/// was given.
pub proof fn parts_are_needed(
    v: InitView,
    found: bool,
    device: Result<InitAction, InitError>,
    path: Option<String>,
    node: Result<InitAction, InitError>,
    size: Option<(u16, u16)>,
    screen: Result<InitAction, InitError>,
)
    requires
        v.leads_to(InitEvent::Device(found), device),
        v.leads_to(InitEvent::RenderNode(path), node),
        v.leads_to(InitEvent::Screen(size), screen),
    ensures
        device is Ok <==> found,
        device is Ok ==> device->Ok_0 == InitAction::QueryExtensions(ExtensionOwner::Device),
        device is Err ==> device->Err_0 is QueryDisplayAttrib,
        node is Ok <==> path is Some,
        node is Ok ==> node->Ok_0 is OpenRenderNode && node->Ok_0->OpenRenderNode_0@ == path->0@,
        node is Err ==> node->Err_0 is QueryDeviceString,
        screen is Ok <==> size is Some,
        screen is Ok ==> screen->Ok_0 is QueryModifiers,
        screen is Err ==> screen->Err_0 is NoRoot,
{
}

/// The plugin starts with all formats that can be offered on its screen, and not at all
/// where there is none.
pub proof fn formats_are_needed(
    v: InitView,
    all: Vec<OfferedFormat>,
    r: Result<InitAction, InitError>,
)
    requires
        v.leads_to(InitEvent::Modifiers(all), r),
    ensures
        r is Err <==> crate::format::offers(all@, v.screen.0, v.screen.1).len() == 0,
        r is Err ==> r->Err_0 is NoFormats,
        r is Ok ==> r->Ok_0 is StartThreads && crate::format::format_views(
            r->Ok_0->StartThreads_0@,
        ) == crate::format::offers(all@, v.screen.0, v.screen.1),
{
}

/// Both shaders must compile and the program must link; what comes next depends on how
/// far things are.
pub proof fn shaders_must_work(v: InitView, status: i32, r: Result<InitAction, InitError>)
    requires
        v.leads_to(InitEvent::GlStatus(status), r),
        v.expects(InitEvent::GlStatus(status)),
    ensures
        r is Ok <==> status == 1,
        r is Err && v.step == InitStep::Link ==> r->Err_0 is ProgramLink,
        r is Err && v.step != InitStep::Link ==> r->Err_0 is ShaderCompilation,
        r is Ok && v.step == InitStep::VertexShader ==> r->Ok_0 is CompileFragmentShader,
        r is Ok && v.step == InitStep::FragmentShader ==> r->Ok_0 is LinkProgram,
        r is Ok && v.step == InitStep::Link ==> r->Ok_0 is QueryViewport,
        v.step == InitStep::VertexShader || v.step == InitStep::FragmentShader || v.step
            == InitStep::Link,
{
}

/// What is installed has the size of the viewport and of the screen, and a cookie.
pub proof fn installed_sizes_are_right(
    v: InitView,
    x: i32,
    y: i32,
    width: i32,
    height: i32,
    r: Result<InitAction, InitError>,
)
    requires
        v.leads_to(InitEvent::Viewport { x, y, width, height }, r),
    ensures
        r matches Ok(InitAction::Install { width: w, height: h, root_size, cookie }) && w == width
            && h == height && root_size.width == v.screen.0 && root_size.height == v.screen.1
            && crate::server::is_cookie(cookie@),
{
}

} // verus!
