//! The daemon's command state machine, shared by the wallpaper and the
//! window front ends: what a command changes, and what the front end is to
//! do about it; and when the pending image becomes the shown one.
use super::commands::{Command, CommandView, ShaderKind, WallpaperCmd, WallpaperCmdView};
use super::renderer::{commit_spec, upload_new_spec, TextureSlots};
use crate::config::parser::lit_default;
use crate::text::str_eq;
use vstd::prelude::*;

verus! {

/// What the daemon remembers between commands.
pub struct DaemonState {
    /// The named profile in force; `None` for `default`.
    pub profile: Option<String>,
    pub override_constant_shader: Option<String>,
    pub override_transition_shader: Option<String>,
    /// The view's images are not followed.
    pub paused: bool,
    /// The daemon is to stop.
    pub exit: bool,
    /// The image last asked for.
    pub current_image: String,
    /// An image was uploaded and is to be shown when the transition ends.
    pub pending_tex_promotion: bool,
    /// The first image was uploaded.
    pub initial_tex_uploaded: bool,
}

/// What the front end is to do after a command.
#[derive(Debug, PartialEq, Eq)]
pub enum Effect {
    /// Nothing.
    Nothing,
    /// Decode the image at this path and hand it over when it is ready.
    LoadImage(String),
    /// Stop the current view and start the one of the profile now in force,
    /// with the render configuration rebuilt.
    SwitchProfile,
    /// Rebuild the render configuration; the constant shader changed.
    ConstantShaderChanged,
    /// Rebuild the render configuration; the transition shader changed.
    TransitionShaderChanged,
    /// Stop the daemon.
    Exit,
}

/// A `DaemonState` with its strings as characters.
pub struct DaemonView {
    pub profile: Option<Seq<char>>,
    pub override_constant: Option<Seq<char>>,
    pub override_transition: Option<Seq<char>>,
    pub paused: bool,
    pub exit: bool,
    pub current_image: Seq<char>,
    pub pending: bool,
    pub initial_uploaded: bool,
}

/// An `Effect` with its path as characters.
pub enum EffectView {
    Nothing,
    LoadImage(Seq<char>),
    SwitchProfile,
    ConstantShaderChanged,
    TransitionShaderChanged,
    Exit,
}

pub open spec fn opt_string_view(o: Option<String>) -> Option<Seq<char>> {
    match o {
        Some(s) => Some(s@),
        None => None,
    }
}

impl View for DaemonState {
    type V = DaemonView;

    open spec fn view(&self) -> DaemonView {
        DaemonView {
            profile: opt_string_view(self.profile),
            override_constant: opt_string_view(self.override_constant_shader),
            override_transition: opt_string_view(self.override_transition_shader),
            paused: self.paused,
            exit: self.exit,
            current_image: self.current_image@,
            pending: self.pending_tex_promotion,
            initial_uploaded: self.initial_tex_uploaded,
        }
    }
}

impl View for Effect {
    type V = EffectView;

    open spec fn view(&self) -> EffectView {
        match self {
            Effect::Nothing => EffectView::Nothing,
            Effect::LoadImage(p) => EffectView::LoadImage(p@),
            Effect::SwitchProfile => EffectView::SwitchProfile,
            Effect::ConstantShaderChanged => EffectView::ConstantShaderChanged,
            Effect::TransitionShaderChanged => EffectView::TransitionShaderChanged,
            Effect::Exit => EffectView::Exit,
        }
    }
}

/// The state after the command `c`, and what the front end is to do.
///
/// Asking for an image while paused does nothing; `stop` and `continue`
/// pause and resume; switching profile (`default` for the default one)
/// drops both shader overrides; setting a shader overrides the profile's;
/// listing changes nothing here; `quit` stops the daemon.
pub open spec fn handle_spec(s: DaemonView, c: CommandView) -> (DaemonView, EffectView) {
    match c {
        CommandView::Wallpaper(WallpaperCmdView::SetPath(p)) => if s.paused {
            (s, EffectView::Nothing)
        } else {
            (DaemonView { current_image: p, ..s }, EffectView::LoadImage(p))
        },
        CommandView::Wallpaper(WallpaperCmdView::Stop) => (
            DaemonView { paused: true, ..s },
            EffectView::Nothing,
        ),
        CommandView::Wallpaper(WallpaperCmdView::Continue) => (
            DaemonView { paused: false, ..s },
            EffectView::Nothing,
        ),
        CommandView::Config(name) => (
            DaemonView {
                profile: if name == lit_default() {
                    None
                } else {
                    Some(name)
                },
                override_constant: None,
                override_transition: None,
                ..s
            },
            EffectView::SwitchProfile,
        ),
        CommandView::SetShader(ShaderKind::Constant, name) => (
            DaemonView { override_constant: Some(name), ..s },
            EffectView::ConstantShaderChanged,
        ),
        CommandView::SetShader(ShaderKind::Transition, name) => (
            DaemonView { override_transition: Some(name), ..s },
            EffectView::TransitionShaderChanged,
        ),
        CommandView::List(_) => (s, EffectView::Nothing),
        CommandView::Quit => (DaemonView { exit: true, ..s }, EffectView::Exit),
    }
}

/// Whether an image that is ready gets shown at all: not while paused when
/// the front end honours the pause for ready images.
pub open spec fn image_taken_spec(s: DaemonView, respect_pause: bool) -> bool {
    !(respect_pause && s.paused)
}

/// The state after an image was uploaded, and whether to show it at once:
/// without a transition shader it is; with one it waits, pending.
pub open spec fn after_upload_spec(s: DaemonView, uses_transition: bool) -> (DaemonView, bool) {
    if uses_transition {
        (DaemonView { pending: true, ..s }, false)
    } else {
        (s, true)
    }
}

/// The state after a renderer drew (or began a transition, which draws its
/// first frame), and whether the pending image is to be shown now: when one
/// is pending and that renderer's transition has just ended, it being in
/// one before the drawing and not after.
pub open spec fn after_render_spec(s: DaemonView, was_transitioning: bool, now_transitioning: bool) -> (
    DaemonView,
    bool,
) {
    if s.pending && was_transitioning && !now_transitioning {
        (DaemonView { pending: false, ..s }, true)
    } else {
        (s, false)
    }
}

impl DaemonState {
    /// The state at start-up under the profile `profile`, showing `image`.
    pub fn new(profile: Option<String>, image: String) -> (r: Self)
        ensures
            r@ == (DaemonView {
                profile: opt_string_view(profile),
                override_constant: None,
                override_transition: None,
                paused: false,
                exit: false,
                current_image: image@,
                pending: false,
                initial_uploaded: false,
            }),
    {
        DaemonState {
            profile,
            override_constant_shader: None,
            override_transition_shader: None,
            paused: false,
            exit: false,
            current_image: image,
            pending_tex_promotion: false,
            initial_tex_uploaded: false,
        }
    }

    /// Carries out the command `cmd`; answers what the front end is to do.
    pub fn handle_command(&mut self, cmd: Command) -> (r: Effect)
        ensures
            (final(self)@, r@) == handle_spec(old(self)@, cmd@),
            cmd@ matches CommandView::SetShader(ShaderKind::Transition, n) ==> {
                &&& final(self)@ == (DaemonView { override_transition: Some(n), ..old(self)@ })
                &&& r == Effect::TransitionShaderChanged
            },
            cmd@ matches CommandView::SetShader(ShaderKind::Constant, n) ==> {
                &&& final(self)@ == (DaemonView { override_constant: Some(n), ..old(self)@ })
                &&& r == Effect::ConstantShaderChanged
            },
            cmd@ matches CommandView::Wallpaper(WallpaperCmdView::Stop) ==> final(self)@ == (
            DaemonView { paused: true, ..old(self)@ }) && r == Effect::Nothing,
            cmd@ matches CommandView::Wallpaper(WallpaperCmdView::Continue) ==> final(self)@ == (
            DaemonView { paused: false, ..old(self)@ }) && r == Effect::Nothing,
            cmd@ matches CommandView::Wallpaper(WallpaperCmdView::SetPath(p)) ==> if old(self)@.paused {
                final(self)@ == old(self)@ && r == Effect::Nothing
            } else {
                final(self)@ == (DaemonView { current_image: p, ..old(self)@ }) && r@
                    == EffectView::LoadImage(p)
            },
            cmd@ matches CommandView::Config(name) ==> {
                &&& final(self)@.override_constant is None
                &&& final(self)@.override_transition is None
                &&& (final(self)@.profile is None <==> name == lit_default())
                &&& (name != lit_default() ==> final(self)@.profile == Some(name))
                &&& final(self)@.paused == old(self)@.paused
                &&& final(self)@.current_image == old(self)@.current_image
                &&& final(self)@.pending == old(self)@.pending
                &&& r == Effect::SwitchProfile
            },
            cmd@ is List ==> final(self)@ == old(self)@ && r == Effect::Nothing,
            cmd@ is Quit ==> final(self)@ == (DaemonView { exit: true, ..old(self)@ }) && r
                == Effect::Exit,
    {
        match cmd {
            Command::Wallpaper(WallpaperCmd::SetPath(path)) => {
                if self.paused {
                    Effect::Nothing
                } else {
                    self.current_image = path.clone();
                    Effect::LoadImage(path)
                }
            },
            Command::Wallpaper(WallpaperCmd::Stop) => {
                self.paused = true;
                Effect::Nothing
            },
            Command::Wallpaper(WallpaperCmd::Continue) => {
                self.paused = false;
                Effect::Nothing
            },
            Command::Config(name) => {
                proof {
                    reveal_strlit("default");
                    assert("default"@ =~= lit_default());
                }
                self.profile = if str_eq(name.as_str(), "default") {
                    None
                } else {
                    Some(name)
                };
                self.override_constant_shader = None;
                self.override_transition_shader = None;
                Effect::SwitchProfile
            },
            Command::SetShader(ShaderKind::Constant, name) => {
                self.override_constant_shader = Some(name);
                Effect::ConstantShaderChanged
            },
            Command::SetShader(ShaderKind::Transition, name) => {
                self.override_transition_shader = Some(name);
                Effect::TransitionShaderChanged
            },
            Command::List(_) => Effect::Nothing,
            Command::Quit => {
                self.exit = true;
                Effect::Exit
            },
        }
    }

    /// The named profile in force.
    pub fn active_profile(&self) -> (r: Option<&str>)
        ensures
            match r {
                Some(p) => self@.profile == Some(p@),
                None => self@.profile is None,
            },
    {
        match &self.profile {
            Some(p) => Some(p.as_str()),
            None => None,
        }
    }

    /// Records the image that a new view starts with.
    pub fn set_current_image(&mut self, image: String)
        ensures
            final(self)@ == (DaemonView { current_image: image@, ..old(self)@ }),
    {
        self.current_image = image;
    }

    /// A decoded image is ready. Answers whether to take it: not while
    /// paused, when the front end honours the pause for ready images.
    pub fn image_taken(&self, respect_pause: bool) -> (r: bool)
        ensures
            r == image_taken_spec(self@, respect_pause),
    {
        !(respect_pause && self.paused)
    }

    /// The pending image was uploaded. Answers whether to show it at once,
    /// which is when no transition shader is used; otherwise it is shown when
    /// a renderer's transition ends (`after_render`).
    pub fn after_upload(&mut self, uses_transition: bool) -> (commit_now: bool)
        ensures
            (final(self)@, commit_now) == after_upload_spec(old(self)@, uses_transition),
    {
        if uses_transition {
            self.pending_tex_promotion = true;
            false
        } else {
            true
        }
    }

    /// A renderer drew, or began a transition and drew its first frame;
    /// `was_transitioning` and `now_transitioning` tell whether it was in a
    /// transition before and after. Answers whether the pending image is now
    /// to be shown: when one is pending and that transition has just ended.
    pub fn after_render(&mut self, was_transitioning: bool, now_transitioning: bool) -> (commit: bool)
        ensures
            commit == (old(self)@.pending && was_transitioning && !now_transitioning),
            final(self)@ == (DaemonView { pending: old(self)@.pending && !commit, ..old(self)@ }),
            (final(self)@, commit) == after_render_spec(
                old(self)@,
                was_transitioning,
                now_transitioning,
            ),
    {
        if self.pending_tex_promotion && was_transitioning && !now_transitioning {
            self.pending_tex_promotion = false;
            true
        } else {
            false
        }
    }

    /// Whether the first image is still to be uploaded; it counts as
    /// uploaded from now on.
    pub fn take_initial_upload(&mut self) -> (first: bool)
        ensures
            first == !old(self)@.initial_uploaded,
            final(self)@ == (DaemonView { initial_uploaded: true, ..old(self)@ }),
    {
        let first = !self.initial_tex_uploaded;
        self.initial_tex_uploaded = true;
        first
    }
}


/// While paused, asking for an image changes nothing and loads nothing;
/// after `continue`, asking for it loads it.
pub proof fn lemma_pause_and_resume(s: DaemonView, p: Seq<char>)
    ensures
        ({
            let stopped = handle_spec(s, CommandView::Wallpaper(WallpaperCmdView::Stop)).0;
            handle_spec(stopped, CommandView::Wallpaper(WallpaperCmdView::SetPath(p))) == (
                stopped,
                EffectView::Nothing,
            )
        }),
        ({
            let stopped = handle_spec(s, CommandView::Wallpaper(WallpaperCmdView::Stop)).0;
            let resumed = handle_spec(stopped, CommandView::Wallpaper(WallpaperCmdView::Continue)).0;
            let (after, effect) = handle_spec(
                resumed,
                CommandView::Wallpaper(WallpaperCmdView::SetPath(p)),
            );
            &&& !resumed.paused
            &&& effect == EffectView::LoadImage(p)
            &&& after.current_image == p
        }),
{
}

/// Switching profile drops any shader override set before, and `default`
/// selects the default profile.
pub proof fn lemma_switch_drops_overrides(s: DaemonView, kind: ShaderKind, shader: Seq<char>, name: Seq<char>)
    ensures
        ({
            let overridden = handle_spec(s, CommandView::SetShader(kind, shader)).0;
            let (after, effect) = handle_spec(overridden, CommandView::Config(name));
            &&& after.override_constant is None
            &&& after.override_transition is None
            &&& effect == EffectView::SwitchProfile
            &&& (after.profile is None <==> name == lit_default())
            &&& (name != lit_default() ==> after.profile == Some(name))
        }),
{
}

/// An uploaded image is what gets shown: without a transition shader at
/// once; with one, it stays pending while the renderer that draws is in its
/// transition, or was in none, and is shown as soon as a transition ends,
/// whatever the transition's duration (one of no time ends in the frame that
/// began it). Either way both texture slots then hold the new texture `tex`.
pub proof fn lemma_uploaded_image_shown(
    s: DaemonView,
    slots: TextureSlots,
    tex: u32,
    uses_transition: bool,
)
    ensures
        ({
            let uploaded = upload_new_spec(slots, tex).0;
            let (s1, now) = after_upload_spec(s, uses_transition);
            &&& now <==> !uses_transition
            &&& now ==> commit_spec(uploaded).0 == (TextureSlots { current: tex, next: tex })
            &&& !now ==> {
                &&& after_render_spec(s1, true, true) == (s1, false)
                &&& after_render_spec(s1, false, false) == (s1, false)
                &&& after_render_spec(s1, true, false).1
                &&& !after_render_spec(s1, true, false).0.pending
                &&& commit_spec(uploaded).0 == (TextureSlots { current: tex, next: tex })
            }
        }),
{
}

/// Setting a shader overrides exactly that kind's shader with the name
/// given and leaves every other part of the state as it was; the front end
/// is told which kind changed.
pub proof fn lemma_set_shader_overrides(s: DaemonView, kind: ShaderKind, n: Seq<char>)
    ensures
        ({
            let (after, effect) = handle_spec(s, CommandView::SetShader(kind, n));
            &&& kind == ShaderKind::Transition ==> {
                &&& after.override_transition == Some(n)
                &&& after.override_constant == s.override_constant
                &&& effect == EffectView::TransitionShaderChanged
            }
            &&& kind == ShaderKind::Constant ==> {
                &&& after.override_constant == Some(n)
                &&& after.override_transition == s.override_transition
                &&& effect == EffectView::ConstantShaderChanged
            }
            &&& after.profile == s.profile
            &&& after.paused == s.paused
            &&& after.exit == s.exit
            &&& after.current_image == s.current_image
            &&& after.pending == s.pending
            &&& after.initial_uploaded == s.initial_uploaded
        }),
{
}

} // verus!
