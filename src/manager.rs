//! The overlay manager: the registry plus the queue of window commands.
//!
//! GUI windows live on the toolkit's own thread and cannot be touched from
//! any other. The manager therefore never touches a window: each operation
//! updates the registry at once and appends what the GUI thread must do to
//! a FIFO queue of [`WindowCommand`]s. Whoever owns the event loop drains the
//! queue with [`OverlayManager::take_commands`] and runs the commands there,
//! in order. Removal is two-phase: the id leaves the registry immediately,
//! and the window's keep-alive reference is released when the GUI thread
//! reaches the `Release` command.
use vstd::prelude::*;
use crate::color_utils::{
    argb_of, digits_of, hex_to_argb_u32, is_valid_color, is_valid_spec, lemma_argb_fits,
};
use crate::overlay::{
    input_problem, DEFAULT_FONT_SIZE_BITS, FontSize, InputProblem, OverlayConfig, OverlayError,
    OverlayId, TextConfig,
};
use crate::registry::{ids_view, OverlayRegistry};
use crate::window_manager::{style_for, window_style, WindowStyle};

verus! {

/// Work for the GUI thread, about the window of one overlay.
#[derive(Debug)]
pub enum WindowCommand {
    /// Build the window, give it its text, font size and text color (packed
    /// ARGB), and keep a strong reference to it.
    Create { id: OverlayId, content: String, font_size: FontSize, argb: u32 },
    /// Apply the native window style.
    ApplyStyle { id: OverlayId, style: WindowStyle },
    /// Re-apply the size and font size, then show the window.
    Show { id: OverlayId, width: i32, height: i32, font_size: FontSize },
    /// Hide the window.
    Hide { id: OverlayId },
    /// Replace the window's text.
    SetText { id: OverlayId, content: String },
    /// Drop the strong reference that keeps the window alive.
    Release { id: OverlayId },
}

/// The commands that make the window of a new overlay.
pub open spec fn create_commands(id: OverlayId, config: OverlayConfig) -> Seq<WindowCommand> {
    seq![
        WindowCommand::Create {
            id,
            content: config.text.content,
            font_size: config.text.font_size,
            argb: argb_of(config.text.color@) as u32,
        },
        WindowCommand::ApplyStyle {
            id,
            style: style_for(config.transparent, config.always_on_top, config.ignore_input),
        },
    ]
}

/// The command that shows the window of an overlay with this configuration.
pub open spec fn show_command(id: OverlayId, config: OverlayConfig) -> WindowCommand {
    WindowCommand::Show {
        id,
        width: config.width,
        height: config.height,
        font_size: config.text.font_size,
    }
}

/// `c` with its text content replaced.
pub open spec fn with_content(c: OverlayConfig, content: String) -> OverlayConfig {
    OverlayConfig { text: TextConfig { content, ..c.text }, ..c }
}

/// `c` with its text position replaced.
pub open spec fn with_position(c: OverlayConfig, position: (i32, i32)) -> OverlayConfig {
    OverlayConfig { text: TextConfig { position, ..c.text }, ..c }
}

/// Why creating an overlay with this id and configuration fails, if it
/// does: a bad color first, then a value out of range, then a taken id.
pub open spec fn creation_error(
    overlays: Map<Seq<char>, OverlayConfig>,
    id: OverlayId,
    config: OverlayConfig,
) -> Option<OverlayError> {
    if !is_valid_spec(config.text.color@) {
        Some(OverlayError::InvalidColor(config.text.color))
    } else if input_problem(config) is Some {
        Some(OverlayError::InvalidInput(input_problem(config)->0))
    } else if overlays.contains_key(id@) {
        Some(OverlayError::DuplicateId(id))
    } else {
        None
    }
}

/// The hyphenated form of a UUID: 8-4-4-4-12 lower-case hex digits.
pub open spec fn is_hyphenated_uuid(s: Seq<char>) -> bool {
    &&& s.len() == 36
    &&& forall|i: int|
        0 <= i < 36 ==> if i == 8 || i == 13 || i == 18 || i == 23 {
            s[i] == '-'
        } else {
            ('0' <= #[trigger] s[i] && s[i] <= '9') || ('a' <= s[i] && s[i] <= 'f')
        }
}

/// Relies on `uuid::Uuid::new_v4`, a random version-4 UUID, written by its
/// `Display` impl (`LowerHex` of the hyphenated form).
#[verifier::external_body]
fn fresh_overlay_id() -> (r: OverlayId)
    ensures
        is_hyphenated_uuid(r@),
{
    uuid::Uuid::new_v4().to_string()
}

/// What the GUI thread reports once it has run a batch of commands, or what
/// the caller concludes when no report came.
#[derive(Debug)]
pub enum WindowReport {
    /// Every command ran.
    Applied,
    /// The toolkit or the windowing system refused a command: this message.
    Failed(String),
    /// The batch never reached the GUI thread, or no report came back.
    Unreachable(String),
}

/// The outcome of a batch of commands for the caller that issued it: a
/// refusal is a platform error, a lost hand-off an event queue error.
pub fn settle_window_report(report: WindowReport) -> (r: Result<(), OverlayError>)
    ensures
        r == match report {
            WindowReport::Applied => Ok::<(), OverlayError>(()),
            WindowReport::Failed(m) => Err(OverlayError::PlatformError(m)),
            WindowReport::Unreachable(m) => Err(OverlayError::EventQueueError(m)),
        },
{
    match report {
        WindowReport::Applied => Ok(()),
        WindowReport::Failed(m) => Err(OverlayError::PlatformError(m)),
        WindowReport::Unreachable(m) => Err(OverlayError::EventQueueError(m)),
    }
}

/// Overlays and the commands that their windows still await.
pub struct OverlayManager {
    registry: OverlayRegistry,
    pending: Vec<WindowCommand>,
}

impl OverlayManager {
    /// The manager's invariant.
    pub closed spec fn wf(&self) -> bool {
        self.registry.wf()
    }

    /// The configuration of each overlay, by id.
    pub closed spec fn overlays(&self) -> Map<Seq<char>, OverlayConfig> {
        self.registry@
    }

    /// The commands not yet taken for the GUI thread, oldest first.
    pub closed spec fn pending(&self) -> Seq<WindowCommand> {
        self.pending@
    }

    /// `self` holds the same overlays and commands as `other`.
    pub open spec fn same_state(&self, other: &Self) -> bool {
        self.overlays() == other.overlays() && self.pending() == other.pending()
    }

    /// A manager with no overlays.
    pub fn new() -> (r: Self)
        ensures
            r.wf(),
            r.overlays() == Map::<Seq<char>, OverlayConfig>::empty(),
            r.pending() == Seq::<WindowCommand>::empty(),
    {
        OverlayManager { registry: OverlayRegistry::new(), pending: Vec::new() }
    }

    /// Registers a new overlay under `id` and queues the making of its window.
    ///
    /// Fails, changing nothing, with `InvalidColor` when the text color is
    /// not a valid color string, with `InvalidInput` when a dimension or the
    /// font size is out of range, and with `DuplicateId` when `id` is taken.
    pub fn create_overlay_with_id(&mut self, id: OverlayId, config: OverlayConfig) -> (r: Result<
        OverlayId,
        OverlayError,
    >)
        requires
            old(self).wf(),
        ensures
            final(self).wf(),
            match creation_error(old(self).overlays(), id, config) {
                Some(e) => r == Err::<OverlayId, OverlayError>(e) && final(self).same_state(old(self)),
                None => {
                    &&& r == Ok::<OverlayId, OverlayError>(id)
                    &&& final(self).overlays() == old(self).overlays().insert(id@, config)
                    &&& final(self).pending() == old(self).pending() + create_commands(id, config)
                },
            },
    {
        if !is_valid_color(config.text.color.as_str()) {
            return Err(OverlayError::InvalidColor(config.text.color));
        }
        if let Some(problem) = config.check_input() {
            return Err(OverlayError::InvalidInput(problem));
        }
        if self.registry.contains(&id) {
            return Err(OverlayError::DuplicateId(id));
        }
        let argb = hex_to_argb_u32(config.text.color.as_str());
        proof {
            lemma_argb_fits(config.text.color@);
        }
        let style = window_style(config.transparent, config.always_on_top, config.ignore_input);
        let ghost before = self.pending@;
        self.pending.push(
            WindowCommand::Create {
                id: id.clone(),
                content: config.text.content.clone(),
                font_size: config.text.font_size,
                argb,
            },
        );
        self.pending.push(WindowCommand::ApplyStyle { id: id.clone(), style });
        proof {
            assert(self.pending@ =~= before + create_commands(id, config));
        }
        self.registry.insert(id.clone(), config);
        Ok(id)
    }

    /// Creates an overlay under a fresh random id and queues the making of
    /// its window.
    ///
    /// Fails, changing nothing, with `InvalidColor` or `InvalidInput` exactly
    /// as [`creation_error`] says; and with `DuplicateId` only when the random
    /// id is already taken, which cannot happen while no overlay has an id
    /// of a UUID's length.
    pub fn create_overlay(&mut self, config: OverlayConfig) -> (r: Result<OverlayId, OverlayError>)
        requires
            old(self).wf(),
        ensures
            final(self).wf(),
            !is_valid_spec(config.text.color@) ==> {
                &&& r == Err::<OverlayId, OverlayError>(OverlayError::InvalidColor(config.text.color))
                &&& final(self).same_state(old(self))
            },
            is_valid_spec(config.text.color@) && input_problem(config) is Some ==> {
                &&& r == Err::<OverlayId, OverlayError>(
                    OverlayError::InvalidInput(input_problem(config)->0),
                )
                &&& final(self).same_state(old(self))
            },
            is_valid_spec(config.text.color@) && input_problem(config) is None && (forall|k: Seq<
                char,
            >| #[trigger] old(self).overlays().contains_key(k) ==> k.len() != 36) ==> r is Ok,
            match r {
                Ok(id) => {
                    &&& creation_error(old(self).overlays(), id, config) is None
                    &&& is_hyphenated_uuid(id@)
                    &&& final(self).overlays() == old(self).overlays().insert(id@, config)
                    &&& final(self).pending() == old(self).pending() + create_commands(id, config)
                },
                Err(e) => {
                    &&& final(self).same_state(old(self))
                    &&& (e matches OverlayError::DuplicateId(d) ==> is_hyphenated_uuid(d@)
                        && old(self).overlays().contains_key(d@))
                },
            },
    {
        let id = fresh_overlay_id();
        self.create_overlay_with_id(id, config)
    }

    /// Queues showing the overlay's window, with its size and font size
    /// re-applied first.
    pub fn show_overlay(&mut self, overlay_id: &OverlayId) -> (r: Result<(), OverlayError>)
        requires
            old(self).wf(),
        ensures
            final(self).wf(),
            old(self).overlays().contains_key(overlay_id@) ==> {
                &&& r is Ok
                &&& final(self).overlays() == old(self).overlays()
                &&& final(self).pending() == old(self).pending().push(
                    show_command(*overlay_id, old(self).overlays()[overlay_id@]),
                )
            },
            !old(self).overlays().contains_key(overlay_id@) ==> {
                &&& r == Err::<(), OverlayError>(OverlayError::OverlayNotFound(*overlay_id))
                &&& final(self).same_state(old(self))
            },
    {
        match self.registry.get(overlay_id) {
            Some(config) => {
                let command = WindowCommand::Show {
                    id: overlay_id.clone(),
                    width: config.width,
                    height: config.height,
                    font_size: config.text.font_size,
                };
                self.pending.push(command);
                Ok(())
            },
            None => Err(OverlayError::OverlayNotFound(overlay_id.clone())),
        }
    }

    /// Queues hiding the overlay's window.
    pub fn hide_overlay(&mut self, overlay_id: &OverlayId) -> (r: Result<(), OverlayError>)
        requires
            old(self).wf(),
        ensures
            final(self).wf(),
            old(self).overlays().contains_key(overlay_id@) ==> {
                &&& r is Ok
                &&& final(self).overlays() == old(self).overlays()
                &&& final(self).pending() == old(self).pending().push(
                    (WindowCommand::Hide { id: *overlay_id }),
                )
            },
            !old(self).overlays().contains_key(overlay_id@) ==> {
                &&& r == Err::<(), OverlayError>(OverlayError::OverlayNotFound(*overlay_id))
                &&& final(self).same_state(old(self))
            },
    {
        if self.registry.contains(overlay_id) {
            self.pending.push(WindowCommand::Hide { id: overlay_id.clone() });
            Ok(())
        } else {
            Err(OverlayError::OverlayNotFound(overlay_id.clone()))
        }
    }

    /// Replaces the overlay's text in its stored configuration and queues the
    /// same change for its window. An unknown id is an error.
    pub fn update_text(&mut self, overlay_id: &OverlayId, text: &str) -> (r: Result<(), OverlayError>)
        requires
            old(self).wf(),
        ensures
            final(self).wf(),
            old(self).overlays().contains_key(overlay_id@) ==> {
                let content = final(self).overlays()[overlay_id@].text.content;
                &&& r is Ok
                &&& content@ == text@
                &&& final(self).overlays() == old(self).overlays().insert(
                    overlay_id@,
                    with_content(old(self).overlays()[overlay_id@], content),
                )
                &&& final(self).pending() == old(self).pending().push(
                    (WindowCommand::SetText { id: *overlay_id, content }),
                )
            },
            !old(self).overlays().contains_key(overlay_id@) ==> {
                &&& r == Err::<(), OverlayError>(OverlayError::OverlayNotFound(*overlay_id))
                &&& final(self).same_state(old(self))
            },
    {
        match self.registry.get(overlay_id) {
            Some(stored) => {
                let mut config = stored.clone();
                let content = String::from_str(text);
                config.text.content = content.clone();
                self.registry.insert(overlay_id.clone(), config);
                self.pending.push(WindowCommand::SetText { id: overlay_id.clone(), content });
                Ok(())
            },
            None => Err(OverlayError::OverlayNotFound(overlay_id.clone())),
        }
    }

    /// Records a new text position in the overlay's stored configuration.
    ///
    /// The window itself is not moved: no command is queued.
    pub fn update_position(&mut self, overlay_id: &OverlayId, x: i32, y: i32) -> (r: Result<
        (),
        OverlayError,
    >)
        requires
            old(self).wf(),
        ensures
            final(self).wf(),
            old(self).overlays().contains_key(overlay_id@) ==> {
                &&& r is Ok
                &&& final(self).overlays() == old(self).overlays().insert(
                    overlay_id@,
                    with_position(old(self).overlays()[overlay_id@], (x, y)),
                )
                &&& final(self).pending() == old(self).pending()
            },
            !old(self).overlays().contains_key(overlay_id@) ==> {
                &&& r == Err::<(), OverlayError>(OverlayError::OverlayNotFound(*overlay_id))
                &&& final(self).same_state(old(self))
            },
    {
        match self.registry.get(overlay_id) {
            Some(stored) => {
                let mut config = stored.clone();
                config.text.position = (x, y);
                self.registry.insert(overlay_id.clone(), config);
                Ok(())
            },
            None => Err(OverlayError::OverlayNotFound(overlay_id.clone())),
        }
    }

    /// Takes the overlay out of the registry at once, and queues the release
    /// of its window for the GUI thread.
    pub fn remove_overlay(&mut self, overlay_id: &OverlayId) -> (r: Result<(), OverlayError>)
        requires
            old(self).wf(),
        ensures
            final(self).wf(),
            old(self).overlays().contains_key(overlay_id@) ==> {
                &&& r is Ok
                &&& final(self).overlays() == old(self).overlays().remove(overlay_id@)
                &&& final(self).pending() == old(self).pending().push(
                    (WindowCommand::Release { id: *overlay_id }),
                )
            },
            !old(self).overlays().contains_key(overlay_id@) ==> {
                &&& r == Err::<(), OverlayError>(OverlayError::OverlayNotFound(*overlay_id))
                &&& final(self).same_state(old(self))
            },
    {
        match self.registry.remove(overlay_id) {
            Some(_) => {
                self.pending.push(WindowCommand::Release { id: overlay_id.clone() });
                Ok(())
            },
            None => Err(OverlayError::OverlayNotFound(overlay_id.clone())),
        }
    }

    /// The ids of all overlays, each once.
    pub fn list_overlays(&self) -> (r: Vec<OverlayId>)
        requires
            self.wf(),
        ensures
            ids_view(r@).to_set() == self.overlays().dom(),
            ids_view(r@).no_duplicates(),
    {
        self.registry.list_ids()
    }

    /// The stored configuration of an overlay.
    pub fn get_overlay_config(&self, overlay_id: &OverlayId) -> (r: Result<OverlayConfig, OverlayError>)
        requires
            self.wf(),
        ensures
            self.overlays().contains_key(overlay_id@) ==> r == Ok::<OverlayConfig, OverlayError>(
                self.overlays()[overlay_id@],
            ),
            !self.overlays().contains_key(overlay_id@) ==> r == Err::<OverlayConfig, OverlayError>(
                OverlayError::OverlayNotFound(*overlay_id),
            ),
    {
        match self.registry.get(overlay_id) {
            Some(config) => Ok(config.clone()),
            None => Err(OverlayError::OverlayNotFound(overlay_id.clone())),
        }
    }

    /// Hands over the queued commands, oldest first, and empties the queue.
    pub fn take_commands(&mut self) -> (r: Vec<WindowCommand>)
        requires
            old(self).wf(),
        ensures
            final(self).wf(),
            r@ == old(self).pending(),
            final(self).overlays() == old(self).overlays(),
            final(self).pending() == Seq::<WindowCommand>::empty(),
    {
        let mut taken: Vec<WindowCommand> = Vec::new();
        std::mem::swap(&mut self.pending, &mut taken);
        taken
    }
}

/// A stored configuration with the text that its window shows now, when
/// the window could be asked: the live text wins over the stored copy.
pub fn with_live_text(config: OverlayConfig, live: Option<String>) -> (r: OverlayConfig)
    ensures
        r == (match live {
            Some(t) => with_content(config, t),
            None => config,
        }),
{
    let mut config = config;
    if let Some(t) = live {
        config.text.content = t;
    }
    config
}

/// The configuration of a quick text overlay: `text` at `(x, y)` in a
/// `width` by `height` window, 24-pixel opaque white text, transparent,
/// always on top and ignoring input.
pub open spec fn is_text_overlay_config(
    c: OverlayConfig,
    text: Seq<char>,
    x: i32,
    y: i32,
    width: i32,
    height: i32,
) -> bool {
    &&& c.text.content@ == text
    &&& c.text.font_size == (FontSize { bits: DEFAULT_FONT_SIZE_BITS })
    &&& c.text.color@ == seq!['#', 'F', 'F', 'F', 'F', 'F', 'F', 'F', 'F']
    &&& c.text.position == (x, y)
    &&& c.width == width
    &&& c.height == height
    &&& c.transparent
    &&& c.always_on_top
    &&& c.ignore_input
}

/// Creates a quick text overlay and queues showing it.
///
/// Fails, changing nothing, with `InvalidInput` when the width or the height
/// is not positive; and with `DuplicateId` only when the random id is
/// already taken, which cannot happen while no overlay has an id of a
/// UUID's length.
pub fn create_text_overlay(
    manager: &mut OverlayManager,
    text: &str,
    x: i32,
    y: i32,
    width: i32,
    height: i32,
) -> (r: Result<OverlayId, OverlayError>)
    requires
        old(manager).wf(),
    ensures
        final(manager).wf(),
        match r {
            Ok(id) => {
                let c = final(manager).overlays()[id@];
                &&& is_text_overlay_config(c, text@, x, y, width, height)
                &&& !old(manager).overlays().contains_key(id@)
                &&& final(manager).overlays() == old(manager).overlays().insert(id@, c)
                &&& final(manager).pending() == (old(manager).pending() + create_commands(
                    id,
                    c,
                )).push(show_command(id, c))
            },
            Err(e) => {
                &&& final(manager).same_state(old(manager))
                &&& (e matches OverlayError::DuplicateId(d) ==> is_hyphenated_uuid(d@)
                    && old(manager).overlays().contains_key(d@))
            },
        },
        width <= 0 ==> r == Err::<OverlayId, OverlayError>(
            OverlayError::InvalidInput(InputProblem::Width(width)),
        ),
        width > 0 && height <= 0 ==> r == Err::<OverlayId, OverlayError>(
            OverlayError::InvalidInput(InputProblem::Height(height)),
        ),
        width > 0 && height > 0 && (forall|k: Seq<char>| #[trigger]
            old(manager).overlays().contains_key(k) ==> k.len() != 36) ==> r is Ok,
{
    proof {
        reveal_strlit("#FFFFFFFF");
    }
    let color = String::from_str("#FFFFFFFF");
    proof {
        let d = digits_of(color@);
        assert(color@ =~= seq!['#', 'F', 'F', 'F', 'F', 'F', 'F', 'F', 'F']);
        assert(d =~= seq!['F', 'F', 'F', 'F', 'F', 'F', 'F', 'F']);
        assert(is_valid_spec(color@));
    }
    let config = OverlayConfig {
        text: TextConfig {
            content: String::from_str(text),
            font_size: FontSize { bits: DEFAULT_FONT_SIZE_BITS },
            color,
            position: (x, y),
        },
        width,
        height,
        transparent: true,
        always_on_top: true,
        ignore_input: true,
    };
    let ghost c = config;
    match manager.create_overlay(config) {
        Ok(id) => {
            let shown = manager.show_overlay(&id);
            assert(shown is Ok);
            Ok(id)
        },
        Err(e) => Err(e),
    }
}

/// Replaces an overlay's text and queues showing it, in case it was hidden.
///
/// Lenient: an unknown id changes nothing. Returns whether the overlay
/// existed.
pub fn update_overlay_text(manager: &mut OverlayManager, overlay_id: &OverlayId, text: &str) -> (r:
    bool)
    requires
        old(manager).wf(),
    ensures
        final(manager).wf(),
        r == old(manager).overlays().contains_key(overlay_id@),
        r ==> {
            let c = final(manager).overlays()[overlay_id@];
            &&& c.text.content@ == text@
            &&& c == with_content(old(manager).overlays()[overlay_id@], c.text.content)
            &&& final(manager).overlays() == old(manager).overlays().insert(overlay_id@, c)
            &&& final(manager).pending() == old(manager).pending().push(
                (WindowCommand::SetText { id: *overlay_id, content: c.text.content }),
            ).push(show_command(*overlay_id, c))
        },
        !r ==> final(manager).same_state(old(manager)),
{
    match manager.update_text(overlay_id, text) {
        Ok(()) => {
            let shown = manager.show_overlay(overlay_id);
            assert(shown is Ok);
            true
        },
        Err(_) => false,
    }
}

/// Removes an overlay and queues the release of its window.
///
/// Lenient: an unknown id changes nothing. Returns whether the overlay
/// existed.
pub fn remove_overlay(manager: &mut OverlayManager, overlay_id: &OverlayId) -> (r: bool)
    requires
        old(manager).wf(),
    ensures
        final(manager).wf(),
        r == old(manager).overlays().contains_key(overlay_id@),
        r ==> final(manager).overlays() == old(manager).overlays().remove(overlay_id@)
            && final(manager).pending() == old(manager).pending().push(
            (WindowCommand::Release { id: *overlay_id }),
        ),
        !r ==> final(manager).same_state(old(manager)),
{
    manager.remove_overlay(overlay_id).is_ok()
}

/// Once an overlay is created and removed again, no listing holds its id,
/// although the release of its window may still wait in the queue.
pub proof fn lemma_removed_overlay_not_listed(
    before: OverlayManager,
    created: OverlayManager,
    removed: OverlayManager,
    id: OverlayId,
    config: OverlayConfig,
    listed: Seq<OverlayId>,
)
    requires
        created.overlays() == before.overlays().insert(id@, config),
        created.pending() == before.pending() + create_commands(id, config),
        removed.overlays() == created.overlays().remove(id@),
        removed.pending() == created.pending().push((WindowCommand::Release { id })),
        ids_view(listed).to_set() == removed.overlays().dom(),
    ensures
        !ids_view(listed).contains(id@),
        removed.pending().last() == (WindowCommand::Release { id }),
        removed.pending().len() == before.pending().len() + 3,
{
    if ids_view(listed).contains(id@) {
        assert(ids_view(listed).to_set().contains(id@));
    }
}

proof fn lemma_created_stay(states: Seq<OverlayManager>, ids: Seq<OverlayId>, configs: Seq<OverlayConfig>, j: int)
    requires
        states.len() == ids.len() + 1,
        configs.len() == ids.len(),
        forall|i: int|
            0 <= i < ids.len() ==> #[trigger] states[i + 1].overlays() == states[i].overlays().insert(
                ids[i]@,
                configs[i],
            ),
        0 <= j <= ids.len(),
    ensures
        forall|i: int| 0 <= i < j ==> #[trigger] states[j].overlays().contains_key(ids[i]@),
    decreases j,
{
    if j > 0 {
        lemma_created_stay(states, ids, configs, j - 1);
        let k = j - 1;
        assert(states[k + 1].overlays() == states[k].overlays().insert(ids[k]@, configs[k]));
        assert forall|i: int| 0 <= i < j implies #[trigger] states[j].overlays().contains_key(
            ids[i]@,
        ) by {
            if i < j - 1 {
                assert(states[j - 1].overlays().contains_key(ids[i]@));
            }
        }
    }
}

proof fn lemma_created_domain(states: Seq<OverlayManager>, ids: Seq<OverlayId>, configs: Seq<OverlayConfig>, j: int)
    requires
        states.len() == ids.len() + 1,
        configs.len() == ids.len(),
        forall|i: int|
            0 <= i < ids.len() ==> #[trigger] states[i + 1].overlays() == states[i].overlays().insert(
                ids[i]@,
                configs[i],
            ),
        0 <= j <= ids.len(),
    ensures
        states[j].overlays().dom() == states[0].overlays().dom().union(
            ids_view(ids.subrange(0, j)).to_set(),
        ),
    decreases j,
{
    if j == 0 {
        assert(ids_view(ids.subrange(0, 0)).to_set() =~= Set::<Seq<char>>::empty());
        assert(states[0].overlays().dom().union(Set::<Seq<char>>::empty()) =~= states[0].overlays().dom());
    } else {
        let k = j - 1;
        lemma_created_domain(states, ids, configs, k);
        assert(states[k + 1].overlays() == states[k].overlays().insert(ids[k]@, configs[k]));
        let before = ids_view(ids.subrange(0, k));
        let after = ids_view(ids.subrange(0, j));
        assert(after =~= before.push(ids[k]@));
        assert(after.to_set() =~= before.to_set().insert(ids[k]@)) by {
            assert forall|x: Seq<char>| after.to_set().contains(x) <==> before.to_set().insert(ids[k]@).contains(x) by {
                if after.to_set().contains(x) {
                    let i = choose|i: int| 0 <= i < after.len() && after[i] == x;
                    if i < k {
                        assert(before[i] == x);
                    }
                }
                if before.to_set().contains(x) {
                    let i = choose|i: int| 0 <= i < before.len() && before[i] == x;
                    assert(after[i] == x);
                }
                if x == ids[k]@ {
                    assert(after[k] == x);
                }
            }
        }
        assert(states[j].overlays().dom() =~= states[0].overlays().dom().union(after.to_set()));
    }
}

/// Overlays created one after another get distinct ids, and all of them
/// are listed afterwards. Callers on several threads share the manager
/// behind one lock, so their creations form such a sequence.
pub proof fn lemma_created_ids_distinct(
    states: Seq<OverlayManager>,
    ids: Seq<OverlayId>,
    configs: Seq<OverlayConfig>,
    listed: Seq<OverlayId>,
)
    requires
        states.len() == ids.len() + 1,
        configs.len() == ids.len(),
        forall|i: int| 0 <= i < ids.len() ==> !states[i].overlays().contains_key(#[trigger] ids[i]@),
        forall|i: int|
            0 <= i < ids.len() ==> #[trigger] states[i + 1].overlays() == states[i].overlays().insert(
                ids[i]@,
                configs[i],
            ),
        ids_view(listed).to_set() == states.last().overlays().dom(),
    ensures
        ids_view(ids).no_duplicates(),
        forall|i: int| 0 <= i < ids.len() ==> ids_view(listed).contains(#[trigger] ids[i]@),
        ids_view(listed).to_set() == states[0].overlays().dom().union(ids_view(ids).to_set()),
{
    let n = ids.len() as int;
    lemma_created_stay(states, ids, configs, n);
    lemma_created_domain(states, ids, configs, n);
    assert forall|a: int, b: int| 0 <= a < n && 0 <= b < n && a != b implies ids_view(ids)[a]
        != ids_view(ids)[b] by {
        if a < b {
            lemma_created_stay(states, ids, configs, b);
            assert(states[b].overlays().contains_key(ids[a]@));
        } else {
            lemma_created_stay(states, ids, configs, a);
            assert(states[a].overlays().contains_key(ids[b]@));
        }
    }
    assert(ids.subrange(0, n) =~= ids);
    assert forall|i: int| 0 <= i < n implies ids_view(listed).contains(#[trigger] ids[i]@) by {
        assert(states[n].overlays().contains_key(ids[i]@));
        assert(ids_view(listed).to_set().contains(ids[i]@));
    }
}

/// A removed id is unknown to the manager: `update_text` on it fails with
/// `OverlayNotFound`, and `update_overlay_text` leaves everything as it was.
pub proof fn lemma_removed_overlay_unknown(before: OverlayManager, removed: OverlayManager, id: OverlayId)
    requires
        removed.overlays() == before.overlays().remove(id@),
    ensures
        !removed.overlays().contains_key(id@),
{
}

} // verus!
