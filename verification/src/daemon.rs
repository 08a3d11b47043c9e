//! The picker state machine: which picker is active, whether the window is
//! shown, and what each dequeued message does to both. It runs on the one
//! thread that owns the window; the caller carries out the effect it names.

use vstd::prelude::*;
use crate::config::ConfigLoad;
use crate::message::AppMessage;
use crate::pickers::{Picker, PickerKind, KIND_COUNT};
use crate::queue::MessageQueue;

verus! {

/// What the caller has to do to the outside world after a message.
#[derive(PartialEq, Eq, Structural, Clone, Copy, Debug)]
pub enum Effect {
    /// Nothing.
    Idle,
    /// Show the window.
    ShowWindow,
    /// Hide the window.
    HideWindow,
    /// Read the configuration again and hand it to `apply_config`.
    FetchConfig,
    /// Remove the endpoint, stop accepting connections and leave the event
    /// loop.
    Quit,
}

/// The caller's part of a transition.
#[derive(PartialEq, Eq, Structural, Clone, Copy, Debug)]
pub struct Outcome {
    /// Apply the style sheet before anything else.
    pub restyle: bool,
    pub effect: Effect,
}

/// The daemon's state as plain values.
pub struct DaemonState<P> {
    /// The registry: one picker per real kind, at the kind's index.
    pub pickers: Seq<P>,
    /// The kind last shown and not toggled away since, if any.
    pub active: PickerKind,
    /// Whether the window is shown.
    pub visible: bool,
    /// Whether every toggle re-applies the style sheet.
    pub css_reload: bool,
}

/// Whether the state machine takes the message: pings are answered before
/// they reach the queue, and a toggle must name a real kind.
pub open spec fn dispatchable(message: AppMessage) -> bool {
    match message {
        AppMessage::TogglePicker(kind) => kind.is_real(),
        AppMessage::AppPing => false,
        _ => true,
    }
}

/// What a message asks of the caller in a given state.
pub open spec fn outcome_of<P>(state: DaemonState<P>, message: AppMessage) -> Outcome {
    match message {
        AppMessage::TogglePicker(_) => Outcome {
            restyle: state.css_reload,
            effect: if state.visible {
                Effect::HideWindow
            } else {
                Effect::ShowWindow
            },
        },
        AppMessage::AppReload => Outcome { restyle: true, effect: Effect::FetchConfig },
        AppMessage::AppClose => Outcome { restyle: false, effect: Effect::Quit },
        AppMessage::AppPing => Outcome { restyle: false, effect: Effect::Idle },
    }
}

/// A picker was prepared for being shown, whatever it answered.
pub open spec fn shown<P: Picker>(before: P, previous: PickerKind, after: P) -> bool {
    P::show_post(before, previous, after, true) || P::show_post(before, previous, after, false)
}

/// Relates the states before and after a message.
pub open spec fn transition<P: Picker>(
    before: DaemonState<P>,
    message: AppMessage,
    after: DaemonState<P>,
) -> bool {
    &&& after.css_reload == before.css_reload
    &&& after.pickers.len() == before.pickers.len()
    &&& match message {
        AppMessage::TogglePicker(kind) => if before.visible {
            &&& !after.visible
            &&& after.active == PickerKind::NoPicker
            &&& after.pickers == before.pickers
        } else {
            &&& after.visible
            &&& after.active == kind
            &&& shown(
                before.pickers[kind.index_spec()],
                before.active,
                after.pickers[kind.index_spec()],
            )
            &&& forall|i: int|
                0 <= i < before.pickers.len() && i != kind.index_spec() ==> after.pickers[i]
                    == before.pickers[i]
        },
        _ => after == before,
    }
}

/// A picker took its first configuration; it answered that it is ready,
/// or, where not all pickers are ready, possibly that it is not.
pub open spec fn loaded<P: Picker>(before: P, config: ConfigLoad, after: P, all_ready: bool) -> bool {
    P::load_post(before, config, after, true) || (!all_ready && P::load_post(
        before,
        config,
        after,
        false,
    ))
}

/// The registry holds one picker per real kind, each at its kind's index.
pub open spec fn registry_valid<P: Picker>(pickers: Seq<P>) -> bool {
    &&& pickers.len() == KIND_COUNT
    &&& forall|i: int| 0 <= i < pickers.len() ==> (#[trigger] pickers[i]).kind_spec() == PickerKind::all()[i]
}

/// The picker state machine.
pub struct Daemon<P: Picker> {
    pickers: Vec<P>,
    active: PickerKind,
    visible: bool,
    css_reload: bool,
}

impl<P: Picker> View for Daemon<P> {
    type V = DaemonState<P>;

    closed spec fn view(&self) -> DaemonState<P> {
        DaemonState {
            pickers: self.pickers@,
            active: self.active,
            visible: self.visible,
            css_reload: self.css_reload,
        }
    }
}

impl<P: Picker> Daemon<P> {
    /// The state is well formed: the registry is complete and in order.
    pub open spec fn wf(&self) -> bool {
        registry_valid(self@.pickers)
    }

    /// A daemon over a freshly built registry: window hidden, no picker
    /// active. Hands the registry back when it is not one picker per real
    /// kind in the kinds' order.
    pub fn new(pickers: Vec<P>, css_reload: bool) -> (daemon: Result<Self, Vec<P>>)
        ensures
            registry_valid(pickers@) <==> daemon.is_ok(),
            match daemon {
                Ok(d) => d.wf() && d@ == (DaemonState {
                    pickers: pickers@,
                    active: PickerKind::NoPicker,
                    visible: false,
                    css_reload,
                }),
                Err(rejected) => rejected == pickers,
            },
    {
        let kinds = PickerKind::variants();
        if pickers.len() != kinds.len() {
            return Err(pickers);
        }
        let mut i: usize = 0;
        while i < pickers.len()
            invariant
                0 <= i <= pickers@.len(),
                pickers@.len() == KIND_COUNT,
                kinds@ == PickerKind::all(),
                forall|k: int| 0 <= k < i ==> (#[trigger] pickers@[k]).kind_spec() == PickerKind::all()[k],
            decreases pickers.len() - i,
        {
            if pickers[i].kind() != kinds[i] {
                return Err(pickers);
            }
            i = i + 1;
        }
        Ok(Daemon { pickers, active: PickerKind::NoPicker, visible: false, css_reload })
    }

    /// Whether the window is shown.
    pub fn is_visible(&self) -> (visible: bool)
        ensures
            visible == self@.visible,
    {
        self.visible
    }

    /// The active kind, `NoPicker` when there is none.
    pub fn active(&self) -> (kind: PickerKind)
        ensures
            kind == self@.active,
    {
        self.active
    }

    /// Whether every toggle re-applies the style sheet.
    pub fn css_reload(&self) -> (on: bool)
        ensures
            on == self@.css_reload,
    {
        self.css_reload
    }

    /// The registry entry of a real kind.
    pub fn picker(&self, kind: PickerKind) -> (picker: &P)
        requires
            self.wf(),
            kind.is_real(),
        ensures
            *picker == self@.pickers[kind.index_spec()],
            picker.kind_spec() == kind,
    {
        let i: usize = kind.index() as usize;
        &self.pickers[i]
    }

    /// Whether `dispatch` takes the message.
    pub fn accepts(message: &AppMessage) -> (ok: bool)
        ensures
            ok == dispatchable(*message),
    {
        match message {
            AppMessage::TogglePicker(kind) => kind.index() < KIND_COUNT,
            AppMessage::AppPing => false,
            _ => true,
        }
    }

    /// Processes one dequeued message.
    ///
    /// A toggle hides a shown window and forgets the active picker; on a
    /// hidden window it prepares the named picker, makes it the active one
    /// and shows the window. A reload and a close change nothing here: they
    /// ask the caller to fetch the configuration or to shut down.
    pub fn dispatch(&mut self, message: AppMessage) -> (outcome: Outcome)
        requires
            old(self).wf(),
            dispatchable(message),
        ensures
            final(self).wf(),
            transition(old(self)@, message, final(self)@),
            outcome == outcome_of(old(self)@, message),
    {
        match message {
            AppMessage::TogglePicker(kind) => {
                let restyle = self.css_reload;
                if self.visible {
                    self.visible = false;
                    self.active = PickerKind::NoPicker;
                    Outcome { restyle, effect: Effect::HideWindow }
                } else {
                    let i: usize = kind.index() as usize;
                    let previous = self.active;
                    let _switched = self.pickers[i].show(previous);
                    self.active = kind;
                    self.visible = true;
                    Outcome { restyle, effect: Effect::ShowWindow }
                }
            },
            AppMessage::AppReload => Outcome { restyle: true, effect: Effect::FetchConfig },
            AppMessage::AppClose => Outcome { restyle: false, effect: Effect::Quit },
            AppMessage::AppPing => Outcome { restyle: false, effect: Effect::Idle },
        }
    }

    /// Hands a configuration to every picker of the registry, shown or not,
    /// and takes over its styling flag. Visibility and the active picker
    /// stay as they are.
    pub fn apply_config(&mut self, config: &ConfigLoad)
        requires
            old(self).wf(),
        ensures
            final(self).wf(),
            final(self)@.visible == old(self)@.visible,
            final(self)@.active == old(self)@.active,
            final(self)@.css_reload == config.css_reload,
            final(self)@.pickers.len() == old(self)@.pickers.len(),
            forall|i: int|
                0 <= i < old(self)@.pickers.len() ==> P::reload_post(
                    old(self)@.pickers[i],
                    *config,
                    #[trigger] final(self)@.pickers[i],
                ),
    {
        let mut i: usize = 0;
        while i < self.pickers.len()
            invariant
                0 <= i <= self.pickers@.len(),
                self.pickers@.len() == old(self).pickers@.len(),
                self.active == old(self).active,
                self.visible == old(self).visible,
                self.css_reload == old(self).css_reload,
                registry_valid(self.pickers@),
                forall|k: int|
                    0 <= k < i ==> P::reload_post(
                        old(self).pickers@[k],
                        *config,
                        #[trigger] self.pickers@[k],
                    ),
                forall|k: int|
                    i <= k < self.pickers@.len() ==> #[trigger] self.pickers@[k] == old(
                        self,
                    ).pickers@[k],
            decreases self.pickers.len() - i,
        {
            self.pickers[i].reload(config);
            i = i + 1;
        }
        self.css_reload = config.css_reload;
    }

    /// Loads every picker of the registry with its first configuration.
    /// Answers whether all of them are ready.
    pub fn load(&mut self, config: &ConfigLoad) -> (ready: bool)
        requires
            old(self).wf(),
        ensures
            final(self).wf(),
            final(self)@.visible == old(self)@.visible,
            final(self)@.active == old(self)@.active,
            final(self)@.css_reload == config.css_reload,
            final(self)@.pickers.len() == old(self)@.pickers.len(),
            forall|i: int|
                0 <= i < old(self)@.pickers.len() ==> loaded(
                    old(self)@.pickers[i],
                    *config,
                    #[trigger] final(self)@.pickers[i],
                    ready,
                ),
    {
        let mut ready = true;
        let mut i: usize = 0;
        while i < self.pickers.len()
            invariant
                0 <= i <= self.pickers@.len(),
                self.pickers@.len() == old(self).pickers@.len(),
                self.active == old(self).active,
                self.visible == old(self).visible,
                self.css_reload == old(self).css_reload,
                registry_valid(self.pickers@),
                forall|k: int|
                    0 <= k < i ==> loaded(
                        old(self).pickers@[k],
                        *config,
                        #[trigger] self.pickers@[k],
                        ready,
                    ),
                forall|k: int|
                    i <= k < self.pickers@.len() ==> #[trigger] self.pickers@[k] == old(
                        self,
                    ).pickers@[k],
            decreases self.pickers.len() - i,
        {
            let ok = self.pickers[i].load(config);
            if !ok {
                ready = false;
            }
            i = i + 1;
        }
        self.css_reload = config.css_reload;
        ready
    }

    /// A picker reports that it is done, or the window was asked to close:
    /// the window is hidden. The active picker stays, so that showing it
    /// again need not switch it in.
    pub fn picker_done(&mut self) -> (outcome: Outcome)
        ensures
            final(self)@ == (DaemonState { visible: false, ..old(self)@ }),
            outcome == (Outcome { restyle: false, effect: Effect::HideWindow }),
            old(self).wf() ==> final(self).wf(),
    {
        self.visible = false;
        Outcome { restyle: false, effect: Effect::HideWindow }
    }

    /// One pass of the idle loop: takes at most one message from the queue
    /// and processes it completely. With nothing waiting, nothing changes.
    pub fn tick(&mut self, queue: &mut MessageQueue) -> (outcome: Outcome)
        requires
            old(self).wf(),
            old(queue)@.len() > 0 ==> dispatchable(old(queue)@[0]),
        ensures
            final(self).wf(),
            old(queue)@.len() == 0 ==> final(queue)@ == old(queue)@ && final(self)@ == old(self)@
                && outcome == (Outcome { restyle: false, effect: Effect::Idle }),
            old(queue)@.len() > 0 ==> final(queue)@ == old(queue)@.skip(1) && transition(
                old(self)@,
                old(queue)@[0],
                final(self)@,
            ) && outcome == outcome_of(old(self)@, old(queue)@[0]),
    {
        match queue.pop() {
            Some(message) => self.dispatch(message),
            None => Outcome { restyle: false, effect: Effect::Idle },
        }
    }
}

/// Toggling a hidden window shows the named picker and makes it the active
/// one; the next toggle, whatever it names, hides the window again, forgets
/// the active picker and leaves every picker as it was.
pub proof fn lemma_toggle_shows_then_hides<P: Picker>(
    hidden: DaemonState<P>,
    first: PickerKind,
    shown_state: DaemonState<P>,
    second: PickerKind,
    last: DaemonState<P>,
)
    requires
        !hidden.visible,
        transition(hidden, AppMessage::TogglePicker(first), shown_state),
        transition(shown_state, AppMessage::TogglePicker(second), last),
    ensures
        shown_state.visible,
        shown_state.active == first,
        outcome_of(hidden, AppMessage::TogglePicker(first)).effect == Effect::ShowWindow,
        !last.visible,
        last.active == PickerKind::NoPicker,
        last.pickers == shown_state.pickers,
        outcome_of(shown_state, AppMessage::TogglePicker(second)).effect == Effect::HideWindow,
{
}

/// A reload or a close changes neither what is visible nor which picker is
/// active nor any picker: the state stays as it is.
pub proof fn lemma_reload_keeps_state<P: Picker>(
    before: DaemonState<P>,
    message: AppMessage,
    after: DaemonState<P>,
)
    requires
        message == AppMessage::AppReload || message == AppMessage::AppClose,
        transition(before, message, after),
    ensures
        after == before,
{
}

/// At most one picker is active at any time, and none while the window has
/// been toggled away: after any message the active kind is the sentinel or
/// the kind just toggled in, or it is the one that was active before.
pub proof fn lemma_active_follows_toggle<P: Picker>(
    before: DaemonState<P>,
    message: AppMessage,
    after: DaemonState<P>,
)
    requires
        transition(before, message, after),
    ensures
        match message {
            AppMessage::TogglePicker(kind) => after.visible != before.visible && after.active == if before.visible {
                PickerKind::NoPicker
            } else {
                kind
            },
            _ => after.visible == before.visible && after.active == before.active,
        },
{
}

/// Whether the window is shown after `messages`, given whether it was
/// shown before: every toggle flips it, nothing else touches it.
pub open spec fn visible_after(visible: bool, messages: Seq<AppMessage>) -> bool
    decreases messages.len(),
{
    if messages.len() == 0 {
        visible
    } else {
        let before = visible_after(visible, messages.drop_last());
        if messages.last() is TogglePicker {
            !before
        } else {
            before
        }
    }
}

/// `states` are the states that the daemon passes through while it
/// processes `messages` one after the other.
pub open spec fn run<P: Picker>(states: Seq<DaemonState<P>>, messages: Seq<AppMessage>) -> bool {
    &&& states.len() == messages.len() + 1
    &&& forall|i: int|
        0 <= i < messages.len() ==> transition(#[trigger] states[i], messages[i], states[i + 1])
}

/// However many messages the daemon processes, the window is shown exactly
/// when an odd number of toggles arrived since it was hidden, and the
/// styling flag and the size of the registry never change.
pub proof fn lemma_visibility_follows_toggles<P: Picker>(
    states: Seq<DaemonState<P>>,
    messages: Seq<AppMessage>,
)
    requires
        run(states, messages),
    ensures
        states.last().visible == visible_after(states[0].visible, messages),
        states.last().css_reload == states[0].css_reload,
        states.last().pickers.len() == states[0].pickers.len(),
    decreases messages.len(),
{
    if messages.len() > 0 {
        let n = messages.len() as int;
        let earlier = states.drop_last();
        let sent = messages.drop_last();
        assert forall|i: int| 0 <= i < sent.len() implies transition(
            #[trigger] earlier[i],
            sent[i],
            earlier[i + 1],
        ) by {
            assert(transition(states[i], messages[i], states[i + 1]));
        }
        lemma_visibility_follows_toggles(earlier, sent);
        assert(transition(states[n - 1], messages[n - 1], states[n]));
        assert(earlier.last() == states[n - 1]);
    }
}

} // verus!
