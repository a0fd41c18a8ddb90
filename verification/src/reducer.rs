//! Presentation-side state and its event reducer.
//!
//! The reducer consumes events published by the coordination loop and is the
//! only writer of the presentation state. Its debounce rule: while the hold
//! counter is positive, polling-derived updates decrement it and must not
//! overwrite the status message; a completion sets the counter to a fixed
//! constant.

use vstd::prelude::*;

verus! {

/// How many poll cycles a completion message survives before polling
/// regains control of the status message.
pub const HOLD_TICKS: u8 = 5;

/// Number of animation frames in one ripple cycle.
pub const ANIM_FRAMES: u8 = 12;

/// An event published by the coordination loop. The started event carries
/// the lifecycle state observed when the command was taken up; the reducer
/// derives its transitional text from its locally held pre-toggle state,
/// so the two agree whenever the presentation has seen the latest poll.
pub enum HotspotEvent {
    StatusUpdate { active: bool, clients: Vec<String> },
    ToggleStarted { pre_active: bool },
    ToggleComplete(Result<String, String>),
}

/// Mathematical model of an event.
pub ghost enum EventModel {
    StatusUpdate { active: bool, clients: Seq<Seq<char>> },
    ToggleStarted { pre_active: bool },
    ToggleComplete(Result<Seq<char>, Seq<char>>),
}

impl View for HotspotEvent {
    type V = EventModel;

    open spec fn view(&self) -> EventModel {
        match self {
            HotspotEvent::StatusUpdate { active, clients } => EventModel::StatusUpdate {
                active: *active,
                clients: clients@.map_values(|s: String| s@),
            },
            HotspotEvent::ToggleStarted { pre_active } => EventModel::ToggleStarted {
                pre_active: *pre_active,
            },
            HotspotEvent::ToggleComplete(r) => EventModel::ToggleComplete(
                match r {
                    Ok(m) => Ok(m@),
                    Err(e) => Err(e@),
                },
            ),
        }
    }
}

/// The state behind the indicator and its popup.
pub struct AppletState {
    pub hotspot_active: bool,
    pub is_toggling: bool,
    pub status_message: String,
    pub status_hold_ticks: u8,
    pub connected_clients: Vec<String>,
    pub anim_frame: u8,
}

/// Mathematical model of the presentation state.
pub ghost struct StateModel {
    pub hotspot_active: bool,
    pub is_toggling: bool,
    pub status_message: Seq<char>,
    pub status_hold_ticks: nat,
    pub connected_clients: Seq<Seq<char>>,
    pub anim_frame: nat,
}

impl View for AppletState {
    type V = StateModel;

    open spec fn view(&self) -> StateModel {
        StateModel {
            hotspot_active: self.hotspot_active,
            is_toggling: self.is_toggling,
            status_message: self.status_message@,
            status_hold_ticks: self.status_hold_ticks as nat,
            connected_clients: self.connected_clients@.map_values(|s: String| s@),
            anim_frame: self.anim_frame as nat,
        }
    }
}

/// Poll-derived text for a lifecycle state.
pub open spec fn status_text(active: bool) -> Seq<char> {
    if active {
        "Active"@
    } else {
        "Inactive"@
    }
}

/// Text shown while a toggle is in flight, named after the pre-toggle
/// lifecycle state.
pub open spec fn toggling_text(pre_active: bool) -> Seq<char> {
    if pre_active {
        "Stopping..."@
    } else {
        "Starting..."@
    }
}

/// Text shown once a toggle completed.
pub open spec fn completion_text(r: Result<Seq<char>, Seq<char>>) -> Seq<char> {
    match r {
        Ok(m) => m,
        Err(e) => "Error: "@ + e,
    }
}

/// The state just after start-up, before any event arrived.
pub open spec fn initial_state(initial_active: bool) -> StateModel {
    StateModel {
        hotspot_active: initial_active,
        is_toggling: false,
        status_message: status_text(initial_active),
        status_hold_ticks: 0,
        connected_clients: Seq::empty(),
        anim_frame: 0,
    }
}

/// The reducer, as one total function from state and event to state.
pub open spec fn apply_event_spec(s: StateModel, e: EventModel) -> StateModel {
    match e {
        EventModel::StatusUpdate { active, clients } => StateModel {
            hotspot_active: active,
            connected_clients: clients,
            status_hold_ticks: if s.status_hold_ticks > 0 {
                (s.status_hold_ticks - 1) as nat
            } else {
                0
            },
            status_message: if s.status_hold_ticks > 0 {
                s.status_message
            } else if !s.is_toggling {
                status_text(active)
            } else {
                s.status_message
            },
            ..s
        },
        EventModel::ToggleStarted { .. } => StateModel {
            is_toggling: true,
            status_message: toggling_text(s.hotspot_active),
            ..s
        },
        EventModel::ToggleComplete(r) => StateModel {
            is_toggling: false,
            status_hold_ticks: HOLD_TICKS as nat,
            status_message: completion_text(r),
            ..s
        },
    }
}

/// The reducer folded over a sequence of events, oldest first.
pub open spec fn apply_events_spec(s: StateModel, es: Seq<EventModel>) -> StateModel
    decreases es.len(),
{
    if es.len() == 0 {
        s
    } else {
        apply_events_spec(apply_event_spec(s, es[0]), es.drop_first())
    }
}

/// Animation: the frame cursor advances modulo the cycle length only
/// while the hotspot is active.
pub open spec fn anim_tick_spec(s: StateModel) -> StateModel {
    if s.hotspot_active {
        StateModel { anim_frame: (s.anim_frame + 1) % (ANIM_FRAMES as nat), ..s }
    } else {
        s
    }
}

impl AppletState {
    /// State at start-up, from the initially observed lifecycle state.
    pub fn init(initial_active: bool) -> (r: AppletState)
        ensures
            r@ == initial_state(initial_active),
    {
        let r = AppletState {
            hotspot_active: initial_active,
            is_toggling: false,
            status_message: if initial_active {
                String::from_str("Active")
            } else {
                String::from_str("Inactive")
            },
            status_hold_ticks: 0,
            connected_clients: Vec::new(),
            anim_frame: 0,
        };
        proof {
            assert(r@.connected_clients =~= initial_state(initial_active).connected_clients);
        }
        r
    }

    /// Reduce one event into the state.
    pub fn apply_event(&mut self, e: HotspotEvent)
        ensures
            final(self)@ == apply_event_spec(old(self)@, e@),
    {
        match e {
            HotspotEvent::StatusUpdate { active, clients } => {
                self.hotspot_active = active;
                self.connected_clients = clients;
                if self.status_hold_ticks > 0 {
                    self.status_hold_ticks = self.status_hold_ticks - 1;
                } else if !self.is_toggling {
                    self.status_message = if active {
                        String::from_str("Active")
                    } else {
                        String::from_str("Inactive")
                    };
                }
            },
            HotspotEvent::ToggleStarted { .. } => {
                self.is_toggling = true;
                self.status_message = if self.hotspot_active {
                    String::from_str("Stopping...")
                } else {
                    String::from_str("Starting...")
                };
            },
            HotspotEvent::ToggleComplete(result) => {
                self.is_toggling = false;
                self.status_hold_ticks = HOLD_TICKS;
                match result {
                    Ok(m) => {
                        self.status_message = m;
                    },
                    Err(e) => {
                        let mut m = String::from_str("Error: ");
                        m.append(e.as_str());
                        self.status_message = m;
                    },
                }
            },
        }
    }

    /// Reduce a drained batch of events, oldest first.
    pub fn apply_events(&mut self, events: Vec<HotspotEvent>)
        ensures
            final(self)@ == apply_events_spec(old(self)@, events@.map_values(|e: HotspotEvent| e@)),
    {
        let ghost all = events@.map_values(|e: HotspotEvent| e@);
        let mut rest = events;
        while rest.len() > 0
            invariant
                apply_events_spec(old(self)@, all) == apply_events_spec(
                    self@,
                    rest@.map_values(|e: HotspotEvent| e@),
                ),
            decreases rest.len(),
        {
            let ghost pre = self@;
            let ghost rest_models = rest@.map_values(|e: HotspotEvent| e@);
            let e = rest.remove(0);
            self.apply_event(e);
            proof {
                assert(rest@.map_values(|ev: HotspotEvent| ev@) =~= rest_models.drop_first());
                assert(apply_events_spec(pre, rest_models) == apply_events_spec(
                    apply_event_spec(pre, e@),
                    rest_models.drop_first(),
                ));
            }
        }
        proof {
            assert(rest@.map_values(|e: HotspotEvent| e@).len() == 0);
        }
    }

    /// Advance the ripple animation.
    pub fn on_animation_tick(&mut self)
        ensures
            final(self)@ == anim_tick_spec(old(self)@),
    {
        if self.hotspot_active {
            let next: u16 = (self.anim_frame as u16 + 1) % (ANIM_FRAMES as u16);
            proof {
                assert(next as nat == (old(self)@.anim_frame + 1) % (ANIM_FRAMES as nat));
                assert(next < ANIM_FRAMES as u16);
            }
            self.anim_frame = next as u8;
        }
    }

    /// The user pressed the toggle: mark the toggle in flight and show the
    /// transitional text for the locally known pre-toggle state. The caller
    /// also queues the toggle command towards the coordination loop.
    pub fn on_toggle_pressed(&mut self)
        ensures
            final(self)@ == apply_event_spec(
                old(self)@,
                EventModel::ToggleStarted { pre_active: old(self)@.hotspot_active },
            ),
    {
        self.is_toggling = true;
        self.status_message = if self.hotspot_active {
            String::from_str("Stopping...")
        } else {
            String::from_str("Starting...")
        };
    }
}

/// Every event of the sequence is a status update.
pub open spec fn all_status_updates(es: Seq<EventModel>) -> bool {
    forall|i: int| 0 <= i < es.len() ==> es[i] is StatusUpdate
}

/// Law: while the hold counter covers them, consecutive polls never touch
/// the status message or the toggle flag; each decrements the counter by one.
pub proof fn lemma_hold_preserves_message(s: StateModel, es: Seq<EventModel>)
    requires
        all_status_updates(es),
        es.len() <= s.status_hold_ticks,
    ensures
        apply_events_spec(s, es).status_message == s.status_message,
        apply_events_spec(s, es).status_hold_ticks == s.status_hold_ticks - es.len(),
        apply_events_spec(s, es).is_toggling == s.is_toggling,
    decreases es.len(),
{
    if es.len() > 0 {
        let s1 = apply_event_spec(s, es[0]);
        assert(all_status_updates(es.drop_first()));
        lemma_hold_preserves_message(s1, es.drop_first());
    }
}

/// Law: only a completion raises the hold counter; every other event
/// leaves it unchanged or decrements it.
pub proof fn lemma_hold_raised_only_by_completion(s: StateModel, e: EventModel)
    requires
        !(e is ToggleComplete),
    ensures
        apply_event_spec(s, e).status_hold_ticks <= s.status_hold_ticks,
{
}

/// Law: a completion sets the hold counter to exactly the fixed constant
/// and installs the completion text; that text survives the next
/// `HOLD_TICKS` polls unchanged; the poll after that overwrites it with
/// the poll-derived text, provided no new toggle started meanwhile.
pub proof fn lemma_completion_message_hold(
    s: StateModel,
    r: Result<Seq<char>, Seq<char>>,
    polls: Seq<EventModel>,
    next_active: bool,
    next_clients: Seq<Seq<char>>,
)
    requires
        all_status_updates(polls),
        polls.len() == HOLD_TICKS,
    ensures
        ({
            let held = apply_event_spec(s, EventModel::ToggleComplete(r));
            let after_polls = apply_events_spec(held, polls);
            let overwritten = apply_event_spec(
                after_polls,
                EventModel::StatusUpdate { active: next_active, clients: next_clients },
            );
            held.status_hold_ticks == HOLD_TICKS && held.status_message == completion_text(r)
                && after_polls.status_message == completion_text(r)
                && after_polls.status_hold_ticks == 0 && overwritten.status_message
                == status_text(next_active)
        }),
{
    let held = apply_event_spec(s, EventModel::ToggleComplete(r));
    lemma_hold_preserves_message(held, polls);
}

} // verus!
