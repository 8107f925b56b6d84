//! HUD lifecycle and clipboard polling: a state machine over the overlay's
//! visibility, driven by two events — a poll tick that reports the
//! clipboard's change counter (and, when it changed, its text), and the
//! expiry of the armed hide timer. The surrounding event loop performs the
//! returned display effects (set text, reposition, raise, cancel and arm
//! timers, hide); the decisions live here.

use vstd::prelude::*;

use crate::truncate::spec_truncate_text;
use crate::truncate::truncate_text;
use crate::HUD_MAX_LINES;
use crate::HUD_MAX_WIDTH;

verus! {

/// The mathematical state of the HUD: the last clipboard change counter
/// observed, whether the overlay is on screen, which hide timer (if any) is
/// armed, the next fresh timer id, and the text currently displayed.
#[verifier::ext_equal]
pub struct HudModel {
    pub last_seen_counter: int,
    pub visible: bool,
    pub armed_timer: Option<int>,
    pub next_timer_id: int,
    pub display_text: Seq<char>,
}

impl HudModel {
    /// The lifecycle invariant: the overlay is visible exactly while a hide
    /// timer is armed, and every armed timer id was issued earlier than the
    /// next fresh id.
    pub open spec fn wf(self) -> bool {
        &&& self.visible <==> self.armed_timer is Some
        &&& self.armed_timer matches Some(t) ==> t < self.next_timer_id
    }
}

/// The initial state: hidden, no timer armed, baseline counter taken from
/// the clipboard at startup so content already present never triggers.
pub open spec fn spec_new(counter: int) -> HudModel {
    HudModel {
        last_seen_counter: counter,
        visible: false,
        armed_timer: None,
        next_timer_id: 0,
        display_text: Seq::empty(),
    }
}

/// A poll tick: the observed counter becomes the baseline (recorded before
/// any attempt to read content, so a failed read never re-triggers); nothing
/// else moves.
pub open spec fn spec_observe(m: HudModel, counter: int) -> HudModel {
    HudModel {
        last_seen_counter: counter,
        visible: m.visible,
        armed_timer: m.armed_timer,
        next_timer_id: m.next_timer_id,
        display_text: m.display_text,
    }
}

/// A show: the text is truncated under the display policy, the overlay
/// becomes visible, any pending hide timer is replaced by a fresh one.
pub open spec fn spec_show(m: HudModel, text: Seq<char>) -> HudModel {
    HudModel {
        last_seen_counter: m.last_seen_counter,
        visible: true,
        armed_timer: Some(m.next_timer_id),
        next_timer_id: m.next_timer_id + 1,
        display_text: spec_truncate_text(text, HUD_MAX_WIDTH as nat, HUD_MAX_LINES as nat),
    }
}

/// A hide-timer expiry: only the currently armed timer hides the overlay
/// and clears itself; a stale timer (already replaced or cleared) changes
/// nothing.
pub open spec fn spec_hide_fired(m: HudModel, timer: int) -> HudModel {
    if m.armed_timer == Some(timer) {
        HudModel {
            last_seen_counter: m.last_seen_counter,
            visible: false,
            armed_timer: None,
            next_timer_id: m.next_timer_id,
            display_text: m.display_text,
        }
    } else {
        m
    }
}

/// The display effects one show demands of the event loop, in order: set
/// `display_text` on the overlay, reposition it centered on the primary
/// display's current geometry, raise it without taking focus, cancel
/// `cancel_timer` if there is one, then arm a one-shot hide timer
/// `arm_timer` for the fixed HUD duration.
pub struct ShowPlan {
    pub display_text: String,
    pub cancel_timer: Option<u64>,
    pub arm_timer: u64,
}

/// The executable HUD state. Timer ids are never reused: each armed timer
/// gets a fresh id, so a fired timer can always be told from a replaced one.
pub struct HudState {
    pub last_seen_counter: i64,
    pub visible: bool,
    pub armed_timer: Option<u64>,
    pub next_timer_id: u64,
    pub display_text: String,
}

impl View for HudState {
    type V = HudModel;

    open spec fn view(&self) -> HudModel {
        HudModel {
            last_seen_counter: self.last_seen_counter as int,
            visible: self.visible,
            armed_timer: match self.armed_timer {
                Some(t) => Some(t as int),
                None => None,
            },
            next_timer_id: self.next_timer_id as int,
            display_text: self.display_text@,
        }
    }
}

impl HudState {
    /// A fresh, hidden HUD whose baseline is the clipboard's change counter
    /// at startup.
    pub fn new(initial_counter: i64) -> (s: Self)
        ensures
            s@ == spec_new(initial_counter as int),
            s@.wf(),
    {
        let s = HudState {
            last_seen_counter: initial_counter,
            visible: false,
            armed_timer: None,
            next_timer_id: 0,
            display_text: String::new(),
        };
        proof {
            assert(s@ =~= spec_new(initial_counter as int));
        }
        s
    }

    /// One poll tick. Returns whether the counter changed, i.e. whether the
    /// caller should go on to read the clipboard text and, if any is there,
    /// call [`Self::show`]. An unchanged counter has no observable effect;
    /// a changed one updates the baseline before any read is attempted.
    pub fn observe_counter(&mut self, counter: i64) -> (changed: bool)
        ensures
            final(self)@ == spec_observe(old(self)@, counter as int),
            changed == (counter != old(self).last_seen_counter),
            old(self)@.wf() ==> final(self)@.wf(),
    {
        if counter == self.last_seen_counter {
            proof {
                assert(self@ =~= spec_observe(self@, counter as int));
            }
            return false;
        }
        self.last_seen_counter = counter;
        proof {
            assert(self@ =~= spec_observe(old(self)@, counter as int));
        }
        true
    }

    /// Show `text`: truncate it under the display policy, record it as the
    /// displayed text, mark the overlay visible, and replace any pending
    /// hide timer with a fresh one. The returned plan carries the effects
    /// the event loop must perform.
    pub fn show(&mut self, text: &str) -> (plan: ShowPlan)
        requires
            old(self)@.wf(),
            old(self).next_timer_id < u64::MAX,
        ensures
            final(self)@ == spec_show(old(self)@, text@),
            final(self)@.wf(),
            plan.display_text@ == spec_truncate_text(
                text@,
                HUD_MAX_WIDTH as nat,
                HUD_MAX_LINES as nat,
            ),
            plan.cancel_timer == old(self).armed_timer,
            plan.arm_timer as int == old(self)@.next_timer_id,
            final(self).armed_timer == Some(plan.arm_timer),
    {
        let truncated = truncate_text(text, HUD_MAX_WIDTH, HUD_MAX_LINES);
        let cancel_timer = self.armed_timer;
        let timer = self.next_timer_id;
        self.display_text = truncated.clone();
        self.visible = true;
        self.armed_timer = Some(timer);
        self.next_timer_id = timer + 1;
        proof {
            assert(self@ =~= spec_show(old(self)@, text@));
        }
        ShowPlan { display_text: truncated, cancel_timer, arm_timer: timer }
    }

    /// The hide timer `timer` fired. Returns whether the event loop must
    /// take the overlay off the screen: true exactly when `timer` is the
    /// currently armed one. A stale timer — one a later show has already
    /// replaced — changes nothing.
    pub fn hide_timer_fired(&mut self, timer: u64) -> (hide: bool)
        ensures
            final(self)@ == spec_hide_fired(old(self)@, timer as int),
            hide == (old(self).armed_timer == Some(timer)),
            old(self)@.wf() ==> final(self)@.wf(),
    {
        let fire = match self.armed_timer {
            Some(armed) => armed == timer,
            None => false,
        };
        if fire {
            self.visible = false;
            self.armed_timer = None;
            proof {
                assert(self@ =~= spec_hide_fired(old(self)@, timer as int));
            }
            true
        } else {
            proof {
                assert(self@ =~= spec_hide_fired(old(self)@, timer as int));
            }
            false
        }
    }
}

/// Every transition preserves the lifecycle invariant: the overlay is
/// visible exactly while a hide timer is armed.
pub proof fn lemma_transitions_preserve_wf(
    m: HudModel,
    counter: int,
    text: Seq<char>,
    timer: int,
)
    requires
        m.wf(),
    ensures
        spec_new(counter).wf(),
        spec_observe(m, counter).wf(),
        spec_show(m, text).wf(),
        spec_hide_fired(m, timer).wf(),
{
}

/// A poll that sees an unchanged counter leaves the state exactly as it
/// was, and a repeated poll of the same counter is the same as one poll:
/// no display side effect can follow from either.
pub proof fn lemma_poll_unchanged_no_effect(m: HudModel, counter: int)
    ensures
        counter == m.last_seen_counter ==> spec_observe(m, counter) == m,
        spec_observe(spec_observe(m, counter), counter) == spec_observe(m, counter),
        spec_observe(m, counter).visible == m.visible,
        spec_observe(m, counter).armed_timer == m.armed_timer,
        spec_observe(m, counter).display_text == m.display_text,
{
    if counter == m.last_seen_counter {
        assert(spec_observe(m, counter) =~= m);
    }
    assert(spec_observe(spec_observe(m, counter), counter) =~= spec_observe(m, counter));
}

/// Two shows in succession arm two distinct timers, and afterwards only the
/// timer of the second show is armed: the replaced timer fires with no
/// effect at all, while the second one hides the overlay. Exactly one hide
/// results, and it is the one the last show scheduled.
pub proof fn lemma_second_show_wins(m: HudModel, t1: Seq<char>, t2: Seq<char>)
    requires
        m.wf(),
    ensures
        ({
            let once = spec_show(m, t1);
            let twice = spec_show(once, t2);
            let timer1 = m.next_timer_id;
            let timer2 = once.next_timer_id;
            &&& timer1 != timer2
            &&& twice.armed_timer == Some(timer2)
            &&& spec_hide_fired(twice, timer1) == twice
            &&& !spec_hide_fired(twice, timer2).visible
            &&& spec_hide_fired(twice, timer2).armed_timer is None
        }),
{
}

/// No stale hide: once a later show has replaced the pending hide timer,
/// the replaced timer's firing changes nothing.
pub proof fn lemma_no_stale_hide(m: HudModel, text: Seq<char>, stale: int)
    requires
        m.wf(),
        m.armed_timer == Some(stale),
    ensures
        spec_hide_fired(spec_show(m, text), stale) == spec_show(m, text),
{
}

} // verus!
