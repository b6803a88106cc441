use vstd::prelude::*;

verus! {

/// The camera setting that the `C` key switches between.
#[derive(Debug, Copy, Clone, PartialEq, Eq, Structural)]
pub enum CameraMode {
    Follow,
    TopDown,
}

/// A request from the controls to the game.
#[derive(Debug, Copy, Clone, PartialEq, Eq, Structural)]
pub enum Action {
    AddEnemy,
    NoAction,
}

/// The other camera setting.
pub open spec fn spec_toggled(m: CameraMode) -> CameraMode {
    if m == CameraMode::Follow {
        CameraMode::TopDown
    } else {
        CameraMode::Follow
    }
}

impl CameraMode {
    /// The other camera setting: what pressing `C` switches to.
    pub fn toggled(self) -> (m: CameraMode)
        ensures
            m == spec_toggled(self),
    {
        match self {
            CameraMode::TopDown => CameraMode::Follow,
            CameraMode::Follow => CameraMode::TopDown,
        }
    }
}

/// Pressing the camera key always changes the setting, and pressing it twice
/// brings back the setting one started with.
pub proof fn lemma_toggle_twice(m: CameraMode)
    ensures
        spec_toggled(m) != m,
        spec_toggled(spec_toggled(m)) == m,
{
}

/// The keys whose presses the controls react to; `Other` stands for the rest.
#[derive(Debug, Copy, Clone, PartialEq, Eq, Structural)]
pub enum Key {
    A,
    D,
    W,
    S,
    Escape,
    R,
    C,
    N,
    Other,
}

/// An input event, as far as the key and button state depends on it. Stick
/// motion, window resizes and new controllers are handled where the device
/// and the window are.
#[derive(Debug, Copy, Clone, PartialEq, Eq, Structural)]
pub enum InputEvent {
    Quit,
    KeyDown(Key),
    KeyUp(Key),
    RightShoulderDown,
}

/// What an event asks of the rest of the game besides the key state.
#[derive(Debug, Copy, Clone, PartialEq, Eq, Structural)]
pub enum EventOutcome {
    Nothing,
    AddEnemy,
    SwitchRenderMode,
}

/// The discrete part of the controls: whether quitting was asked for, which
/// movement keys are held, whether the right shoulder button was pressed this
/// frame, and the camera setting.
#[derive(Debug, Copy, Clone, PartialEq, Eq, Structural)]
pub struct InputState {
    pub quit: bool,
    pub a: bool,
    pub d: bool,
    pub w: bool,
    pub s: bool,
    pub right_shoulder: bool,
    pub cam_mode: CameraMode,
}

/// The state after `e`, and what `e` asks of the game.
pub open spec fn spec_handle_event(st: InputState, e: InputEvent) -> (InputState, EventOutcome) {
    match e {
        InputEvent::Quit => (InputState { quit: true, ..st }, EventOutcome::Nothing),
        InputEvent::KeyUp(k) => (
            match k {
                Key::A => InputState { a: false, ..st },
                Key::D => InputState { d: false, ..st },
                Key::W => InputState { w: false, ..st },
                Key::S => InputState { s: false, ..st },
                _ => st,
            },
            EventOutcome::Nothing,
        ),
        InputEvent::KeyDown(k) => match k {
            Key::A => (InputState { a: true, ..st }, EventOutcome::Nothing),
            Key::D => (InputState { d: true, ..st }, EventOutcome::Nothing),
            Key::W => (InputState { w: true, ..st }, EventOutcome::Nothing),
            Key::S => (InputState { s: true, ..st }, EventOutcome::Nothing),
            Key::Escape => (InputState { quit: true, ..st }, EventOutcome::Nothing),
            Key::R => (st, EventOutcome::SwitchRenderMode),
            Key::C => (InputState { cam_mode: spec_toggled(st.cam_mode), ..st }, EventOutcome::Nothing),
            Key::N => (st, EventOutcome::AddEnemy),
            Key::Other => (st, EventOutcome::Nothing),
        },
        InputEvent::RightShoulderDown => (InputState { right_shoulder: true, ..st }, EventOutcome::Nothing),
    }
}

/// The walking direction that the held keys ask for, one unit per axis:
/// `D` right and `A` left on the first axis, `W` forward and `S` back on the
/// second.
pub open spec fn spec_key_direction(st: InputState) -> (int, int) {
    (
        (if st.d { 1int } else { 0int }) - (if st.a { 1int } else { 0int }),
        (if st.w { 1int } else { 0int }) - (if st.s { 1int } else { 0int }),
    )
}

impl InputState {
    /// Nothing held, no quit, the follow camera.
    pub fn new() -> (st: InputState)
        ensures
            !st.quit && !st.a && !st.d && !st.w && !st.s && !st.right_shoulder,
            st.cam_mode == CameraMode::Follow,
    {
        InputState {
            quit: false,
            a: false,
            d: false,
            w: false,
            s: false,
            right_shoulder: false,
            cam_mode: CameraMode::Follow,
        }
    }

    /// Whether a movement key is held; the keyboard then decides the
    /// movement direction instead of the stick.
    pub fn movement_key_held(&self) -> (b: bool)
        ensures
            b == (self.a || self.w || self.d || self.s),
    {
        self.a || self.w || self.d || self.s
    }

    /// Start a new frame: the shoulder button counts as pressed only in the
    /// frame of its press.
    pub fn begin_frame(&mut self)
        ensures
            *final(self) == (InputState { right_shoulder: false, ..*old(self) }),
    {
        self.right_shoulder = false;
    }

    /// Take one event into account.
    pub fn handle_event(&mut self, e: InputEvent) -> (outcome: EventOutcome)
        ensures
            (*final(self), outcome) == spec_handle_event(*old(self), e),
    {
        match e {
            InputEvent::Quit => {
                self.quit = true;
                EventOutcome::Nothing
            },
            InputEvent::KeyUp(k) => {
                match k {
                    Key::A => self.a = false,
                    Key::D => self.d = false,
                    Key::W => self.w = false,
                    Key::S => self.s = false,
                    _ => {},
                }
                EventOutcome::Nothing
            },
            InputEvent::KeyDown(k) => match k {
                Key::A => {
                    self.a = true;
                    EventOutcome::Nothing
                },
                Key::D => {
                    self.d = true;
                    EventOutcome::Nothing
                },
                Key::W => {
                    self.w = true;
                    EventOutcome::Nothing
                },
                Key::S => {
                    self.s = true;
                    EventOutcome::Nothing
                },
                Key::Escape => {
                    self.quit = true;
                    EventOutcome::Nothing
                },
                Key::R => EventOutcome::SwitchRenderMode,
                Key::C => {
                    self.cam_mode = self.cam_mode.toggled();
                    EventOutcome::Nothing
                },
                Key::N => EventOutcome::AddEnemy,
                Key::Other => EventOutcome::Nothing,
            },
            InputEvent::RightShoulderDown => {
                self.right_shoulder = true;
                EventOutcome::Nothing
            },
        }
    }

    /// Take a frame's events into account in order. The result is
    /// `AddEnemy` when one of them asked for an enemy, `NoAction` otherwise;
    /// the render-mode switches asked for are counted in the second part.
    pub fn handle_events(&mut self, events: &Vec<InputEvent>) -> (r: (Action, usize))
        ensures
            *final(self) == spec_handle_events(*old(self), events@).0,
            r.0 == (if spec_handle_events(*old(self), events@).1 {
                Action::AddEnemy
            } else {
                Action::NoAction
            }),
            r.1 == spec_handle_events(*old(self), events@).2,
    {
        let mut action = Action::NoAction;
        let mut switches: usize = 0;
        let mut i: usize = 0;
        while i < events.len()
            invariant
                0 <= i <= events.len(),
                *self == spec_handle_events(*old(self), events@.take(i as int)).0,
                action == (if spec_handle_events(*old(self), events@.take(i as int)).1 {
                    Action::AddEnemy
                } else {
                    Action::NoAction
                }),
                switches == spec_handle_events(*old(self), events@.take(i as int)).2,
                switches <= i,
            decreases events.len() - i,
        {
            assert(events@.take(i + 1).drop_last() =~= events@.take(i as int));
            let outcome = self.handle_event(events[i]);
            match outcome {
                EventOutcome::AddEnemy => action = Action::AddEnemy,
                EventOutcome::SwitchRenderMode => switches = switches + 1,
                EventOutcome::Nothing => {},
            }
            i = i + 1;
        }
        assert(events@.take(events.len() as int) =~= events@);
        (action, switches)
    }

    /// The walking direction that the held keys ask for (see
    /// `spec_key_direction`).
    pub fn key_direction(&self) -> (dir: (i32, i32))
        ensures
            dir.0 == spec_key_direction(*self).0,
            dir.1 == spec_key_direction(*self).1,
    {
        let mut x: i32 = 0;
        let mut y: i32 = 0;
        if self.a {
            x = x - 1;
        }
        if self.d {
            x = x + 1;
        }
        if self.w {
            y = y + 1;
        }
        if self.s {
            y = y - 1;
        }
        (x, y)
    }
}

/// The state after a sequence of events, whether one of them asked for an
/// enemy, and how many asked for a render-mode switch.
pub open spec fn spec_handle_events(st: InputState, es: Seq<InputEvent>) -> (InputState, bool, nat)
    decreases es.len(),
{
    if es.len() == 0 {
        (st, false, 0)
    } else {
        let before = spec_handle_events(st, es.drop_last());
        let (after, outcome) = spec_handle_event(before.0, es.last());
        (
            after,
            before.1 || outcome == EventOutcome::AddEnemy,
            before.2 + if outcome == EventOutcome::SwitchRenderMode { 1nat } else { 0nat },
        )
    }
}

/// Whether the movement key `k` is held in `st` (false for other keys).
pub open spec fn key_held(st: InputState, k: Key) -> bool {
    match k {
        Key::A => st.a,
        Key::D => st.d,
        Key::W => st.w,
        Key::S => st.s,
        _ => false,
    }
}

proof fn lemma_key_held_step(st: InputState, k: Key, e: InputEvent)
    requires
        k == Key::A || k == Key::D || k == Key::W || k == Key::S,
    ensures
        key_held(spec_handle_event(st, e).0, k) == if e == InputEvent::KeyDown(k) {
            true
        } else if e == InputEvent::KeyUp(k) {
            false
        } else {
            key_held(st, k)
        },
{
}

/// A movement key counts as held from its press to its release: after a
/// press of `k` and any events that are not a release of `k`, `k` is still
/// held, and after its release it is not.
pub proof fn lemma_key_held_until_released(st: InputState, k: Key, rest: Seq<InputEvent>)
    requires
        k == Key::A || k == Key::D || k == Key::W || k == Key::S,
        forall|i: int| 0 <= i < rest.len() ==> rest[i] != InputEvent::KeyUp(k),
    ensures
        key_held(spec_handle_events(st, seq![InputEvent::KeyDown(k)] + rest).0, k),
        !key_held(
            spec_handle_events(st, seq![InputEvent::KeyDown(k)] + rest + seq![InputEvent::KeyUp(k)]).0,
            k,
        ),
    decreases rest.len(),
{
    let es = seq![InputEvent::KeyDown(k)] + rest;
    if rest.len() == 0 {
        assert(es.drop_last() =~= Seq::<InputEvent>::empty());
        lemma_key_held_step(st, k, es.last());
    } else {
        lemma_key_held_until_released(st, k, rest.drop_last());
        assert(es.drop_last() =~= seq![InputEvent::KeyDown(k)] + rest.drop_last());
        assert(es.last() == rest[rest.len() - 1]);
        lemma_key_held_step(spec_handle_events(st, es.drop_last()).0, k, es.last());
    }
    let es2 = es + seq![InputEvent::KeyUp(k)];
    assert(es2.drop_last() =~= es);
    lemma_key_held_step(spec_handle_events(st, es).0, k, es2.last());
}

} // verus!
