//! The animation state machines: a layer that plays one of several named
//! tracks on request, and a sprite that cycles through a single sequence.

use vstd::prelude::*;
use vstd::string::StringExecFns;
use crate::clock::{ClockState, FrameClock};
use crate::tracks::{copy_frames, TrackTable};

verus! {

/// The period of a clock nobody chose a period for: a tenth of a second.
pub const DEFAULT_FRAME_NANOS: u64 = 100_000_000;

/// The name of the track a layer falls back to.
pub open spec fn default_anim() -> Seq<char> {
    "default"@
}

/// The position after `index` in a cycle of `len` frames: one further,
/// wrapping to 0 past the last frame. In a cycle without frames the
/// position stays as it is. (A position that 32 bits cannot hold wraps to 0
/// as well; it takes a cycle of more than 2^32 frames to get there.)
pub open spec fn next_index(index: u32, len: nat) -> u32 {
    if len == 0 {
        index
    } else {
        let next = (index + 1) % (len as int);
        if next <= u32::MAX {
            next as u32
        } else {
            0
        }
    }
}

/// Computes [`next_index`].
pub fn step_index(index: u32, len: usize) -> (next: u32)
    ensures
        next == next_index(index, len as nat),
{
    if len == 0 {
        return index;
    }
    let next: u64 = (index as u64 + 1) % (len as u64);
    if next <= u32::MAX as u64 {
        next as u32
    } else {
        0
    }
}

/// What one tick of a layer's animation came to.
#[derive(Clone, Copy, Debug, PartialEq, Eq, Structural)]
pub enum FrameResolution {
    /// The clock did not fire; nothing changed.
    Waiting,
    /// The current track gave this frame, and the cursor moved on.
    Resolved(u32),
    /// The cursor stood outside the current track: frame 0 is shown and
    /// the cursor starts over.
    CursorReset,
    /// The current track is missing or empty; the layer switched to the
    /// track named "default" and shows what it showed before.
    FellBackToDefault,
    /// The current track is missing or empty and there is no track named
    /// "default": frame 0 is shown.
    PinnedToZero,
}

impl FrameResolution {
    /// The frame to show after this resolution on a sprite showing `shown`.
    pub open spec fn spec_frame(self, shown: u32) -> u32 {
        match self {
            FrameResolution::Waiting => shown,
            FrameResolution::Resolved(frame) => frame,
            FrameResolution::CursorReset => 0,
            FrameResolution::FellBackToDefault => shown,
            FrameResolution::PinnedToZero => 0,
        }
    }

    /// Whether this resolution calls for a diagnostic: everything but a
    /// wait and a frame resolved in the ordinary way.
    pub open spec fn spec_is_fault(self) -> bool {
        self is CursorReset || self is FellBackToDefault || self is PinnedToZero
    }

    #[verifier::when_used_as_spec(spec_frame)]
    pub fn frame(self, shown: u32) -> (frame: u32)
        ensures
            frame == self.spec_frame(shown),
    {
        match self {
            FrameResolution::Waiting => shown,
            FrameResolution::Resolved(frame) => frame,
            FrameResolution::CursorReset => 0,
            FrameResolution::FellBackToDefault => shown,
            FrameResolution::PinnedToZero => 0,
        }
    }

    /// What there is to say about this resolution on a layer that was
    /// playing `anim` when the clock fired, if anything.
    pub open spec fn spec_diagnostic(self, anim: Seq<char>) -> Option<Seq<char>> {
        match self {
            FrameResolution::Waiting => None,
            FrameResolution::Resolved(_) => None,
            FrameResolution::CursorReset => Some(
                "An animation index has gone out of \""@ + anim
                    + "\"'s bounds. Setting to zero..."@,
            ),
            FrameResolution::FellBackToDefault => Some(
                "Animation '"@ + anim + "' Does Not Exist For Sprite"@,
            ),
            FrameResolution::PinnedToZero => Some(
                "Animation '"@ + anim + "' Does Not Exist For Sprite"@,
            ),
        }
    }

    /// The diagnostic to emit for this resolution on a layer that was
    /// playing `anim` when the clock fired. None of them is fatal.
    pub fn diagnostic(self, anim: &str) -> (text: Option<String>)
        ensures
            text.is_some() == self.spec_is_fault(),
            match text {
                Some(text) => self.spec_diagnostic(anim@) == Some(text@),
                None => self.spec_diagnostic(anim@).is_none(),
            },
    {
        match self {
            FrameResolution::Waiting => None,
            FrameResolution::Resolved(_) => None,
            FrameResolution::CursorReset => {
                let mut text: String = "An animation index has gone out of \"".to_owned();
                text.append(anim);
                text.append("\"'s bounds. Setting to zero...");
                Some(text)
            },
            _ => {
                let mut text: String = "Animation '".to_owned();
                text.append(anim);
                text.append("' Does Not Exist For Sprite");
                Some(text)
            },
        }
    }

    #[verifier::when_used_as_spec(spec_is_fault)]
    pub fn is_fault(self) -> (fault: bool)
        ensures
            fault == self.spec_is_fault(),
    {
        match self {
            FrameResolution::Waiting => false,
            FrameResolution::Resolved(_) => false,
            _ => true,
        }
    }
}

/// What a [`TilesetAnims`] stands for.
pub struct AnimsState {
    /// The frames of each track, by name.
    pub anims: Map<Seq<char>, Seq<u32>>,
    /// The name of the track being played. It need not name a track.
    pub current_anim: Seq<char>,
    pub timer: ClockState,
    /// The cursor: the position in the current track of the next frame.
    pub current_anim_index: u32,
}

impl AnimsState {
    /// Whether the current name names a track with at least one frame.
    pub open spec fn playable(self) -> bool {
        self.anims.contains_key(self.current_anim) && self.anims[self.current_anim].len() > 0
    }

    /// The frames of the current track.
    pub open spec fn track(self) -> Seq<u32>
        recommends
            self.anims.contains_key(self.current_anim),
    {
        self.anims[self.current_anim]
    }

    /// Whether the cursor stands on a frame of the current track.
    pub open spec fn cursor_on_track(self) -> bool {
        self.playable() && self.current_anim_index < self.track().len()
    }

    /// Whether the cursor is where it should be: on a frame of the current
    /// track, whenever that track has frames.
    pub open spec fn cursor_in_bounds(self) -> bool {
        self.playable() ==> self.current_anim_index < self.track().len()
    }

    /// The state after a request for the track named `name`: a request for
    /// the track already current changes nothing; any other restarts at the
    /// first frame, with the clock set to fire on the next tick.
    pub open spec fn request(self, name: Seq<char>) -> AnimsState {
        if name == self.current_anim {
            self
        } else {
            AnimsState {
                anims: self.anims,
                current_anim: name,
                timer: self.timer.reset_to_period(),
                current_anim_index: 0,
            }
        }
    }

    /// The track a layer with these tracks is asked for when its character
    /// is asked to play `wanted`: that one if the layer has a track of the
    /// name, and "default" if not.
    pub open spec fn track_for(self, wanted: Seq<char>) -> Seq<char> {
        if self.anims.contains_key(wanted) {
            wanted
        } else {
            default_anim()
        }
    }

    /// The state after the layer has been told that its character is asked
    /// to play `wanted`.
    pub open spec fn follow(self, wanted: Seq<char>) -> AnimsState {
        self.request(self.track_for(wanted))
    }

    /// What a fire of the clock resolves to in this state.
    pub open spec fn fire_resolution(self) -> FrameResolution {
        if self.playable() {
            if self.current_anim_index < self.track().len() {
                FrameResolution::Resolved(self.track()[self.current_anim_index as int])
            } else {
                FrameResolution::CursorReset
            }
        } else if self.anims.contains_key(default_anim()) {
            FrameResolution::FellBackToDefault
        } else {
            FrameResolution::PinnedToZero
        }
    }

    /// The state after a fire of the clock, the clock itself aside.
    ///
    /// On a playable track the cursor moves one frame on, wrapping at the
    /// end; a cursor found outside the track first goes back to 0. Where
    /// the track cannot be played, the layer switches to the track named
    /// "default" if there is one, leaving the cursor where it is, and
    /// otherwise stays as it is.
    pub open spec fn fired(self) -> AnimsState {
        if self.playable() {
            AnimsState {
                current_anim_index: if self.current_anim_index < self.track().len() {
                    next_index(self.current_anim_index, self.track().len())
                } else {
                    next_index(0, self.track().len())
                },
                ..self
            }
        } else if self.anims.contains_key(default_anim()) {
            AnimsState { current_anim: default_anim(), ..self }
        } else {
            self
        }
    }

    /// The state with its clock advanced by `delta`.
    pub open spec fn clocked(self, delta: nat) -> AnimsState {
        AnimsState { timer: self.timer.advanced(delta), ..self }
    }

    /// The state after a tick of `delta` nanoseconds.
    pub open spec fn tick(self, delta: nat) -> AnimsState {
        if self.timer.fires(delta) {
            self.clocked(delta).fired()
        } else {
            self.clocked(delta)
        }
    }

    /// What a tick of `delta` nanoseconds resolves to.
    pub open spec fn tick_resolution(self, delta: nat) -> FrameResolution {
        if self.timer.fires(delta) {
            self.fire_resolution()
        } else {
            FrameResolution::Waiting
        }
    }

    /// The state after one tick for each of `deltas`, in order.
    pub open spec fn run(self, deltas: Seq<nat>) -> AnimsState
        decreases deltas.len(),
    {
        if deltas.len() == 0 {
            self
        } else {
            self.run(deltas.drop_last()).tick(deltas.last())
        }
    }

    /// What tick number `i` of the run over `deltas` resolves to.
    pub open spec fn run_resolution(self, deltas: Seq<nat>, i: int) -> FrameResolution
        recommends
            0 <= i < deltas.len(),
    {
        self.run(deltas.take(i)).tick_resolution(deltas[i])
    }

    /// Whether the clock fires on tick number `i` of the run over `deltas`.
    pub open spec fn run_fires(self, deltas: Seq<nat>, i: int) -> bool
        recommends
            0 <= i < deltas.len(),
    {
        self.run(deltas.take(i)).timer.fires(deltas[i])
    }
}

/// The animation state of one layer: its tracks, the name of the track it
/// plays, the cursor into that track, and the clock that paces it.
///
/// The fields are open to the host. A cursor set by hand to stand outside
/// the current track is recovered from on the next fire.
#[derive(Debug)]
pub struct TilesetAnims {
    pub anims: TrackTable,
    pub current_anim: String,
    pub timer: FrameClock,
    pub current_anim_index: u32,
}

impl View for TilesetAnims {
    type V = AnimsState;

    open spec fn view(&self) -> AnimsState {
        AnimsState {
            anims: self.anims@,
            current_anim: self.current_anim@,
            timer: self.timer@,
            current_anim_index: self.current_anim_index,
        }
    }
}

impl Default for TilesetAnims {
    /// No tracks, the current name "default", a clock of a tenth of a
    /// second, the cursor at 0.
    fn default() -> (anims: TilesetAnims)
        ensures
            anims@ == (AnimsState {
                anims: Map::empty(),
                current_anim: default_anim(),
                timer: ClockState { period: DEFAULT_FRAME_NANOS as nat, elapsed: 0 },
                current_anim_index: 0,
            }),
    {
        TilesetAnims {
            anims: TrackTable::new(),
            current_anim: "default".to_owned(),
            timer: FrameClock::new(DEFAULT_FRAME_NANOS),
            current_anim_index: 0,
        }
    }
}

impl Clone for TilesetAnims {
    fn clone(&self) -> (anims: TilesetAnims)
        ensures
            anims@ == self@,
    {
        TilesetAnims {
            anims: self.anims.clone(),
            current_anim: self.current_anim.clone(),
            timer: self.timer.clone(),
            current_anim_index: self.current_anim_index,
        }
    }
}

impl TilesetAnims {
    /// A layer over `anims` that plays `current_anim` from its first frame,
    /// paced by `timer`.
    pub fn new(anims: TrackTable, current_anim: String, timer: FrameClock) -> (layer: TilesetAnims)
        ensures
            layer@ == (AnimsState {
                anims: anims@,
                current_anim: current_anim@,
                timer: timer@,
                current_anim_index: 0,
            }),
    {
        TilesetAnims { anims, current_anim, timer, current_anim_index: 0 }
    }

    /// Requests the track named `anim`.
    pub fn set_anim(&mut self, anim: &str)
        ensures
            final(self)@ == old(self)@.request(anim@),
    {
        let wanted: String = anim.to_owned();
        if wanted != self.current_anim {
            self.timer.reset_to_period();
            self.current_anim_index = 0;
            self.current_anim = wanted;
        }
    }

    /// Tells the layer that its character is asked to play `wanted`: the
    /// layer is asked for the track of that name, or for "default" where it
    /// has none.
    pub fn follow(&mut self, wanted: &str)
        ensures
            final(self)@ == old(self)@.follow(wanted@),
    {
        if self.anims.contains(wanted) {
            self.set_anim(wanted);
        } else {
            self.set_anim("default");
        }
    }

    /// Advances the clock by `delta` nanoseconds and, if it fired, resolves
    /// the next frame.
    pub fn tick(&mut self, delta: u64) -> (resolution: FrameResolution)
        ensures
            final(self)@ == old(self)@.tick(delta as nat),
            resolution == old(self)@.tick_resolution(delta as nat),
    {
        let fired = self.timer.advance(delta);
        if !fired {
            return FrameResolution::Waiting;
        }
        let mut len: usize = 0;
        let mut frame: u32 = 0;
        let cursor: u32 = self.current_anim_index;
        match self.anims.get(self.current_anim.as_str()) {
            Some(frames) => {
                len = frames.len();
                if (cursor as usize) < len {
                    frame = frames[cursor as usize];
                }
            },
            None => {},
        }
        if len > 0 {
            if (cursor as usize) < len {
                self.current_anim_index = step_index(cursor, len);
                FrameResolution::Resolved(frame)
            } else {
                self.current_anim_index = step_index(0, len);
                FrameResolution::CursorReset
            }
        } else if self.anims.contains("default") {
            self.current_anim = "default".to_owned();
            FrameResolution::FellBackToDefault
        } else {
            FrameResolution::PinnedToZero
        }
    }
}

/// Requests keep the cursor in bounds, and so do ticks, with one exception:
/// a fire that falls back to "default" leaves the cursor where it was, which
/// may be past the end of "default". The fire after that finds it there and
/// starts the track over.
pub proof fn lemma_cursor_stays_in_bounds(state: AnimsState, name: Seq<char>, delta: nat)
    requires
        state.cursor_in_bounds(),
    ensures
        state.request(name).cursor_in_bounds(),
        state.follow(name).cursor_in_bounds(),
        state.tick_resolution(delta) != FrameResolution::FellBackToDefault ==> state.tick(
            delta,
        ).cursor_in_bounds(),
{
    if state.timer.fires(delta) && state.playable() {
        let len = state.track().len() as int;
        vstd::arithmetic::div_mod::lemma_mod_bound(state.current_anim_index + 1, len);
        vstd::arithmetic::div_mod::lemma_mod_bound(1, len);
    }
}

/// A fire on a track that can be played puts the cursor in bounds, wherever
/// it stood before.
pub proof fn lemma_fire_recovers_cursor(state: AnimsState, delta: nat)
    requires
        state.playable(),
        state.timer.fires(delta),
    ensures
        state.tick(delta).cursor_on_track(),
        !state.cursor_on_track() ==> state.tick_resolution(delta) == FrameResolution::CursorReset
            && state.tick_resolution(delta).spec_frame(state.current_anim_index) == 0,
{
    let len = state.track().len() as int;
    vstd::arithmetic::div_mod::lemma_mod_bound(state.current_anim_index + 1, len);
    vstd::arithmetic::div_mod::lemma_mod_bound(1, len);
}

/// A request for the track that is already current changes nothing:
/// neither the cursor nor the clock. So a request made twice, with no other
/// in between, is a request made once.
pub proof fn lemma_request_is_idempotent(state: AnimsState, name: Seq<char>)
    ensures
        name == state.current_anim ==> state.request(name) == state,
        state.request(name).request(name) == state.request(name),
{
}

/// After a request for another track the very next tick fires, however
/// short it is, and what it resolves is decided at the cursor's first
/// position: where the new track can be played, its first frame.
pub proof fn lemma_request_forces_fire(state: AnimsState, name: Seq<char>, delta: nat)
    requires
        name != state.current_anim,
    ensures
        state.request(name).timer.fires(delta),
        state.request(name).current_anim_index == 0,
        state.request(name).tick_resolution(delta) == state.request(name).fire_resolution(),
        state.anims.contains_key(name) && state.anims[name].len() > 0 ==> {
            &&& state.request(name).tick_resolution(delta) == FrameResolution::Resolved(
                state.anims[name][0],
            )
            &&& state.request(name).tick(delta).current_anim == name
            &&& state.request(name).tick(delta).current_anim_index == next_index(
                0,
                state.anims[name].len(),
            )
        },
{
}

/// Where the current name names no track and there is a track named
/// "default", a fire switches the layer to "default" and leaves the cursor
/// where it was.
pub proof fn lemma_fire_falls_back_to_default(state: AnimsState, delta: nat)
    requires
        !state.anims.contains_key(state.current_anim),
        state.anims.contains_key(default_anim()),
        state.timer.fires(delta),
    ensures
        state.tick_resolution(delta) == FrameResolution::FellBackToDefault,
        state.tick(delta).current_anim == default_anim(),
        state.tick(delta).current_anim_index == state.current_anim_index,
        state.tick(delta).anims == state.anims,
{
}

/// Where neither the current name nor "default" names a track, no run of
/// ticks changes the current name, the cursor or the tracks.
proof fn lemma_run_without_tracks(state: AnimsState, deltas: Seq<nat>)
    requires
        !state.anims.contains_key(state.current_anim),
        !state.anims.contains_key(default_anim()),
    ensures
        state.run(deltas).current_anim == state.current_anim,
        state.run(deltas).current_anim_index == state.current_anim_index,
        state.run(deltas).anims == state.anims,
    decreases deltas.len(),
{
    if deltas.len() > 0 {
        lemma_run_without_tracks(state, deltas.drop_last());
    }
}

/// Where neither the current name nor "default" names a track, every fire
/// from then on shows frame 0, and the current name stays as it is: nothing
/// corrects it.
pub proof fn lemma_pinned_to_zero(state: AnimsState, deltas: Seq<nat>)
    requires
        !state.anims.contains_key(state.current_anim),
        !state.anims.contains_key(default_anim()),
    ensures
        state.run(deltas).current_anim == state.current_anim,
        state.run(deltas).current_anim_index == state.current_anim_index,
        forall|i: int, shown: u32|
            0 <= i < deltas.len() && state.run_fires(deltas, i) ==> {
                &&& #[trigger] state.run_resolution(deltas, i).spec_frame(shown) == 0
                &&& state.run_resolution(deltas, i) == FrameResolution::PinnedToZero
            },
{
    lemma_run_without_tracks(state, deltas);
    assert forall|i: int, shown: u32|
        0 <= i < deltas.len() && state.run_fires(deltas, i) implies {
        &&& #[trigger] state.run_resolution(deltas, i).spec_frame(shown) == 0
        &&& state.run_resolution(deltas, i) == FrameResolution::PinnedToZero
    } by {
        lemma_run_without_tracks(state, deltas.take(i));
    }
}

/// A run of ticks that all fire, begun with the cursor on the track, moves
/// the cursor one position per tick around the track and changes nothing
/// else but the clock.
proof fn lemma_run_of_fires(state: AnimsState, deltas: Seq<nat>)
    requires
        state.cursor_on_track(),
        state.track().len() <= 0x1_0000_0000,
        forall|i: int| 0 <= i < deltas.len() ==> state.run_fires(deltas, i),
    ensures
        state.run(deltas).anims == state.anims,
        state.run(deltas).current_anim == state.current_anim,
        state.run(deltas).current_anim_index as int == (state.current_anim_index + deltas.len())
            % (state.track().len() as int),
    decreases deltas.len(),
{
    let len = state.track().len() as int;
    let start = state.current_anim_index as int;
    if deltas.len() == 0 {
        vstd::arithmetic::div_mod::lemma_small_mod(start as nat, len as nat);
    } else {
        let front = deltas.drop_last();
        let last = (deltas.len() - 1) as int;
        assert forall|i: int| 0 <= i < front.len() implies state.run_fires(front, i) by {
            assert(front.take(i) =~= deltas.take(i));
            assert(state.run_fires(deltas, i));
        }
        lemma_run_of_fires(state, front);
        assert(deltas.take(last) =~= front);
        assert(state.run_fires(deltas, last));
        let before = state.run(front);
        let cursor = before.current_anim_index as int;
        assert(cursor == (start + last) % len);
        vstd::arithmetic::div_mod::lemma_mod_bound(start + last, len);
        vstd::arithmetic::div_mod::lemma_mod_bound(cursor + 1, len);
        vstd::arithmetic::div_mod::lemma_add_mod_noop(start + last, 1, len);
        vstd::arithmetic::div_mod::lemma_mod_twice(cursor, len);
        if len == 1 {
            assert((cursor + 1) % len == (start + last + 1) % len);
        } else {
            vstd::arithmetic::div_mod::lemma_small_mod(1, len as nat);
        }
        assert(before.clocked(deltas.last()).playable());
    }
}

/// On a track `T` of `L > 0` frames, begun at its first frame, a run of
/// ticks that all fire resolves the frames `T[0], T[1 % L], T[2 % L], ...`
/// in turn: the track loops, and no frame is skipped or shown twice over.
///
/// (The cursor is 32 bits wide, so this is stated of tracks of up to 2^32
/// frames.)
pub proof fn lemma_frames_wrap_around(state: AnimsState, deltas: Seq<nat>)
    requires
        state.playable(),
        state.current_anim_index == 0,
        state.track().len() <= 0x1_0000_0000,
        forall|i: int| 0 <= i < deltas.len() ==> state.run_fires(deltas, i),
    ensures
        forall|i: int|
            0 <= i < deltas.len() ==> #[trigger] state.run_resolution(deltas, i)
                == FrameResolution::Resolved(state.track()[i % (state.track().len() as int)]),
        state.run(deltas).current_anim == state.current_anim,
        state.run(deltas).current_anim_index as int == (deltas.len() as int) % (
            state.track().len() as int),
{
    let len = state.track().len() as int;
    lemma_run_of_fires(state, deltas);
    assert forall|i: int| 0 <= i < deltas.len() implies #[trigger] state.run_resolution(deltas, i)
        == FrameResolution::Resolved(state.track()[i % len]) by {
        let front = deltas.take(i);
        assert forall|j: int| 0 <= j < front.len() implies state.run_fires(front, j) by {
            assert(front.take(j) =~= deltas.take(j));
            assert(state.run_fires(deltas, j));
        }
        lemma_run_of_fires(state, front);
        vstd::arithmetic::div_mod::lemma_mod_bound(i, len);
        assert(state.run_fires(deltas, i));
    }
}

/// What a [`TilesetAnim`] stands for: its frames and the period of its
/// clock in nanoseconds.
pub struct CycleState {
    pub frames: Seq<u32>,
    pub frame_nanos: nat,
}

impl CycleState {
    /// The clock the cycle runs on: the one attached, or a fresh one of the
    /// cycle's own period.
    pub open spec fn clock(self, attached: Option<ClockState>) -> ClockState {
        match attached {
            Some(clock) => clock,
            None => ClockState { period: self.frame_nanos, elapsed: 0 },
        }
    }

    /// The frame shown after a fire on a sprite showing `shown`: the next
    /// position in the cycle. A cycle without frames leaves the sprite as
    /// it is.
    pub open spec fn stepped(self, shown: u32) -> u32 {
        next_index(shown, self.frames.len())
    }

    /// The clock after a tick of `delta` nanoseconds.
    pub open spec fn tick_clock(self, attached: Option<ClockState>, delta: nat) -> ClockState {
        self.clock(attached).advanced(delta)
    }

    /// The frame shown after a tick of `delta` nanoseconds.
    pub open spec fn tick_frame(self, attached: Option<ClockState>, delta: nat, shown: u32) -> u32 {
        if self.clock(attached).fires(delta) {
            self.stepped(shown)
        } else {
            shown
        }
    }
}

/// A single animation for a sprite that cycles on its own: the frame
/// indices, and how long each is shown, in nanoseconds.
#[derive(Debug)]
pub struct TilesetAnim(pub Vec<u32>, pub u64);

impl View for TilesetAnim {
    type V = CycleState;

    open spec fn view(&self) -> CycleState {
        CycleState { frames: self.0@, frame_nanos: self.1 as nat }
    }
}

impl Default for TilesetAnim {
    /// The single frame 0, shown for a tenth of a second.
    fn default() -> (anim: TilesetAnim)
        ensures
            anim@ == (CycleState { frames: seq![0u32], frame_nanos: DEFAULT_FRAME_NANOS as nat }),
    {
        let mut frames: Vec<u32> = Vec::new();
        frames.push(0);
        assert(frames@ =~= seq![0u32]);
        TilesetAnim(frames, DEFAULT_FRAME_NANOS)
    }
}

impl Clone for TilesetAnim {
    fn clone(&self) -> (anim: TilesetAnim)
        ensures
            anim@ == self@,
    {
        TilesetAnim(copy_frames(&self.0), self.1)
    }
}

impl TilesetAnim {
    /// One tick of `delta` nanoseconds for a sprite that shows `shown`,
    /// on the clock attached to it or, where it has none yet, on a fresh
    /// clock of this animation's period. Returns the clock to attach and
    /// the frame to show.
    pub fn tick(&self, attached: Option<FrameClock>, delta: u64, shown: u32) -> (after: (
        FrameClock,
        u32,
    ))
        ensures
            after.0@ == self@.tick_clock(spec_clock_view(attached), delta as nat),
            after.1 == self@.tick_frame(spec_clock_view(attached), delta as nat, shown),
    {
        let mut clock: FrameClock = match attached {
            Some(clock) => clock,
            None => FrameClock::new(self.1),
        };
        let fired = clock.advance(delta);
        let frame: u32 = if fired {
            step_index(shown, self.0.len())
        } else {
            shown
        };
        (clock, frame)
    }
}

/// The view of an attached clock, if there is one.
pub open spec fn spec_clock_view(attached: Option<FrameClock>) -> Option<ClockState> {
    match attached {
        Some(clock) => Some(clock@),
        None => None,
    }
}

} // verus!
