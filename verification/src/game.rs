//! The state of a round and its update, once per frame: the keys released
//! since the last frame move and turn the piece, then the piece falls by one
//! row where its time has come.
//!
//! All times are counted in nanoseconds from a moment that the caller
//! chooses, the same one for every call.

use vstd::prelude::*;
use crate::board::Board;
use crate::direction::Direction;
use crate::figure::{cells_facing, size_facing, Figure};
use crate::geometry::{Position, Size};
use crate::input::{collect_last_released_keys, released_codes, KeyCode, KeyEvent};

verus! {

/// The time between two falls at level zero, in nanoseconds.
pub const BASE_FIGURE_LOWERING_DURATION: u64 = 2_500_000_000;

/// The shortest time between two falls, in nanoseconds.
pub const MIN_FIGURE_LOWERING_DURATION: u64 = 250_000_000;

/// By how much each level shortens the time between two falls, in
/// nanoseconds.
pub const FIGURE_LOWERING_SPEEDUP: u64 = 10_000_000;

/// The number of rows of the playing field of a round.
pub const BOARD_HEIGHT: usize = 15;

/// The number of columns of the playing field of a round.
pub const BOARD_WIDTH: usize = 10;

/// What a frame brings to the update.
#[derive(Debug, Clone, Copy, PartialEq, Eq, Structural)]
pub struct FrameUpdateData {
    /// The time since the start of the frame before.
    pub delta_time: u64,
    /// The time at which the frame started.
    pub frame_start_time: u64,
}

/// What the keys act on: whether the round goes on, and where and how the
/// piece stands. The coordinates are unbounded here.
pub struct Motion {
    pub is_running: bool,
    pub x: int,
    pub y: int,
    pub rotation: Direction,
}

/// The state of a round.
pub struct GameState {
    pub is_running: bool,
    pub current_figure: Figure,
    pub current_figure_position: Position<i8>,
    pub current_figure_rotation: Direction,
    pub next_figure: Figure,
    pub last_figure_lowering_time: u64,
    pub lines_hit: u16,
    pub score: u16,
    pub start_time: u64,
    pub board: Board,
}

/// The time between two falls at `level`, in nanoseconds: the base time
/// less the speed-up of each level, but no less than the shortest time.
pub open spec fn lowering_duration(level: nat) -> nat {
    let cut = FIGURE_LOWERING_SPEEDUP as nat * level;
    if cut + MIN_FIGURE_LOWERING_DURATION >= BASE_FIGURE_LOWERING_DURATION {
        MIN_FIGURE_LOWERING_DURATION as nat
    } else {
        (BASE_FIGURE_LOWERING_DURATION - cut) as nat
    }
}

/// Whether the piece is due to fall: more time than the time between two
/// falls has gone by since the last one.
pub open spec fn lowering_due(last: u64, frame_start: u64, level: nat) -> bool {
    frame_start - last > lowering_duration(level)
}

/// Whether the key ends the round.
pub open spec fn is_cancel(key: KeyCode) -> bool {
    key == KeyCode::Esc
}

/// Whether the key does anything in the game.
pub open spec fn is_recognized(key: KeyCode) -> bool {
    match key {
        KeyCode::Esc | KeyCode::Down | KeyCode::Left | KeyCode::Right => true,
        KeyCode::Char(c) => c == 'q' || c == 'e',
        KeyCode::Other => false,
    }
}

/// What one key does: the cancel key ends the round; down, left and right
/// move the piece by one cell; `q` and `e` turn it by a quarter, counter-
/// clockwise and clockwise; any other key does nothing.
pub open spec fn key_effect(m: Motion, key: KeyCode) -> Motion {
    match key {
        KeyCode::Esc => Motion { is_running: false, ..m },
        KeyCode::Down => Motion { y: m.y + 1, ..m },
        KeyCode::Left => Motion { x: m.x - 1, ..m },
        KeyCode::Right => Motion { x: m.x + 1, ..m },
        KeyCode::Char(c) => if c == 'q' {
            Motion { rotation: m.rotation.spec_rotated(false), ..m }
        } else if c == 'e' {
            Motion { rotation: m.rotation.spec_rotated(true), ..m }
        } else {
            m
        },
        KeyCode::Other => m,
    }
}

/// What the keys of one frame do, first to last. The cancel key ends the
/// round at once: the keys behind it do nothing.
pub open spec fn keys_effect(m: Motion, keys: Seq<KeyCode>) -> Motion
    decreases keys.len(),
{
    if keys.len() == 0 {
        m
    } else if is_cancel(keys[0]) {
        key_effect(m, keys[0])
    } else {
        keys_effect(key_effect(m, keys[0]), keys.drop_first())
    }
}

/// Whether the cancel key is among the keys.
pub open spec fn has_cancel(keys: Seq<KeyCode>) -> bool {
    exists|i: int| 0 <= i < keys.len() && is_cancel(#[trigger] keys[i])
}

/// Whether the coordinates fit the eight bits that the state has for each.
pub open spec fn fits(m: Motion) -> bool {
    i8::MIN <= m.x <= i8::MAX && i8::MIN <= m.y <= i8::MAX
}

/// Whether the coordinates fit their eight bits after each of the keys up
/// to the cancel key.
pub open spec fn keys_fit(m: Motion, keys: Seq<KeyCode>) -> bool
    decreases keys.len(),
{
    if keys.len() == 0 || is_cancel(keys[0]) {
        true
    } else {
        fits(key_effect(m, keys[0])) && keys_fit(key_effect(m, keys[0]), keys.drop_first())
    }
}

impl GameState {
    /// Whether the round goes on, and where and how the piece stands.
    pub open spec fn motion(&self) -> Motion {
        Motion {
            is_running: self.is_running,
            x: self.current_figure_position.x as int,
            y: self.current_figure_position.y as int,
            rotation: self.current_figure_rotation,
        }
    }

    /// The level: one more than the number of lines cleared.
    pub open spec fn spec_level(&self) -> nat {
        (self.lines_hit + 1) as nat
    }

    /// The state at the start of a round, but for the two pieces: the piece
    /// stands at the origin and faces south, nothing is cleared or scored,
    /// the field of fifteen rows and ten columns is empty, and both clocks
    /// start at `now`.
    pub open spec fn is_fresh(&self, now: u64) -> bool {
        &&& self.is_running
        &&& self.current_figure_position == (Position { x: 0i8, y: 0i8 })
        &&& self.current_figure_rotation == Direction::South
        &&& self.last_figure_lowering_time == now
        &&& self.lines_hit == 0
        &&& self.score == 0
        &&& self.start_time == now
        &&& self.board.spec_size() == (Size { height: BOARD_HEIGHT, width: BOARD_WIDTH })
        &&& self.board.cells().len() == BOARD_HEIGHT * BOARD_WIDTH
        &&& forall|i: int| 0 <= i < self.board.cells().len() ==> !(#[trigger] self.board.cells()[i])
    }

    /// Whether the piece falls in the frame: the keys did not end the round
    /// and the fall is due.
    pub open spec fn falls(&self, data: FrameUpdateData, keys: Seq<KeyCode>) -> bool {
        !has_cancel(keys) && lowering_due(
            self.last_figure_lowering_time,
            data.frame_start_time,
            self.spec_level(),
        )
    }

    /// Where and how the piece stands after the frame: the keys first, then
    /// the fall by one row.
    pub open spec fn motion_after(&self, data: FrameUpdateData, keys: Seq<KeyCode>) -> Motion {
        let m = keys_effect(self.motion(), keys);
        if self.falls(data, keys) {
            Motion { y: m.y + 1, ..m }
        } else {
            m
        }
    }

    /// Whether the coordinates of the piece fit their eight bits all through
    /// the frame.
    pub open spec fn update_fits(&self, data: FrameUpdateData, keys: Seq<KeyCode>) -> bool {
        keys_fit(self.motion(), keys) && fits(self.motion_after(data, keys))
    }

    /// The state after the frame. The time of the last fall becomes that of
    /// the frame where the piece falls; the pieces, the counters, the start
    /// of the round and the field stay as they are.
    pub open spec fn spec_update(self, data: FrameUpdateData, keys: Seq<KeyCode>) -> GameState {
        let m = self.motion_after(data, keys);
        GameState {
            is_running: m.is_running,
            current_figure_position: Position { x: m.x as i8, y: m.y as i8 },
            current_figure_rotation: m.rotation,
            last_figure_lowering_time: if self.falls(data, keys) {
                data.frame_start_time
            } else {
                self.last_figure_lowering_time
            },
            ..self
        }
    }

    /// The start of a round with the two given pieces.
    pub fn with_figures(current: Figure, next: Figure, now: u64) -> (state: GameState)
        ensures
            state.is_fresh(now),
            state.current_figure == current,
            state.next_figure == next,
    {
        assert(BOARD_HEIGHT * BOARD_WIDTH == 150);
        GameState {
            is_running: true,
            current_figure: current,
            current_figure_position: Position { x: 0, y: 0 },
            current_figure_rotation: Direction::South,
            next_figure: next,
            last_figure_lowering_time: now,
            lines_hit: 0,
            score: 0,
            start_time: now,
            board: Board::new(Size { height: BOARD_HEIGHT, width: BOARD_WIDTH }),
        }
    }

    /// The start of a round: as [`GameState::with_figures`], with two pieces
    /// drawn at random.
    pub fn new(now: u64) -> (state: GameState)
        ensures
            state.is_fresh(now),
            state.current_figure.is_variant(),
            state.next_figure.is_variant(),
    {
        let current = Figure::get_random();
        let next = Figure::get_random();
        GameState::with_figures(current, next, now)
    }

    /// Whether the round goes on.
    pub fn is_running(&self) -> (running: bool)
        ensures
            running == self.is_running,
    {
        self.is_running
    }

    /// Ends the round.
    pub fn stop(&mut self)
        ensures
            *final(self) == (GameState { is_running: false, ..*old(self) }),
    {
        self.is_running = false;
    }

    /// The level: one more than the number of lines cleared.
    pub fn get_level(&self) -> (level: u32)
        ensures
            level == self.spec_level(),
    {
        self.lines_hit as u32 + 1
    }

    /// The time between two falls at the level of the state, in
    /// nanoseconds.
    pub fn get_figure_lowering_duration(&self) -> (duration: u64)
        ensures
            duration == lowering_duration(self.spec_level()),
    {
        figure_lowering_duration(self.get_level())
    }

    /// Turns the piece by a quarter, clockwise or not.
    pub fn rotate_current_figure(&mut self, clockwise: bool)
        ensures
            *final(self) == (GameState {
                current_figure_rotation: old(self).current_figure_rotation.spec_rotated(
                    clockwise,
                ),
                ..*old(self)
            }),
    {
        self.current_figure_rotation = self.current_figure_rotation.rotated(clockwise);
    }

    /// The shape of the piece as it stands: the piece turned to the way it
    /// faces.
    pub fn current_shape(&self) -> (shape: Figure)
        ensures
            shape.spec_size() == size_facing(
                self.current_figure.spec_size(),
                self.current_figure_rotation,
            ),
            shape.cells() == cells_facing(
                self.current_figure.spec_size(),
                self.current_figure.cells(),
                self.current_figure_rotation,
            ),
    {
        self.current_figure.facing(self.current_figure_rotation)
    }

    /// Whether [`GameState::update`] can take the frame: whether the
    /// coordinates of the piece fit their eight bits all through it.
    pub fn can_update(&self, data: &FrameUpdateData, events: &Vec<KeyEvent>) -> (ok: bool)
        ensures
            ok == self.update_fits(*data, released_codes(events@)),
    {
        let keys = collect_last_released_keys(events);
        let mut x: i8 = self.current_figure_position.x;
        let mut y: i8 = self.current_figure_position.y;
        let mut i: usize = 0;
        let ghost start = self.motion();
        let ghost mut m = start;
        assert(keys@.skip(0) =~= keys@);
        while i < keys.len()
            invariant
                i <= keys.len(),
                keys@ == released_codes(events@),
                start == self.motion(),
                m.x == x && m.y == y,
                keys_fit(start, keys@) == keys_fit(m, keys@.skip(i as int)),
                keys_effect(start, keys@).x == keys_effect(m, keys@.skip(i as int)).x,
                keys_effect(start, keys@).y == keys_effect(m, keys@.skip(i as int)).y,
                forall|j: int| 0 <= j < i ==> !is_cancel(#[trigger] keys@[j]),
            decreases keys.len() - i,
        {
            let key = keys[i];
            proof {
                let rest = keys@.skip(i as int);
                assert(rest.drop_first() =~= keys@.skip(i + 1));
            }
            match key {
                KeyCode::Esc => {
                    return true;
                },
                KeyCode::Down => {
                    if y == i8::MAX {
                        return false;
                    }
                    y = y + 1;
                },
                KeyCode::Left => {
                    if x == i8::MIN {
                        return false;
                    }
                    x = x - 1;
                },
                KeyCode::Right => {
                    if x == i8::MAX {
                        return false;
                    }
                    x = x + 1;
                },
                _ => {},
            }
            proof {
                m = key_effect(m, key);
            }
            i += 1;
        }
        let due = lowering_is_due(
            self.last_figure_lowering_time,
            data.frame_start_time,
            self.get_level(),
        );
        !(due && y == i8::MAX)
    }

    /// Takes the state through one frame: the keys released since the frame
    /// before act first to last, then the piece falls by one row where the
    /// fall is due. The cancel key ends the round and the frame at once.
    pub fn update(&mut self, data: &FrameUpdateData, events: &Vec<KeyEvent>)
        requires
            old(self).update_fits(*data, released_codes(events@)),
        ensures
            *final(self) == old(self).spec_update(*data, released_codes(events@)),
    {
        let keys = collect_last_released_keys(events);
        let mut i: usize = 0;
        assert(keys@.skip(0) =~= keys@);
        while i < keys.len()
            invariant
                i <= keys.len(),
                keys@ == released_codes(events@),
                keys_fit(self.motion(), keys@.skip(i as int)),
                keys_effect(old(self).motion(), keys@) == keys_effect(
                    self.motion(),
                    keys@.skip(i as int),
                ),
                forall|j: int| 0 <= j < i ==> !is_cancel(#[trigger] keys@[j]),
                *self == (GameState {
                    is_running: self.is_running,
                    current_figure_position: self.current_figure_position,
                    current_figure_rotation: self.current_figure_rotation,
                    ..*old(self)
                }),
            decreases keys.len() - i,
        {
            let key = keys[i];
            proof {
                let rest = keys@.skip(i as int);
                assert(rest.drop_first() =~= keys@.skip(i + 1));
            }
            match key {
                KeyCode::Esc => {
                    self.stop();
                    return;
                },
                KeyCode::Down => {
                    self.current_figure_position.y += 1;
                },
                KeyCode::Left => {
                    self.current_figure_position.x -= 1;
                },
                KeyCode::Right => {
                    self.current_figure_position.x += 1;
                },
                KeyCode::Char(c) => {
                    if c == 'q' {
                        self.rotate_current_figure(false);
                    } else if c == 'e' {
                        self.rotate_current_figure(true);
                    }
                },
                KeyCode::Other => {},
            }
            i += 1;
        }
        if lowering_is_due(self.last_figure_lowering_time, data.frame_start_time, self.get_level()) {
            self.current_figure_position.y += 1;
            self.last_figure_lowering_time = data.frame_start_time;
        }
    }
}

/// The time between two falls at `level`, in nanoseconds.
pub fn figure_lowering_duration(level: u32) -> (duration: u64)
    ensures
        duration == lowering_duration(level as nat),
{
    let cut: u64 = FIGURE_LOWERING_SPEEDUP * (level as u64);
    if cut >= BASE_FIGURE_LOWERING_DURATION - MIN_FIGURE_LOWERING_DURATION {
        MIN_FIGURE_LOWERING_DURATION
    } else {
        BASE_FIGURE_LOWERING_DURATION - cut
    }
}

/// Whether the piece is due to fall at `frame_start`, after a last fall at
/// `last`.
pub fn lowering_is_due(last: u64, frame_start: u64, level: u32) -> (due: bool)
    ensures
        due == lowering_due(last, frame_start, level as nat),
{
    frame_start > last && frame_start - last > figure_lowering_duration(level)
}

/// The time between two falls never grows with the level, never drops below
/// the shortest time, and is the shortest time from the level on at which
/// the speed-ups use up the difference to the base time.
pub proof fn lemma_lowering_duration_never_grows(lower: nat, higher: nat)
    requires
        lower <= higher,
    ensures
        lowering_duration(higher) <= lowering_duration(lower),
        MIN_FIGURE_LOWERING_DURATION <= lowering_duration(lower) <= BASE_FIGURE_LOWERING_DURATION,
        FIGURE_LOWERING_SPEEDUP * lower + MIN_FIGURE_LOWERING_DURATION
            >= BASE_FIGURE_LOWERING_DURATION ==> lowering_duration(lower)
            == MIN_FIGURE_LOWERING_DURATION,
        FIGURE_LOWERING_SPEEDUP * lower + MIN_FIGURE_LOWERING_DURATION
            < BASE_FIGURE_LOWERING_DURATION ==> lowering_duration(lower)
            == BASE_FIGURE_LOWERING_DURATION - FIGURE_LOWERING_SPEEDUP * lower,
{
}

/// A single key does what [`key_effect`] says.
pub proof fn lemma_single_key(m: Motion, key: KeyCode)
    ensures
        keys_effect(m, seq![key]) == key_effect(m, key),
{
    let keys = seq![key];
    assert(keys_effect(key_effect(m, key), keys.drop_first()) == key_effect(m, key));
}

/// Keys act in the order in which they were released, each on what the keys
/// before it left: as long as the first keys do not end the round, the keys
/// of a frame do what the first of them do and then the rest.
pub proof fn lemma_keys_apply_in_order(m: Motion, first: Seq<KeyCode>, then: Seq<KeyCode>)
    requires
        !has_cancel(first),
    ensures
        keys_effect(m, first + then) == keys_effect(keys_effect(m, first), then),
        keys_fit(m, first + then) == (keys_fit(m, first) && keys_fit(keys_effect(m, first), then)),
        has_cancel(first + then) == has_cancel(then),
    decreases first.len(),
{
    let all = first + then;
    if first.len() > 0 {
        assert(all.drop_first() =~= first.drop_first() + then);
        assert forall|i: int| 0 <= i < first.drop_first().len() implies !is_cancel(
            #[trigger] first.drop_first()[i],
        ) by {}
        lemma_keys_apply_in_order(key_effect(m, first[0]), first.drop_first(), then);
    }
}

/// The cancel key ends the round, and no key behind it in the frame does
/// anything: what is left is what the keys before it did, with the round
/// over.
pub proof fn lemma_cancel_ends_the_frame(m: Motion, before: Seq<KeyCode>, after: Seq<KeyCode>)
    requires
        !has_cancel(before),
    ensures
        keys_effect(m, before + seq![KeyCode::Esc] + after) == (Motion {
            is_running: false,
            ..keys_effect(m, before)
        }),
        has_cancel(before + seq![KeyCode::Esc] + after),
        keys_fit(m, before + seq![KeyCode::Esc] + after) == keys_fit(m, before),
{
    let tail = seq![KeyCode::Esc] + after;
    assert(before + seq![KeyCode::Esc] + after =~= before + tail);
    lemma_keys_apply_in_order(m, before, tail);
}

/// A frame in which the cancel key was released ends the round and lets the
/// piece not fall: the time of the last fall stays.
pub proof fn lemma_cancelled_frame(state: GameState, data: FrameUpdateData, keys: Seq<KeyCode>)
    requires
        has_cancel(keys),
    ensures
        !state.falls(data, keys),
        !state.spec_update(data, keys).is_running,
        state.spec_update(data, keys).last_figure_lowering_time
            == state.last_figure_lowering_time,
        state.motion_after(data, keys) == keys_effect(state.motion(), keys),
{
    lemma_cancel_stops(state.motion(), keys);
}

/// Keys with the cancel key among them leave the round over.
pub proof fn lemma_cancel_stops(m: Motion, keys: Seq<KeyCode>)
    requires
        has_cancel(keys),
    ensures
        !keys_effect(m, keys).is_running,
    decreases keys.len(),
{
    let i = choose|i: int| 0 <= i < keys.len() && is_cancel(#[trigger] keys[i]);
    if !is_cancel(keys[0]) {
        assert(keys.drop_first()[i - 1] == keys[i]);
        lemma_cancel_stops(key_effect(m, keys[0]), keys.drop_first());
    }
}

/// A key that the game does not know changes nothing, wherever it stands
/// among the keys of a frame: the frame goes as if it had not been released.
pub proof fn lemma_unrecognized_key_is_ignored(
    m: Motion,
    before: Seq<KeyCode>,
    key: KeyCode,
    after: Seq<KeyCode>,
)
    requires
        !is_recognized(key),
    ensures
        key_effect(m, key) == m,
        keys_effect(m, before + seq![key] + after) == keys_effect(m, before + after),
        fits(m) ==> keys_fit(m, before + seq![key] + after) == keys_fit(m, before + after),
        has_cancel(before + seq![key] + after) == has_cancel(before + after),
    decreases before.len(),
{
    let with_key = before + seq![key] + after;
    let without = before + after;
    if before.len() == 0 {
        assert(with_key.drop_first() =~= after);
    } else {
        let head = before[0];
        let rest = before.drop_first();
        assert(with_key.drop_first() =~= rest + seq![key] + after);
        assert(without.drop_first() =~= rest + after);
        lemma_unrecognized_key_is_ignored(key_effect(m, head), rest, key, after);
        let with_rest = rest + seq![key] + after;
        let without_rest = rest + after;
        if has_cancel(with_key) && !is_cancel(head) {
            let i = choose|i: int| 0 <= i < with_key.len() && is_cancel(#[trigger] with_key[i]);
            assert(with_rest[i - 1] == with_key[i]);
        }
        if has_cancel(without) && !is_cancel(head) {
            let i = choose|i: int| 0 <= i < without.len() && is_cancel(#[trigger] without[i]);
            assert(without_rest[i - 1] == without[i]);
        }
    }
}

/// A frame in which only keys that the game does not know were released
/// leaves the round going or over as it was and the piece facing as it did;
/// the piece moves only where it falls, and stays where it is in a frame in
/// which no fall is due.
pub proof fn lemma_frame_of_unrecognized_keys(
    state: GameState,
    data: FrameUpdateData,
    keys: Seq<KeyCode>,
)
    requires
        forall|i: int| 0 <= i < keys.len() ==> !is_recognized(#[trigger] keys[i]),
    ensures
        keys_effect(state.motion(), keys) == state.motion(),
        !has_cancel(keys),
        state.spec_update(data, keys) == state.spec_update(data, Seq::empty()),
        state.spec_update(data, keys).is_running == state.is_running,
        state.spec_update(data, keys).current_figure_rotation == state.current_figure_rotation,
        state.spec_update(data, keys).current_figure_position.x == state.current_figure_position.x,
        !state.falls(data, keys) ==> state.spec_update(data, keys) == state,
{
    lemma_unrecognized_keys(state.motion(), keys);
}

/// Keys that the game does not know change nothing.
pub proof fn lemma_unrecognized_keys(m: Motion, keys: Seq<KeyCode>)
    requires
        forall|i: int| 0 <= i < keys.len() ==> !is_recognized(#[trigger] keys[i]),
    ensures
        keys_effect(m, keys) == m,
        !has_cancel(keys),
        fits(m) ==> keys_fit(m, keys),
    decreases keys.len(),
{
    if keys.len() > 0 {
        assert forall|i: int| 0 <= i < keys.drop_first().len() implies !is_recognized(
            #[trigger] keys.drop_first()[i],
        ) by {}
        lemma_unrecognized_keys(m, keys.drop_first());
    }
}

} // verus!
