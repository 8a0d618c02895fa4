//! Key events as the game reads them.

use vstd::prelude::*;

verus! {

/// The keys that the game tells apart. Every key that is neither a named
/// one nor a character is `Other`.
#[derive(Debug, Clone, Copy, PartialEq, Eq, Structural)]
pub enum KeyCode {
    Esc,
    Down,
    Left,
    Right,
    Char(char),
    Other,
}

/// One event of the keyboard: a key, and whether it was released (rather than
/// pressed or held).
#[derive(Debug, Clone, Copy, PartialEq, Eq, Structural)]
pub struct KeyEvent {
    pub code: KeyCode,
    pub released: bool,
}

/// The keys of the release events among `events`, in the order of the
/// events.
pub open spec fn released_codes(events: Seq<KeyEvent>) -> Seq<KeyCode> {
    events.filter(|event: KeyEvent| event.released).map_values(|event: KeyEvent| event.code)
}

/// The keys released since the last frame: the keys of the release events
/// among `events`, in the order of the events, a key as often as it was
/// released.
pub fn collect_last_released_keys(events: &Vec<KeyEvent>) -> (keys: Vec<KeyCode>)
    ensures
        keys@ == released_codes(events@),
{
    let mut keys: Vec<KeyCode> = Vec::new();
    let mut i: usize = 0;
    proof {
        reveal(Seq::filter);
    }
    while i < events.len()
        invariant
            i <= events.len(),
            keys@ == released_codes(events@.take(i as int)),
        decreases events.len() - i,
    {
        let event = events[i];
        proof {
            reveal(Seq::filter);
            assert(events@.take(i + 1).drop_last() =~= events@.take(i as int));
        }
        if event.released {
            keys.push(event.code);
        }
        i += 1;
    }
    assert(events@.take(i as int) =~= events@);
    keys
}

} // verus!
