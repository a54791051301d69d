//! The machine as its host sees it: what the host tells it between cycles,
//! what one frame does, and where the lit pixels go in the window.

use crate::cpu::{cycled, Chip8};
use crate::fault::Fault;
use crate::state::MachineState;
use vstd::prelude::*;

verus! {

/// The side of one pixel in the window.
pub const SCALE: u32 = 10;

/// The height of the window.
pub const HEIGHT: u32 = 320;

/// The width of the window.
pub const WIDTH: u32 = 640;

/// The number of cycles that the machine runs in one frame.
pub const CYCLES_PER_FRAME: usize = 10;

/// The code of the escape key.
pub const KEY_ESCAPE: i32 = 27;

/// What the host reports to the machine. A key is named by its code: for a
/// key that prints a character, that character's code in lower case.
#[derive(Clone, Copy, Debug, PartialEq, Eq, Structural)]
pub enum HostEvent {
    /// The window was closed.
    Quit,
    /// A key went down.
    KeyDown(i32),
    /// A key went up.
    KeyUp(i32),
}

/// The key of the machine that a key of the host stands for:
/// `1 2 3 4`, `q w e r`, `a s d f`, `z x c v` give the keys
/// `1 2 3 C`, `4 5 6 D`, `7 8 9 E`, `A 0 B F`.
pub open spec fn key_of(keycode: i32) -> Option<u8> {
    if keycode == 'x' as u8 as i32 {
        Some(0x0u8)
    } else if keycode == '1' as u8 as i32 {
        Some(0x1u8)
    } else if keycode == '2' as u8 as i32 {
        Some(0x2u8)
    } else if keycode == '3' as u8 as i32 {
        Some(0x3u8)
    } else if keycode == 'q' as u8 as i32 {
        Some(0x4u8)
    } else if keycode == 'w' as u8 as i32 {
        Some(0x5u8)
    } else if keycode == 'e' as u8 as i32 {
        Some(0x6u8)
    } else if keycode == 'a' as u8 as i32 {
        Some(0x7u8)
    } else if keycode == 's' as u8 as i32 {
        Some(0x8u8)
    } else if keycode == 'd' as u8 as i32 {
        Some(0x9u8)
    } else if keycode == 'z' as u8 as i32 {
        Some(0xAu8)
    } else if keycode == 'c' as u8 as i32 {
        Some(0xBu8)
    } else if keycode == '4' as u8 as i32 {
        Some(0xCu8)
    } else if keycode == 'r' as u8 as i32 {
        Some(0xDu8)
    } else if keycode == 'f' as u8 as i32 {
        Some(0xEu8)
    } else if keycode == 'v' as u8 as i32 {
        Some(0xFu8)
    } else {
        None
    }
}

/// The key of the machine that the host's key `keycode` stands for.
pub fn key_index(keycode: i32) -> (key: Option<u8>)
    ensures
        key == key_of(keycode),
        key matches Some(k) ==> k < 16,
{
    match keycode {
        120 => Some(0x0),
        49 => Some(0x1),
        50 => Some(0x2),
        51 => Some(0x3),
        113 => Some(0x4),
        119 => Some(0x5),
        101 => Some(0x6),
        97 => Some(0x7),
        115 => Some(0x8),
        100 => Some(0x9),
        122 => Some(0xA),
        99 => Some(0xB),
        52 => Some(0xC),
        114 => Some(0xD),
        102 => Some(0xE),
        118 => Some(0xF),
        _ => None,
    }
}

/// Whether `event` asks the host to stop: the window was closed, or the
/// escape key went down.
pub open spec fn asks_quit(event: HostEvent) -> bool {
    event == HostEvent::Quit || event == HostEvent::KeyDown(KEY_ESCAPE)
}

/// The state after `event`: a key that stands for a key of the machine
/// presses or releases that key, and nothing else changes anything.
pub open spec fn after_event(s: MachineState, event: HostEvent) -> MachineState {
    match event {
        HostEvent::Quit => s,
        HostEvent::KeyDown(keycode) => match key_of(keycode) {
            Some(key) => MachineState { keys: s.keys.update(key as int, true), ..s },
            None => s,
        },
        HostEvent::KeyUp(keycode) => match key_of(keycode) {
            Some(key) => MachineState { keys: s.keys.update(key as int, false), ..s },
            None => s,
        },
    }
}

/// The state after `events`, in their order.
pub open spec fn after_events(s: MachineState, events: Seq<HostEvent>) -> MachineState
    decreases events.len(),
{
    if events.len() == 0 {
        s
    } else {
        after_event(after_events(s, events.drop_last()), events.last())
    }
}

/// Whether one of `events` asks the host to stop.
pub open spec fn any_asks_quit(events: Seq<HostEvent>) -> bool {
    exists|i: int| 0 <= i < events.len() && asks_quit(#[trigger] events[i])
}

/// The state after the cycles that draw the bytes `randoms`, one cycle for
/// each byte, and the fault that stopped them, if any. The first fault ends
/// the run: the machine stays as that cycle left it.
pub open spec fn after_cycles(s: MachineState, randoms: Seq<u8>) -> (MachineState, Option<Fault>)
    decreases randoms.len(),
{
    if randoms.len() == 0 {
        (s, None)
    } else {
        let (mid, fault) = after_cycles(s, randoms.drop_last());
        if fault is Some {
            (mid, fault)
        } else {
            match mid.cycle(randoms.last()) {
                Ok(next) => (next, None),
                Err(fault) => (mid.stopped(), Some(fault)),
            }
        }
    }
}

/// The corner of the pixel with index `pixel` in the window: its column and
/// its row, each times the scale.
pub open spec fn corner_of(pixel: int) -> (i32, i32) {
    (((pixel % 64) * SCALE) as i32, ((pixel / 64) * SCALE) as i32)
}

/// The corners of the lit pixels among the first `upto` pixels of
/// `display`, in the order of the pixels.
pub open spec fn lit_corners(display: Seq<bool>, upto: int) -> Seq<(i32, i32)>
    decreases upto,
{
    if upto <= 0 {
        Seq::empty()
    } else if display[upto - 1] {
        lit_corners(display, upto - 1).push(corner_of(upto - 1))
    } else {
        lit_corners(display, upto - 1)
    }
}

impl Chip8 {
    /// Takes in one event of the host. Returns whether the event asks the
    /// host to stop.
    pub fn handle_event(&mut self, event: HostEvent) -> (quit: bool)
        ensures
            final(self).wf() == old(self).wf(),
            final(self)@ == after_event(old(self)@, event),
            quit == asks_quit(event),
    {
        match event {
            HostEvent::Quit => true,
            HostEvent::KeyDown(keycode) => {
                if keycode == KEY_ESCAPE {
                    true
                } else {
                    match key_index(keycode) {
                        Some(key) => {
                            self.keys[key as usize] = true;
                        },
                        None => {},
                    }
                    false
                }
            },
            HostEvent::KeyUp(keycode) => {
                match key_index(keycode) {
                    Some(key) => {
                        self.keys[key as usize] = false;
                    },
                    None => {},
                }
                false
            },
        }
    }

    /// Runs one frame: takes in `events` in their order, then runs the
    /// cycles of a frame. Returns whether an event asked the host to stop;
    /// the cycles of that frame are run all the same. The first fault ends
    /// the frame. Each cycle may draw a random byte, so of the frame this is
    /// known: some bytes give its outcome.
    pub fn emulate(&mut self, events: &[HostEvent]) -> (res: Result<bool, Fault>)
        requires
            old(self).wf(),
        ensures
            final(self).wf(),
            exists|randoms: Seq<u8>|
                {
                    &&& randoms.len() == CYCLES_PER_FRAME
                    &&& final(self)@ == (#[trigger] after_cycles(
                        after_events(old(self)@, events@),
                        randoms,
                    )).0
                    &&& res == match after_cycles(after_events(old(self)@, events@), randoms).1 {
                        Some(fault) => Err::<bool, Fault>(fault),
                        None => Ok::<bool, Fault>(any_asks_quit(events@)),
                    }
                },
    {
        let mut quit: bool = false;
        let mut i: usize = 0;
        while i < events.len()
            invariant
                i <= events@.len(),
                self.wf(),
                self@ == after_events(old(self)@, events@.take(i as int)),
                quit == any_asks_quit(events@.take(i as int)),
            decreases events@.len() - i,
        {
            let asked: bool = self.handle_event(events[i]);
            proof {
                let before = events@.take(i as int);
                let now = events@.take(i + 1);
                assert(now.drop_last() == before);
                assert(now.last() == events@[i as int]);
                if asked {
                    assert(asks_quit(now[i as int]));
                }
                if any_asks_quit(before) {
                    let j = choose|j: int| 0 <= j < before.len() && asks_quit(#[trigger] before[j]);
                    assert(asks_quit(now[j]));
                }
                if any_asks_quit(now) && !asked {
                    let j = choose|j: int| 0 <= j < now.len() && asks_quit(#[trigger] now[j]);
                    assert(asks_quit(before[j]));
                }
            }
            quit = quit || asked;
            i += 1;
        }
        assert(events@.take(i as int) == events@);
        let ghost started = self@;
        let ghost mut randoms: Seq<u8> = Seq::empty();
        let mut done: usize = 0;
        while done < CYCLES_PER_FRAME
            invariant
                done <= CYCLES_PER_FRAME,
                self.wf(),
                randoms.len() == done,
                started == after_events(old(self)@, events@),
                quit == any_asks_quit(events@),
                after_cycles(started, randoms) == (self@, None::<Fault>),
            decreases CYCLES_PER_FRAME - done,
        {
            let ghost mid = self@;
            let ghost so_far = randoms;
            match self.cycle() {
                Ok(()) => {
                    proof {
                        let random = choose|random: u8|
                            cycled(mid, #[trigger] mid.cycle(random), self@, Ok(()));
                        randoms = so_far.push(random);
                        assert(randoms.drop_last() == so_far);
                    }
                },
                Err(fault) => {
                    proof {
                        let random = choose|random: u8|
                            cycled(mid, #[trigger] mid.cycle(random), self@, Err(fault));
                        randoms = so_far.push(random);
                        assert(randoms.drop_last() == so_far);
                        assert(after_cycles(started, randoms) == (self@, Some(fault)));
                        let more = (CYCLES_PER_FRAME - done - 1) as nat;
                        lemma_fault_ends_run(started, randoms, more);
                        let all = randoms + Seq::new(more, |i: int| 0u8);
                        assert(all.len() == CYCLES_PER_FRAME);
                        assert(after_cycles(started, all) == (self@, Some(fault)));
                    }
                    return Err(fault);
                },
            }
            done += 1;
        }
        Ok(quit)
    }

    /// The corners of the lit pixels in the window, in the order of the
    /// pixels, row by row.
    pub fn lit_pixels(&self) -> (corners: Vec<(i32, i32)>)
        ensures
            corners@ == lit_corners(self.display@, 2048),
    {
        let mut corners: Vec<(i32, i32)> = Vec::new();
        let mut i: usize = 0;
        while i < 2048
            invariant
                i <= 2048,
                corners@ == lit_corners(self.display@, i as int),
            decreases 2048 - i,
        {
            if self.display[i] {
                let x: i32 = (i % 64) as i32;
                let y: i32 = (i / 64) as i32;
                corners.push((x * SCALE as i32, y * SCALE as i32));
            }
            i += 1;
        }
        corners
    }
}

/// A run that a fault has ended stays as it is, whatever bytes follow.
proof fn lemma_fault_ends_run(s: MachineState, randoms: Seq<u8>, more: nat)
    requires
        after_cycles(s, randoms).1 is Some,
    ensures
        after_cycles(s, randoms + Seq::new(more, |i: int| 0u8)) == after_cycles(s, randoms),
    decreases more,
{
    if more == 0 {
        assert(randoms + Seq::new(more, |i: int| 0u8) == randoms);
    } else {
        lemma_fault_ends_run(s, randoms, (more - 1) as nat);
        let longer = randoms + Seq::new(more, |i: int| 0u8);
        assert(longer.drop_last() == randoms + Seq::new((more - 1) as nat, |i: int| 0u8));
    }
}

} // verus!
