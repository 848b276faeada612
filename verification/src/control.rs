//! The message protocol between the emulation loop and the presentation
//! loop, and the per-iteration decisions of the emulation loop: applying one
//! inbound control message, running one paced interpreter cycle, and pacing
//! the timers. The loops themselves, the channels and the threads live with
//! the host; everything that decides lives here.

use vstd::prelude::*;

use crate::emu::{fetched, known_opcode, step, Emu, EmuFault};
use crate::metro::{ticked, Metronome};
use crate::{Mode, GFX_W};

verus! {

/// A control message from the presentation loop to the emulation loop.
pub enum UiToEmuMsg {
    /// A fresh snapshot of the sixteen key states.
    Keys(Vec<bool>),
    /// Pause or resume emulation.
    Paused(bool),
    /// Ask the emulation loop to acknowledge and shut down.
    Quit,
    /// Reset the interpreter to its initial state.
    Reset,
}

/// An event from the emulation loop to the presentation loop.
pub enum EmuToUiMsg {
    /// The beep gate changed: sound on or off.
    Beeping(bool),
    /// The frame buffer changed: here is the mode and a snapshot of it.
    Draw(Mode, Vec<Vec<bool>>),
    /// The emulation loop has acknowledged the quit request and exited.
    QuitAck,
}

/// Apply at most one pending control message to the interpreter. Returns
/// whether a quit request was received; the caller then acknowledges it and
/// leaves its loop. A key snapshot of the wrong length is ignored.
pub fn process_ui_events(emu: &mut Emu, msg: Option<UiToEmuMsg>, paused: &mut bool) -> (quit:
    bool)
    requires
        old(emu).wf(),
    ensures
        final(emu).wf(),
        match msg {
            None => {
                &&& !quit
                &&& *final(emu) == *old(emu)
                &&& *final(paused) == *old(paused)
            },
            Some(UiToEmuMsg::Keys(k)) => {
                &&& !quit
                &&& *final(emu) == (Emu { keys: final(emu).keys, ..*old(emu) })
                &&& final(emu).keys@ == if k@.len() == 16 {
                    k@
                } else {
                    old(emu).keys@
                }
                &&& *final(paused) == *old(paused)
            },
            Some(UiToEmuMsg::Paused(p)) => {
                &&& !quit
                &&& *final(emu) == *old(emu)
                &&& *final(paused) == p
            },
            Some(UiToEmuMsg::Quit) => {
                &&& quit
                &&& *final(emu) == *old(emu)
                &&& *final(paused) == *old(paused)
            },
            Some(UiToEmuMsg::Reset) => {
                &&& !quit
                &&& final(emu).is_initial_with_rom(old(emu).rom@)
                &&& *final(paused) == *old(paused)
            },
        },
{
    match msg {
        None => false,
        Some(UiToEmuMsg::Keys(k)) => {
            if k.len() == 16 {
                emu.keys = k;
            }
            false
        },
        Some(UiToEmuMsg::Paused(p)) => {
            *paused = p;
            false
        },
        Some(UiToEmuMsg::Quit) => true,
        Some(UiToEmuMsg::Reset) => {
            emu.reset();
            false
        },
    }
}

/// What one paced interpreter tick does, given whether the pacing let it
/// run: nothing when it did not; otherwise one fetch-decode-execute cycle,
/// followed by a draw event exactly when the cycle left the sticky redraw
/// flag set, which emitting the event clears.
pub open spec fn emu_tick_rel(
    pre: Emu,
    post: Emu,
    ran: bool,
    r: Result<Option<EmuToUiMsg>, EmuFault>,
) -> bool {
    if !ran {
        &&& post == pre
        &&& r == Ok::<Option<EmuToUiMsg>, EmuFault>(None)
    } else {
        let op = fetched(pre);
        let started = (Emu { opcode: op, ..pre });
        if !known_opcode(op) {
            &&& post == started
            &&& r == Err::<Option<EmuToUiMsg>, EmuFault>(EmuFault::UnknownOpcode {
                opcode: op,
                addr: pre.pc,
            })
        } else {
            ||| {
                &&& step(started, post)
                &&& !post.draw
                &&& r == Ok::<Option<EmuToUiMsg>, EmuFault>(None)
            }
            ||| {
                &&& step(started, (Emu { draw: true, ..post }))
                &&& !post.draw
                &&& r matches Ok(Some(EmuToUiMsg::Draw(m, g))) && m == post.mode && g@.len()
                    == GFX_W && (forall|x: int|
                    0 <= x < GFX_W as int ==> (#[trigger] g@[x])@ == post.gfx@[x]@)
            }
        }
    }
}

/// One paced interpreter tick: see `emu_tick_rel`. Public so that any host
/// loop can pace the cycle by its own clock and pause policy.
pub fn emu_tick(emu: &mut Emu, run_cycle: bool) -> (r: Result<Option<EmuToUiMsg>, EmuFault>)
    requires
        old(emu).wf(),
    ensures
        final(emu).wf(),
        emu_tick_rel(*old(emu), *final(emu), run_cycle, r),
{
    if !run_cycle {
        return Ok(None);
    }
    match emu.execute_cycle() {
        Err(f) => Err(f),
        Ok(()) => {
            if emu.draw {
                let snapshot = clone_grid(&emu.gfx);
                let mode = emu.mode;
                emu.draw = false;
                proof {
                    assert(step(
                        (Emu { opcode: fetched(*old(emu)), ..*old(emu) }),
                        (Emu { draw: true, ..*emu }),
                    ));
                }
                Ok(Some(EmuToUiMsg::Draw(mode, snapshot)))
            } else {
                Ok(None)
            }
        },
    }
}

/// Pace the interpreter at the instruction rate: when the metronome is due
/// and emulation is not paused, run one cycle and report its outcome. The
/// clock decides whether the metronome fires, so the contract promises,
/// for whichever way the poll went, that the metronome moved accordingly
/// and that the tick ran exactly when it fired while unpaused.
pub fn signal_draw_event(emu: &mut Emu, clock_rate: &mut Metronome, paused: bool) -> (r: Result<
    Option<EmuToUiMsg>,
    EmuFault,
>)
    requires
        old(emu).wf(),
        old(clock_rate).wf(),
    ensures
        final(emu).wf(),
        final(clock_rate).wf(),
        exists|fired: bool|
            {
                &&& #[trigger] ticked(*old(clock_rate), *final(clock_rate), fired)
                &&& emu_tick_rel(*old(emu), *final(emu), fired && !paused, r)
            },
        paused ==> *final(emu) == *old(emu),
{
    let fired = clock_rate.on_tick();
    let ran = fired && !paused;
    let r = emu_tick(emu, ran);
    proof {
        assert(ticked(*old(clock_rate), *clock_rate, fired));
        assert(emu_tick_rel(*old(emu), *emu, fired && !paused, r));
    }
    r
}

/// What one paced timer tick does: nothing when the pacing held it back;
/// otherwise both timers step down (clamped at zero), and a beep event is
/// emitted exactly when that changed whether the sound timer is running.
pub open spec fn timers_tick_rel(
    pre: Emu,
    post: Emu,
    beep_pre: bool,
    beep_post: bool,
    ran: bool,
    ev: Option<EmuToUiMsg>,
) -> bool {
    if !ran {
        &&& post == pre
        &&& beep_post == beep_pre
        &&& ev == Option::<EmuToUiMsg>::None
    } else {
        &&& post == (Emu {
            dt: if pre.dt > 0 {
                (pre.dt - 1) as u8
            } else {
                0u8
            },
            st: if pre.st > 0 {
                (pre.st - 1) as u8
            } else {
                0u8
            },
            ..pre
        })
        &&& beep_post == (post.st > 0)
        &&& ev == if beep_pre != (post.st > 0) {
            Some(EmuToUiMsg::Beeping(post.st > 0))
        } else {
            Option::<EmuToUiMsg>::None
        }
    }
}

/// One paced timer tick: see `timers_tick_rel`.
pub fn timers_tick(emu: &mut Emu, beeping: &mut bool, ran: bool) -> (ev: Option<EmuToUiMsg>)
    requires
        old(emu).wf(),
    ensures
        final(emu).wf(),
        timers_tick_rel(*old(emu), *final(emu), *old(beeping), *final(beeping), ran, ev),
{
    if !ran {
        return None;
    }
    emu.update_timers();
    let now_beeping = emu.beeping();
    if *beeping != now_beeping {
        *beeping = now_beeping;
        Some(EmuToUiMsg::Beeping(now_beeping))
    } else {
        None
    }
}

/// Pace the timers at the timer rate: when the metronome is due and
/// emulation is not paused, step the timers and report a beep-state
/// change. As with the instruction pacing, the timers step exactly when
/// the metronome fired while unpaused.
pub fn update_timers(
    emu: &mut Emu,
    rate: &mut Metronome,
    paused: bool,
    beeping: &mut bool,
) -> (ev: Option<EmuToUiMsg>)
    requires
        old(emu).wf(),
        old(rate).wf(),
    ensures
        final(emu).wf(),
        final(rate).wf(),
        exists|fired: bool|
            {
                &&& #[trigger] ticked(*old(rate), *final(rate), fired)
                &&& timers_tick_rel(
                    *old(emu),
                    *final(emu),
                    *old(beeping),
                    *final(beeping),
                    fired && !paused,
                    ev,
                )
            },
        paused ==> *final(emu) == *old(emu) && *final(beeping) == *old(beeping),
{
    let fired = rate.on_tick();
    let ran = fired && !paused;
    let ev = timers_tick(emu, beeping, ran);
    proof {
        assert(ticked(*old(rate), *rate, fired));
        assert(timers_tick_rel(*old(emu), *emu, *old(beeping), *beeping, fired && !paused, ev));
    }
    ev
}

/// The presentation loop's redraw decision: a pending draw event is
/// rendered only when the redraw metronome is due and emulation is not
/// paused, so the redraw frequency is decoupled from the instruction rate.
/// The metronome is polled either way, as pausing never stops the clock.
pub fn should_redraw(rate: &mut Metronome, paused: bool) -> (go: bool)
    requires
        old(rate).wf(),
    ensures
        final(rate).wf(),
        exists|fired: bool|
            {
                &&& #[trigger] ticked(*old(rate), *final(rate), fired)
                &&& go == (fired && !paused)
            },
{
    let fired = rate.on_tick();
    let go = fired && !paused;
    proof {
        assert(ticked(*old(rate), *rate, fired));
    }
    go
}

/// A deep copy of a frame buffer, column by column.
fn clone_grid(g: &Vec<Vec<bool>>) -> (r: Vec<Vec<bool>>)
    ensures
        r@.len() == g@.len(),
        forall|x: int| 0 <= x < g@.len() ==> (#[trigger] r@[x])@ == g@[x]@,
{
    let mut r: Vec<Vec<bool>> = Vec::new();
    let mut x: usize = 0;
    while x < g.len()
        invariant
            x <= g@.len(),
            r@.len() == x as int,
            forall|i: int| 0 <= i < x as int ==> (#[trigger] r@[i])@ == g@[i]@,
        decreases g@.len() - x,
    {
        let src = &g[x];
        let mut col: Vec<bool> = Vec::new();
        let mut y: usize = 0;
        while y < src.len()
            invariant
                x < g@.len(),
                y <= src@.len(),
                src@ == g@[x as int]@,
                col@.len() == y as int,
                forall|j: int| 0 <= j < y as int ==> #[trigger] col@[j] == src@[j],
            decreases src@.len() - y,
        {
            col.push(src[y]);
            y += 1;
        }
        proof {
            assert(col@ =~= g@[x as int]@);
        }
        r.push(col);
        x += 1;
    }
    r
}

} // verus!
