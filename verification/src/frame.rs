//! The per-frame submission and synchronization protocol, as a state
//! machine: acquire an image, record and submit the command sequence with
//! presentation chained after it, then block on the completion fence
//! before the next frame begins. The GPU work itself happens outside this
//! crate; the driver here decides, the collaborator performs each action
//! and hands the outcome back as the next event.

use vstd::prelude::*;

verus! {

/// What the collaborator reports to the driver.
#[derive(Clone, Copy, PartialEq, Eq, Structural, Debug)]
pub enum FrameEvent {
    /// The event loop is ready to start a frame.
    Tick,
    /// An image index was acquired; it may be flagged suboptimal, which is
    /// accepted and rendered as-is.
    AcquireOk { image_index: u32, suboptimal: bool },
    /// The swapchain is lost: nothing can be acquired. Fatal here — there
    /// is no recreation path.
    AcquireFailed,
    /// The submit-and-present chain was flushed, or failed to flush.
    SubmitFlushed { ok: bool },
    /// The completion fence signalled; `ok` is false where the submitted
    /// work was lost.
    FenceDone { ok: bool },
    /// The window asked to close.
    CloseRequested,
}

/// What the driver asks the collaborator to do next.
#[derive(Clone, Copy, PartialEq, Eq, Structural, Debug)]
pub enum FrameAction {
    /// Nothing to do until the next event.
    Stand,
    /// Acquire the next swapchain image.
    Acquire,
    /// Record the frame's command sequence — bind the compute pipeline,
    /// bind the descriptor set, push the encoded camera block, dispatch
    /// over the viewport, blit the output image into the acquired image —
    /// submit it chained after the acquire signal, and chain presentation
    /// of that image after the submission.
    SubmitAndPresent { image_index: u32 },
    /// Block until the completion fence signals.
    WaitFence,
    /// Drop the frame (a transient error, logged) and continue.
    DropFrame,
    /// Leave the frame loop.
    Exit,
}

/// Where the driver stands within a frame.
#[derive(Clone, Copy, PartialEq, Eq, Structural, Debug)]
pub enum FrameStage {
    /// Between frames.
    Idle,
    /// An acquire is outstanding.
    Acquiring,
    /// An image is acquired and the command sequence is being submitted.
    Recorded { image_index: u32 },
    /// The submission is flushed; its fence has not signalled yet.
    InFlight { image_index: u32 },
    /// The loop is over.
    Exited,
}

/// The frame driver's control state.
#[derive(Clone, Copy, PartialEq, Eq, Structural, Debug)]
pub struct FrameDriver {
    /// How many images the swapchain holds; every acquired index is below
    /// this.
    pub image_count: u32,
    pub stage: FrameStage,
    /// A close was requested; the loop ends once no frame is in flight.
    pub close_requested: bool,
}

impl FrameDriver {
    /// Any index the driver holds names a swapchain image.
    pub open spec fn wf(&self) -> bool {
        &&& self.image_count > 0
        &&& match self.stage {
            FrameStage::Recorded { image_index } => image_index < self.image_count,
            FrameStage::InFlight { image_index } => image_index < self.image_count,
            _ => true,
        }
    }

    /// Which events can arrive in which stage: the collaborator answers
    /// exactly what was asked of it, an acquired index names an image of
    /// the set, and a close request can arrive at any time.
    pub open spec fn accepts(&self, event: FrameEvent) -> bool {
        match event {
            FrameEvent::Tick => self.stage == FrameStage::Idle,
            FrameEvent::AcquireOk { image_index, .. } => self.stage == FrameStage::Acquiring
                && image_index < self.image_count,
            FrameEvent::AcquireFailed => self.stage == FrameStage::Acquiring,
            FrameEvent::SubmitFlushed { .. } => self.stage matches FrameStage::Recorded { .. },
            FrameEvent::FenceDone { .. } => self.stage matches FrameStage::InFlight { .. },
            FrameEvent::CloseRequested => true,
        }
    }

    /// A fresh driver over a swapchain of `image_count` images.
    pub fn new(image_count: u32) -> (d: FrameDriver)
        requires
            image_count > 0,
        ensures
            d == (FrameDriver {
                image_count,
                stage: FrameStage::Idle,
                close_requested: false,
            }),
            d.wf(),
    {
        FrameDriver { image_count, stage: FrameStage::Idle, close_requested: false }
    }

    /// Advance the protocol by one event and say what to do next. Each
    /// stage's completion gates the next: submission is asked only of an
    /// acquired image, the fence wait only of a flushed submission, and a
    /// close request ends the loop only once the in-flight frame's wait
    /// has completed. A failed flush or a failed fence drops that frame
    /// and the loop goes on; a failed acquire is fatal.
    pub fn step(&mut self, event: FrameEvent) -> (a: FrameAction)
        requires
            old(self).wf(),
            old(self).accepts(event),
        ensures
            final(self).wf(),
            final(self).image_count == old(self).image_count,
            match event {
                FrameEvent::Tick => {
                    if old(self).close_requested {
                        final(self).stage == FrameStage::Exited && a == FrameAction::Exit
                    } else {
                        final(self).stage == FrameStage::Acquiring && a == FrameAction::Acquire
                    }
                },
                FrameEvent::AcquireOk { image_index, suboptimal } => final(self).stage
                    == (FrameStage::Recorded { image_index }) && a
                    == (FrameAction::SubmitAndPresent { image_index }),
                FrameEvent::AcquireFailed => final(self).stage == FrameStage::Exited && a
                    == FrameAction::Exit,
                FrameEvent::SubmitFlushed { ok } => {
                    if ok {
                        final(self).stage == (FrameStage::InFlight {
                            image_index: stage_index(old(self).stage),
                        }) && a == FrameAction::WaitFence
                    } else {
                        final(self).stage == FrameStage::Idle && a == FrameAction::DropFrame
                    }
                },
                FrameEvent::FenceDone { ok } => {
                    if old(self).close_requested {
                        final(self).stage == FrameStage::Exited && a == FrameAction::Exit
                    } else {
                        final(self).stage == FrameStage::Idle && a == FrameAction::Stand
                    }
                },
                FrameEvent::CloseRequested => final(self).close_requested && final(self).stage == (
                if old(self).stage == FrameStage::Idle {
                    FrameStage::Exited
                } else {
                    old(self).stage
                }) && a == (if old(self).stage == FrameStage::Idle {
                    FrameAction::Exit
                } else {
                    FrameAction::Stand
                }),
            },
            final(self).close_requested == (old(self).close_requested || event
                == FrameEvent::CloseRequested),
            a == FrameAction::Exit ==> final(self).stage == FrameStage::Exited,
    {
        match event {
            FrameEvent::Tick => {
                if self.close_requested {
                    self.stage = FrameStage::Exited;
                    FrameAction::Exit
                } else {
                    self.stage = FrameStage::Acquiring;
                    FrameAction::Acquire
                }
            },
            FrameEvent::AcquireOk { image_index, suboptimal: _ } => {
                self.stage = FrameStage::Recorded { image_index };
                FrameAction::SubmitAndPresent { image_index }
            },
            FrameEvent::AcquireFailed => {
                self.stage = FrameStage::Exited;
                FrameAction::Exit
            },
            FrameEvent::SubmitFlushed { ok } => {
                let image_index = match self.stage {
                    FrameStage::Recorded { image_index } => image_index,
                    _ => 0,
                };
                if ok {
                    self.stage = FrameStage::InFlight { image_index };
                    FrameAction::WaitFence
                } else {
                    self.stage = FrameStage::Idle;
                    FrameAction::DropFrame
                }
            },
            FrameEvent::FenceDone { ok: _ } => {
                if self.close_requested {
                    self.stage = FrameStage::Exited;
                    FrameAction::Exit
                } else {
                    self.stage = FrameStage::Idle;
                    FrameAction::Stand
                }
            },
            FrameEvent::CloseRequested => {
                self.close_requested = true;
                if self.stage == FrameStage::Idle {
                    self.stage = FrameStage::Exited;
                    FrameAction::Exit
                } else {
                    FrameAction::Stand
                }
            },
        }
    }
}

/// The image index a mid-frame stage holds.
pub open spec fn stage_index(s: FrameStage) -> u32 {
    match s {
        FrameStage::Recorded { image_index } => image_index,
        FrameStage::InFlight { image_index } => image_index,
        _ => 0u32,
    }
}

/// The loop never exits while a frame is still in flight: `Exit` comes
/// only from an idle driver, a lost swapchain before any submission, or
/// the completed wait on the in-flight frame's fence.
pub proof fn lemma_no_exit_in_flight(pre: FrameDriver, event: FrameEvent)
    requires
        pre.wf(),
        pre.accepts(event),
    ensures
        (pre.stage matches FrameStage::Recorded { .. }) ==> (forall|post: FrameDriver,
            a: FrameAction|
            step_relation(pre, event, post, a) ==> a != FrameAction::Exit),
{
}

/// The transition relation `step` implements, stated for reasoning about
/// runs of the protocol without an executable driver at hand.
pub open spec fn step_relation(
    pre: FrameDriver,
    event: FrameEvent,
    post: FrameDriver,
    a: FrameAction,
) -> bool {
    match event {
        FrameEvent::Tick => {
            if pre.close_requested {
                post.stage == FrameStage::Exited && a == FrameAction::Exit
            } else {
                post.stage == FrameStage::Acquiring && a == FrameAction::Acquire
            }
        },
        FrameEvent::AcquireOk { image_index, suboptimal } => post.stage == (FrameStage::Recorded {
            image_index,
        }) && a == (FrameAction::SubmitAndPresent { image_index }),
        FrameEvent::AcquireFailed => post.stage == FrameStage::Exited && a == FrameAction::Exit,
        FrameEvent::SubmitFlushed { ok } => {
            if ok {
                post.stage == (FrameStage::InFlight { image_index: stage_index(pre.stage) }) && a
                    == FrameAction::WaitFence
            } else {
                post.stage == FrameStage::Idle && a == FrameAction::DropFrame
            }
        },
        FrameEvent::FenceDone { ok } => {
            if pre.close_requested {
                post.stage == FrameStage::Exited && a == FrameAction::Exit
            } else {
                post.stage == FrameStage::Idle && a == FrameAction::Stand
            }
        },
        FrameEvent::CloseRequested => post.close_requested && a == (if pre.stage
            == FrameStage::Idle {
            FrameAction::Exit
        } else {
            FrameAction::Stand
        }),
    }
}

/// One second, in microseconds: the window the frame counter rolls over.
pub const SECOND_US: u64 = 1_000_000;

/// Frame timing: the delta between frames and a frames-per-second count,
/// as the frame loop keeps them.
#[derive(Clone, Copy, PartialEq, Eq, Structural, Debug)]
pub struct FrameClock {
    /// When the previous frame began, in microseconds.
    pub last_frame_us: u64,
    /// When the running second began.
    pub second_start_us: u64,
    /// Frames completed within the running second.
    pub frames_in_second: u32,
}

impl FrameClock {
    pub fn new(now: u64) -> (c: FrameClock)
        ensures
            c == (FrameClock { last_frame_us: now, second_start_us: now, frames_in_second: 0u32 }),
    {
        FrameClock { last_frame_us: now, second_start_us: now, frames_in_second: 0 }
    }

    /// Account one frame beginning at `now`: the returned delta is the
    /// time since the previous frame, and once more than a second has
    /// passed since the running second began, the frame count of that
    /// second is reported and the counter restarts.
    pub fn tick(&mut self, now: u64) -> (r: (u64, Option<u32>))
        requires
            old(self).last_frame_us <= now,
            old(self).second_start_us <= now,
            old(self).frames_in_second < u32::MAX,
        ensures
            r.0 == now - old(self).last_frame_us,
            final(self).last_frame_us == now,
            if now - old(self).second_start_us > SECOND_US {
                &&& r.1 == Some((old(self).frames_in_second + 1) as u32)
                &&& final(self).second_start_us == now
                &&& final(self).frames_in_second == 0
            } else {
                &&& r.1 is None
                &&& final(self).second_start_us == old(self).second_start_us
                &&& final(self).frames_in_second == old(self).frames_in_second + 1
            },
    {
        let dt = now - self.last_frame_us;
        self.last_frame_us = now;
        self.frames_in_second = self.frames_in_second + 1;
        if now - self.second_start_us > SECOND_US {
            let fps = self.frames_in_second;
            self.frames_in_second = 0;
            self.second_start_us = now;
            (dt, Some(fps))
        } else {
            (dt, None)
        }
    }
}

} // verus!
