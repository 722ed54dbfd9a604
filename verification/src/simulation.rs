use vstd::prelude::*;

verus! {

/// Polarisation of the simulated wave.
#[derive(Clone, Copy, Debug, PartialEq, Eq, Structural)]
pub enum WaveType {
    TE,
    TM,
}

impl WaveType {
    /// The polarisation that the footer switch selects next.
    pub open spec fn spec_toggled(self) -> WaveType {
        match self {
            WaveType::TE => WaveType::TM,
            WaveType::TM => WaveType::TE,
        }
    }

    /// Switches TE to TM and TM to TE.
    pub fn toggled(self) -> (r: WaveType)
        ensures
            r == self.spec_toggled(),
    {
        match self {
            WaveType::TE => WaveType::TM,
            WaveType::TM => WaveType::TE,
        }
    }

    /// Short name shown in the footer.
    pub fn label(self) -> (r: &'static str)
        ensures
            self == WaveType::TE ==> r@ == "TE"@,
            self == WaveType::TM ==> r@ == "TM"@,
    {
        match self {
            WaveType::TE => "TE",
            WaveType::TM => "TM",
        }
    }
}

/// Toggling the polarisation twice gives back the original one.
pub proof fn lemma_toggle_involution(w: WaveType)
    ensures
        w.spec_toggled().spec_toggled() == w,
        w.spec_toggled() != w,
{
}

/// Start/stop/resume state of the field simulation, as driven by the
/// toolbar buttons.
#[derive(Clone, Copy, Debug, PartialEq, Eq, Structural)]
pub struct RunControl {
    /// The simulation loop is (or is about to be) running.
    pub running: bool,
    /// The next run continues the current simulation instead of restarting it.
    pub resuming: bool,
}

impl RunControl {
    /// Nothing is running and the next run restarts.
    pub fn new() -> (r: RunControl)
        ensures
            !r.running,
            !r.resuming,
    {
        RunControl { running: false, resuming: false }
    }

    /// State after "Start": ignored while running; otherwise a fresh run.
    pub open spec fn spec_start(self) -> RunControl {
        if self.running {
            self
        } else {
            RunControl { running: true, resuming: false }
        }
    }

    /// State after "Resume": ignored while running; otherwise the current
    /// simulation continues.
    pub open spec fn spec_resume(self) -> RunControl {
        if self.running {
            self
        } else {
            RunControl { running: true, resuming: true }
        }
    }

    /// State after "Stop" (or after the last step): not running, `resuming` kept.
    pub open spec fn spec_stop(self) -> RunControl {
        RunControl { running: false, resuming: self.resuming }
    }

    /// "Start": ignored while running; otherwise runs from a fresh simulation.
    pub fn start(&mut self)
        ensures
            *final(self) == old(self).spec_start(),
    {
        if self.running {
            return;
        }
        self.resuming = false;
        self.running = true;
    }

    /// "Resume": ignored while running; otherwise continues the current simulation.
    pub fn resume(&mut self)
        ensures
            *final(self) == old(self).spec_resume(),
    {
        if self.running {
            return;
        }
        self.resuming = true;
        self.running = true;
    }

    /// "Stop": the loop ends at its next check; `resuming` is kept.
    pub fn stop(&mut self)
        ensures
            *final(self) == old(self).spec_stop(),
    {
        self.running = false;
    }

    /// The loop ends by itself when the simulation reaches its last step.
    pub fn finish(&mut self)
        ensures
            *final(self) == old(self).spec_stop(),
    {
        self.running = false;
    }

    /// A run that starts now must first reset the simulation and show step 0.
    pub fn restarts(&self) -> (r: bool)
        ensures
            r == !self.resuming,
    {
        !self.resuming
    }
}

/// What the simulation loop does after one time step.
#[derive(Clone, Copy, Debug, PartialEq, Eq, Structural)]
pub struct StepPlan {
    /// Publish the field and the step number, then pause briefly.
    pub publish_and_pause: bool,
    /// Publish the final field and step number, and stop running.
    pub finish: bool,
}

/// The decision the field view takes after a time step: every even step is
/// shown (followed by a short pause), and the last step is always shown and
/// ends the run.
pub fn plan_after_step(current_step: usize, finished: bool) -> (r: StepPlan)
    ensures
        r.publish_and_pause == (current_step % 2 == 0),
        r.finish == finished,
{
    StepPlan { publish_and_pause: current_step % 2 == 0, finish: finished }
}

/// Pressing start or resume while a run is going changes nothing, so a
/// second press right after the first has no effect.
pub proof fn lemma_presses_ignored_while_running(a: RunControl)
    ensures
        a.spec_start().spec_start() == a.spec_start(),
        a.spec_resume().spec_resume() == a.spec_resume(),
        a.spec_start().spec_resume() == a.spec_start(),
        a.spec_resume().spec_start() == a.spec_resume(),
{
}

/// After "Stop", "Start" always restarts from a fresh simulation and
/// "Resume" always continues the current one.
pub proof fn lemma_stop_then_start_or_resume(a: RunControl)
    ensures
        a.spec_stop().spec_start() == (RunControl { running: true, resuming: false }),
        a.spec_stop().spec_resume() == (RunControl { running: true, resuming: true }),
{
}

} // verus!
