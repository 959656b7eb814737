use vstd::prelude::*;

verus! {

/// Progress of an animation that runs from 0 to 1 over `duration` steps.
///
/// One step is a hundredth of a second of animation time; the draw pass
/// advances every running tween by one step per frame. The easing curve
/// itself is applied by the renderer, from `elapsed` and `duration`.
#[derive(Clone, Copy, Debug, PartialEq, Eq, Structural)]
pub struct Tween {
    pub duration: u32,
    pub elapsed: u32,
}

impl Tween {
    pub open spec fn reset_spec(self) -> Tween {
        Tween { elapsed: 0, ..self }
    }

    pub open spec fn step_spec(self) -> Tween {
        if self.elapsed >= self.duration {
            Tween { elapsed: self.duration, ..self }
        } else {
            Tween { elapsed: (self.elapsed + 1) as u32, ..self }
        }
    }

    /// A tween at its start that lasts `duration` steps.
    pub fn new(duration: u32) -> (r: Tween)
        ensures
            r.duration == duration,
            r.elapsed == 0,
    {
        Tween { duration, elapsed: 0 }
    }

    /// Back to the start.
    pub fn reset(&mut self)
        ensures
            *final(self) == old(self).reset_spec(),
    {
        self.elapsed = 0;
    }

    /// Advance by one step, stopping at the end.
    pub fn step(&mut self)
        ensures
            *final(self) == old(self).step_spec(),
    {
        if self.elapsed >= self.duration {
            self.elapsed = self.duration;
        } else {
            self.elapsed = self.elapsed + 1;
        }
    }

    pub fn completed(&self) -> (r: bool)
        ensures
            r == (self.elapsed >= self.duration),
    {
        self.elapsed >= self.duration
    }
}

pub open spec fn reset_opt(t: Option<Tween>) -> Option<Tween> {
    match t {
        Some(t) => Some(t.reset_spec()),
        None => None,
    }
}

pub open spec fn step_opt(t: Option<Tween>) -> Option<Tween> {
    match t {
        Some(t) => Some(t.step_spec()),
        None => None,
    }
}

pub fn reset_tween(t: &mut Option<Tween>)
    ensures
        *final(t) == reset_opt(*old(t)),
{
    match t {
        Some(tw) => tw.reset(),
        None => {},
    }
}

pub fn step_tween(t: &mut Option<Tween>)
    ensures
        *final(t) == step_opt(*old(t)),
{
    match t {
        Some(tw) => tw.step(),
        None => {},
    }
}

} // verus!
