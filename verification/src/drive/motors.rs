//! The actuator boundary: anything that can turn a [`DriveCommand`] into
//! wheel motion. The controller's output only ever reaches the wheels
//! through this trait.
use vstd::prelude::*;
use crate::drive::cmdvel::{DriveCommand, stopped};
use crate::drive::l298n::{L298n, braked, driven};

verus! {

/// A pair of driven wheels/tracks.
pub trait Motors: Sized {
    /// Driver failure type.
    type Error;

    /// `true` while the driver can take one more brake request.
    spec fn brake_ready(&self) -> bool;

    /// What applying `cmd` to this driver may leave: the driver `after` and
    /// the result `r`.
    spec fn set_outcome(&self, cmd: DriveCommand, after: Self, r: Result<(), Self::Error>) -> bool;

    /// Apply per-side speeds, per-mille `-1000..=1000`.
    fn set(&mut self, cmd: DriveCommand) -> (r: Result<(), Self::Error>)
        ensures
            old(self).set_outcome(cmd, *final(self), r),
    ;

    /// Let both sides spin freely: the same as applying zero speeds.
    fn coast(&mut self) -> (r: Result<(), Self::Error>)
        ensures
            old(self).set_outcome(stopped(), *final(self), r),
    {
        self.set(DriveCommand { left: 0, right: 0 })
    }

    /// Actively brake both sides.
    fn brake(&mut self) -> Result<(), Self::Error>
        requires
            old(self).brake_ready(),
    ;
}

impl Motors for L298n {
    type Error = core::convert::Infallible;

    open spec fn brake_ready(&self) -> bool {
        true
    }

    open spec fn set_outcome(
        &self,
        cmd: DriveCommand,
        after: Self,
        r: Result<(), core::convert::Infallible>,
    ) -> bool {
        &&& r is Ok
        &&& after.left@ == driven(self.left@, cmd.left as int)
        &&& after.right@ == driven(self.right@, cmd.right as int)
    }

    fn set(&mut self, cmd: DriveCommand) -> (r: Result<(), core::convert::Infallible>)
        ensures
            r is Ok,
            final(self).left@ == driven(old(self).left@, cmd.left as int),
            final(self).right@ == driven(old(self).right@, cmd.right as int),
    {
        self.drive(cmd.left, cmd.right);
        Ok(())
    }

    fn brake(&mut self) -> (r: Result<(), core::convert::Infallible>)
        ensures
            r is Ok,
            final(self).left@ == braked(old(self).left@),
            final(self).right@ == braked(old(self).right@),
    {
        self.left.brake();
        self.right.brake();
        Ok(())
    }
}

/// A recording mock for tests and the hub's simulator.
#[derive(Debug, Clone, Copy, PartialEq, Eq, Structural)]
pub struct MockMotors {
    /// Last command applied by [`Motors::set`].
    pub last: DriveCommand,
    /// Number of [`Motors::brake`] calls.
    pub brakes: u32,
    /// `true` while braked (cleared by the next `set`).
    pub braked: bool,
}

impl Default for MockMotors {
    fn default() -> (m: MockMotors)
        ensures
            m == (MockMotors { last: stopped(), brakes: 0, braked: false }),
    {
        MockMotors { last: DriveCommand { left: 0, right: 0 }, brakes: 0, braked: false }
    }
}

impl Motors for MockMotors {
    type Error = core::convert::Infallible;

    open spec fn brake_ready(&self) -> bool {
        self.brakes < u32::MAX
    }

    open spec fn set_outcome(
        &self,
        cmd: DriveCommand,
        after: Self,
        r: Result<(), core::convert::Infallible>,
    ) -> bool {
        &&& r is Ok
        &&& after == (MockMotors { last: cmd, braked: false, brakes: self.brakes })
    }

    fn set(&mut self, cmd: DriveCommand) -> (r: Result<(), core::convert::Infallible>)
        ensures
            r is Ok,
            *final(self) == (MockMotors { last: cmd, braked: false, brakes: old(self).brakes }),
    {
        self.last = cmd;
        self.braked = false;
        Ok(())
    }

    fn brake(&mut self) -> (r: Result<(), core::convert::Infallible>)
        ensures
            r is Ok,
            *final(self) == (MockMotors { last: stopped(), braked: true, brakes: (old(self).brakes + 1) as u32 }),
    {
        self.last = DriveCommand { left: 0, right: 0 };
        self.braked = true;
        self.brakes = self.brakes + 1;
        Ok(())
    }
}

} // verus!
