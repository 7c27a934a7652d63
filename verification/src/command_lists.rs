//! Creating the command lists of a render graph's ring on a device, with
//! a record of every creation and its outcome.

use vstd::prelude::*;
use crate::error::Error;

verus! {

/// The part of a graphics device that a render graph uses: it creates the
/// command lists of the graph's ring of frames in flight. Backends
/// implement it; nothing is promised of what a call returns.
pub trait CommandListSource<C> {
    /// Create one command list.
    fn create_command_list(&mut self) -> Result<C, Error>;
}

/// The outcome of one creation: nothing on success, the error otherwise.
pub open spec fn creation_outcome<C>(r: Result<C, Error>) -> Option<Error> {
    match r {
        Ok(_) => None,
        Err(e) => Some(e),
    }
}

/// A device together with the record of the command-list creations made
/// through it: each `create` is one call to the device, and its outcome is
/// appended to the record.
pub struct CreationLog<D> {
    device: D,
    outcomes: Ghost<Seq<Option<Error>>>,
}

impl<D> CreationLog<D> {
    /// Outcomes of the creations made so far, in call order.
    pub closed spec fn outcomes(&self) -> Seq<Option<Error>> {
        self.outcomes@
    }

    /// The device.
    pub closed spec fn spec_device(&self) -> D {
        self.device
    }

    /// Start recording creations on a device.
    pub fn new(device: D) -> (l: Self)
        ensures
            l.outcomes() == Seq::<Option<Error>>::empty(),
            l.spec_device() == device,
    {
        CreationLog { device, outcomes: Ghost(Seq::empty()) }
    }

    /// The device.
    pub fn device(&self) -> (d: &D)
        ensures
            *d == self.spec_device(),
    {
        &self.device
    }

    /// The device, recording no more.
    pub fn into_device(self) -> (d: D)
        ensures
            d == self.spec_device(),
    {
        self.device
    }

    /// Create one command list on the device and record the outcome.
    pub fn create<C>(&mut self) -> (r: Result<C, Error>) where D: CommandListSource<C>
        ensures
            final(self).outcomes() == old(self).outcomes().push(creation_outcome(r)),
    {
        let r = self.device.create_command_list();
        let ghost o = creation_outcome(r);
        self.outcomes = Ghost(self.outcomes@.push(o));
        r
    }
}

} // verus!
