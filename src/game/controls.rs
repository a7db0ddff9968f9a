//! The commands a player (human or computer) gives its tank.
use vstd::prelude::*;

verus! {

/// An aim or power adjustment: start moving one way, or stop.
#[derive(Clone, Copy, Debug, PartialEq, Eq, Structural)]
pub enum TankControl {
    AngleDecreasing,
    AngleIncreasing,
    AngleStop,
    PowerDecreasing,
    PowerIncreasing,
    PowerStop,
}

/// The controls of one player: adjustments waiting to be taken in, and
/// whether a shot has been asked for.
#[derive(Debug)]
pub struct TankControls {
    commands: Vec<TankControl>,
    fire_requested: bool,
}

/// What a control surface can ask of a tank.
pub trait GameControls {
    fn fire(&mut self);

    fn angle_decrease(&mut self);

    fn angle_increase(&mut self);

    fn angle_stop(&mut self);

    fn power_increase(&mut self);

    fn power_decrease(&mut self);

    fn power_stop(&mut self);
}

impl TankControls {
    /// Adjustments given since they were last taken in, oldest first.
    pub closed spec fn pending(&self) -> Seq<TankControl> {
        self.commands@
    }

    /// A shot has been asked for and not yet taken in.
    pub closed spec fn fire_pending(&self) -> bool {
        self.fire_requested
    }

    pub fn new() -> (r: TankControls)
        ensures
            r.pending().len() == 0,
            !r.fire_pending(),
    {
        TankControls { commands: Vec::new(), fire_requested: false }
    }

    fn tc(&mut self, value: TankControl)
        ensures
            final(self).pending() == old(self).pending().push(value),
            final(self).fire_pending() == old(self).fire_pending(),
    {
        self.commands.push(value);
    }

    /// Asks for a shot; several requests before they are taken in make one.
    pub fn fire(&mut self)
        ensures
            final(self).pending() == old(self).pending(),
            final(self).fire_pending(),
    {
        self.fire_requested = true;
    }

    pub fn angle_increase(&mut self)
        ensures
            final(self).pending() == old(self).pending().push(TankControl::AngleIncreasing),
            final(self).fire_pending() == old(self).fire_pending(),
    {
        self.tc(TankControl::AngleIncreasing)
    }

    pub fn angle_decrease(&mut self)
        ensures
            final(self).pending() == old(self).pending().push(TankControl::AngleDecreasing),
            final(self).fire_pending() == old(self).fire_pending(),
    {
        self.tc(TankControl::AngleDecreasing)
    }

    pub fn angle_stop(&mut self)
        ensures
            final(self).pending() == old(self).pending().push(TankControl::AngleStop),
            final(self).fire_pending() == old(self).fire_pending(),
    {
        self.tc(TankControl::AngleStop)
    }

    pub fn power_increase(&mut self)
        ensures
            final(self).pending() == old(self).pending().push(TankControl::PowerIncreasing),
            final(self).fire_pending() == old(self).fire_pending(),
    {
        self.tc(TankControl::PowerIncreasing)
    }

    pub fn power_decrease(&mut self)
        ensures
            final(self).pending() == old(self).pending().push(TankControl::PowerDecreasing),
            final(self).fire_pending() == old(self).fire_pending(),
    {
        self.tc(TankControl::PowerDecreasing)
    }

    pub fn power_stop(&mut self)
        ensures
            final(self).pending() == old(self).pending().push(TankControl::PowerStop),
            final(self).fire_pending() == old(self).fire_pending(),
    {
        self.tc(TankControl::PowerStop)
    }

    /// Takes in the request for a shot, if there is one.
    pub fn take_fire(&mut self) -> (r: bool)
        ensures
            r == old(self).fire_pending(),
            !final(self).fire_pending(),
            final(self).pending() == old(self).pending(),
    {
        let r = self.fire_requested;
        self.fire_requested = false;
        r
    }

    /// Takes in the adjustments given so far, oldest first.
    pub fn drain(&mut self) -> (r: Vec<TankControl>)
        ensures
            r@ == old(self).pending(),
            final(self).pending().len() == 0,
            final(self).fire_pending() == old(self).fire_pending(),
    {
        let mut r = Vec::new();
        std::mem::swap(&mut r, &mut self.commands);
        r
    }
}

impl GameControls for TankControls {
    fn fire(&mut self) {
        TankControls::fire(self)
    }

    fn angle_decrease(&mut self) {
        TankControls::angle_decrease(self)
    }

    fn angle_increase(&mut self) {
        TankControls::angle_increase(self)
    }

    fn angle_stop(&mut self) {
        TankControls::angle_stop(self)
    }

    fn power_increase(&mut self) {
        TankControls::power_increase(self)
    }

    fn power_decrease(&mut self) {
        TankControls::power_decrease(self)
    }

    fn power_stop(&mut self) {
        TankControls::power_stop(self)
    }
}

} // verus!
