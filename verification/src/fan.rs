//! Fan speed values and fan feedback.
//!
//! The memory-mapped fan controller itself is an external collaborator;
//! this module holds the values it exchanges: a PWM duty in percent and
//! the per-fan RPM feedback.

use vstd::prelude::*;

verus! {

/// PWM duty of a fan, in percent; 0 is stopped, 100 is full power.
#[derive(Debug, Clone, Copy, PartialEq, Eq, Structural)]
pub struct Speed {
    pwm: usize,
}

impl Speed {
    /// The PWM duty in percent.
    pub closed spec fn pwm_spec(&self) -> usize {
        self.pwm
    }

    /// Fans on full.
    pub fn full_speed() -> (r: Self)
        ensures
            r.pwm_spec() == 100,
    {
        Self { pwm: 100 }
    }

    /// Fans stopped.
    pub fn stopped() -> (r: Self)
        ensures
            r.pwm_spec() == 0,
    {
        Self { pwm: 0 }
    }

    /// A duty above 100 percent does not exist and is a caller error: the
    /// hardware register only considers the low byte, where an
    /// out-of-range duty would stop the fans.
    pub fn new(speed: usize) -> (r: Self)
        requires
            speed <= 100,
        ensures
            r.pwm_spec() == speed,
    {
        Speed { pwm: speed }
    }

    /// The PWM duty in percent.
    pub fn to_pwm(&self) -> (r: usize)
        ensures
            r == self.pwm_spec(),
    {
        self.pwm
    }
}

/// How many of the fans report a positive speed.
pub open spec fn count_running(s: Seq<usize>) -> int
    decreases s.len(),
{
    if s.len() == 0 {
        0
    } else {
        count_running(s.drop_last()) + (if s.last() > 0 {
            1int
        } else {
            0int
        })
    }
}

/// Fan speeds read back from the feedback pins, in RPM.
#[derive(Debug, Clone)]
pub struct Feedback {
    pub rpm: Vec<usize>,
}

impl Feedback {
    /// Convert raw per-fan revolutions-per-second readings, as the fan
    /// controller's feedback registers report them, into RPM.
    pub fn from_rps(rps: &Vec<usize>) -> (r: Self)
        requires
            forall|i: int| 0 <= i < rps@.len() ==> #[trigger] rps@[i] * 60 <= usize::MAX,
        ensures
            r.rpm@.len() == rps@.len(),
            forall|i: int| 0 <= i < rps@.len() ==> #[trigger] r.rpm@[i] == rps@[i] * 60,
    {
        let mut rpm: Vec<usize> = Vec::new();
        let mut i: usize = 0;
        while i < rps.len()
            invariant
                i <= rps@.len(),
                rpm@.len() == i,
                forall|k: int| 0 <= k < rps@.len() ==> #[trigger] rps@[k] * 60 <= usize::MAX,
                forall|k: int| 0 <= k < i ==> #[trigger] rpm@[k] == rps@[k] * 60,
            decreases rps@.len() - i,
        {
            rpm.push(rps[i] * 60);
            i = i + 1;
        }
        Feedback { rpm }
    }

    /// Number of fans whose feedback shows them spinning.
    pub fn num_fans_running(&self) -> (r: usize)
        ensures
            r == count_running(self.rpm@),
    {
        let mut count: usize = 0;
        let mut i: usize = 0;
        while i < self.rpm.len()
            invariant
                i <= self.rpm@.len(),
                count == count_running(self.rpm@.take(i as int)),
                count <= i,
            decreases self.rpm@.len() - i,
        {
            proof {
                assert(self.rpm@.take(i + 1).drop_last() =~= self.rpm@.take(i as int));
                assert(self.rpm@.take(i + 1).last() == self.rpm@[i as int]);
            }
            if self.rpm[i] > 0 {
                count = count + 1;
            }
            i = i + 1;
        }
        proof {
            assert(self.rpm@.take(self.rpm@.len() as int) =~= self.rpm@);
        }
        count
    }
}

} // verus!
