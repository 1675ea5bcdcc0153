//! Phase timing for integration tests: how long each named phase of a test
//! took on the monotonic clock.

use vstd::prelude::*;

verus! {

/// `a - b`, or zero when `a` is earlier than `b` (as `Instant` subtraction
/// saturates).
pub open spec fn elapsed_between(a: u128, b: u128) -> u128 {
    if a >= b {
        (a - b) as u128
    } else {
        0
    }
}

/// Records the duration of each phase of a test.
pub struct TestTimer {
    test_name: String,
    start: std::time::Instant,
    last_nanos: u128,
    phases: Vec<(String, u128)>,
}

impl TestTimer {
    /// The test's name.
    pub closed spec fn name(&self) -> Seq<char> {
        self.test_name@
    }

    /// When the last phase ended, in nanoseconds since the timer started.
    pub closed spec fn last(&self) -> u128 {
        self.last_nanos
    }

    /// The phases recorded so far: name and duration in nanoseconds.
    pub closed spec fn phase_log(&self) -> Seq<(Seq<char>, u128)> {
        self.phases@.map_values(|p: (String, u128)| (p.0@, p.1))
    }

    /// Start timing the test `test_name`.
    pub fn new(test_name: &str) -> (t: Self)
        ensures
            t.name() == test_name@,
            t.last() == 0,
            t.phase_log() == Seq::<(Seq<char>, u128)>::empty(),
    {
        let t = TestTimer {
            test_name: test_name.to_owned(),
            start: crate::clock::std_now(),
            last_nanos: 0,
            phases: Vec::new(),
        };
        assert(t.phase_log() =~= Seq::<(Seq<char>, u128)>::empty());
        t
    }

    /// Close the phase `name` at `now` nanoseconds since the timer started:
    /// it lasted from the end of the previous phase.
    pub fn phase_at(&mut self, name: &str, now: u128)
        ensures
            final(self).name() == old(self).name(),
            final(self).last() == now,
            final(self).phase_log() == old(self).phase_log().push((name@, elapsed_between(now, old(self).last()))),
    {
        let duration = if now >= self.last_nanos { now - self.last_nanos } else { 0 };
        let ghost before = self.phases@;
        self.phases.push((name.to_owned(), duration));
        self.last_nanos = now;
        assert(self.phase_log() =~= before.map_values(|p: (String, u128)| (p.0@, p.1)).push((name@, duration)));
    }

    /// Close the phase `name` now, reading the monotonic clock.
    pub fn phase(&mut self, name: &str)
        ensures
            final(self).name() == old(self).name(),
            exists|now: u128| #[trigger] final(self).last() == now && final(self).phase_log() == old(self).phase_log().push(
                (name@, elapsed_between(now, old(self).last())),
            ),
    {
        let now = crate::clock::duration_nanos(&crate::clock::std_elapsed(&self.start));
        self.phase_at(name, now);
    }

    /// Number of phases recorded.
    pub fn phase_count(&self) -> (n: usize)
        ensures
            n == self.phase_log().len(),
    {
        self.phases.len()
    }
}

} // verus!
