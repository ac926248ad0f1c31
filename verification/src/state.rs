//! The connection counter of one listener.

use vstd::prelude::*;

verus! {

/// What one listener remembers between connections.
#[derive(Debug, Clone, Copy, PartialEq, Eq, Structural)]
pub struct HoneypotState {
    pub connection_count: u64,
}

impl HoneypotState {
    /// The state of a listener that has accepted nothing yet.
    pub open spec fn initial() -> HoneypotState {
        HoneypotState { connection_count: 0 }
    }

    /// The state after one more connection was accepted.
    pub open spec fn after_accept(self) -> HoneypotState
        recommends
            self.connection_count < u64::MAX,
    {
        HoneypotState { connection_count: (self.connection_count + 1) as u64 }
    }

    /// The number handed to the connection accepted in this state.
    pub open spec fn next_number(self) -> u64
        recommends
            self.connection_count < u64::MAX,
    {
        self.after_accept().connection_count
    }

    /// The state after `n` connections were accepted one after another.
    pub open spec fn after_accepts(self, n: nat) -> HoneypotState
        decreases n,
    {
        if n == 0 {
            self
        } else {
            self.after_accept().after_accepts((n - 1) as nat)
        }
    }

    /// The numbers handed to `n` connections, in the order of acceptance.
    pub open spec fn numbers(self, n: nat) -> Seq<u64>
        decreases n,
    {
        if n == 0 {
            Seq::empty()
        } else {
            seq![self.next_number()] + self.after_accept().numbers((n - 1) as nat)
        }
    }

    pub fn new() -> (state: HoneypotState)
        ensures
            state == HoneypotState::initial(),
    {
        HoneypotState { connection_count: 0 }
    }

    /// Counts one accepted connection and returns its number.
    pub fn register_connection(&mut self) -> (number: u64)
        requires
            old(self).connection_count < u64::MAX,
        ensures
            *final(self) == old(self).after_accept(),
            number == old(self).next_number(),
            number == old(self).connection_count + 1,
    {
        self.connection_count = self.connection_count + 1;
        self.connection_count
    }
}

/// The `n` accepts that start in `state` hand out `count + 1, .., count + n`, in
/// that order, and leave the counter at `count + n`.
pub proof fn lemma_numbers_from(state: HoneypotState, n: nat)
    requires
        state.connection_count + n <= u64::MAX,
    ensures
        state.numbers(n).len() == n,
        forall|i: int|
            0 <= i < n ==> #[trigger] state.numbers(n)[i] == state.connection_count + i + 1,
        state.after_accepts(n).connection_count == state.connection_count + n,
    decreases n,
{
    if n > 0 {
        let next = state.after_accept();
        lemma_numbers_from(next, (n - 1) as nat);
        let tail = next.numbers((n - 1) as nat);
        assert forall|i: int| 0 <= i < n implies #[trigger] state.numbers(n)[i]
            == state.connection_count + i + 1 by {
            if i > 0 {
                assert(state.numbers(n)[i] == tail[i - 1]);
            }
        }
    }
}

/// The first `n` connections of a listener get exactly the numbers 1 to `n`:
/// each number once, none left out, in the order of acceptance.
pub proof fn lemma_numbers_exact(n: nat)
    requires
        n <= u64::MAX,
    ensures
        HoneypotState::initial().numbers(n).len() == n,
        forall|i: int| 0 <= i < n ==> #[trigger] HoneypotState::initial().numbers(n)[i] == i + 1,
        HoneypotState::initial().numbers(n).no_duplicates(),
        HoneypotState::initial().numbers(n).to_set() =~= Set::new(|v: u64| 1 <= v <= n),
{
    let numbers = HoneypotState::initial().numbers(n);
    lemma_numbers_from(HoneypotState::initial(), n);
    assert forall|v: u64| numbers.to_set().contains(v) <==> 1 <= v <= n by {
        if 1 <= v <= n {
            assert(numbers[v - 1] == v);
        }
    }
}

/// Of two connections of one listener the one accepted later has the greater
/// number, and the numbers differ by as much as the places in the order of
/// acceptance do.
pub proof fn lemma_numbers_follow_acceptance(state: HoneypotState, n: nat, i: int, j: int)
    requires
        state.connection_count + n <= u64::MAX,
        0 <= i < j < n,
    ensures
        state.numbers(n)[i] < state.numbers(n)[j],
        state.numbers(n)[j] - state.numbers(n)[i] == j - i,
{
    lemma_numbers_from(state, n);
}

} // verus!
