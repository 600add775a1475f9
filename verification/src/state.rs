use vstd::prelude::*;
use vstd::std_specs::cmp::PartialEqSpec;
use vstd::std_specs::cmp::PartialEqSpecImpl;

verus! {

/// The role of a node in the election.
#[derive(Clone, Copy, Debug, Eq)]
pub enum State {
    Follower,
    Leader,
    Candidate,
}

impl PartialEq for State {
    /// Two roles are equal when they are the same role.
    fn eq(&self, other: &Self) -> (r: bool) {
        match (self, other) {
            (State::Follower, State::Follower) => true,
            (State::Leader, State::Leader) => true,
            (State::Candidate, State::Candidate) => true,
            _ => false,
        }
    }
}

impl PartialEqSpecImpl for State {
    open spec fn obeys_eq_spec() -> bool {
        true
    }

    open spec fn eq_spec(&self, other: &State) -> bool {
        match (*self, *other) {
            (State::Follower, State::Follower) => true,
            (State::Leader, State::Leader) => true,
            (State::Candidate, State::Candidate) => true,
            _ => false,
        }
    }
}

/// Comparing two roles tells exactly whether they are the same role, so the comparison
/// is reflexive, symmetric and transitive, and different roles are never equal.
pub proof fn lemma_state_eq_is_sameness(a: State, b: State, c: State)
    ensures
        PartialEqSpec::eq_spec(&a, &b) <==> a == b,
        PartialEqSpec::eq_spec(&a, &a),
        PartialEqSpec::eq_spec(&a, &b) ==> PartialEqSpec::eq_spec(&b, &a),
        PartialEqSpec::eq_spec(&a, &b) && PartialEqSpec::eq_spec(&b, &c) ==> PartialEqSpec::eq_spec(&a, &c),
        !PartialEqSpec::eq_spec(&State::Follower, &State::Leader),
        !PartialEqSpec::eq_spec(&State::Follower, &State::Candidate),
        !PartialEqSpec::eq_spec(&State::Leader, &State::Candidate),
{
}

} // verus!
