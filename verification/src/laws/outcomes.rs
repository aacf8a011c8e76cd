use vstd::prelude::*;

use crate::errors::{
    outcome, transition_outcome, SimulationError, SimulationErrorView, TransitionError,
    TransitionErrorView,
};
use crate::u256::U256;

verus! {

/// What a computation returned is seen as a success or a failure as it is one, with its value or
/// its error.
pub proof fn outcome_is_seen_whole<T: View>(r: Result<T, SimulationError>)
    ensures
        r matches Ok(value) ==> outcome(r) == Ok::<T::V, SimulationErrorView>(value@),
        r matches Err(error) ==> outcome(r) == Err::<T::V, SimulationErrorView>(error@),
{
}

/// The same of a transition.
pub proof fn transition_outcome_is_seen_whole(r: Result<(), TransitionError>)
    ensures
        r is Ok <==> transition_outcome(r) is Ok,
        r matches Err(error) ==> transition_outcome(r) == Err::<(), TransitionErrorView>(error@),
{
}

/// An error is seen as its kind with its message, letter for letter.
pub proof fn error_is_seen_whole(message: String)
    ensures
        SimulationError::FatalError(message)@ == SimulationErrorView::FatalError(message@),
        SimulationError::InvalidInput(message)@ == SimulationErrorView::InvalidInput(message@),
        SimulationError::RecoverableError(message)@ == SimulationErrorView::RecoverableError(
            message@,
        ),
        TransitionError::MissingAttribute(message)@ == TransitionErrorView::MissingAttribute(
            message@,
        ),
{
}

/// Two integers are equal exactly where they have the same value.
pub proof fn equality_is_by_value(a: U256, b: U256)
    ensures
        vstd::std_specs::cmp::PartialEqSpec::eq_spec(&a, &b) <==> a@ == b@,
{
}

} // verus!
