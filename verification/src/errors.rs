use vstd::prelude::*;

verus! {

/// What can go wrong in a computation on a pool.
#[derive(Debug)]
pub enum SimulationError {
    /// The pool or the request is at fault; trying again will not help.
    FatalError(String),
    /// The input was not acceptable.
    InvalidInput(String),
    /// The computation may succeed later.
    RecoverableError(String),
}

/// A [`SimulationError`] with its message as a sequence of characters.
pub enum SimulationErrorView {
    FatalError(Seq<char>),
    InvalidInput(Seq<char>),
    RecoverableError(Seq<char>),
}

impl View for SimulationError {
    type V = SimulationErrorView;

    open spec fn view(&self) -> SimulationErrorView {
        match self {
            SimulationError::FatalError(message) => SimulationErrorView::FatalError(message@),
            SimulationError::InvalidInput(message) => SimulationErrorView::InvalidInput(message@),
            SimulationError::RecoverableError(message) => SimulationErrorView::RecoverableError(
                message@,
            ),
        }
    }
}

/// What a computation returned, with the value and the error taken by their views.
pub open spec fn outcome<T: View>(r: Result<T, SimulationError>) -> Result<
    T::V,
    SimulationErrorView,
> {
    match r {
        Ok(value) => Ok(value@),
        Err(error) => Err(error@),
    }
}

/// What can go wrong when a delta is applied to a state.
#[derive(Debug)]
pub enum TransitionError {
    /// The delta lacks the attribute of this name.
    MissingAttribute(String),
}

/// A [`TransitionError`] with its message as a sequence of characters.
pub enum TransitionErrorView {
    MissingAttribute(Seq<char>),
}

impl View for TransitionError {
    type V = TransitionErrorView;

    open spec fn view(&self) -> TransitionErrorView {
        match self {
            TransitionError::MissingAttribute(name) => TransitionErrorView::MissingAttribute(name@),
        }
    }
}

/// What a transition returned, with the error taken by its view.
pub open spec fn transition_outcome(r: Result<(), TransitionError>) -> Result<
    (),
    TransitionErrorView,
> {
    match r {
        Ok(_) => Ok(()),
        Err(error) => Err(error@),
    }
}

} // verus!
