//! The course of a viewing session: a map is generated, drawn and shown,
//! and the viewer may ask for another map or leave.

use vstd::prelude::*;

verus! {

/// Where a session stands.
#[derive(Clone, Copy, Debug, PartialEq, Eq, Structural)]
pub enum AppState {
    /// The fields of a new map are to be generated.
    Load,
    /// The fields are there and the image is to be drawn.
    GenerateImage,
    /// The image is shown and the viewer's input decides.
    View,
}

/// What the viewer did while the image was shown.
#[derive(Clone, Copy, Debug, PartialEq, Eq, Structural)]
pub enum ViewEvent {
    /// Closed the window or asked to leave.
    Quit,
    /// Asked for another map.
    Regenerate,
    /// Anything else.
    Other,
}

/// The state after the work of `state` is done. Showing the image is never
/// done by itself: only an event ends it.
pub open spec fn state_after_work(state: AppState) -> AppState {
    match state {
        AppState::Load => AppState::GenerateImage,
        AppState::GenerateImage => AppState::View,
        AppState::View => AppState::View,
    }
}

/// The state after `event`, or nothing where the session ends. Events count
/// only while the image is shown.
pub open spec fn state_after_event(state: AppState, event: ViewEvent) -> Option<AppState> {
    match (state, event) {
        (AppState::View, ViewEvent::Quit) => None,
        (AppState::View, ViewEvent::Regenerate) => Some(AppState::Load),
        _ => Some(state),
    }
}

/// The state after the work of `state` is done.
pub fn advance(state: AppState) -> (next: AppState)
    ensures
        next == state_after_work(state),
{
    match state {
        AppState::Load => AppState::GenerateImage,
        AppState::GenerateImage => AppState::View,
        AppState::View => AppState::View,
    }
}

/// The state after `event`, or nothing where the session ends.
pub fn react(state: AppState, event: ViewEvent) -> (next: Option<AppState>)
    ensures
        next == state_after_event(state, event),
{
    match state {
        AppState::View => match event {
            ViewEvent::Quit => None,
            ViewEvent::Regenerate => Some(AppState::Load),
            ViewEvent::Other => Some(AppState::View),
        },
        _ => Some(state),
    }
}

/// A request for another map leads back to the shown image through one
/// generation and one drawing, and the session ends only on a request to
/// leave made while the image is shown.
pub proof fn lemma_regenerate_cycle(state: AppState, event: ViewEvent)
    ensures
        state_after_event(AppState::View, ViewEvent::Regenerate) == Some(AppState::Load),
        state_after_work(state_after_work(AppState::Load)) == AppState::View,
        state_after_event(state, event).is_none() <==> state == AppState::View && event
            == ViewEvent::Quit,
{
}

} // verus!
