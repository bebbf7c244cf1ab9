//! The animation vocabulary: easing curves, lifecycle states, the user
//! interactions that retarget an animation, and the event-matching rule of
//! the animation attribute language.

use vstd::prelude::*;
use crate::textscan::str_eq;

verus! {

/// The easing curves an animation can follow. Evaluating a curve is the
/// drawing layer's concern; the choice itself is plain data.
#[derive(Clone, Copy, Debug)]
pub enum Easing {
    Linear,
    EaseIn,
    EaseOut,
    EaseInOut,
    BounceOut,
    ElasticOut,
}

/// Lifecycle of one animation instance.
#[derive(Clone, Copy, Debug, PartialEq, Eq, Structural)]
pub enum AnimationState {
    Playing,
    Completed,
    Stopped,
    Unactive,
}

/// User interactions that retarget an animation.
#[derive(Clone, Copy, Debug, PartialEq, Eq, Structural)]
pub enum Interaction {
    HoverStart,
    HoverEnd,
    ClickStart,
    ClickStop,
    Toggle,
}

/// Current interaction state of a UI element.
#[derive(Clone, Copy, Debug, PartialEq, Eq, Structural)]
pub enum InteractionState {
    Idle,
    Hovered,
    Clicked,
}

/// Which of the two template values an animation heads for.
#[derive(Clone, Copy, Debug, PartialEq, Eq, Structural)]
pub enum AnimTarget {
    InitialStart,
    InitialEnd,
}

/// What one interaction does to an instance: the new interaction state,
/// the remembered pre-hover state, the toggle flag, and the value the
/// animation now heads for. `None` when the interaction changes nothing.
pub open spec fn interaction_spec(
    interaction: Interaction,
    state: InteractionState,
    pre_hover: Option<InteractionState>,
    toggled: bool,
) -> Option<(InteractionState, Option<InteractionState>, bool, AnimTarget)> {
    match interaction {
        Interaction::HoverStart => if state != InteractionState::Hovered {
            Some((InteractionState::Hovered, Some(state), toggled, AnimTarget::InitialEnd))
        } else {
            None
        },
        Interaction::HoverEnd => if state == InteractionState::Hovered {
            let previous = match pre_hover {
                Some(p) => p,
                None => InteractionState::Idle,
            };
            let target = if previous == InteractionState::Clicked {
                AnimTarget::InitialEnd
            } else {
                AnimTarget::InitialStart
            };
            Some((previous, None, toggled, target))
        } else {
            None
        },
        Interaction::ClickStart => Some(
            (InteractionState::Clicked, pre_hover, true, AnimTarget::InitialEnd),
        ),
        Interaction::ClickStop => Some(
            (InteractionState::Idle, pre_hover, false, AnimTarget::InitialStart),
        ),
        Interaction::Toggle => if !toggled {
            Some((InteractionState::Clicked, pre_hover, true, AnimTarget::InitialEnd))
        } else {
            Some((InteractionState::Idle, pre_hover, false, AnimTarget::InitialStart))
        },
    }
}

/// Applies one interaction to an instance's bookkeeping. The animation
/// restarts toward the returned target exactly when something is returned;
/// otherwise the interaction was a repeat and nothing changes.
pub fn interaction_step(
    interaction: Interaction,
    state: InteractionState,
    pre_hover: Option<InteractionState>,
    toggled: bool,
) -> (r: Option<(InteractionState, Option<InteractionState>, bool, AnimTarget)>)
    ensures
        r == interaction_spec(interaction, state, pre_hover, toggled),
{
    match interaction {
        Interaction::HoverStart => {
            if state != InteractionState::Hovered {
                Some((InteractionState::Hovered, Some(state), toggled, AnimTarget::InitialEnd))
            } else {
                None
            }
        },
        Interaction::HoverEnd => {
            if state == InteractionState::Hovered {
                let previous = match pre_hover {
                    Some(p) => p,
                    None => InteractionState::Idle,
                };
                let target = if previous == InteractionState::Clicked {
                    AnimTarget::InitialEnd
                } else {
                    AnimTarget::InitialStart
                };
                Some((previous, None, toggled, target))
            } else {
                None
            }
        },
        Interaction::ClickStart => Some(
            (InteractionState::Clicked, pre_hover, true, AnimTarget::InitialEnd),
        ),
        Interaction::ClickStop => Some(
            (InteractionState::Idle, pre_hover, false, AnimTarget::InitialStart),
        ),
        Interaction::Toggle => {
            if !toggled {
                Some((InteractionState::Clicked, pre_hover, true, AnimTarget::InitialEnd))
            } else {
                Some((InteractionState::Idle, pre_hover, false, AnimTarget::InitialStart))
            }
        },
    }
}

/// What the animation attribute transformer is asked to rewrite.
#[derive(Clone, Copy)]
pub enum TransformerMode {
    /// Add initialization calls and rewrite condition attributes.
    Init,
    /// Rewrite condition attributes on an implementation block.
    Impl,
    /// Rewrite condition attributes on a single function.
    Fn,
}

/// Rewrites animation attributes; its matching rule is the verified part.
pub struct AnimationTransformer {
    pub mode: TransformerMode,
}

impl AnimationTransformer {
    /// A transformer for the given rewriting mode.
    pub fn new(mode: TransformerMode) -> (r: Self)
        ensures
            r.mode == mode,
    {
        Self { mode }
    }

    /// Whether the event named by an attribute fits the event found in a
    /// condition: the wildcard fits everything, otherwise the names must
    /// agree, and a missing condition event fits nothing but the wildcard.
    pub fn events_match(&self, attr_event: &str, condition_event: Option<&str>) -> (r: bool)
        ensures
            r == (attr_event@ == "auto"@ || (condition_event matches Some(c) && attr_event@
                == c@)),
    {
        if str_eq(attr_event, "auto") {
            return true;
        }
        match condition_event {
            Some(c) => str_eq(attr_event, c),
            None => false,
        }
    }
}

/// The component toolkit's entry value; the widgets it builds live in the
/// drawing layer.
#[derive(Clone)]
pub struct Ecomp {}

impl Ecomp {
    /// A fresh toolkit value.
    pub fn new() -> (r: Self)
        ensures
            r == (Ecomp {  }),
    {
        Self {  }
    }
}

impl Default for Ecomp {
    /// The same as [`Ecomp::new`].
    fn default() -> (r: Self)
        ensures
            r == (Ecomp {  }),
    {
        Self {  }
    }
}

} // verus!
