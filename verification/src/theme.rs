//! Colours: the scheme of the client's chrome, chosen by profile so that sessions side by side can
//! be told apart, and the colours of agent states.

use vstd::prelude::*;
use crate::wire::AgentState;

verus! {

/// A terminal colour.
#[derive(Clone, Copy, Debug, PartialEq, Eq, Structural)]
pub enum Color {
    Black,
    Red,
    Green,
    Yellow,
    Blue,
    Cyan,
    Gray,
    DarkGray,
    LightRed,
    LightGreen,
    LightYellow,
    White,
    Rgb(u8, u8, u8),
}

/// A named colour scheme.
#[derive(Clone, Copy, Debug, PartialEq, Eq, Structural)]
pub enum Profile {
    Blue,
    Green,
    Yellow,
    Red,
}

/// The colours of a scheme: `focus` for focused borders, the selection and chips, `shell` for the
/// borders of shell panes.
#[derive(Clone, Copy, Debug, PartialEq, Eq, Structural)]
pub struct Theme {
    pub focus: Color,
    pub shell: Color,
}

/// The colours of a profile.
pub open spec fn profile_theme(profile: Profile) -> Theme {
    match profile {
        Profile::Blue => Theme { focus: Color::Cyan, shell: Color::Blue },
        Profile::Green => Theme { focus: Color::LightGreen, shell: Color::Green },
        Profile::Yellow => Theme { focus: Color::LightYellow, shell: Color::Rgb(180, 140, 0) },
        Profile::Red => Theme { focus: Color::LightRed, shell: Color::Red },
    }
}

impl Theme {
    /// The colours of `profile`.
    pub fn for_profile(profile: Profile) -> (theme: Theme)
        ensures
            theme == profile_theme(profile),
    {
        match profile {
            Profile::Blue => Theme { focus: Color::Cyan, shell: Color::Blue },
            Profile::Green => Theme { focus: Color::LightGreen, shell: Color::Green },
            Profile::Yellow => Theme { focus: Color::LightYellow, shell: Color::Rgb(180, 140, 0) },
            Profile::Red => Theme { focus: Color::LightRed, shell: Color::Red },
        }
    }
}

impl Default for Theme {
    /// Cyan focus, blue shells.
    fn default() -> (theme: Theme)
        ensures
            theme == profile_theme(Profile::Blue),
    {
        Theme::for_profile(Profile::Blue)
    }
}

/// The profile in use.
pub open spec fn profile_in_use(cli: Option<Profile>, config: Profile) -> Profile {
    match cli {
        Some(p) => p,
        None => config,
    }
}

/// The profile in use: the one given on the command line, or else the configured one.
pub fn effective_profile(cli: Option<Profile>, config: Profile) -> (profile: Profile)
    ensures
        profile == profile_in_use(cli, config),
        profile == match cli {
            Some(p) => p,
            None => config,
        },
{
    match cli {
        Some(p) => p,
        None => config,
    }
}

/// The colour of an agent's state.
pub open spec fn state_color(state: AgentState) -> Color {
    match state {
        AgentState::Working => Color::Green,
        AgentState::NeedsAttention { .. } => Color::Yellow,
        AgentState::Idle => Color::Gray,
        AgentState::Starting => Color::Cyan,
        AgentState::Exited { .. } => Color::DarkGray,
        AgentState::Error { .. } => Color::Red,
    }
}

/// The colour that shows `state`.
pub fn color_for(state: &AgentState) -> (color: Color)
    ensures
        color == state_color(*state),
{
    match state {
        AgentState::Working => Color::Green,
        AgentState::NeedsAttention { .. } => Color::Yellow,
        AgentState::Idle => Color::Gray,
        AgentState::Starting => Color::Cyan,
        AgentState::Exited { .. } => Color::DarkGray,
        AgentState::Error { .. } => Color::Red,
    }
}

} // verus!
