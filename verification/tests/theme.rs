use amux::theme::{color_for, effective_profile, Color, Profile, Theme};
use amux::wire::{AgentState, AttentionKind};

#[test]
fn profiles_map_to_expected_colors() {
    assert_eq!(
        Theme::for_profile(Profile::Blue),
        Theme { focus: Color::Cyan, shell: Color::Blue }
    );
    assert_eq!(
        Theme::for_profile(Profile::Green),
        Theme { focus: Color::LightGreen, shell: Color::Green }
    );
    assert_eq!(
        Theme::for_profile(Profile::Yellow),
        Theme { focus: Color::LightYellow, shell: Color::Rgb(180, 140, 0) }
    );
    assert_eq!(
        Theme::for_profile(Profile::Red),
        Theme { focus: Color::LightRed, shell: Color::Red }
    );
    assert_eq!(Theme::default(), Theme::for_profile(Profile::Blue));
}

#[test]
fn effective_profile_prefers_cli_then_config() {
    assert_eq!(effective_profile(Some(Profile::Red), Profile::Green), Profile::Red);
    assert_eq!(effective_profile(None, Profile::Green), Profile::Green);
    assert_eq!(effective_profile(None, Profile::Blue), Profile::Blue);
}

#[test]
fn states_have_their_colors() {
    assert_eq!(color_for(&AgentState::Working), Color::Green);
    assert_eq!(
        color_for(&AgentState::NeedsAttention { kind: AttentionKind::Info, message: None }),
        Color::Yellow
    );
    assert_eq!(color_for(&AgentState::Idle), Color::Gray);
    assert_eq!(color_for(&AgentState::Starting), Color::Cyan);
    assert_eq!(color_for(&AgentState::Exited { code: None }), Color::DarkGray);
    assert_eq!(color_for(&AgentState::Error { message: "x".into() }), Color::Red);
}
