use pinepods_mfa::store::{AppState, AppStateMsg, UIState, UIStateMsg};

#[test]
fn expand_then_collapse() {
    let state = AppState::new();
    let state = AppStateMsg::ExpandEpisode("g1".to_string()).apply(state);
    let state = AppStateMsg::ExpandEpisode("g2".to_string()).apply(state);
    let state = AppStateMsg::ExpandEpisode("g1".to_string()).apply(state);
    assert_eq!(state.expanded_descriptions, vec!["g1".to_string(), "g2".to_string()]);
    assert!(state.is_expanded(&"g1".to_string()));
    let state = AppStateMsg::CollapseEpisode("g1".to_string()).apply(state);
    assert!(!state.is_expanded(&"g1".to_string()));
    assert!(state.is_expanded(&"g2".to_string()));
    let state = AppStateMsg::CollapseEpisode("missing".to_string()).apply(state);
    assert_eq!(state.expanded_descriptions, vec!["g2".to_string()]);
}

#[test]
fn toggle_picks_the_opposite() {
    let state = AppStateMsg::ExpandEpisode("g1".to_string()).apply(AppState::new());
    assert!(matches!(
        AppStateMsg::toggle(&state, "g1".to_string()),
        AppStateMsg::CollapseEpisode(g) if g == "g1"
    ));
    assert!(matches!(
        AppStateMsg::toggle(&state, "g2".to_string()),
        AppStateMsg::ExpandEpisode(g) if g == "g2"
    ));
}

#[test]
fn clear_messages() {
    let state = UIState {
        error_message: Some("bad".to_string()),
        info_message: Some("good".to_string()),
    };
    let state = UIStateMsg::ClearErrorMessage.apply(state);
    assert_eq!(state.error_message, None);
    assert_eq!(state.info_message, Some("good".to_string()));
    let state = UIStateMsg::ClearInfoMessage.apply(state);
    assert_eq!(state.info_message, None);
}
