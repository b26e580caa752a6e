use kiwi_core::navigation::{
    left_tab_labels, main_tab_labels, FocusTarget, LeftNavTab, MainTab, NavCommand,
    NavigationState,
};

#[test]
fn default_is_files_and_agent_with_main_focus() {
    let nav = NavigationState::default();
    assert_eq!(nav.left_tab, LeftNavTab::Files);
    assert_eq!(nav.main_tab, MainTab::Agent);
    assert_eq!(nav.focus, FocusTarget::Main);
}

#[test]
fn left_tab_select_does_not_change_main_tab() {
    let mut nav = NavigationState::default();
    nav.apply(NavCommand::SelectLeftTab(LeftNavTab::Git));
    assert_eq!(nav.left_tab, LeftNavTab::Git);
    assert_eq!(nav.main_tab, MainTab::Agent);
}

#[test]
fn main_tab_select_pairs_left_tab() {
    let mut nav = NavigationState::default();
    nav.apply(NavCommand::SelectMainTab(MainTab::Diff));
    assert_eq!(nav.main_tab, MainTab::Diff);
    assert_eq!(nav.left_tab, LeftNavTab::Git);

    nav.apply(NavCommand::SelectMainTab(MainTab::Agent));
    assert_eq!(nav.left_tab, LeftNavTab::Git);
}

#[test]
fn tab_slot_state_preserved_when_switching_back() {
    let mut nav = NavigationState::default();
    nav.left_slot_mut().selected_index = 7;
    nav.apply(NavCommand::SelectLeftTab(LeftNavTab::Search));
    nav.left_slot_mut().selected_index = 2;
    nav.apply(NavCommand::SelectLeftTab(LeftNavTab::Files));

    assert_eq!(nav.left_slot_for(LeftNavTab::Files).selected_index, 7);
    assert_eq!(nav.left_slot_for(LeftNavTab::Search).selected_index, 2);
}

#[test]
fn main_tab_slot_state_preserved_when_switching_back() {
    let mut nav = NavigationState::default();
    nav.main_slot_mut().selected_index = 4;
    nav.apply(NavCommand::SelectMainTab(MainTab::Preview));
    nav.main_slot_mut().selected_index = 1;
    nav.apply(NavCommand::SelectMainTab(MainTab::Agent));

    assert_eq!(nav.main_slot_for(MainTab::Agent).selected_index, 4);
    assert_eq!(nav.main_slot_for(MainTab::Preview).selected_index, 1);
}

#[test]
fn focus_cycles_forward_and_backward() {
    let mut nav = NavigationState::default();
    assert_eq!(nav.focus, FocusTarget::Main);

    nav.apply(NavCommand::NextFocus);
    assert_eq!(nav.focus, FocusTarget::CommandPalette);
    nav.apply(NavCommand::NextFocus);
    assert_eq!(nav.focus, FocusTarget::Shell);
    nav.apply(NavCommand::NextFocus);
    assert_eq!(nav.focus, FocusTarget::Left);

    nav.apply(NavCommand::PreviousFocus);
    assert_eq!(nav.focus, FocusTarget::Shell);
}

#[test]
fn next_then_previous_focus_is_identity() {
    for focus in FocusTarget::cycle() {
        assert_eq!(focus.next().previous(), focus);
        assert_eq!(focus.previous().next(), focus);
    }
}

#[test]
fn focus_cycle_matches_spec_order() {
    let cycle = FocusTarget::cycle();
    let mut focus = cycle[0];
    for expected in cycle.iter().skip(1) {
        focus = focus.next();
        assert_eq!(focus, *expected);
    }
}

#[test]
fn main_tab_paired_left_tab_matches_spec() {
    assert_eq!(MainTab::Issues.paired_left_tab(), Some(LeftNavTab::Gh));
    assert_eq!(MainTab::Prs.paired_left_tab(), Some(LeftNavTab::Gh));
    assert_eq!(MainTab::Branches.paired_left_tab(), Some(LeftNavTab::Gh));
    assert_eq!(MainTab::Preview.paired_left_tab(), Some(LeftNavTab::Files));
    assert_eq!(MainTab::Diff.paired_left_tab(), Some(LeftNavTab::Git));
    assert_eq!(MainTab::Agent.paired_left_tab(), None);
    assert_eq!(MainTab::Logs.paired_left_tab(), None);
    assert_eq!(MainTab::Settings.paired_left_tab(), None);
    assert_eq!(MainTab::Plugins.paired_left_tab(), None);
}

#[test]
fn plugins_tab_has_correct_index_and_label() {
    assert_eq!(MainTab::Plugins.index(), 8);
    assert_eq!(MainTab::Plugins.label(), "Plugins");
    assert_eq!(MainTab::from_index(8), Some(MainTab::Plugins));
}

#[test]
fn main_tab_all_and_labels_are_in_sync() {
    assert_eq!(MainTab::all().len(), main_tab_labels().len());
    for (tab, label) in MainTab::all().iter().zip(main_tab_labels().iter()) {
        assert_eq!(tab.label(), *label);
    }
}

#[test]
fn left_tabs_match_spec_order() {
    assert_eq!(LeftNavTab::Files.label(), "Files");
    assert_eq!(LeftNavTab::Search.index(), 3);
}

#[test]
fn left_tab_constants_match_all_variants() {
    assert_eq!(LeftNavTab::all().len(), left_tab_labels().len());
    for (tab, label) in LeftNavTab::all().iter().zip(left_tab_labels().iter()) {
        assert_eq!(tab.label(), *label);
    }
}

#[test]
fn tab_index_round_trips() {
    for tab in MainTab::all() {
        assert_eq!(MainTab::from_index(tab.index()), Some(tab));
    }
    for tab in LeftNavTab::all() {
        assert_eq!(LeftNavTab::from_index(tab.index()), Some(tab));
    }
    assert_eq!(MainTab::from_index(9), None);
    assert_eq!(LeftNavTab::from_index(4), None);
}
