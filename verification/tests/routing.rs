use coder::model::{FindField, Focus, SearchField};
use coder::routing::{
    focused_input, key_handlers, leader_after, mouse_target, paste_target, refinds_on_change, InputField, KeyHandler,
    MouseTarget, Overlays, PasteTarget,
};

fn overlays(quickbar: bool, dialog: bool, context_menu: bool, completion: bool) -> Overlays {
    Overlays { quickbar, dialog, context_menu, completion }
}

#[test]
fn focus_picks_the_text_field() {
    assert_eq!(focused_input(Focus::Find, FindField::Replace, SearchField::Query), Some((InputField::FindReplace, false)));
    assert_eq!(focused_input(Focus::SearchInput, FindField::Query, SearchField::Replace), Some((InputField::SearchReplace, false)));
    assert_eq!(focused_input(Focus::GitCommit, FindField::Query, SearchField::Query), Some((InputField::CommitMessage, true)));
    assert_eq!(focused_input(Focus::Editor, FindField::Query, SearchField::Query), None);
}

#[test]
fn the_topmost_overlay_takes_keys() {
    assert_eq!(key_handlers(overlays(true, true, false, true), None), vec![KeyHandler::Quickbar]);
    assert_eq!(key_handlers(overlays(false, true, true, false), None), vec![KeyHandler::Dialog]);
    assert_eq!(key_handlers(overlays(false, false, true, true), None), vec![KeyHandler::ContextMenu]);
}

#[test]
fn completion_then_field_then_shortcuts() {
    let input = Some((InputField::FindQuery, false));
    assert_eq!(
        key_handlers(overlays(false, false, false, true), input),
        vec![KeyHandler::Completion, KeyHandler::Input(InputField::FindQuery, false), KeyHandler::Keymap]
    );
    assert_eq!(key_handlers(overlays(false, false, false, false), None), vec![KeyHandler::Keymap]);
}

#[test]
fn paste_goes_to_the_owner_of_input() {
    assert_eq!(paste_target(overlays(true, false, false, false), None, Focus::Editor), PasteTarget::Quickbar);
    assert_eq!(paste_target(overlays(false, true, false, false), None, Focus::Editor), PasteTarget::Dialog);
    assert_eq!(paste_target(overlays(false, false, true, false), None, Focus::Editor), PasteTarget::Nowhere);
    assert_eq!(
        paste_target(overlays(false, false, false, false), Some((InputField::CommitMessage, true)), Focus::GitCommit),
        PasteTarget::Input(InputField::CommitMessage, true)
    );
    assert_eq!(paste_target(overlays(false, false, false, true), None, Focus::Terminal), PasteTarget::Terminal);
    assert_eq!(paste_target(overlays(false, false, false, false), None, Focus::Sidebar), PasteTarget::Editor);
}

#[test]
fn mouse_goes_to_the_topmost_overlay() {
    assert_eq!(mouse_target(overlays(false, true, true, false)), MouseTarget::Dialog);
    assert_eq!(mouse_target(overlays(false, false, false, true)), MouseTarget::Screen);
    assert_eq!(mouse_target(overlays(true, false, false, false)), MouseTarget::Quickbar);
    assert_eq!(mouse_target(overlays(false, false, true, false)), MouseTarget::ContextMenu);
}

#[test]
fn only_the_find_query_refinds_and_commands_use_up_the_leader() {
    assert!(refinds_on_change(Focus::Find, FindField::Query));
    assert!(!refinds_on_change(Focus::Find, FindField::Replace));
    assert!(!refinds_on_change(Focus::SearchInput, FindField::Query));
    assert!(!leader_after(true, false));
    assert!(leader_after(true, true));
    assert!(!leader_after(false, true));
}
