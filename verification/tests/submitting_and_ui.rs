use fingerboard::deserialized::Modifier;
use fingerboard::gesture::{GestureModel, GestureSignal};
use fingerboard::input_handler::{InputHandler, InputType, OutputType};
use fingerboard::interaction::{Interaction, SwipeAction, TapDuration, TapMotion};
use fingerboard::key_meta::KeyMeta;
use fingerboard::submission::Submission;
use fingerboard::submitter::Submitter;
use fingerboard::ui_manager::{
    orientation_for_width, portrait_layout_names, GridBuilder, Orientation, UIError, UIManager,
};
use fingerboard::vk_service::{KeyMotion, ModifiersBitflag, SubmitError, VKRequest, VKService};

fn press(k: u32) -> VKRequest {
    VKRequest::Key(k, KeyMotion::Press)
}

fn release(k: u32) -> VKRequest {
    VKRequest::Key(k, KeyMotion::Release)
}

#[test]
fn keys_are_pressed_and_released_by_name() {
    let mut vk = VKService::new();
    let mut requests = Vec::new();
    assert_eq!(vk.press_release_key("BackSpace", true, &mut requests), Ok(()));
    assert_eq!(requests, vec![press(14), release(14)]);
    assert_eq!(vk.send_key("nonsense", KeyMotion::Press, true, &mut requests), Err(SubmitError::InvalidKeycode));
    assert_eq!(vk.send_key("a", KeyMotion::Press, false, &mut requests), Err(SubmitError::NotAlive));
    assert_eq!(requests.len(), 2);
}

#[test]
fn toggling_a_key_twice_presses_then_releases_it() {
    let mut vk = VKService::new();
    let mut requests = Vec::new();
    assert_eq!(vk.toggle_key("space", true, &mut requests), Ok(()));
    assert_eq!(vk.toggle_key("SPACE", true, &mut requests), Ok(()));
    assert_eq!(requests, vec![press(57), release(57)]);
    // Nothing is held down any more.
    let mut more = Vec::new();
    assert_eq!(vk.release_all_keys(false, &mut more), Ok(()));
    assert!(more.is_empty());
}

#[test]
fn releasing_all_keys_releases_each_held_key_once() {
    let mut vk = VKService::new();
    let mut requests = Vec::new();
    vk.send_keycode(&30, KeyMotion::Press, true, &mut requests).unwrap();
    vk.send_keycode(&48, KeyMotion::Press, true, &mut requests).unwrap();
    vk.send_keycode(&30, KeyMotion::Press, true, &mut requests).unwrap();
    let mut released = Vec::new();
    assert_eq!(vk.release_all_keys(false, &mut released), Err(SubmitError::NotAlive));
    assert!(released.is_empty());
    assert_eq!(vk.release_all_keys_and_modifiers(true, &mut released), Ok(()));
    assert_eq!(released.len(), 3);
    assert!(released.contains(&release(30)));
    assert!(released.contains(&release(48)));
    assert_eq!(released[2], VKRequest::Modifiers(0));
    let mut again = Vec::new();
    assert_eq!(vk.release_all_keys(true, &mut again), Ok(()));
    assert!(again.is_empty());
}

#[test]
fn modifiers_toggle_their_bits() {
    let mut vk = VKService::new();
    let mut requests = Vec::new();
    vk.toggle_modifier(Modifier::Shift, true, &mut requests).unwrap();
    vk.toggle_modifier(Modifier::Alt, true, &mut requests).unwrap();
    vk.toggle_modifier(Modifier::Shift, true, &mut requests).unwrap();
    assert_eq!(
        requests,
        vec![VKRequest::Modifiers(0x1), VKRequest::Modifiers(0x9), VKRequest::Modifiers(0x8)]
    );
    assert_eq!(vk.toggle_modifier(Modifier::Mod5, false, &mut requests), Err(SubmitError::NotAlive));
    assert_eq!(vk.release_all_modifiers(true, &mut requests), Ok(()));
    assert_eq!(requests[3], VKRequest::Modifiers(0));
    assert_eq!(ModifiersBitflag::from(Modifier::Mod4).bits(), 0x40);
    let mut flags = ModifiersBitflag::no_modifiers();
    flags.toggle(ModifiersBitflag::from(Modifier::Control));
    assert_eq!(flags.bits(), 0x4);
    assert_eq!(KeyMotion::Press.value(), 1);
    assert_eq!(KeyMotion::Release.value(), 0);
}

#[test]
fn submissions_take_the_virtual_keyboard_where_needed() {
    let mut submitter = Submitter::new(Some(VKService::new()));
    let mut requests = Vec::new();
    assert!(Submitter::uses_input_method(&Submission::Text("x".to_string())));
    assert!(Submitter::uses_input_method(&Submission::Erase(2)));
    assert!(!Submitter::uses_input_method(&Submission::Keycode(2)));
    // Text the input method submitted needs nothing more.
    assert!(submitter.submit(Submission::Text("x".to_string()), true, true, &mut requests));
    assert!(requests.is_empty());
    // Otherwise it is typed character by character.
    assert!(submitter.submit(Submission::Text("xä".to_string()), false, true, &mut requests));
    assert_eq!(requests, vec![VKRequest::TypeChar('x' as u32), VKRequest::TypeChar('ä' as u32)]);
    requests.clear();
    assert!(!submitter.submit(Submission::Text("x".to_string()), false, false, &mut requests));
    assert!(submitter.submit(Submission::Text("".to_string()), false, false, &mut requests));
    assert!(requests.is_empty());
    // An erasure the input method did not make presses DELETE once per character.
    assert!(submitter.submit(Submission::Erase(2), false, true, &mut requests));
    assert_eq!(requests, vec![press(111), release(111), press(111), release(111)]);
    requests.clear();
    assert!(!submitter.submit(Submission::Erase(2), false, false, &mut requests));
    assert!(submitter.submit(Submission::Erase(0), false, false, &mut requests));
    assert!(submitter.submit(Submission::Keycode(28), false, true, &mut requests));
    assert!(submitter.submit(Submission::ToggleKeycode(42), false, true, &mut requests));
    assert!(submitter.submit(Submission::Modifier(Modifier::Shift), false, true, &mut requests));
    assert_eq!(
        requests,
        vec![press(28), release(28), press(42), VKRequest::Modifiers(1)]
    );
    let mut released = Vec::new();
    assert!(submitter.release_all_keys_and_modifiers(true, &mut released));
    assert_eq!(released, vec![release(42), VKRequest::Modifiers(0)]);
}

#[test]
fn without_virtual_keyboard_only_the_input_method_submits() {
    let mut submitter = Submitter::new(None);
    let mut requests = Vec::new();
    assert!(!submitter.submit(Submission::Keycode(28), false, true, &mut requests));
    assert!(!submitter.submit(Submission::Text("x".to_string()), false, true, &mut requests));
    assert!(!submitter.submit(Submission::Erase(1), false, true, &mut requests));
    assert!(submitter.submit(Submission::Erase(1), true, true, &mut requests));
    assert!(!submitter.release_all_keys_and_modifiers(true, &mut requests));
    assert!(requests.is_empty());
}

fn manager() -> UIManager {
    let grids = vec![
        GridBuilder::make_grid_name("us", "base"),
        GridBuilder::make_grid_name("us", "caps"),
        GridBuilder::make_grid_name("us_wide", "base"),
        GridBuilder::make_grid_name("de", "base"),
    ];
    UIManager::new(grids, ("us".to_string(), "base".to_string()))
}

#[test]
fn grid_names_join_layout_and_view() {
    assert_eq!(GridBuilder::make_grid_name("us", "base"), "us_base".to_string());
}

#[test]
fn layout_and_view_change_only_to_existing_grids() {
    let mut ui = manager();
    assert_eq!(ui.change_layout_view(&None, Some("caps".to_string())), Ok(()));
    assert_eq!(ui.current_layout_view, ("us".to_string(), "caps".to_string()));
    assert_eq!(ui.change_layout_view(&None, Some("numbers".to_string())), Err(UIError::LayoutViewNonExistent));
    assert_eq!(ui.current_layout_view, ("us".to_string(), "caps".to_string()));
    // A new layout starts in its base view.
    assert_eq!(ui.change_layout_view(&Some("de".to_string()), None), Ok(()));
    assert_eq!(ui.current_layout_view, ("de".to_string(), "base".to_string()));
    // 'previous' returns to the layout shown before.
    assert_eq!(ui.change_layout_view(&Some("previous".to_string()), None), Ok(()));
    assert_eq!(ui.current_layout_view, ("us".to_string(), "base".to_string()));
    assert_eq!(ui.change_layout_view(&Some("previous".to_string()), None), Ok(()));
    assert_eq!(ui.current_layout_view, ("de".to_string(), "base".to_string()));
}

#[test]
fn orientation_picks_the_wide_layout() {
    assert_eq!(orientation_for_width(720), Orientation::Landscape);
    assert_eq!(orientation_for_width(360), Orientation::Portrait);
    let mut ui = manager();
    ui.change_orientation(Orientation::Portrait);
    assert_eq!(ui.current_layout_view, ("us".to_string(), "base".to_string()));
    ui.change_orientation(Orientation::Landscape);
    assert_eq!(ui.current_layout_view, ("us_wide".to_string(), "base".to_string()));
    ui.change_orientation(Orientation::Landscape);
    assert_eq!(ui.current_layout_view, ("us_wide".to_string(), "base".to_string()));
    ui.change_orientation(Orientation::Portrait);
    assert_eq!(ui.current_layout_view, ("us".to_string(), "base".to_string()));
    // A layout without a wide version stays.
    ui.change_layout_view(&Some("de".to_string()), None).unwrap();
    ui.change_orientation(Orientation::Landscape);
    assert_eq!(ui.current_layout_view, ("de".to_string(), "base".to_string()));
}

#[test]
fn haptic_events_are_named() {
    let ui = manager();
    assert_eq!(ui.haptic_feedback(true), "button-pressed".to_string());
    assert_eq!(ui.haptic_feedback(false), "button-released".to_string());
}

#[test]
fn gestures_become_interactions() {
    let mut gestures: GestureModel<(i32, i32)> = GestureModel::new();
    assert_eq!(
        gestures.convert_to_interaction((1, 1), GestureSignal::DragBegin),
        Interaction::Tap(TapDuration::Short, TapMotion::Press)
    );
    assert_eq!(
        gestures.convert_to_interaction((1, 1), GestureSignal::DragEnd),
        Interaction::Tap(TapDuration::Short, TapMotion::Release)
    );
    gestures.convert_to_interaction((1, 1), GestureSignal::DragBegin);
    assert_eq!(
        gestures.convert_to_interaction((1, 1), GestureSignal::LongPress),
        Interaction::Tap(TapDuration::Long, TapMotion::Press)
    );
    assert_eq!(
        gestures.convert_to_interaction((1, 1), GestureSignal::DragEnd),
        Interaction::Tap(TapDuration::Long, TapMotion::Release)
    );
    gestures.convert_to_interaction((5, 5), GestureSignal::DragBegin);
    assert_eq!(
        gestures.convert_to_interaction((5, 5), GestureSignal::DragUpdate),
        Interaction::Swipe(SwipeAction::Begin)
    );
    assert_eq!(
        gestures.convert_to_interaction((6, 5), GestureSignal::DragUpdate),
        Interaction::Swipe(SwipeAction::Update)
    );
    assert_eq!(gestures.get_swipe_path(), &vec![(5, 5), (6, 5)]);
    assert_eq!(
        gestures.convert_to_interaction((7, 5), GestureSignal::DragEnd),
        Interaction::Swipe(SwipeAction::Finish)
    );
    assert!(gestures.get_swipe_path().is_empty());
}

#[test]
fn input_handler_outputs() {
    let mut handler = InputHandler::new();
    assert!(InputType::Move(3).is_move());
    assert!(!InputType::Press.is_move());
    assert_eq!(handler.input(InputType::Press), OutputType::ShortPress);
    assert_eq!(handler.input(InputType::LongPress), OutputType::LongPress);
    assert_eq!(handler.input(InputType::Release), OutputType::LongPressRelease);
    assert_eq!(handler.input(InputType::Press), OutputType::ShortPress);
    assert_eq!(handler.input(InputType::Move(10)), OutputType::Swipe);
    assert_eq!(handler.input(InputType::Release), OutputType::SwipeRelease);
    assert_eq!(handler.input(InputType::Release), OutputType::ShortPressRelease);
}

#[test]
fn buttons_get_their_style_classes_and_popovers() {
    let mut meta = KeyMeta::default("period");
    assert_eq!(
        GridBuilder::button_style_classes("period", &meta),
        vec!["key".to_string(), "key_period".to_string()]
    );
    assert!(GridBuilder::popover_rows(&meta).is_none());
    meta.styles = Some(vec!["return".to_string()]);
    meta.popup = Some(vec!["# @ &".to_string(), " ( ) ".to_string()]);
    assert_eq!(
        GridBuilder::button_style_classes("period", &meta),
        vec!["key".to_string(), "key_period".to_string(), "return".to_string()]
    );
    assert_eq!(
        GridBuilder::popover_rows(&meta),
        Some(vec![
            vec!["#".to_string(), "@".to_string(), "&".to_string()],
            vec!["(".to_string(), ")".to_string()]
        ])
    );
    assert_eq!(GridBuilder::grid_style_class("us_base"), "grid_us_base".to_string());
}

#[test]
fn unicode_text_is_typed_character_by_character() {
    let mut vk = VKService::new();
    let mut requests = Vec::new();
    assert_eq!(vk.send_unicode_str("añ", true, &mut requests), Ok(()));
    assert_eq!(requests, vec![VKRequest::TypeChar(0x61), VKRequest::TypeChar(0xf1)]);
    assert_eq!(vk.send_unicode_str("a", false, &mut requests), Err(SubmitError::NotAlive));
    assert_eq!(vk.send_unicode_str("", false, &mut requests), Ok(()));
    assert_eq!(requests.len(), 2);
}

#[test]
fn preferences_offer_each_portrait_layout_once() {
    let names = vec![
        "us".to_string(),
        "us_wide".to_string(),
        "de".to_string(),
        "us".to_string(),
        "wide".to_string(),
    ];
    assert_eq!(
        portrait_layout_names(&names),
        vec!["us".to_string(), "de".to_string(), "wide".to_string()]
    );
}
