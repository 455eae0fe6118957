use fingerboard::deserialized::{
    KeyAction, KeyDeserialized, KeyDisplay, KeyEvent, LayoutDeserialized, LayoutLoadError,
    LayoutSource, LayoutYamlParser, Modifier, Outline,
};
use fingerboard::grid_cells::key_cells;
use fingerboard::interaction::{Interaction, SwipeAction, TapDuration, TapMotion};
use fingerboard::key::Key;
use fingerboard::key_arrangement::KeyArrangement;
use fingerboard::key_meta::KeyMeta;
use fingerboard::keyboard::{Keyboard, KeyboardEffect};
use fingerboard::layout_meta::LayoutMeta;
use fingerboard::str_map::StrMap;
use fingerboard::submission::Submission;

fn key_with(actions: Vec<(KeyEvent, Vec<KeyAction>)>, outline: Option<Outline>) -> KeyDeserialized {
    KeyDeserialized { actions: Some(actions), key_display: None, outline, popup: None, styles: None }
}

/// A small layout: letters, a shift key that latches, a wide space and a
/// key that switches to the numbers view until the next key.
fn small_layout() -> LayoutDeserialized {
    let mut views: StrMap<Vec<String>> = StrMap::new();
    views.insert("base".to_string(), vec!["a b c".to_string(), "Shift_L space num".to_string()]);
    views.insert("numbers".to_string(), vec!["1 2 3".to_string()]);
    let mut keys: StrMap<KeyDeserialized> = StrMap::new();
    keys.insert(
        "Shift_L".to_string(),
        key_with(vec![(KeyEvent::ShortPress, vec![KeyAction::Modifier(Modifier::Shift)])], None),
    );
    keys.insert(
        "space".to_string(),
        key_with(
            vec![(KeyEvent::ShortPress, vec![KeyAction::EnterString(" ".to_string())])],
            Some(Outline::Double),
        ),
    );
    keys.insert(
        "num".to_string(),
        key_with(
            vec![(KeyEvent::ShortPress, vec![KeyAction::TempSwitchView("numbers".to_string())])],
            None,
        ),
    );
    LayoutDeserialized { views, keys }
}

fn built_layout() -> LayoutMeta {
    let ld = small_layout();
    assert!(LayoutMeta::can_build(&ld));
    LayoutMeta::from(&ld)
}

fn key(layout: &LayoutMeta, id: &str) -> Key {
    Key::from(id, layout.keys.get(&id.to_string()).unwrap())
}

fn keyboard_for(layout: LayoutMeta, name: &str, language: &str) -> Keyboard {
    let mut layouts: StrMap<LayoutMeta> = StrMap::new();
    layouts.insert(name.to_string(), layout);
    Keyboard::from(&layouts, &language.to_string())
}

fn describe(effects: &[KeyboardEffect]) -> Vec<String> {
    effects
        .iter()
        .map(|e| match e {
            KeyboardEffect::ButtonInteraction(l, v, k, m) => format!("button {} {} {} {:?}", l, v, k, m),
            KeyboardEffect::OpenPopup(k) => format!("popup {}", k),
            KeyboardEffect::ChangeUILayoutView(l, v) => format!("switch {:?} {:?}", l, v),
            KeyboardEffect::Submit(s) => format!("submit {:?}", s),
            KeyboardEffect::ReleaseAllKeysAndModifiers => "release all".to_string(),
        })
        .collect()
}

#[test]
fn default_key_meta_enters_the_key_id() {
    let meta = KeyMeta::default("q");
    let short = meta.actions.get(Interaction::Tap(TapDuration::Short, TapMotion::Release)).unwrap();
    assert_eq!(short, &vec![KeyAction::EnterString("q".to_string())]);
    let long = meta.actions.get(Interaction::Tap(TapDuration::Long, TapMotion::Release)).unwrap();
    assert_eq!(long, &vec![KeyAction::EnterString("Q".to_string())]);
    assert!(meta.actions.get(Interaction::Tap(TapDuration::Short, TapMotion::Press)).is_none());
    assert_eq!(meta.key_display, KeyDisplay::Text("q".to_string()));
    assert_eq!(meta.outline, Outline::Standard);
    // Any single letter is capitalised, not only ASCII ones.
    let meta = KeyMeta::default("ä");
    let long = meta.actions.get(Interaction::Tap(TapDuration::Long, TapMotion::Release)).unwrap();
    assert_eq!(long, &vec![KeyAction::EnterString("Ä".to_string())]);
    // A key id longer than one character is entered unchanged on a long press.
    let meta = KeyMeta::default("ab");
    let long = meta.actions.get(Interaction::Tap(TapDuration::Long, TapMotion::Release)).unwrap();
    assert_eq!(long, &vec![KeyAction::EnterString("ab".to_string())]);
}

#[test]
fn modifier_runs_on_press_and_toggle_on_both_motions() {
    let meta = KeyMeta::from(
        "k",
        Some(&key_with(
            vec![(KeyEvent::ShortPress, vec![KeyAction::Modifier(Modifier::Shift), KeyAction::ToggleKeycode(42)])],
            None,
        )),
    );
    assert_eq!(
        meta.actions.get(Interaction::Tap(TapDuration::Short, TapMotion::Press)).unwrap(),
        &vec![KeyAction::Modifier(Modifier::Shift), KeyAction::ToggleKeycode(42)]
    );
    assert_eq!(
        meta.actions.get(Interaction::Tap(TapDuration::Short, TapMotion::Release)).unwrap(),
        &vec![KeyAction::ToggleKeycode(42)]
    );
    assert!(meta.actions.get(Interaction::Tap(TapDuration::Long, TapMotion::Press)).is_none());
}

#[test]
fn rows_are_centered() {
    let layout = built_layout();
    let base = layout.views.get(&"base".to_string()).unwrap();
    // Row 0: a b c, two cells each: 6 cells. Row 1: Shift_L (2), space (4), num (2): 8 cells.
    assert_eq!(base.get_no_columns(), 8);
    assert_eq!(base.get_no_rows(), 2);
    let locations = base.get_key_arrangement();
    let a = locations.get(&"a".to_string()).unwrap();
    assert_eq!((a.x, a.y, a.width, a.height), (1, 0, 2, 1));
    let c = locations.get(&"c".to_string()).unwrap();
    assert_eq!((c.x, c.y, c.width, c.height), (5, 0, 2, 1));
    let space = locations.get(&"space".to_string()).unwrap();
    assert_eq!((space.x, space.y, space.width, space.height), (2, 1, 4, 1));
    let num = locations.get(&"num".to_string()).unwrap();
    assert_eq!((num.x, num.y), (6, 1));
}

#[test]
fn uncentered_rows_start_at_the_left_edge() {
    let layout = built_layout();
    let rows = vec!["a b c".to_string(), "Shift_L space num".to_string()];
    let (locations, widths) = KeyArrangement::get_uncentered_key_arrangement(&rows, &layout.keys);
    assert_eq!(widths, vec![6, 8]);
    let a = locations.get(&"a".to_string()).unwrap();
    assert_eq!((a.x, a.y), (0, 0));
    let space = locations.get(&"space".to_string()).unwrap();
    assert_eq!((space.x, space.y), (2, 1));
}

#[test]
fn every_cell_of_a_key_is_listed() {
    let layout = built_layout();
    let base = layout.views.get(&"base".to_string()).unwrap();
    let cells = key_cells(base, &layout.keys);
    // 3 keys of 2 cells, 2 keys of 2 cells and one of 4 cells.
    assert_eq!(cells.len(), 14);
    let space_cells: Vec<(i32, i32)> =
        cells.iter().filter(|(_, k)| k.get_id() == "space").map(|(c, _)| *c).collect();
    assert_eq!(space_cells, vec![(2, 1), (3, 1), (4, 1), (5, 1)]);
}

#[test]
fn views_without_rows_cannot_be_built() {
    let mut views: StrMap<Vec<String>> = StrMap::new();
    views.insert("base".to_string(), vec![]);
    let ld = LayoutDeserialized { views, keys: StrMap::new() };
    assert!(!LayoutMeta::can_build(&ld));
}

#[test]
fn layout_names_come_from_the_file() {
    let name = LayoutDeserialized::layout_name(&LayoutSource::YamlFile("de".to_string()));
    assert_eq!(name.unwrap(), "de".to_string());
    let name = LayoutDeserialized::layout_name(&LayoutSource::FallbackStr);
    assert_eq!(name.unwrap(), "FALLBACK".to_string());
    let name = LayoutDeserialized::layout_name(&LayoutSource::YamlFile("previous".to_string()));
    assert!(matches!(name, Err(LayoutLoadError::ReservedName)));
}

#[test]
fn layouts_that_failed_are_skipped() {
    let mut layouts: StrMap<LayoutDeserialized> = StrMap::new();
    LayoutYamlParser::add_layout_to_hashmap(&mut layouts, Ok(("us".to_string(), small_layout())));
    LayoutYamlParser::add_layout_to_hashmap(
        &mut layouts,
        Err(LayoutLoadError::Invalid("bad yaml".to_string())),
    );
    let mut empty_view: StrMap<Vec<String>> = StrMap::new();
    empty_view.insert("base".to_string(), vec![]);
    LayoutYamlParser::add_layout_to_hashmap(
        &mut layouts,
        Ok(("de".to_string(), LayoutDeserialized { views: empty_view, keys: StrMap::new() })),
    );
    // Every layout that was read is kept, also one that cannot be built.
    assert_eq!(layouts.len(), 2);
    assert!(layouts.contains_key(&"de".to_string()));
    assert!(!LayoutYamlParser::needs_fallback(&layouts, &"us".to_string()));
    assert!(!LayoutYamlParser::needs_fallback(&layouts, &"de".to_string()));
    assert!(LayoutYamlParser::needs_fallback(&layouts, &"fr".to_string()));
    // Building leaves out the layout that cannot be built.
    let metas = LayoutMeta::deserialize(&layouts);
    assert!(metas.contains_key(&"us".to_string()));
    assert!(!metas.contains_key(&"de".to_string()));
    assert_eq!(metas.len(), 1);
}

#[test]
fn a_later_layout_of_the_same_name_replaces_the_earlier() {
    let mut layouts: StrMap<LayoutDeserialized> = StrMap::new();
    LayoutYamlParser::add_layout_to_hashmap(&mut layouts, Ok(("us".to_string(), small_layout())));
    let mut views: StrMap<Vec<String>> = StrMap::new();
    views.insert("only".to_string(), vec!["x".to_string()]);
    LayoutYamlParser::add_layout_to_hashmap(
        &mut layouts,
        Ok(("us".to_string(), LayoutDeserialized { views, keys: StrMap::new() })),
    );
    assert_eq!(layouts.len(), 1);
    let us = layouts.get(&"us".to_string()).unwrap();
    assert!(us.views.contains_key(&"only".to_string()));
    assert!(!us.views.contains_key(&"base".to_string()));
}

#[test]
fn keyboard_starts_in_the_language_layout_or_the_fallback() {
    let kb = keyboard_for(built_layout(), "us", "us");
    assert_eq!(kb.active_view, ("us".to_string(), "base".to_string()));
    let kb = keyboard_for(built_layout(), "us", "de");
    assert_eq!(kb.active_view, ("FALLBACK".to_string(), "base".to_string()));
}

#[test]
fn a_tap_enters_the_key_and_shows_the_button() {
    let layout = built_layout();
    let a = key(&layout, "a");
    let mut kb = keyboard_for(layout, "us", "us");
    let press = kb.input(Interaction::Tap(TapDuration::Short, TapMotion::Press), Some(a));
    assert_eq!(describe(&press), vec!["button us base a Press".to_string()]);
    let release = kb.input(Interaction::Tap(TapDuration::Short, TapMotion::Release), None);
    assert_eq!(
        describe(&release),
        vec!["submit Text(\"a\")".to_string(), "button us base a Release".to_string()]
    );
}

#[test]
fn a_press_far_from_every_key_does_nothing() {
    let layout = built_layout();
    let mut kb = keyboard_for(layout, "us", "us");
    let press = kb.input(Interaction::Tap(TapDuration::Short, TapMotion::Press), None);
    assert!(press.is_empty());
    let release = kb.input(Interaction::Tap(TapDuration::Short, TapMotion::Release), None);
    assert!(release.is_empty());
}

#[test]
fn two_spaces_end_a_sentence() {
    let layout = built_layout();
    let space = key(&layout, "space");
    let mut kb2 = keyboard_for(built_layout(), "us", "us");
    kb2.input(Interaction::Tap(TapDuration::Short, TapMotion::Press), Some(space.duplicate()));
    let first = kb2.input(Interaction::Tap(TapDuration::Short, TapMotion::Release), None);
    assert_eq!(describe(&first)[0], "submit Text(\" \")".to_string());
    kb2.input(Interaction::Tap(TapDuration::Short, TapMotion::Press), Some(space.duplicate()));
    let second = kb2.input(Interaction::Tap(TapDuration::Short, TapMotion::Release), None);
    assert_eq!(
        describe(&second),
        vec![
            "submit Erase(1)".to_string(),
            "submit Text(\". \")".to_string(),
            "button us base space Release".to_string()
        ]
    );
}

#[test]
fn shift_latches_until_pressed_again() {
    let layout = built_layout();
    let shift = key(&layout, "Shift_L");
    let mut kb = keyboard_for(layout, "us", "us");
    let first = kb.input(Interaction::Tap(TapDuration::Short, TapMotion::Press), Some(shift.duplicate()));
    assert_eq!(
        describe(&first),
        vec!["submit Modifier(Shift)".to_string(), "button us base Shift_L Press".to_string()]
    );
    // While latched, the release does not let the button up.
    let release = kb.input(Interaction::Tap(TapDuration::Short, TapMotion::Release), None);
    assert!(release.is_empty());
    kb.input(Interaction::Tap(TapDuration::Short, TapMotion::Press), Some(shift.duplicate()));
    let release = kb.input(Interaction::Tap(TapDuration::Short, TapMotion::Release), None);
    assert_eq!(describe(&release), vec!["button us base Shift_L Release".to_string()]);
}

#[test]
fn temporary_view_switch_returns_after_the_next_key() {
    let layout = built_layout();
    let num = key(&layout, "num");
    let b = key(&layout, "b");
    let mut kb = keyboard_for(layout, "us", "us");
    kb.input(Interaction::Tap(TapDuration::Short, TapMotion::Press), Some(num));
    let release = kb.input(Interaction::Tap(TapDuration::Short, TapMotion::Release), None);
    assert_eq!(
        describe(&release),
        vec![
            "switch None Some(\"numbers\")".to_string(),
            "button us base num Release".to_string()
        ]
    );
    kb.active_view = ("us".to_string(), "numbers".to_string());
    let press = kb.input(Interaction::Tap(TapDuration::Short, TapMotion::Press), Some(b));
    assert_eq!(
        describe(&press),
        vec![
            "switch Some(\"us\") Some(\"base\")".to_string(),
            "button us numbers b Press".to_string()
        ]
    );
    // Only once.
    let release = kb.input(Interaction::Tap(TapDuration::Short, TapMotion::Release), None);
    assert_eq!(
        describe(&release),
        vec!["submit Text(\"b\")".to_string(), "button us numbers b Release".to_string()]
    );
}

#[test]
fn a_swipe_releases_everything_and_ends_with_a_space() {
    let layout = built_layout();
    let shift = key(&layout, "Shift_L");
    let mut kb = keyboard_for(layout, "us", "us");
    kb.input(Interaction::Tap(TapDuration::Short, TapMotion::Press), Some(shift));
    let begin = kb.input(Interaction::Swipe(SwipeAction::Begin), None);
    assert_eq!(
        describe(&begin),
        vec![
            "button us base Shift_L Release".to_string(),
            "button us base Shift_L Release".to_string(),
            "release all".to_string()
        ]
    );
    assert!(kb.input(Interaction::Swipe(SwipeAction::Update), None).is_empty());
    let finish = kb.input(Interaction::Swipe(SwipeAction::Finish), None);
    assert_eq!(
        describe(&finish),
        vec!["submit Text(\"\")".to_string(), "submit Text(\" \")".to_string()]
    );
}

#[test]
fn submitted_text_can_be_followed_by_a_space() {
    let mut kb = keyboard_for(built_layout(), "us", "us");
    let effects = kb.submit_text("word".to_string(), true);
    assert_eq!(
        describe(&effects),
        vec!["submit Text(\"word\")".to_string(), "submit Text(\" \")".to_string()]
    );
    let effects = kb.submit_text("next".to_string(), false);
    assert_eq!(describe(&effects), vec!["submit Text(\"next\")".to_string()]);
}

#[test]
fn submissions_compare_by_value() {
    assert!(Submission::Keycode(3).same_as(&Submission::Keycode(3)));
    assert!(!Submission::Keycode(3).same_as(&Submission::ToggleKeycode(3)));
}

#[test]
fn keys_of_a_row_do_not_overlap() {
    let layout = built_layout();
    let base = layout.views.get(&"base".to_string()).unwrap();
    let locations = base.get_key_arrangement();
    let mut cells = Vec::new();
    for i in 0..locations.len() {
        let l = locations.value_at(i);
        for x in l.x..l.x + l.width {
            assert!(!cells.contains(&(x, l.y)));
            cells.push((x, l.y));
        }
    }
    assert_eq!(cells.len(), 14);
}
