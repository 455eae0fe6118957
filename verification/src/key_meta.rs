//! Everything needed to build a key and its button: the description of the
//! key, completed with defaults where the layout author said nothing.
use vstd::prelude::*;
use crate::action_map::ActionMap;
use crate::deserialized::{
    actions_view, duplicate_strings, event_actions_view, opt_strings_view, EventActions, KeyAction,
    KeyActionView, KeyDeserialized, KeyDeserializedView, KeyDisplay, KeyDisplayView, KeyEvent,
    Outline,
};
use crate::interaction::{Interaction, SwipeAction, TapDuration, TapMotion};
use crate::text::{chars_of, to_uppercase, uppercase};

verus! {

/// All information needed to build a key and its representation as a
/// button.
pub struct KeyMeta {
    pub actions: ActionMap,
    pub key_display: KeyDisplay,
    pub outline: Outline,
    pub popup: Option<Vec<String>>,
    pub styles: Option<Vec<String>>,
}

/// A key's information, its strings taken by their characters.
pub struct KeyMetaView {
    pub actions: Map<Interaction, Seq<KeyActionView>>,
    pub key_display: KeyDisplayView,
    pub outline: Outline,
    pub popup: Option<Seq<Seq<char>>>,
    pub styles: Option<Seq<Seq<char>>>,
}

impl View for KeyMeta {
    type V = KeyMetaView;

    open spec fn view(&self) -> KeyMetaView {
        KeyMetaView {
            actions: self.actions@,
            key_display: self.key_display@,
            outline: self.outline,
            popup: opt_strings_view(self.popup),
            styles: opt_strings_view(self.styles),
        }
    }
}

/// The text a long press of a key enters by default: a key id of a single
/// character (a letter, typically) in upper case, any other key id
/// unchanged.
pub open spec fn long_press_text(key_id: Seq<char>) -> Seq<char> {
    if key_id.len() == 1 {
        uppercase(key_id)
    } else {
        key_id
    }
}

/// What a key is when its description says nothing: a short press enters
/// the key id, a long press enters it capitalized, the button is labelled
/// with the key id, has the standard width, no popover and no style class.
pub open spec fn default_key_meta(key_id: Seq<char>) -> KeyMetaView {
    KeyMetaView {
        actions: Map::empty().insert(
            Interaction::Tap(TapDuration::Short, TapMotion::Release),
            seq![KeyActionView::EnterString(key_id)],
        ).insert(
            Interaction::Tap(TapDuration::Long, TapMotion::Release),
            seq![KeyActionView::EnterString(long_press_text(key_id))],
        ),
        key_display: KeyDisplayView::Text(key_id),
        outline: Outline::Standard,
        popup: None,
        styles: None,
    }
}

/// The tap duration a key event stands for.
pub open spec fn event_duration(e: KeyEvent) -> TapDuration {
    match e {
        KeyEvent::ShortPress => TapDuration::Short,
        KeyEvent::LongPress => TapDuration::Long,
    }
}

/// Whether an action a layout author defined runs on the given motion:
/// toggling a keycode runs on press and on release, a modifier on press,
/// feedback never (it is added by the keyboard itself), all others on
/// release.
pub open spec fn activates_on(a: KeyActionView, m: TapMotion) -> bool {
    match a {
        KeyActionView::FeedbackPressRelease(_) => false,
        KeyActionView::ToggleKeycode(_) => true,
        KeyActionView::Modifier(_) => m == TapMotion::Press,
        _ => m == TapMotion::Release,
    }
}

/// The actions of `s` that run on motion `m`, in order.
pub open spec fn activated(s: Seq<KeyActionView>, m: TapMotion) -> Seq<KeyActionView>
    decreases s.len(),
{
    if s.len() == 0 {
        Seq::empty()
    } else {
        activated(s.drop_last(), m) + (if activates_on(s.last(), m) {
            seq![s.last()]
        } else {
            Seq::empty()
        })
    }
}

/// The actions that the tap of duration `d` and motion `m` runs, gathered
/// from the key events in order.
pub open spec fn tap_actions(
    e: Seq<(KeyEvent, Seq<KeyActionView>)>,
    d: TapDuration,
    m: TapMotion,
) -> Seq<KeyActionView>
    decreases e.len(),
{
    if e.len() == 0 {
        Seq::empty()
    } else {
        tap_actions(e.drop_last(), d, m) + (if event_duration(e.last().0) == d {
            activated(e.last().1, m)
        } else {
            Seq::empty()
        })
    }
}

/// The actions of each interaction, from the actions a layout author gave
/// for each key event: every tap that runs at least one action is present,
/// with the actions it runs; nothing else is.
pub open spec fn interaction_actions(e: Seq<(KeyEvent, Seq<KeyActionView>)>) -> Map<
    Interaction,
    Seq<KeyActionView>,
> {
    Map::new(
        |i: Interaction|
            match i {
                Interaction::Tap(d, m) => tap_actions(e, d, m).len() > 0,
                Interaction::Swipe(_) => false,
            },
        |i: Interaction|
            match i {
                Interaction::Tap(d, m) => tap_actions(e, d, m),
                Interaction::Swipe(_) => Seq::empty(),
            },
    )
}

/// A key's information: the description's parts where it has them, the
/// defaults elsewhere.
pub open spec fn completed_key_meta(key_id: Seq<char>, kd: Option<KeyDeserializedView>) -> KeyMetaView {
    let d = default_key_meta(key_id);
    match kd {
        None => d,
        Some(k) => KeyMetaView {
            actions: match k.actions {
                Some(a) => interaction_actions(a),
                None => d.actions,
            },
            key_display: match k.key_display {
                Some(x) => x,
                None => d.key_display,
            },
            outline: match k.outline {
                Some(o) => o,
                None => d.outline,
            },
            popup: k.popup,
            styles: k.styles,
        },
    }
}

/// A copy of optional strings.
fn duplicate_opt_strings(o: &Option<Vec<String>>) -> (r: Option<Vec<String>>)
    ensures
        opt_strings_view(r) == opt_strings_view(*o),
{
    match o {
        Some(v) => Some(duplicate_strings(v)),
        None => None,
    }
}

impl KeyMeta {
    /// Builds the key information from its description, supplementing what
    /// the description leaves out with the defaults.
    pub fn from(key_id: &str, key_deserialized: Option<&KeyDeserialized>) -> (r: KeyMeta)
        ensures
            r@ == completed_key_meta(
                key_id@,
                match key_deserialized {
                    Some(k) => Some(k@),
                    None => None,
                },
            ),
    {
        let mut key_meta = KeyMeta::default(key_id);
        if let Some(key_deserialized) = key_deserialized {
            if let Some(deserialized_actions) = &key_deserialized.actions {
                key_meta.actions = KeyMeta::make_interaction_keyaction_hashmap(
                    deserialized_actions,
                );
            }
            if let Some(deserialized_key_display) = &key_deserialized.key_display {
                key_meta.key_display = deserialized_key_display.duplicate();
            }
            if let Some(deserialized_outline) = &key_deserialized.outline {
                key_meta.outline = *deserialized_outline;
            }
            if key_deserialized.popup.is_some() {
                key_meta.popup = duplicate_opt_strings(&key_deserialized.popup);
            }
            if key_deserialized.styles.is_some() {
                key_meta.styles = duplicate_opt_strings(&key_deserialized.styles);
            }
        }
        key_meta
    }

    /// A copy of the key information.
    pub fn duplicate(&self) -> (r: KeyMeta)
        ensures
            r@ == self@,
    {
        KeyMeta {
            actions: self.actions.duplicate(),
            key_display: self.key_display.duplicate(),
            outline: self.outline,
            popup: duplicate_opt_strings(&self.popup),
            styles: duplicate_opt_strings(&self.styles),
        }
    }

    /// The key information of a key its description says nothing about.
    pub fn default(key_id: &str) -> (r: KeyMeta)
        ensures
            r@ == default_key_meta(key_id@),
    {
        let key_id = key_id.to_string();
        let mut actions = ActionMap::new();
        actions.push_action(
            Interaction::Tap(TapDuration::Short, TapMotion::Release),
            KeyAction::EnterString(key_id.clone()),
        );
        let chars = chars_of(key_id.as_str());
        let long_press_str = if chars.len() == 1 {
            to_uppercase(key_id.as_str())
        } else {
            key_id.clone()
        };
        actions.push_action(
            Interaction::Tap(TapDuration::Long, TapMotion::Release),
            KeyAction::EnterString(long_press_str),
        );
        let r = KeyMeta {
            actions,
            key_display: KeyDisplay::Text(key_id),
            outline: Outline::Standard,
            popup: None,
            styles: None,
        };
        assert(r@.actions =~= default_key_meta(key_id@).actions);
        r
    }

    /// Turns the actions given for each key event into the actions of each
    /// interaction. Actions run when the key is released, except that
    /// toggling a keycode runs on press and on release and a modifier runs
    /// on press; a feedback action in a description is ignored.
    pub fn make_interaction_keyaction_hashmap(deserialized_actions: &EventActions) -> (r: ActionMap)
        ensures
            r@ == interaction_actions(event_actions_view(deserialized_actions@)),
    {
        let ghost e = event_actions_view(deserialized_actions@);
        let mut actions = ActionMap::new();
        assert(actions@ =~= interaction_actions(e.take(0)));
        let mut i: usize = 0;
        while i < deserialized_actions.len()
            invariant
                e == event_actions_view(deserialized_actions@),
                i <= deserialized_actions.len(),
                actions@ == interaction_actions(e.take(i as int)),
            decreases deserialized_actions.len() - i,
        {
            let key_event = deserialized_actions[i].0;
            let tap_duration = match key_event {
                KeyEvent::ShortPress => TapDuration::Short,
                KeyEvent::LongPress => TapDuration::Long,
            };
            proof {
                lemma_interaction_actions_step(e, i as int);
            }
            add_event_actions(&mut actions, tap_duration, &deserialized_actions[i].1);
            i = i + 1;
        }
        assert(e.take(i as int) =~= e);
        actions
    }

    /// Appends the action to the actions of the tap of the given duration
    /// and motion, creating the entry if the tap has none yet.
    pub fn add_tap_action_to_hashmap(
        duration: TapDuration,
        motion: TapMotion,
        action: KeyAction,
        hashmap: &mut ActionMap,
    )
        ensures
            final(hashmap)@ == old(hashmap)@.insert(
                Interaction::Tap(duration, motion),
                (if old(hashmap)@.contains_key(Interaction::Tap(duration, motion)) {
                    old(hashmap)@[Interaction::Tap(duration, motion)]
                } else {
                    Seq::empty()
                }).push(action@),
            ),
    {
        let interaction = Interaction::Tap(duration, motion);
        hashmap.push_action(interaction, action);
    }
}

/// `map` with `s` appended to the actions of `k` (nothing changes when `s`
/// is empty).
pub open spec fn appended(
    map: Map<Interaction, Seq<KeyActionView>>,
    k: Interaction,
    s: Seq<KeyActionView>,
) -> Map<Interaction, Seq<KeyActionView>> {
    if s.len() == 0 {
        map
    } else {
        map.insert(
            k,
            (if map.contains_key(k) {
                map[k]
            } else {
                Seq::empty()
            }) + s,
        )
    }
}

/// `map` with the actions of `acts` that run on press appended to the
/// press of duration `d`, and those that run on release to its release.
pub open spec fn with_event_actions(
    map: Map<Interaction, Seq<KeyActionView>>,
    d: TapDuration,
    acts: Seq<KeyActionView>,
) -> Map<Interaction, Seq<KeyActionView>> {
    appended(
        appended(map, Interaction::Tap(d, TapMotion::Press), activated(acts, TapMotion::Press)),
        Interaction::Tap(d, TapMotion::Release),
        activated(acts, TapMotion::Release),
    )
}

proof fn lemma_interaction_actions_step(e: Seq<(KeyEvent, Seq<KeyActionView>)>, i: int)
    requires
        0 <= i < e.len(),
    ensures
        interaction_actions(e.take(i + 1)) == with_event_actions(
            interaction_actions(e.take(i)),
            event_duration(e[i].0),
            e[i].1,
        ),
{
    let a = e.take(i + 1);
    assert(a.drop_last() =~= e.take(i));
    assert(a.last() == e[i]);
    let lhs = interaction_actions(a);
    let rhs = with_event_actions(interaction_actions(e.take(i)), event_duration(e[i].0), e[i].1);
    assert forall|k: Interaction| #[trigger] lhs.contains_key(k) <==> rhs.contains_key(k) by {}
    assert forall|k: Interaction| #[trigger] lhs.contains_key(k) implies lhs[k] == rhs[k] by {
        match k {
            Interaction::Tap(d, m) => {
                if d == event_duration(e[i].0) && activated(e[i].1, m).len() > 0 {
                    if tap_actions(e.take(i), d, m).len() == 0 {
                        assert(tap_actions(e.take(i), d, m) + activated(e[i].1, m) =~= activated(
                            e[i].1,
                            m,
                        ));
                    }
                } else {
                    assert(tap_actions(a, d, m) =~= tap_actions(e.take(i), d, m));
                }
            },
            Interaction::Swipe(_) => {},
        }
    }
    assert(lhs =~= rhs);
}

proof fn lemma_activated_step(acts: Seq<KeyActionView>, j: int, m: TapMotion)
    requires
        0 <= j < acts.len(),
    ensures
        activated(acts.take(j + 1), m) == activated(acts.take(j), m) + (if activates_on(acts[j], m) {
            seq![acts[j]]
        } else {
            Seq::empty()
        }),
{
    assert(acts.take(j + 1).drop_last() =~= acts.take(j));
    assert(acts.take(j + 1).last() == acts[j]);
}

proof fn lemma_appended_push(
    map: Map<Interaction, Seq<KeyActionView>>,
    k: Interaction,
    s: Seq<KeyActionView>,
    x: KeyActionView,
)
    ensures
        appended(map, k, s.push(x)) == appended(map, k, s).insert(
            k,
            (if appended(map, k, s).contains_key(k) {
                appended(map, k, s)[k]
            } else {
                Seq::empty()
            }).push(x),
        ),
{
    if s.len() == 0 {
        if map.contains_key(k) {
            assert(map[k] + s.push(x) =~= map[k].push(x));
        } else {
            assert(Seq::<KeyActionView>::empty() + s.push(x) =~= Seq::<KeyActionView>::empty().push(x));
        }
    } else {
        let base = if map.contains_key(k) {
            map[k]
        } else {
            Seq::<KeyActionView>::empty()
        };
        assert(base + s.push(x) =~= (base + s).push(x));
    }
    assert(appended(map, k, s.push(x)) =~= appended(map, k, s).insert(
        k,
        (if appended(map, k, s).contains_key(k) {
            appended(map, k, s)[k]
        } else {
            Seq::empty()
        }).push(x),
    ));
}

/// Appends the actions of one key event to the press and release of the
/// tap of duration `d`.
fn add_event_actions(actions: &mut ActionMap, d: TapDuration, key_action_vec: &Vec<KeyAction>)
    ensures
        final(actions)@ == with_event_actions(old(actions)@, d, actions_view(key_action_vec@)),
{
    let ghost start = old(actions)@;
    let ghost acts = actions_view(key_action_vec@);
    let ghost tp = Interaction::Tap(d, TapMotion::Press);
    let ghost tr = Interaction::Tap(d, TapMotion::Release);
    assert(acts.take(0) =~= Seq::<KeyActionView>::empty());
    assert(with_event_actions(start, d, acts.take(0)) =~= start);
    let mut j: usize = 0;
    while j < key_action_vec.len()
        invariant
            acts == actions_view(key_action_vec@),
            tp == Interaction::Tap(d, TapMotion::Press),
            tr == Interaction::Tap(d, TapMotion::Release),
            j <= key_action_vec.len(),
            actions@ == with_event_actions(start, d, acts.take(j as int)),
        decreases key_action_vec.len() - j,
    {
        let action = &key_action_vec[j];
        let mut activate_when_pressed = false;
        let mut activate_when_released = false;
        match action {
            KeyAction::FeedbackPressRelease(_) => {},
            KeyAction::ToggleKeycode(_) => {
                activate_when_pressed = true;
                activate_when_released = true;
            },
            KeyAction::Modifier(_) => {
                activate_when_pressed = true;
            },
            _ => {
                activate_when_released = true;
            },
        }
        let ghost a = action@;
        assert(acts[j as int] == a);
        assert(activate_when_pressed == activates_on(a, TapMotion::Press));
        assert(activate_when_released == activates_on(a, TapMotion::Release));
        proof {
            lemma_activated_step(acts, j as int, TapMotion::Press);
            lemma_activated_step(acts, j as int, TapMotion::Release);
        }
        let ghost sp = activated(acts.take(j as int), TapMotion::Press);
        let ghost sr = activated(acts.take(j as int), TapMotion::Release);
        let ghost m1 = appended(start, tp, sp);
        if activate_when_pressed {
            KeyMeta::add_tap_action_to_hashmap(d, TapMotion::Press, action.duplicate(), actions);
            proof {
                lemma_appended_push(start, tp, sp, a);
                let m1n = appended(start, tp, sp.push(a));
                assert(appended(m1n, tr, sr) =~= appended(m1, tr, sr).insert(
                    tp,
                    (if appended(m1, tr, sr).contains_key(tp) {
                        appended(m1, tr, sr)[tp]
                    } else {
                        Seq::empty()
                    }).push(a),
                ));
            }
        }
        if activate_when_pressed {
            assert(activated(acts.take(j + 1), TapMotion::Press) =~= sp.push(a));
        } else {
            assert(activated(acts.take(j + 1), TapMotion::Press) =~= sp);
        }
        if activate_when_released {
            assert(activated(acts.take(j + 1), TapMotion::Release) =~= sr.push(a));
        } else {
            assert(activated(acts.take(j + 1), TapMotion::Release) =~= sr);
        }
        let ghost m1b = appended(start, tp, activated(acts.take(j + 1), TapMotion::Press));
        assert(actions@ == appended(m1b, tr, sr));
        if activate_when_released {
            KeyMeta::add_tap_action_to_hashmap(d, TapMotion::Release, action.duplicate(), actions);
            proof {
                lemma_appended_push(m1b, tr, sr, a);
            }
        }
        j = j + 1;
    }
    assert(acts.take(j as int) =~= acts);
}

/// A long press never runs under a short tap, and a short press never under
/// a long one: when every event of a description is a long press, no short
/// tap has actions, and a single long press's actions run on the long tap
/// with the motion they activate on.
pub proof fn lemma_press_durations_kept_apart(e: Seq<(KeyEvent, Seq<KeyActionView>)>)
    ensures
        (forall|i: int| 0 <= i < e.len() ==> (#[trigger] e[i]).0 == KeyEvent::LongPress) ==> forall|
            m: TapMotion,
        | !(#[trigger] interaction_actions(e)).contains_key(Interaction::Tap(TapDuration::Short, m)),
        (forall|i: int| 0 <= i < e.len() ==> (#[trigger] e[i]).0 == KeyEvent::ShortPress) ==> forall|
            m: TapMotion,
        | !(#[trigger] interaction_actions(e)).contains_key(Interaction::Tap(TapDuration::Long, m)),
        event_duration(KeyEvent::ShortPress) != event_duration(KeyEvent::LongPress),
    decreases e.len(),
{
    if forall|i: int| 0 <= i < e.len() ==> (#[trigger] e[i]).0 == KeyEvent::LongPress {
        assert forall|m: TapMotion| tap_actions(e, TapDuration::Short, m).len() == 0 by {
            lemma_tap_actions_other_duration(e, TapDuration::Short, m, KeyEvent::LongPress);
        }
    }
    if forall|i: int| 0 <= i < e.len() ==> (#[trigger] e[i]).0 == KeyEvent::ShortPress {
        assert forall|m: TapMotion| tap_actions(e, TapDuration::Long, m).len() == 0 by {
            lemma_tap_actions_other_duration(e, TapDuration::Long, m, KeyEvent::ShortPress);
        }
    }
}

/// A single long press's actions run on the long tap of the motion they
/// activate on.
pub proof fn lemma_long_press_runs_on_long_tap(acts: Seq<KeyActionView>, m: TapMotion)
    ensures
        tap_actions(seq![(KeyEvent::LongPress, acts)], TapDuration::Long, m) == activated(acts, m),
        tap_actions(seq![(KeyEvent::ShortPress, acts)], TapDuration::Short, m) == activated(acts, m),
{
    reveal_with_fuel(tap_actions, 2);
    let e1 = seq![(KeyEvent::LongPress, acts)];
    let e2 = seq![(KeyEvent::ShortPress, acts)];
    assert(e1.last() == (KeyEvent::LongPress, acts));
    assert(e2.last() == (KeyEvent::ShortPress, acts));
    assert(e1.drop_last() =~= Seq::<(KeyEvent, Seq<KeyActionView>)>::empty());
    assert(e2.drop_last() =~= Seq::<(KeyEvent, Seq<KeyActionView>)>::empty());
    assert(Seq::<KeyActionView>::empty() + activated(acts, m) =~= activated(acts, m));
}

/// No actions run under a tap of one duration when every event is of the
/// other kind.
proof fn lemma_tap_actions_other_duration(
    e: Seq<(KeyEvent, Seq<KeyActionView>)>,
    d: TapDuration,
    m: TapMotion,
    ev: KeyEvent,
)
    requires
        forall|i: int| 0 <= i < e.len() ==> (#[trigger] e[i]).0 == ev,
        (ev == KeyEvent::LongPress && d == TapDuration::Short) || (ev == KeyEvent::ShortPress && d
            == TapDuration::Long),
    ensures
        tap_actions(e, d, m).len() == 0,
    decreases e.len(),
{
    if e.len() > 0 {
        assert forall|i: int| 0 <= i < e.drop_last().len() implies (#[trigger] e.drop_last()[i]).0
            == ev by {
            assert(e.drop_last()[i] == e[i]);
        }
        lemma_tap_actions_other_duration(e.drop_last(), d, m, ev);
        assert(e.last() == e[e.len() - 1]);
    }
}

} // verus!
