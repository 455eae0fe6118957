//! The keyboard: it decides what an interaction with a key causes. It keeps
//! which key is active, which keys are latched, which layout and view to
//! return to after a temporary switch, and the decoder; what the user
//! interface and the text input have to do comes back as a list of effects.
use vstd::prelude::*;
use crate::decoder::{decoded, fresh_decoder, Decoder, DecoderView};
use crate::deserialized::{
    actions_view, fallback_layout_name, fallback_layout_name_string, fallback_view_name,
    fallback_view_name_string, KeyAction, KeyActionView,
};
use crate::interaction::{Interaction, SwipeAction, TapDuration, TapMotion};
use crate::key::{Key, KeyView};
use crate::layout_meta::LayoutMeta;
use crate::str_map::StrMap;
use crate::submission::{Submission, SubmissionView};
use crate::text::string_views;

verus! {

/// Something the keyboard asks the user interface or the text input to do.
pub enum KeyboardEffect {
    /// Show the button (layout, view, key id) pressed or released.
    ButtonInteraction(String, String, String, TapMotion),
    /// Open the popover of the key.
    OpenPopup(String),
    /// Switch the user interface to the layout and/or view.
    ChangeUILayoutView(Option<String>, Option<String>),
    /// Hand the submission to the text input.
    Submit(Submission),
    /// Release all keys and modifiers of the text input.
    ReleaseAllKeysAndModifiers,
}

/// An effect, its strings taken by their characters.
pub enum EffectView {
    ButtonInteraction(Seq<char>, Seq<char>, Seq<char>, TapMotion),
    OpenPopup(Seq<char>),
    ChangeUILayoutView(Option<Seq<char>>, Option<Seq<char>>),
    Submit(SubmissionView),
    ReleaseAllKeysAndModifiers,
}

/// An optional string, taken by its characters.
pub open spec fn opt_view(o: Option<String>) -> Option<Seq<char>> {
    match o {
        Some(s) => Some(s@),
        None => None,
    }
}

impl View for KeyboardEffect {
    type V = EffectView;

    open spec fn view(&self) -> EffectView {
        match self {
            KeyboardEffect::ButtonInteraction(l, v, k, m) => EffectView::ButtonInteraction(
                l@,
                v@,
                k@,
                *m,
            ),
            KeyboardEffect::OpenPopup(k) => EffectView::OpenPopup(k@),
            KeyboardEffect::ChangeUILayoutView(l, v) => EffectView::ChangeUILayoutView(
                opt_view(*l),
                opt_view(*v),
            ),
            KeyboardEffect::Submit(s) => EffectView::Submit(s@),
            KeyboardEffect::ReleaseAllKeysAndModifiers => EffectView::ReleaseAllKeysAndModifiers,
        }
    }
}

/// The views of a sequence of effects.
pub open spec fn effects_view(v: Seq<KeyboardEffect>) -> Seq<EffectView> {
    v.map_values(|e: KeyboardEffect| e@)
}

/// The state of the keyboard.
pub struct Keyboard {
    /// The layout and view the user interface shows.
    pub active_view: (String, String),
    latched_keys: Vec<String>,
    active_key: Option<Key>,
    layout_of_active_key: String,
    view_of_active_key: String,
    next_layout: Option<String>,
    next_view: Option<String>,
    decoder: Decoder,
}

/// The state of the keyboard, its strings taken by their characters.
pub struct KeyboardView {
    pub active_view: (Seq<char>, Seq<char>),
    pub latched_keys: Seq<Seq<char>>,
    pub active_key: Option<KeyView>,
    pub layout_of_active_key: Seq<char>,
    pub view_of_active_key: Seq<char>,
    pub next_layout: Option<Seq<char>>,
    pub next_view: Option<Seq<char>>,
    pub decoder: DecoderView,
}

impl View for Keyboard {
    type V = KeyboardView;

    closed spec fn view(&self) -> KeyboardView {
        KeyboardView {
            active_view: (self.active_view.0@, self.active_view.1@),
            latched_keys: string_views(self.latched_keys@),
            active_key: match self.active_key {
                Some(k) => Some(k@),
                None => None,
            },
            layout_of_active_key: self.layout_of_active_key@,
            view_of_active_key: self.view_of_active_key@,
            next_layout: opt_view(self.next_layout),
            next_view: opt_view(self.next_view),
            decoder: self.decoder@,
        }
    }
}

/// `s` without any occurrence of `k`.
pub open spec fn without(s: Seq<Seq<char>>, k: Seq<char>) -> Seq<Seq<char>>
    decreases s.len(),
{
    if s.len() == 0 {
        Seq::empty()
    } else {
        without(s.drop_last(), k) + (if s.last() == k {
            Seq::empty()
        } else {
            seq![s.last()]
        })
    }
}

/// The latched keys after the modifier key `k` is activated: it is no longer
/// latched if it was, and latched if it was not.
pub open spec fn toggled(latched: Seq<Seq<char>>, k: Seq<char>) -> Seq<Seq<char>> {
    if latched.contains(k) {
        without(latched, k)
    } else {
        latched.push(k)
    }
}

/// Each submission, as an effect.
pub open spec fn submit_all(d: Seq<SubmissionView>) -> Seq<EffectView>
    decreases d.len(),
{
    if d.len() == 0 {
        Seq::empty()
    } else {
        submit_all(d.drop_last()).push(EffectView::Submit(d.last()))
    }
}

/// A release of each of the buttons, as effects.
pub open spec fn release_all(layout: Seq<char>, view: Seq<char>, keys: Seq<Seq<char>>) -> Seq<
    EffectView,
>
    decreases keys.len(),
{
    if keys.len() == 0 {
        Seq::empty()
    } else {
        release_all(layout, view, keys.drop_last()).push(
            EffectView::ButtonInteraction(layout, view, keys.last(), TapMotion::Release),
        )
    }
}

/// A request to switch layout and/or view; a temporary switch remembers the
/// active layout and view to return to.
pub open spec fn switched(
    st: KeyboardView,
    layout: Option<Seq<char>>,
    view: Option<Seq<char>>,
    temporary: bool,
) -> (KeyboardView, Seq<EffectView>) {
    (
        if temporary {
            KeyboardView {
                next_layout: Some(st.active_view.0),
                next_view: Some(st.active_view.1),
                ..st
            }
        } else {
            st
        },
        seq![EffectView::ChangeUILayoutView(layout, view)],
    )
}

/// What one action of the key `key_id` does.
pub open spec fn run_action(st: KeyboardView, key_id: Seq<char>, a: KeyActionView) -> (
    KeyboardView,
    Seq<EffectView>,
) {
    match a {
        KeyActionView::FeedbackPressRelease(press) => (
            st,
            if press {
                seq![
                    EffectView::ButtonInteraction(
                        st.layout_of_active_key,
                        st.view_of_active_key,
                        key_id,
                        TapMotion::Press,
                    ),
                ]
            } else if !st.latched_keys.contains(key_id) {
                seq![
                    EffectView::ButtonInteraction(
                        st.layout_of_active_key,
                        st.view_of_active_key,
                        key_id,
                        TapMotion::Release,
                    ),
                ]
            } else {
                Seq::empty()
            },
        ),
        KeyActionView::EnterKeycode(k) => (st, seq![EffectView::Submit(SubmissionView::Keycode(k))]),
        KeyActionView::ToggleKeycode(k) => (
            st,
            seq![EffectView::Submit(SubmissionView::ToggleKeycode(k))],
        ),
        KeyActionView::EnterString(t) => {
            let d = decoded(st.decoder.prev_submissions, t);
            (
                KeyboardView {
                    decoder: DecoderView { prev_submissions: d, ..st.decoder },
                    ..st
                },
                submit_all(d),
            )
        },
        KeyActionView::Modifier(m) => (
            KeyboardView { latched_keys: toggled(st.latched_keys, key_id), ..st },
            seq![EffectView::Submit(SubmissionView::Modifier(m))],
        ),
        KeyActionView::Erase => (st, seq![EffectView::Submit(SubmissionView::Erase(1))]),
        KeyActionView::SwitchView(v) => switched(st, None, Some(v), false),
        KeyActionView::TempSwitchView(v) => switched(st, None, Some(v), true),
        KeyActionView::SwitchLayout(l) => switched(st, Some(l), None, false),
        KeyActionView::TempSwitchLayout(l) => switched(st, Some(l), None, true),
        KeyActionView::OpenPopup => (st, seq![EffectView::OpenPopup(key_id)]),
    }
}

/// What the actions of the key `key_id` do, one after the other.
pub open spec fn run_actions(st: KeyboardView, key_id: Seq<char>, acts: Seq<KeyActionView>) -> (
    KeyboardView,
    Seq<EffectView>,
)
    decreases acts.len(),
{
    if acts.len() == 0 {
        (st, Seq::empty())
    } else {
        let (s1, e1) = run_actions(st, key_id, acts.drop_last());
        let (s2, e2) = run_action(s1, key_id, acts.last());
        (s2, e1 + e2)
    }
}

/// Returning from a temporary switch: if a layout or view to return to is
/// remembered, the user interface is asked to switch back and it is
/// forgotten.
pub open spec fn switched_back(st: KeyboardView) -> (KeyboardView, Seq<EffectView>) {
    if st.next_layout is Some || st.next_view is Some {
        (
            KeyboardView { next_layout: None, next_view: None, ..st },
            seq![EffectView::ChangeUILayoutView(st.next_layout, st.next_view)],
        )
    } else {
        (st, Seq::empty())
    }
}

/// What tapping the key does: first a temporary switch is undone, then the
/// actions of the interaction run.
pub open spec fn tap_result(st: KeyboardView, key: KeyView, interaction: Interaction) -> (
    KeyboardView,
    Seq<EffectView>,
) {
    let (s1, e1) = switched_back(st);
    if key.actions.contains_key(interaction) {
        let (s2, e2) = run_actions(s1, key.id, key.actions[interaction]);
        (s2, e1 + e2)
    } else {
        (s1, e1)
    }
}

/// What a tap does. A short press makes the key closest to it (if any) the
/// active key, on the active layout and view; every tap then acts on the
/// active key, if there is one.
pub open spec fn tapped(st: KeyboardView, interaction: Interaction, closest: Option<KeyView>) -> (
    KeyboardView,
    Seq<EffectView>,
) {
    let s1 = if interaction == Interaction::Tap(TapDuration::Short, TapMotion::Press) {
        KeyboardView {
            active_key: closest,
            layout_of_active_key: st.active_view.0,
            view_of_active_key: st.active_view.1,
            ..st
        }
    } else {
        st
    };
    match s1.active_key {
        Some(k) => tap_result(s1, k, interaction),
        None => (s1, Seq::empty()),
    }
}

/// Submitting text: the text itself, then (if asked for) a space that goes
/// through the decoder.
pub open spec fn text_submitted(st: KeyboardView, text: Seq<char>, append_space: bool) -> (
    KeyboardView,
    Seq<EffectView>,
) {
    if append_space {
        let d = decoded(st.decoder.prev_submissions, " "@);
        (
            KeyboardView { decoder: DecoderView { prev_submissions: d, ..st.decoder }, ..st },
            seq![EffectView::Submit(SubmissionView::Text(text))] + submit_all(d),
        )
    } else {
        (st, seq![EffectView::Submit(SubmissionView::Text(text))])
    }
}

/// What a swipe does. Its beginning releases every latched button and the
/// active key's button, forgets them, and asks the text input to release
/// all keys and modifiers; its end submits the recognized word followed by
/// a space (gesture recognition is not available: the word is empty).
pub open spec fn swiped(st: KeyboardView, swipe_action: SwipeAction) -> (KeyboardView, Seq<EffectView>) {
    match swipe_action {
        SwipeAction::Begin => (
            KeyboardView { latched_keys: Seq::empty(), active_key: None, ..st },
            release_all(st.layout_of_active_key, st.view_of_active_key, st.latched_keys) + (
            match st.active_key {
                Some(k) => seq![
                    EffectView::ButtonInteraction(
                        st.layout_of_active_key,
                        st.view_of_active_key,
                        k.id,
                        TapMotion::Release,
                    ),
                ],
                None => Seq::empty(),
            }) + seq![EffectView::ReleaseAllKeysAndModifiers],
        ),
        SwipeAction::Update => (st, Seq::empty()),
        SwipeAction::Finish => text_submitted(st, Seq::empty(), true),
    }
}

/// What an interaction does.
pub open spec fn interacted(st: KeyboardView, interaction: Interaction, closest: Option<KeyView>) -> (
    KeyboardView,
    Seq<EffectView>,
) {
    match interaction {
        Interaction::Tap(_, _) => tapped(st, interaction, closest),
        Interaction::Swipe(a) => swiped(st, a),
    }
}

/// The layout and view the keyboard starts with: the layout named after the
/// language, if there is one, else the fallback layout; its base view.
pub open spec fn start_layout_view(names: Seq<Seq<char>>, locale_language: Seq<char>) -> (
    Seq<char>,
    Seq<char>,
) {
    if names.contains(locale_language) {
        (locale_language, fallback_view_name())
    } else {
        (fallback_layout_name(), fallback_view_name())
    }
}

/// A copy of an optional string.
fn duplicate_opt(o: &Option<String>) -> (r: Option<String>)
    ensures
        opt_view(r) == opt_view(*o),
{
    match o {
        Some(s) => Some(s.clone()),
        None => None,
    }
}

proof fn lemma_effects_push(v: Seq<KeyboardEffect>, e: KeyboardEffect)
    ensures
        effects_view(v.push(e)) == effects_view(v).push(e@),
{
    assert(effects_view(v.push(e)) =~= effects_view(v).push(e@));
}

impl Keyboard {
    /// A keyboard for the layouts of the map, starting in the layout named
    /// after the language if there is one, else in the fallback layout, in
    /// its base view; no key is active or latched.
    pub fn from(layout_meta_hashmap: &StrMap<LayoutMeta>, locale_language: &String) -> (r: Keyboard)
        ensures
            r@ == (KeyboardView {
                active_view: start_layout_view(layout_meta_hashmap.keys_seq(), locale_language@),
                latched_keys: Seq::empty(),
                active_key: None,
                layout_of_active_key: start_layout_view(
                    layout_meta_hashmap.keys_seq(),
                    locale_language@,
                ).0,
                view_of_active_key: start_layout_view(
                    layout_meta_hashmap.keys_seq(),
                    locale_language@,
                ).1,
                next_layout: None,
                next_view: None,
                decoder: fresh_decoder(),
            }),
    {
        let n = layout_meta_hashmap.len();
        let mut layout_names: Vec<String> = Vec::new();
        let mut i: usize = 0;
        while i < n
            invariant
                n == layout_meta_hashmap.keys_seq().len(),
                i <= n,
                string_views(layout_names@) == layout_meta_hashmap.keys_seq().take(i as int),
            decreases n - i,
        {
            let ghost before = layout_names@;
            layout_names.push(layout_meta_hashmap.key_at(i).clone());
            assert(string_views(layout_names@) =~= string_views(before).push(
                layout_meta_hashmap.keys_seq()[i as int],
            ));
            assert(layout_meta_hashmap.keys_seq().take(i + 1) =~= layout_meta_hashmap.keys_seq().take(
                i as int,
            ).push(layout_meta_hashmap.keys_seq()[i as int]));
            i = i + 1;
        }
        assert(layout_meta_hashmap.keys_seq().take(n as int) =~= layout_meta_hashmap.keys_seq());
        let active_view = Keyboard::get_start_layout_view(&layout_names, locale_language);
        let layout_of_active_key = active_view.0.clone();
        let view_of_active_key = active_view.1.clone();
        let decoder = Decoder::new();
        let r = Keyboard {
            active_view,
            latched_keys: Vec::new(),
            active_key: None,
            layout_of_active_key,
            view_of_active_key,
            next_layout: None,
            next_view: None,
            decoder,
        };
        assert(r@.latched_keys =~= Seq::<Seq<char>>::empty());
        r
    }

    /// Selects the layout named after the language if it is available, else
    /// the fallback layout; the view is the base view.
    pub fn get_start_layout_view(available_layout_names: &Vec<String>, locale_language: &String) -> (r: (
        String,
        String,
    ))
        ensures
            (r.0@, r.1@) == start_layout_view(string_views(available_layout_names@), locale_language@),
    {
        let start_view = fallback_view_name_string();
        let mut i: usize = 0;
        while i < available_layout_names.len()
            invariant
                i <= available_layout_names.len(),
                start_view@ == fallback_view_name(),
                forall|j: int| 0 <= j < i ==> (#[trigger] available_layout_names@[j])@ != locale_language@,
            decreases available_layout_names.len() - i,
        {
            if available_layout_names[i] == *locale_language {
                assert(string_views(available_layout_names@)[i as int] == locale_language@);
                return (locale_language.clone(), start_view);
            }
            i = i + 1;
        }
        assert(!string_views(available_layout_names@).contains(locale_language@)) by {
            if string_views(available_layout_names@).contains(locale_language@) {
                let j = choose|j: int|
                    0 <= j < available_layout_names@.len() && string_views(available_layout_names@)[j]
                        == locale_language@;
                assert((available_layout_names@[j])@ == locale_language@);
            }
        }
        (fallback_layout_name_string(), start_view)
    }
}


/// Appends a submission effect for each submission.
fn push_submissions(effects: &mut Vec<KeyboardEffect>, subs: Vec<Submission>)
    ensures
        effects_view(final(effects)@) == effects_view(old(effects)@) + submit_all(
            crate::submission::submissions_view(subs@),
        ),
{
    let ghost start = effects_view(effects@);
    let ghost sv = crate::submission::submissions_view(subs@);
    let mut i: usize = 0;
    assert(sv.take(0) =~= Seq::<SubmissionView>::empty());
    assert(start + submit_all(sv.take(0)) =~= start);
    while i < subs.len()
        invariant
            sv == crate::submission::submissions_view(subs@),
            i <= subs.len(),
            effects_view(effects@) == start + submit_all(sv.take(i as int)),
        decreases subs.len() - i,
    {
        let e = KeyboardEffect::Submit(subs[i].duplicate());
        proof {
            lemma_effects_push(effects@, e);
            assert(sv.take(i + 1).drop_last() =~= sv.take(i as int));
            assert(sv.take(i + 1).last() == sv[i as int]);
            assert(start + submit_all(sv.take(i as int)).push(e@) =~= (start + submit_all(
                sv.take(i as int),
            )).push(e@));
        }
        effects.push(e);
        i = i + 1;
    }
    assert(sv.take(i as int) =~= sv);
}

/// Appends one effect.
fn push_effect(effects: &mut Vec<KeyboardEffect>, e: KeyboardEffect)
    ensures
        effects_view(final(effects)@) == effects_view(old(effects)@).push(e@),
{
    proof {
        lemma_effects_push(effects@, e);
    }
    effects.push(e);
}

impl Keyboard {
    fn latched_contains(&self, key_id: &String) -> (r: bool)
        ensures
            r == self@.latched_keys.contains(key_id@),
    {
        let mut i: usize = 0;
        while i < self.latched_keys.len()
            invariant
                i <= self.latched_keys.len(),
                forall|j: int| 0 <= j < i ==> (#[trigger] self.latched_keys@[j])@ != key_id@,
            decreases self.latched_keys.len() - i,
        {
            if self.latched_keys[i] == *key_id {
                assert(self@.latched_keys[i as int] == key_id@);
                return true;
            }
            i = i + 1;
        }
        assert(!self@.latched_keys.contains(key_id@)) by {
            if self@.latched_keys.contains(key_id@) {
                let j = choose|j: int|
                    0 <= j < self@.latched_keys.len() && self@.latched_keys[j] == key_id@;
                assert(self.latched_keys@[j]@ == key_id@);
            }
        }
        false
    }

    /// Latches the key if it is not latched, releases the latch if it is.
    fn toggle_latched(&mut self, key_id: &String)
        ensures
            final(self)@ == (KeyboardView {
                latched_keys: toggled(old(self)@.latched_keys, key_id@),
                ..old(self)@
            }),
    {
        if self.latched_contains(key_id) {
            let mut kept: Vec<String> = Vec::new();
            let ghost old_l = self@.latched_keys;
            let mut i: usize = 0;
            assert(old_l.take(0) =~= Seq::<Seq<char>>::empty());
            while i < self.latched_keys.len()
                invariant
                    old_l == string_views(self.latched_keys@),
                    i <= self.latched_keys.len(),
                    string_views(kept@) == without(old_l.take(i as int), key_id@),
                decreases self.latched_keys.len() - i,
            {
                let ghost before = kept@;
                assert(old_l.take(i + 1).drop_last() =~= old_l.take(i as int));
                assert(old_l.take(i + 1).last() == self.latched_keys@[i as int]@);
                if self.latched_keys[i] != *key_id {
                    kept.push(self.latched_keys[i].clone());
                    assert(string_views(kept@) =~= string_views(before) + seq![
                        self.latched_keys@[i as int]@,
                    ]);
                } else {
                    assert(string_views(kept@) =~= string_views(before) + Seq::<Seq<char>>::empty());
                }
                i = i + 1;
            }
            assert(old_l.take(i as int) =~= old_l);
            self.latched_keys = kept;
        } else {
            let ghost before = self.latched_keys@;
            self.latched_keys.push(key_id.clone());
            assert(string_views(self.latched_keys@) =~= string_views(before).push(key_id@));
        }
    }

    /// Asks the user interface to switch layout and/or view; a temporary
    /// switch remembers the active layout and view to return to.
    fn switch_layout(
        &mut self,
        new_layout: Option<String>,
        new_view: Option<String>,
        temporary: bool,
        effects: &mut Vec<KeyboardEffect>,
    )
        ensures
            final(self)@ == switched(old(self)@, opt_view(new_layout), opt_view(new_view), temporary).0,
            effects_view(final(effects)@) == effects_view(old(effects)@) + switched(
                old(self)@,
                opt_view(new_layout),
                opt_view(new_view),
                temporary,
            ).1,
    {
        if temporary {
            self.next_layout = Some(self.active_view.0.clone());
            self.next_view = Some(self.active_view.1.clone());
        }
        let ghost before = effects_view(effects@);
        let e = KeyboardEffect::ChangeUILayoutView(new_layout, new_view);
        push_effect(effects, e);
        assert(before.push(e@) =~= before + seq![e@]);
    }

    /// Returns from a temporary switch, if one is remembered.
    fn switch_back_to_prev_view(&mut self, effects: &mut Vec<KeyboardEffect>)
        ensures
            final(self)@ == switched_back(old(self)@).0,
            effects_view(final(effects)@) == effects_view(old(effects)@) + switched_back(old(self)@).1,
    {
        let ghost before = effects_view(effects@);
        if self.next_layout.is_some() || self.next_view.is_some() {
            let e = KeyboardEffect::ChangeUILayoutView(
                duplicate_opt(&self.next_layout),
                duplicate_opt(&self.next_view),
            );
            push_effect(effects, e);
            assert(before.push(e@) =~= before + seq![e@]);
            self.next_layout = None;
            self.next_view = None;
        } else {
            assert(before =~= before + Seq::<EffectView>::empty());
        }
    }

    /// Runs one action of the key `key_id`.
    fn run_action(&mut self, key_id: &String, action: &KeyAction, effects: &mut Vec<KeyboardEffect>)
        ensures
            final(self)@ == run_action(old(self)@, key_id@, action@).0,
            effects_view(final(effects)@) == effects_view(old(effects)@) + run_action(
                old(self)@,
                key_id@,
                action@,
            ).1,
    {
        let ghost before = effects_view(effects@);
        match action {
            KeyAction::FeedbackPressRelease(press) => {
                if *press {
                    let e = KeyboardEffect::ButtonInteraction(
                        self.layout_of_active_key.clone(),
                        self.view_of_active_key.clone(),
                        key_id.clone(),
                        TapMotion::Press,
                    );
                    push_effect(effects, e);
                    assert(before.push(e@) =~= before + seq![e@]);
                } else if !self.latched_contains(key_id) {
                    let e = KeyboardEffect::ButtonInteraction(
                        self.layout_of_active_key.clone(),
                        self.view_of_active_key.clone(),
                        key_id.clone(),
                        TapMotion::Release,
                    );
                    push_effect(effects, e);
                    assert(before.push(e@) =~= before + seq![e@]);
                } else {
                    assert(before =~= before + Seq::<EffectView>::empty());
                }
            },
            KeyAction::EnterKeycode(keycode) => {
                let e = KeyboardEffect::Submit(Submission::Keycode(*keycode));
                push_effect(effects, e);
                assert(before.push(e@) =~= before + seq![e@]);
            },
            KeyAction::ToggleKeycode(keycode) => {
                let e = KeyboardEffect::Submit(Submission::ToggleKeycode(*keycode));
                push_effect(effects, e);
                assert(before.push(e@) =~= before + seq![e@]);
            },
            KeyAction::EnterString(text) => {
                let decoded_submissions = self.decoder.decode_text(text.clone());
                push_submissions(effects, decoded_submissions);
            },
            KeyAction::Modifier(modifier) => {
                self.toggle_latched(key_id);
                let e = KeyboardEffect::Submit(Submission::Modifier(*modifier));
                push_effect(effects, e);
                assert(before.push(e@) =~= before + seq![e@]);
            },
            KeyAction::Erase => {
                let e = KeyboardEffect::Submit(Submission::Erase(1));
                push_effect(effects, e);
                assert(before.push(e@) =~= before + seq![e@]);
            },
            KeyAction::SwitchView(new_view) => {
                self.switch_layout(None, Some(new_view.clone()), false, effects);
            },
            KeyAction::TempSwitchView(new_view) => {
                self.switch_layout(None, Some(new_view.clone()), true, effects);
            },
            KeyAction::SwitchLayout(new_layout) => {
                self.switch_layout(Some(new_layout.clone()), None, false, effects);
            },
            KeyAction::TempSwitchLayout(new_layout) => {
                self.switch_layout(Some(new_layout.clone()), None, true, effects);
            },
            KeyAction::OpenPopup => {
                let e = KeyboardEffect::OpenPopup(key_id.clone());
                push_effect(effects, e);
                assert(before.push(e@) =~= before + seq![e@]);
            },
        }
    }

    /// Executes the actions the key causes when it is tapped, after
    /// returning from a temporary switch.
    fn execute_tap_actions(
        &mut self,
        key: &Key,
        interaction: Interaction,
        effects: &mut Vec<KeyboardEffect>,
    )
        ensures
            final(self)@ == tap_result(old(self)@, key@, interaction).0,
            effects_view(final(effects)@) == effects_view(old(effects)@) + tap_result(
                old(self)@,
                key@,
                interaction,
            ).1,
    {
        let ghost start = effects_view(effects@);
        self.switch_back_to_prev_view(effects);
        let ghost s1 = self@;
        let ghost mid = effects_view(effects@);
        let key_id = key.get_id();
        if let Some(action_vec) = key.get_actions(interaction) {
            let ghost acts = actions_view(action_vec@);
            let mut j: usize = 0;
            assert(acts.take(0) =~= Seq::<KeyActionView>::empty());
            assert(mid + run_actions(s1, key_id@, acts.take(0)).1 =~= mid);
            while j < action_vec.len()
                invariant
                    acts == actions_view(action_vec@),
                    j <= action_vec.len(),
                    self@ == run_actions(s1, key_id@, acts.take(j as int)).0,
                    effects_view(effects@) == mid + run_actions(s1, key_id@, acts.take(j as int)).1,
                decreases action_vec.len() - j,
            {
                let ghost e_before = effects_view(effects@);
                let ghost part = run_actions(s1, key_id@, acts.take(j as int));
                self.run_action(&key_id, &action_vec[j], effects);
                proof {
                    assert(acts.take(j + 1).drop_last() =~= acts.take(j as int));
                    assert(acts.take(j + 1).last() == action_vec@[j as int]@);
                    let step = run_action(part.0, key_id@, action_vec@[j as int]@);
                    assert(mid + (part.1 + step.1) =~= (mid + part.1) + step.1);
                }
                j = j + 1;
            }
            assert(acts.take(j as int) =~= acts);
            assert(start + (switched_back(old(self)@).1 + run_actions(s1, key_id@, acts).1) =~= (start
                + switched_back(old(self)@).1) + run_actions(s1, key_id@, acts).1);
        }
    }

    /// Handles a tap: a short press looks up the key closest to it (handed
    /// in as `closest_key`, `None` when no key is close enough) and makes it
    /// the active key; every tap then acts on the active key.
    fn handle_tap(
        &mut self,
        interaction: Interaction,
        closest_key: Option<Key>,
        effects: &mut Vec<KeyboardEffect>,
    )
        ensures
            final(self)@ == tapped(
                old(self)@,
                interaction,
                match closest_key {
                    Some(k) => Some(k@),
                    None => None,
                },
            ).0,
            effects_view(final(effects)@) == effects_view(old(effects)@) + tapped(
                old(self)@,
                interaction,
                match closest_key {
                    Some(k) => Some(k@),
                    None => None,
                },
            ).1,
    {
        if interaction == Interaction::Tap(TapDuration::Short, TapMotion::Press) {
            self.active_key = closest_key;
            self.layout_of_active_key = self.active_view.0.clone();
            self.view_of_active_key = self.active_view.1.clone();
        }
        let key = match &self.active_key {
            Some(k) => Some(k.duplicate()),
            None => None,
        };
        match key {
            Some(key) => {
                self.execute_tap_actions(&key, interaction, effects);
            },
            None => {
                assert(effects_view(effects@) =~= effects_view(effects@) + Seq::<EffectView>::empty());
            },
        }
    }

    /// Handles a swipe: its beginning releases all buttons and keys, its
    /// end submits the recognized word with a space.
    fn handle_swipe(&mut self, swipe_action: SwipeAction, effects: &mut Vec<KeyboardEffect>)
        ensures
            final(self)@ == swiped(old(self)@, swipe_action).0,
            effects_view(final(effects)@) == effects_view(old(effects)@) + swiped(
                old(self)@,
                swipe_action,
            ).1,
    {
        let ghost start = effects_view(effects@);
        match swipe_action {
            SwipeAction::Begin => {
                let layout_of_active_key = self.layout_of_active_key.clone();
                let view_of_active_key = self.view_of_active_key.clone();
                let ghost lv = self@.latched_keys;
                let mut i: usize = 0;
                assert(lv.take(0) =~= Seq::<Seq<char>>::empty());
                assert(start + release_all(layout_of_active_key@, view_of_active_key@, lv.take(0))
                    =~= start);
                while i < self.latched_keys.len()
                    invariant
                        lv == string_views(self.latched_keys@),
                        i <= self.latched_keys.len(),
                        effects_view(effects@) == start + release_all(
                            layout_of_active_key@,
                            view_of_active_key@,
                            lv.take(i as int),
                        ),
                    decreases self.latched_keys.len() - i,
                {
                    let e = KeyboardEffect::ButtonInteraction(
                        layout_of_active_key.clone(),
                        view_of_active_key.clone(),
                        self.latched_keys[i].clone(),
                        TapMotion::Release,
                    );
                    let ghost prev = effects_view(effects@);
                    push_effect(effects, e);
                    proof {
                        assert(lv.take(i + 1).drop_last() =~= lv.take(i as int));
                        assert(lv.take(i + 1).last() == lv[i as int]);
                        assert(start + release_all(
                            layout_of_active_key@,
                            view_of_active_key@,
                            lv.take(i as int),
                        ).push(e@) =~= prev.push(e@));
                    }
                    i = i + 1;
                }
                assert(lv.take(i as int) =~= lv);
                self.latched_keys = Vec::new();
                let ghost after_latched = effects_view(effects@);
                match &self.active_key {
                    Some(active_key) => {
                        let e = KeyboardEffect::ButtonInteraction(
                            layout_of_active_key,
                            view_of_active_key,
                            active_key.get_id(),
                            TapMotion::Release,
                        );
                        push_effect(effects, e);
                        assert(after_latched.push(e@) =~= after_latched + seq![e@]);
                    },
                    None => {
                        assert(after_latched =~= after_latched + Seq::<EffectView>::empty());
                    },
                }
                self.active_key = None;
                let ghost mid = effects_view(effects@);
                push_effect(effects, KeyboardEffect::ReleaseAllKeysAndModifiers);
                assert(self@.latched_keys =~= Seq::<Seq<char>>::empty());
                let ghost rel = release_all(old(self)@.layout_of_active_key, old(self)@.view_of_active_key, lv);
                let ghost act = match old(self)@.active_key {
                    Some(k) => seq![
                        EffectView::ButtonInteraction(
                            old(self)@.layout_of_active_key,
                            old(self)@.view_of_active_key,
                            k.id,
                            TapMotion::Release,
                        ),
                    ],
                    None => Seq::empty(),
                };
                assert(mid.push(EffectView::ReleaseAllKeysAndModifiers) =~= start + (rel + act
                    + seq![EffectView::ReleaseAllKeysAndModifiers]));
            },
            SwipeAction::Update => {
                self.decoder.decode_gesture();
                assert(start =~= start + Seq::<EffectView>::empty());
            },
            SwipeAction::Finish => {
                let text = self.decoder.get_gesture_result();
                self.submit_text_into(text, true, effects);
            },
        }
    }

    fn submit_text_into(&mut self, text: String, append_space: bool, effects: &mut Vec<KeyboardEffect>)
        ensures
            final(self)@ == text_submitted(old(self)@, text@, append_space).0,
            effects_view(final(effects)@) == effects_view(old(effects)@) + text_submitted(
                old(self)@,
                text@,
                append_space,
            ).1,
    {
        let ghost start = effects_view(effects@);
        let e = KeyboardEffect::Submit(Submission::Text(text));
        push_effect(effects, e);
        if append_space {
            let decoded_submissions = self.decoder.decode_text(" ".to_string());
            let ghost d = crate::submission::submissions_view(decoded_submissions@);
            push_submissions(effects, decoded_submissions);
            assert(start.push(e@) + submit_all(d) =~= start + (seq![e@] + submit_all(d)));
        } else {
            assert(start.push(e@) =~= start + seq![e@]);
        }
    }

    /// Handles a new user interaction and returns what the user interface
    /// and the text input have to do. `closest_key` is the key closest to
    /// where the interaction happened (`None` if every key is too far away);
    /// it is looked at for a short press only.
    pub fn input(&mut self, interaction: Interaction, closest_key: Option<Key>) -> (r: Vec<
        KeyboardEffect,
    >)
        ensures
            (final(self)@, effects_view(r@)) == interacted(
                old(self)@,
                interaction,
                match closest_key {
                    Some(k) => Some(k@),
                    None => None,
                },
            ),
    {
        let mut effects: Vec<KeyboardEffect> = Vec::new();
        assert(effects_view(effects@) =~= Seq::<EffectView>::empty());
        match interaction {
            Interaction::Tap(_, _) => {
                self.handle_tap(interaction, closest_key, &mut effects);
            },
            Interaction::Swipe(swipe_action) => {
                self.handle_swipe(swipe_action, &mut effects);
            },
        }
        assert(Seq::<EffectView>::empty() + effects_view(effects@) =~= effects_view(effects@));
        effects
    }

    /// Submits the text, followed by a space that goes through the decoder
    /// if `append_space` is set.
    pub fn submit_text(&mut self, text: String, append_space: bool) -> (r: Vec<KeyboardEffect>)
        ensures
            (final(self)@, effects_view(r@)) == text_submitted(old(self)@, text@, append_space),
    {
        let mut effects: Vec<KeyboardEffect> = Vec::new();
        assert(effects_view(effects@) =~= Seq::<EffectView>::empty());
        self.submit_text_into(text, append_space, &mut effects);
        assert(Seq::<EffectView>::empty() + effects_view(effects@) =~= effects_view(effects@));
        effects
    }

    /// Takes in the latest report of the text around the cursor.
    pub fn update_surrounding_text(&mut self, latest: Option<(String, String)>)
        ensures
            final(self)@.decoder == match latest {
                Some((left, right)) => DecoderView {
                    text_left_of_cursor: left@,
                    text_right_of_cursor: right@,
                    ..old(self)@.decoder
                },
                None => old(self)@.decoder,
            },
            final(self)@ == (KeyboardView { decoder: final(self)@.decoder, ..old(self)@ }),
    {
        self.decoder.update_surrounding_text(latest);
    }

    /// The state of the keyboard's decoder.
    pub fn decoder(&self) -> (r: &Decoder)
        ensures
            r@ == self@.decoder,
    {
        &self.decoder
    }
}

} // verus!

verus! {

proof fn lemma_without(s: Seq<Seq<char>>, k: Seq<char>)
    ensures
        forall|x: Seq<char>| #[trigger] without(s, k).contains(x) <==> (s.contains(x) && x != k),
        !s.contains(k) ==> without(s, k) == s,
    decreases s.len(),
{
    if s.len() > 0 {
        let p = s.drop_last();
        lemma_without(p, k);
        let w = without(s, k);
        assert forall|x: Seq<char>| #[trigger] w.contains(x) <==> (s.contains(x) && x != k) by {
            if w.contains(x) {
                let i = choose|i: int| 0 <= i < w.len() && w[i] == x;
                if i < without(p, k).len() {
                    assert(without(p, k)[i] == x);
                    assert(without(p, k).contains(x));
                    let j = choose|j: int| 0 <= j < p.len() && p[j] == x;
                    assert(s[j] == x);
                } else {
                    assert(x == s.last());
                    assert(s[s.len() - 1] == x);
                }
            }
            if s.contains(x) && x != k {
                let j = choose|j: int| 0 <= j < s.len() && s[j] == x;
                if j < p.len() {
                    assert(p[j] == x);
                    assert(p.contains(x));
                    assert(without(p, k).contains(x));
                    let i = choose|i: int| 0 <= i < without(p, k).len() && without(p, k)[i] == x;
                    assert(w[i] == x);
                } else {
                    assert(w[w.len() - 1] == x);
                }
            }
        }
        if !s.contains(k) {
            assert(!p.contains(k)) by {
                if p.contains(k) {
                    let j = choose|j: int| 0 <= j < p.len() && p[j] == k;
                    assert(s[j] == k);
                }
            }
            assert(s.last() != k) by {
                assert(s[s.len() - 1] == s.last());
            }
            assert(w =~= s);
        }
    }
}

/// Activating a modifier key twice leaves the latched keys as they were
/// (as a set): the first activation latches it if it was not latched
/// (releases the latch if it was), the second undoes that.
pub proof fn lemma_modifier_twice_restores_latches(latched: Seq<Seq<char>>, k: Seq<char>)
    ensures
        forall|x: Seq<char>| #[trigger] toggled(toggled(latched, k), k).contains(x) <==> latched.contains(x),
        toggled(latched, k).contains(k) != latched.contains(k),
{
    lemma_without(latched, k);
    if latched.contains(k) {
        let w = without(latched, k);
        assert(!w.contains(k));
        let q = w.push(k);
        assert(q.contains(k)) by {
            assert(q[w.len() as int] == k);
        }
        assert(toggled(latched, k) == w);
        assert(toggled(w, k) == q);
        assert forall|x: Seq<char>| #[trigger] toggled(toggled(latched, k), k).contains(x) <==> latched.contains(x) by {
            if q.contains(x) && x != k {
                let i = choose|i: int| 0 <= i < q.len() && q[i] == x;
                assert(w[i] == x);
                assert(w.contains(x));
            }
            if latched.contains(x) && x != k {
                assert(w.contains(x));
                let i = choose|i: int| 0 <= i < w.len() && w[i] == x;
                assert(q[i] == x);
            }
        }
    } else {
        let p = latched.push(k);
        assert(p.contains(k)) by {
            assert(p[latched.len() as int] == k);
        }
        lemma_without(p, k);
        assert(toggled(latched, k) == p);
        assert(toggled(p, k) == without(p, k));
        assert forall|x: Seq<char>| #[trigger] toggled(toggled(latched, k), k).contains(x) <==> latched.contains(x) by {
            if without(p, k).contains(x) {
                assert(p.contains(x) && x != k);
                let i = choose|i: int| 0 <= i < p.len() && p[i] == x;
                assert(latched[i] == x);
            }
            if latched.contains(x) {
                let i = choose|i: int| 0 <= i < latched.len() && latched[i] == x;
                assert(p[i] == x);
                assert(p.contains(x));
                assert(x != k);
                assert(without(p, k).contains(x));
            }
        }
    }
}

/// A temporary switch is undone by the next tap: after it, returning from
/// the switch asks the user interface for the layout and view that were
/// active when the switch was made, and forgets them.
pub proof fn lemma_temporary_switch_returns(
    st: KeyboardView,
    layout: Option<Seq<char>>,
    view: Option<Seq<char>>,
)
    ensures
        switched_back(switched(st, layout, view, true).0).1 == seq![
            EffectView::ChangeUILayoutView(Some(st.active_view.0), Some(st.active_view.1)),
        ],
        switched_back(switched(st, layout, view, true).0).0.next_layout is None,
        switched_back(switched(st, layout, view, true).0).0.next_view is None,
{
}

/// Returning from a temporary switch a second time does nothing.
pub proof fn lemma_switch_back_once(st: KeyboardView)
    ensures
        switched_back(switched_back(st).0) == (switched_back(st).0, Seq::<EffectView>::empty()),
{
}

/// The beginning of a swipe leaves no key latched and no key active.
pub proof fn lemma_swipe_begin_clears(st: KeyboardView)
    ensures
        swiped(st, SwipeAction::Begin).0.latched_keys.len() == 0,
        swiped(st, SwipeAction::Begin).0.active_key is None,
        swiped(st, SwipeAction::Begin).1.last() == EffectView::ReleaseAllKeysAndModifiers,
{
}

/// A tap on a key whose action is a temporary switch of view asks the user
/// interface for that view and remembers the layout and view shown; the
/// next tap on a key, whatever it is, first asks to switch back to them.
pub proof fn lemma_temporary_view_switch_two_steps(
    st: KeyboardView,
    key: KeyView,
    interaction: Interaction,
    v: Seq<char>,
    key2: KeyView,
    interaction2: Interaction,
)
    requires
        interaction is Tap,
        interaction2 is Tap,
        st.active_key == Some(key),
        st.next_layout is None,
        st.next_view is None,
        key.actions.contains_key(interaction),
        key.actions[interaction] == seq![KeyActionView::TempSwitchView(v)],
    ensures
        ({
            let (s1, e1) = interacted(st, interaction, Some(key));
            &&& e1 == seq![EffectView::ChangeUILayoutView(None, Some(v))]
            &&& s1.active_view == st.active_view
            &&& s1.next_layout == Some(st.active_view.0)
            &&& s1.next_view == Some(st.active_view.1)
            &&& interacted(s1, interaction2, Some(key2)).1.len() >= 1
            &&& interacted(s1, interaction2, Some(key2)).1[0] == EffectView::ChangeUILayoutView(
                Some(st.active_view.0),
                Some(st.active_view.1),
            )
            &&& switched_back(s1).0.next_layout is None
            &&& switched_back(s1).0.next_view is None
        }),
{
    reveal_with_fuel(run_actions, 2);
    let (s1, e1) = interacted(st, interaction, Some(key));
    let t = tapped(st, interaction, Some(key));
    assert(s1 == t.0 && e1 == t.1);
    let s0 = if interaction == Interaction::Tap(TapDuration::Short, TapMotion::Press) {
        KeyboardView {
            active_key: Some(key),
            layout_of_active_key: st.active_view.0,
            view_of_active_key: st.active_view.1,
            ..st
        }
    } else {
        st
    };
    assert(switched_back(s0) == (s0, Seq::<EffectView>::empty()));
    let r = run_actions(s0, key.id, seq![KeyActionView::TempSwitchView(v)]);
    assert(seq![KeyActionView::TempSwitchView(v)].drop_last() =~= Seq::<KeyActionView>::empty());
    assert(r == switched(s0, None, Some(v), true)) by {
        assert(run_actions(s0, key.id, Seq::<KeyActionView>::empty()) == (s0, Seq::<EffectView>::empty()));
        assert(Seq::<EffectView>::empty() + seq![EffectView::ChangeUILayoutView(None, Some(v))]
            =~= seq![EffectView::ChangeUILayoutView(None, Some(v))]);
    }
    assert(Seq::<EffectView>::empty() + r.1 =~= r.1);
    let u = tapped(s1, interaction2, Some(key2));
    let s2 = if interaction2 == Interaction::Tap(TapDuration::Short, TapMotion::Press) {
        KeyboardView {
            active_key: Some(key2),
            layout_of_active_key: s1.active_view.0,
            view_of_active_key: s1.active_view.1,
            ..s1
        }
    } else {
        s1
    };
    assert(s2.active_key is Some);
    let back = switched_back(s2);
    assert(back.1 == seq![EffectView::ChangeUILayoutView(Some(st.active_view.0), Some(st.active_view.1))]);
    let k2 = s2.active_key->0;
    if k2.actions.contains_key(interaction2) {
        let (x, ex) = run_actions(back.0, k2.id, k2.actions[interaction2]);
        assert((back.1 + ex)[0] == back.1[0]);
    }
}

/// A permanent switch of view or layout asks the user interface for it and
/// remembers nothing to switch back to: the state is left as it was. A
/// temporary switch asks for it too and remembers the layout and view shown.
pub proof fn lemma_permanent_switch_remembers_nothing(
    st: KeyboardView,
    key_id: Seq<char>,
    target: Seq<char>,
)
    ensures
        run_action(st, key_id, KeyActionView::SwitchView(target)) == (
            st,
            seq![EffectView::ChangeUILayoutView(None, Some(target))],
        ),
        run_action(st, key_id, KeyActionView::SwitchLayout(target)) == (
            st,
            seq![EffectView::ChangeUILayoutView(Some(target), None)],
        ),
        run_action(st, key_id, KeyActionView::TempSwitchView(target)).0.next_layout == Some(
            st.active_view.0,
        ),
        run_action(st, key_id, KeyActionView::TempSwitchView(target)).0.next_view == Some(
            st.active_view.1,
        ),
        run_action(st, key_id, KeyActionView::TempSwitchLayout(target)).0.next_layout == Some(
            st.active_view.0,
        ),
        run_action(st, key_id, KeyActionView::TempSwitchLayout(target)).0.next_view == Some(
            st.active_view.1,
        ),
        st.next_layout is None && st.next_view is None ==> switched_back(
            run_action(st, key_id, KeyActionView::SwitchView(target)).0,
        ).1 == Seq::<EffectView>::empty(),
        st.next_layout is None && st.next_view is None ==> switched_back(
            run_action(st, key_id, KeyActionView::SwitchLayout(target)).0,
        ).1 == Seq::<EffectView>::empty(),
{
}

} // verus!
