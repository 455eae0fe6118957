//! A key: its id and the actions each interaction with it causes.
use vstd::prelude::*;
use crate::action_map::ActionMap;
use crate::deserialized::{actions_view, KeyAction, KeyActionView};
use crate::interaction::{Interaction, TapDuration, TapMotion};
use crate::key_meta::KeyMeta;

verus! {

/// A key stores all actions that are executed when it is interacted with,
/// and its id.
pub struct Key {
    id: String,
    actions: ActionMap,
}

/// A key, by its id and its map of actions.
pub struct KeyView {
    pub id: Seq<char>,
    pub actions: Map<Interaction, Seq<KeyActionView>>,
}

impl View for Key {
    type V = KeyView;

    closed spec fn view(&self) -> KeyView {
        KeyView { id: self.id@, actions: self.actions@ }
    }
}

/// `m` with the feedback action for the tap of duration `d` and motion `mo`
/// appended to the tap's actions (the tap gets an entry if it had none).
pub open spec fn with_tap_feedback(
    m: Map<Interaction, Seq<KeyActionView>>,
    d: TapDuration,
    mo: TapMotion,
) -> Map<Interaction, Seq<KeyActionView>> {
    m.insert(
        Interaction::Tap(d, mo),
        (if m.contains_key(Interaction::Tap(d, mo)) {
            m[Interaction::Tap(d, mo)]
        } else {
            Seq::empty()
        }).push(KeyActionView::FeedbackPressRelease(mo == TapMotion::Press)),
    )
}

/// `m` with feedback appended to every tap: a press gives press feedback, a
/// release gives release feedback.
pub open spec fn with_feedback(m: Map<Interaction, Seq<KeyActionView>>) -> Map<
    Interaction,
    Seq<KeyActionView>,
> {
    with_tap_feedback(
        with_tap_feedback(
            with_tap_feedback(
                with_tap_feedback(m, TapDuration::Short, TapMotion::Press),
                TapDuration::Short,
                TapMotion::Release,
            ),
            TapDuration::Long,
            TapMotion::Press,
        ),
        TapDuration::Long,
        TapMotion::Release,
    )
}

/// The key built from its information.
pub open spec fn key_of(key_name: Seq<char>, actions: Map<Interaction, Seq<KeyActionView>>) -> KeyView {
    KeyView { id: key_name, actions: with_feedback(actions) }
}

impl Key {
    /// Creates the key `key_name` from its information, adding feedback to
    /// every tap.
    pub fn from(key_name: &str, key_meta: &KeyMeta) -> (r: Key)
        ensures
            r@ == key_of(key_name@, key_meta.actions@),
    {
        let mut actions = key_meta.actions.duplicate();
        Key::add_feedback_actions(&mut actions);
        Key { id: key_name.to_string(), actions }
    }

    /// The id of the key.
    pub fn get_id(&self) -> (r: String)
        ensures
            r@ == self@.id,
    {
        self.id.clone()
    }

    /// The actions the interaction causes, if it causes any.
    pub fn get_actions(&self, interaction: Interaction) -> (r: Option<&Vec<KeyAction>>)
        ensures
            match r {
                Some(v) => self@.actions.contains_key(interaction) && actions_view(v@)
                    == self@.actions[interaction],
                None => !self@.actions.contains_key(interaction),
            },
    {
        self.actions.get(interaction)
    }

    /// A copy of the key.
    pub fn duplicate(&self) -> (r: Key)
        ensures
            r@ == self@,
    {
        Key { id: self.id.clone(), actions: self.actions.duplicate() }
    }

    /// Appends the feedback action to the actions of every tap: press
    /// feedback to presses, release feedback to releases.
    fn add_feedback_actions(actions: &mut ActionMap)
        ensures
            final(actions)@ == with_feedback(old(actions)@),
    {
        let durations = [TapDuration::Short, TapDuration::Long];
        let tap_motions = [TapMotion::Press, TapMotion::Release];
        let ghost start = old(actions)@;
        let mut i: usize = 0;
        while i < 2
            invariant
                durations@ == seq![TapDuration::Short, TapDuration::Long],
                tap_motions@ == seq![TapMotion::Press, TapMotion::Release],
                i <= 2,
                i == 0 ==> actions@ == start,
                i == 1 ==> actions@ == with_tap_feedback(
                    with_tap_feedback(start, TapDuration::Short, TapMotion::Press),
                    TapDuration::Short,
                    TapMotion::Release,
                ),
                i == 2 ==> actions@ == with_feedback(start),
            decreases 2 - i,
        {
            let duration = durations[i];
            let mut j: usize = 0;
            let ghost before = actions@;
            while j < 2
                invariant
                    tap_motions@ == seq![TapMotion::Press, TapMotion::Release],
                    j <= 2,
                    j == 0 ==> actions@ == before,
                    j == 1 ==> actions@ == with_tap_feedback(before, duration, TapMotion::Press),
                    j == 2 ==> actions@ == with_tap_feedback(
                        with_tap_feedback(before, duration, TapMotion::Press),
                        duration,
                        TapMotion::Release,
                    ),
                decreases 2 - j,
            {
                let tap_motion = tap_motions[j];
                let interaction = Interaction::Tap(duration, tap_motion);
                actions.push_action(
                    interaction,
                    KeyAction::FeedbackPressRelease(tap_motion == TapMotion::Press),
                );
                j = j + 1;
            }
            i = i + 1;
        }
    }
}

/// Every tap of a built key ends in feedback: the actions of a tap are those
/// its information gave (none if it gave none), followed by press feedback
/// for a press and release feedback for a release. Swipes are left as they
/// were.
pub proof fn lemma_taps_end_in_feedback(m: Map<Interaction, Seq<KeyActionView>>)
    ensures
        forall|d: TapDuration, mo: TapMotion|
            #![trigger with_feedback(m)[Interaction::Tap(d, mo)]]
            with_feedback(m).contains_key(Interaction::Tap(d, mo)) && with_feedback(m)[Interaction::Tap(
                d,
                mo,
            )] == (if m.contains_key(Interaction::Tap(d, mo)) {
                m[Interaction::Tap(d, mo)]
            } else {
                Seq::empty()
            }).push(KeyActionView::FeedbackPressRelease(mo == TapMotion::Press)),
        forall|i: Interaction|
            #![trigger with_feedback(m).contains_key(i)]
            i is Swipe ==> (with_feedback(m).contains_key(i) == m.contains_key(i) && (m.contains_key(i)
                ==> with_feedback(m)[i] == m[i])),
{
}

} // verus!
