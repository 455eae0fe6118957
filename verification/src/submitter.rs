//! Decides how a submission reaches the focused application: through the
//! input method where that is available and suited, else through the
//! virtual keyboard.
use vstd::prelude::*;
use crate::submission::{Submission, SubmissionView};
use crate::vk_service::{
    typing_requests, key_sent, modifier_bits, modifiers_sent, toggle_motion, KeyMotion, VKRequest, VKService,
    VKServiceView,
};

verus! {

/// The key code of the DELETE key, which erases a character through the
/// virtual keyboard.
pub const DELETE_KEYCODE: u32 = 111;

/// The requests that press and release a key `n` times.
pub open spec fn press_release_requests(keycode: u32, n: nat) -> Seq<VKRequest>
    decreases n,
{
    if n == 0 {
        Seq::empty()
    } else {
        press_release_requests(keycode, (n - 1) as nat).push(
            VKRequest::Key(keycode, KeyMotion::Press),
        ).push(VKRequest::Key(keycode, KeyMotion::Release))
    }
}

/// The state of the virtual keyboard after a key was pressed and released.
pub open spec fn pressed_and_released(st: VKServiceView, keycode: u32) -> VKServiceView {
    key_sent(key_sent(st, keycode, KeyMotion::Press), keycode, KeyMotion::Release)
}

/// The state of the virtual keyboard after a key was pressed and released
/// `n` times.
pub open spec fn erased(st: VKServiceView, n: nat) -> VKServiceView {
    if n == 0 {
        st
    } else {
        pressed_and_released(st, DELETE_KEYCODE)
    }
}

/// The state of the virtual keyboard, if the compositor offers one.
pub struct SubmitterView {
    pub virtual_keyboard: Option<VKServiceView>,
}

/// Hands submissions to the compositor. Text and erasures go through the
/// input method first: whoever drives the input method tells `submit`
/// whether that succeeded. Everything else, and what the input method could
/// not do, goes through the virtual keyboard, whose requests are appended
/// to `requests`.
pub struct Submitter {
    virtual_keyboard: Option<VKService>,
}

impl View for Submitter {
    type V = SubmitterView;

    closed spec fn view(&self) -> SubmitterView {
        SubmitterView {
            virtual_keyboard: match self.virtual_keyboard {
                Some(vk) => Some(vk@),
                None => None,
            },
        }
    }
}

/// Whether a submission is tried with the input method first.
pub open spec fn goes_to_input_method(s: SubmissionView) -> bool {
    s is Text || s is Erase
}

impl Submitter {
    /// A submitter with the virtual keyboard, if there is one.
    pub fn new(virtual_keyboard: Option<VKService>) -> (r: Submitter)
        ensures
            r@.virtual_keyboard == (match virtual_keyboard {
                Some(vk) => Some(vk@),
                None => None::<VKServiceView>,
            }),
    {
        Submitter { virtual_keyboard }
    }

    /// Whether the submission is tried with the input method first: text
    /// and erasures are.
    pub fn uses_input_method(submission: &Submission) -> (r: bool)
        ensures
            r == goes_to_input_method(submission@),
    {
        match submission {
            Submission::Text(_) => true,
            Submission::Erase(_) => true,
            _ => false,
        }
    }

    /// Releases every key and modifier of the virtual keyboard, if there is
    /// one. Returns whether that succeeded.
    pub fn release_all_keys_and_modifiers(&mut self, alive: bool, requests: &mut Vec<VKRequest>) -> (r:
        bool)
        ensures
            match old(self)@.virtual_keyboard {
                None => !r && final(self)@ == old(self)@ && final(requests)@ == old(requests)@,
                Some(vk) => (alive ==> r && final(self)@.virtual_keyboard is Some && final(self)@.virtual_keyboard->0.pressed_keys.is_empty() && final(self)@.virtual_keyboard->0.modifiers == 0 && exists|order: Seq<u32>|
                    order.no_duplicates() && order.to_set() == vk.pressed_keys
                        && final(requests)@ == old(requests)@
                        + crate::vk_service::release_requests(order).push(
                        VKRequest::Modifiers(0),
                    )) && (!alive ==> !r && final(self)@ == old(self)@ && final(requests)@ == old(requests)@),
            },
    {
        match &mut self.virtual_keyboard {
            Some(vk) => vk.release_all_keys_and_modifiers(alive, requests).is_ok(),
            None => false,
        }
    }

    /// Submits with the virtual keyboard what the input method did not.
    /// `input_method_done` says whether the input method already submitted
    /// the text or erasure; `alive` whether the virtual keyboard proxy is
    /// alive. Returns whether the submission was made. Text the input method
    /// did not submit is typed character by character; an erasure presses
    /// and releases DELETE once per character.
    pub fn submit(
        &mut self,
        submission: Submission,
        input_method_done: bool,
        alive: bool,
        requests: &mut Vec<VKRequest>,
    ) -> (r: bool)
        ensures
            match submission@ {
                SubmissionView::Text(t) => if input_method_done {
                    r && final(self)@ == old(self)@ && final(requests)@ == old(requests)@
                } else {
                    match old(self)@.virtual_keyboard {
                        None => !r && final(self)@ == old(self)@ && final(requests)@ == old(requests)@,
                        Some(vk) => final(self)@ == old(self)@ && if alive || t.len() == 0 {
                            r && final(requests)@ == old(requests)@ + typing_requests(t)
                        } else {
                            !r && final(requests)@ == old(requests)@
                        },
                    }
                },
                SubmissionView::Erase(n) => if input_method_done {
                    r && final(self)@ == old(self)@ && final(requests)@ == old(requests)@
                } else {
                    match old(self)@.virtual_keyboard {
                        None => !r && final(self)@ == old(self)@ && final(requests)@ == old(requests)@,
                        Some(vk) => if alive {
                            r && final(self)@.virtual_keyboard == Some(erased(vk, n as nat))
                                && final(requests)@ == old(requests)@ + press_release_requests(
                                DELETE_KEYCODE,
                                n as nat,
                            )
                        } else {
                            r == (n == 0) && final(self)@ == old(self)@ && final(requests)@ == old(requests)@
                        },
                    }
                },
                _ => match old(self)@.virtual_keyboard {
                    None => !r && final(self)@ == old(self)@ && final(requests)@ == old(requests)@,
                    Some(vk) => if alive {
                        r && match submission@ {
                            SubmissionView::Keycode(k) => final(self)@.virtual_keyboard == Some(
                                pressed_and_released(vk, k),
                            ) && final(requests)@ == old(requests)@ + press_release_requests(k, 1),
                            SubmissionView::ToggleKeycode(k) => final(self)@.virtual_keyboard
                                == Some(key_sent(vk, k, toggle_motion(vk, k))) && final(requests)@
                                == old(requests)@.push(VKRequest::Key(k, toggle_motion(vk, k))),
                            SubmissionView::Modifier(m) => final(self)@.virtual_keyboard == Some(
                                modifiers_sent(vk, vk.modifiers ^ modifier_bits(m)),
                            ) && final(requests)@ == old(requests)@.push(
                                VKRequest::Modifiers(vk.modifiers ^ modifier_bits(m)),
                            ),
                            _ => false,
                        }
                    } else {
                        !r && final(self)@ == old(self)@ && final(requests)@ == old(requests)@
                    },
                },
            },
    {
        match submission {
            Submission::Text(text) => {
                if input_method_done {
                    return true;
                }
                match &mut self.virtual_keyboard {
                    Some(vk) => vk.send_unicode_str(text.as_str(), alive, requests).is_ok(),
                    None => false,
                }
            },
            Submission::Keycode(keycode) => match &mut self.virtual_keyboard {
                Some(vk) => {
                    let r = vk.press_release_keycode(&keycode, alive, requests).is_ok();
                    proof {
                        reveal_with_fuel(press_release_requests, 2);
                    }
                    r
                },
                None => false,
            },
            Submission::ToggleKeycode(keycode) => match &mut self.virtual_keyboard {
                Some(vk) => vk.toggle_keycode(&keycode, alive, requests).is_ok(),
                None => false,
            },
            Submission::Modifier(modifier) => match &mut self.virtual_keyboard {
                Some(vk) => vk.toggle_modifier(modifier, alive, requests).is_ok(),
                None => false,
            },
            Submission::Erase(no_char) => {
                if input_method_done {
                    return true;
                }
                self.erase_with_virtual_keyboard(no_char, alive, requests)
            },
        }
    }

    /// Erases through the virtual keyboard, if there is one.
    fn erase_with_virtual_keyboard(
        &mut self,
        no_char: u32,
        alive: bool,
        requests: &mut Vec<VKRequest>,
    ) -> (r: bool)
        ensures
            match old(self)@.virtual_keyboard {
                None => !r && final(self)@ == old(self)@ && final(requests)@ == old(requests)@,
                Some(vk) => if alive {
                    r && final(self)@.virtual_keyboard == Some(erased(vk, no_char as nat))
                        && final(requests)@ == old(requests)@ + press_release_requests(
                        DELETE_KEYCODE,
                        no_char as nat,
                    )
                } else {
                    r == (no_char == 0) && final(self)@ == old(self)@ && final(requests)@ == old(requests)@
                },
            },
    {
        match &mut self.virtual_keyboard {
            Some(vk) => erase(vk, no_char, alive, requests),
            None => false,
        }
    }
}

/// Presses and releases DELETE once per character to erase, stopping at
/// the first failure.
fn erase(vk: &mut VKService, no_char: u32, alive: bool, requests: &mut Vec<VKRequest>) -> (r: bool)
    ensures
        alive ==> r && final(vk)@ == erased(old(vk)@, no_char as nat) && final(requests)@ == old(requests)@
            + press_release_requests(DELETE_KEYCODE, no_char as nat),
        !alive ==> r == (no_char == 0) && final(vk)@ == old(vk)@ && final(requests)@ == old(requests)@,
{
    let mut i: u32 = 0;
    while i < no_char
        invariant
            i <= no_char,
            alive ==> vk@ == erased(old(vk)@, i as nat) && requests@ == old(requests)@
                + press_release_requests(DELETE_KEYCODE, i as nat),
            !alive ==> vk@ == old(vk)@ && requests@ == old(requests)@ && i == 0,
        decreases no_char - i,
    {
        if vk.press_release_keycode(&DELETE_KEYCODE, alive, requests).is_err() {
            return false;
        }
        proof {
            assert(requests@ =~= old(requests)@ + press_release_requests(
                DELETE_KEYCODE,
                (i + 1) as nat,
            ));
            if i > 0 {
                let once = pressed_and_released(old(vk)@, DELETE_KEYCODE);
                assert(pressed_and_released(once, DELETE_KEYCODE).pressed_keys
                    =~= once.pressed_keys);
            }
        }
        i = i + 1;
    }
    true
}

} // verus!
