//! The state of the virtual keyboard: which keys are held down and which
//! modifiers are active, and the requests that keep the compositor in step
//! with it.
use vstd::prelude::*;
use std::collections::HashSet;
use crate::deserialized::{keycode_from_name, key_code_of, Modifier};
use crate::text::spec_ascii_upper;

verus! {

broadcast use vstd::std_specs::hash::group_hash_axioms;

/// Why a request to the virtual keyboard failed.
#[derive(Debug, Clone, Copy, PartialEq, Eq, Structural)]
pub enum SubmitError {
    /// The virtual keyboard proxy was dropped and is no longer alive.
    NotAlive,
    /// The key name has no key code.
    InvalidKeycode,
}

/// Whether a key goes down or up.
#[derive(Debug, Clone, Copy, PartialEq, Eq, Structural)]
pub enum KeyMotion {
    Press,
    Release,
}

/// The number of a key motion in the virtual keyboard protocol.
pub open spec fn key_motion_value(m: KeyMotion) -> u32 {
    match m {
        KeyMotion::Press => 1,
        KeyMotion::Release => 0,
    }
}

impl KeyMotion {
    /// The number of the motion in the virtual keyboard protocol: 1 for a
    /// press, 0 for a release.
    pub fn value(&self) -> (r: u32)
        ensures
            r == key_motion_value(*self),
    {
        match self {
            KeyMotion::Press => 1,
            KeyMotion::Release => 0,
        }
    }
}

/// The bit of a modifier in the modifier state of the X keyboard protocol.
pub open spec fn modifier_bits(m: Modifier) -> u32 {
    match m {
        Modifier::Shift => 0x1,
        Modifier::Lock => 0x2,
        Modifier::Control => 0x4,
        Modifier::Alt => 0x8,
        Modifier::Mod2 => 0x10,
        Modifier::Mod3 => 0x20,
        Modifier::Mod4 => 0x40,
        Modifier::Mod5 => 0x80,
    }
}

/// A set of modifiers, one bit each.
#[derive(Debug, Clone, Copy, PartialEq, Eq, Structural)]
pub struct ModifiersBitflag {
    pub bits: u32,
}

impl ModifiersBitflag {
    /// The bits of the set.
    pub open spec fn spec_bits(&self) -> u32 {
        self.bits
    }

    /// The empty set of modifiers.
    pub fn no_modifiers() -> (r: ModifiersBitflag)
        ensures
            r.spec_bits() == 0,
    {
        ModifiersBitflag { bits: 0 }
    }

    /// The bits of the set.
    pub fn bits(&self) -> (r: u32)
        ensures
            r == self.spec_bits(),
    {
        self.bits
    }

    /// Toggles the modifiers of `other`: those that were set are cleared
    /// and those that were clear are set.
    pub fn toggle(&mut self, other: ModifiersBitflag)
        ensures
            final(self).spec_bits() == old(self).spec_bits() ^ other.spec_bits(),
    {
        self.bits = self.bits ^ other.bits;
    }
}

impl From<Modifier> for ModifiersBitflag {
    fn from(item: Modifier) -> (r: ModifiersBitflag) {
        match item {
            Modifier::Shift => ModifiersBitflag { bits: 0x1 },
            Modifier::Lock => ModifiersBitflag { bits: 0x2 },
            Modifier::Control => ModifiersBitflag { bits: 0x4 },
            Modifier::Alt => ModifiersBitflag { bits: 0x8 },
            Modifier::Mod2 => ModifiersBitflag { bits: 0x10 },
            Modifier::Mod3 => ModifiersBitflag { bits: 0x20 },
            Modifier::Mod4 => ModifiersBitflag { bits: 0x40 },
            Modifier::Mod5 => ModifiersBitflag { bits: 0x80 },
        }
    }
}

impl vstd::std_specs::convert::FromSpecImpl<Modifier> for ModifiersBitflag {
    open spec fn obeys_from_spec() -> bool {
        true
    }

    open spec fn from_spec(v: Modifier) -> ModifiersBitflag {
        ModifiersBitflag { bits: modifier_bits(v) }
    }
}

/// A request to the virtual keyboard of the compositor.
#[derive(Debug, Clone, Copy, PartialEq, Eq, Structural)]
pub enum VKRequest {
    /// A key goes down or up.
    Key(u32, KeyMotion),
    /// The modifiers held down are now these.
    Modifiers(u32),
    /// Type the character with this Unicode scalar value: a key that
    /// enters it goes down and up.
    TypeChar(u32),
}

/// The keys held down and the modifier bits that are set.
pub struct VKServiceView {
    pub pressed_keys: Set<u32>,
    pub modifiers: u32,
}

/// The state after a key motion was sent.
pub open spec fn key_sent(st: VKServiceView, keycode: u32, motion: KeyMotion) -> VKServiceView {
    VKServiceView {
        pressed_keys: match motion {
            KeyMotion::Press => st.pressed_keys.insert(keycode),
            KeyMotion::Release => st.pressed_keys.remove(keycode),
        },
        modifiers: st.modifiers,
    }
}

/// The motion that toggles a key: a release if it is held down, else a
/// press.
pub open spec fn toggle_motion(st: VKServiceView, keycode: u32) -> KeyMotion {
    if st.pressed_keys.contains(keycode) {
        KeyMotion::Release
    } else {
        KeyMotion::Press
    }
}

/// The state after the modifiers were set to `modifiers`.
pub open spec fn modifiers_sent(st: VKServiceView, modifiers: u32) -> VKServiceView {
    VKServiceView { pressed_keys: st.pressed_keys, modifiers }
}

/// The key code of a key name, which is looked up in upper case.
pub open spec fn keycode_of_name(name: Seq<char>) -> Option<u32> {
    key_code_of(spec_ascii_upper(name))
}

/// The requests that type the characters of the text, one by one.
pub open spec fn typing_requests(text: Seq<char>) -> Seq<VKRequest> {
    Seq::new(text.len(), |i: int| VKRequest::TypeChar(text[i] as u32))
}

/// The release requests of the keys, in that order.
pub open spec fn release_requests(keys: Seq<u32>) -> Seq<VKRequest> {
    keys.map_values(|k: u32| VKRequest::Key(k, KeyMotion::Release))
}

/// Keeps track of the keys and modifiers held down on the virtual keyboard
/// and decides the requests that change them. Each method is told whether
/// the virtual keyboard proxy is still alive and appends the requests to
/// send to `requests`.
pub struct VKService {
    pressed_keys: HashSet<u32>,
    pressed_modifiers: ModifiersBitflag,
}

impl View for VKService {
    type V = VKServiceView;

    closed spec fn view(&self) -> VKServiceView {
        VKServiceView {
            pressed_keys: self.pressed_keys@,
            modifiers: self.pressed_modifiers.spec_bits(),
        }
    }
}

impl VKService {
    /// A virtual keyboard with no key and no modifier held down.
    pub fn new() -> (r: VKService)
        ensures
            r@.pressed_keys == Set::<u32>::empty(),
            r@.modifiers == 0,
    {
        VKService {
            pressed_keys: HashSet::new(),
            pressed_modifiers: ModifiersBitflag::no_modifiers(),
        }
    }

    /// Presses or releases the key with that code.
    pub fn send_keycode(
        &mut self,
        keycode: &u32,
        keymotion: KeyMotion,
        alive: bool,
        requests: &mut Vec<VKRequest>,
    ) -> (r: Result<(), SubmitError>)
        ensures
            alive ==> r is Ok && final(self)@ == key_sent(old(self)@, *keycode, keymotion)
                && final(requests)@ == old(requests)@.push(VKRequest::Key(*keycode, keymotion)),
            !alive ==> r == Err::<(), SubmitError>(SubmitError::NotAlive) && final(self)@ == old(self)@ && final(requests)@ == old(requests)@,
    {
        if alive {
            match keymotion {
                KeyMotion::Press => {
                    self.pressed_keys.insert(*keycode);
                },
                KeyMotion::Release => {
                    self.pressed_keys.remove(keycode);
                },
            }
            requests.push(VKRequest::Key(*keycode, keymotion));
            Ok(())
        } else {
            Err(SubmitError::NotAlive)
        }
    }

    /// The codes of the keys held down, each once, in some order.
    fn pressed_keycodes(&self) -> (r: Vec<u32>)
        ensures
            r@.no_duplicates(),
            r@.to_set() == self@.pressed_keys,
    {
        let mut keys: Vec<u32> = Vec::new();
        if self.pressed_keys.is_empty() {
            proof {
                assert(keys@.to_set() =~= self@.pressed_keys);
            }
            return keys;
        }
        for k in it: self.pressed_keys.iter()
            invariant
                keys@ == it.seq().unref().take(it.index()),
                it.seq().unref().no_duplicates(),
                it.seq().unref().to_set() == self@.pressed_keys,
                0 < it.seq().len(),
                it.index() == it.seq().len() ==> keys@.no_duplicates() && keys@.to_set()
                    == self@.pressed_keys,
        {
            keys.push(*k);
            assert(it.index() + 1 == it.seq().len() ==> keys@ =~= it.seq().unref());
        }
        keys
    }

    /// Releases every key held down. With no key held down this succeeds
    /// whether or not the virtual keyboard is alive.
    pub fn release_all_keys(&mut self, alive: bool, requests: &mut Vec<VKRequest>) -> (r: Result<
        (),
        SubmitError,
    >)
        ensures
            old(self)@.pressed_keys.is_empty() ==> r is Ok && final(self)@ == old(self)@
                && final(requests)@ == old(requests)@,
            !old(self)@.pressed_keys.is_empty() && !alive ==> r == Err::<(), SubmitError>(
                SubmitError::NotAlive,
            ) && final(self)@ == old(self)@ && final(requests)@ == old(requests)@,
            alive ==> r is Ok && final(self)@.pressed_keys.is_empty() && final(self)@.modifiers
                == old(self)@.modifiers && exists|order: Seq<u32>|
                order.no_duplicates() && order.to_set() == old(self)@.pressed_keys
                    && final(requests)@ == old(requests)@ + release_requests(order),
    {
        let pressed_keys = self.pressed_keycodes();
        let mut success: Result<(), SubmitError> = Ok(());
        let mut i: usize = 0;
        while i < pressed_keys.len()
            invariant
                0 <= i <= pressed_keys.len(),
                pressed_keys@.no_duplicates(),
                pressed_keys@.to_set() == old(self)@.pressed_keys,
                self@.modifiers == old(self)@.modifiers,
                alive ==> self@.pressed_keys == old(self)@.pressed_keys.difference(
                    pressed_keys@.take(i as int).to_set(),
                ) && success is Ok && requests@ == old(requests)@ + release_requests(
                    pressed_keys@.take(i as int),
                ),
                !alive ==> self@ == old(self)@ && requests@ == old(requests)@ && (i > 0
                    ==> success == Err::<(), SubmitError>(SubmitError::NotAlive)) && (i == 0
                    ==> success is Ok),
            decreases pressed_keys.len() - i,
        {
            let keycode = pressed_keys[i];
            let ghost before = requests@;
            if let Err(err) = self.send_keycode(&keycode, KeyMotion::Release, alive, requests) {
                success = Err(err);
            }
            proof {
                let t = pressed_keys@.take(i as int);
                let t1 = pressed_keys@.take(i + 1);
                assert(t1 =~= t.push(keycode));
                assert(release_requests(t1) =~= release_requests(t).push(
                    VKRequest::Key(keycode, KeyMotion::Release),
                ));
                assert(t1.to_set() =~= t.to_set().insert(keycode)) by {
                    t.lemma_push_to_set_commute(keycode);
                }
                if alive {
                    assert(self@.pressed_keys =~= old(self)@.pressed_keys.difference(t1.to_set()));
                    assert(requests@ =~= old(requests)@ + release_requests(t1));
                }
            }
            i = i + 1;
        }
        proof {
            assert(pressed_keys@.take(pressed_keys@.len() as int) =~= pressed_keys@);
            if alive {
                assert(self@.pressed_keys =~= Set::<u32>::empty());
            }
            if old(self)@.pressed_keys.is_empty() {
                if pressed_keys@.len() > 0 {
                    assert(pressed_keys@.to_set().contains(pressed_keys@[0]));
                }
                assert(pressed_keys@ =~= Seq::<u32>::empty());
                assert(release_requests(pressed_keys@) =~= Seq::<VKRequest>::empty());
                assert(requests@ =~= old(requests)@);
            } else if !alive {
                if pressed_keys@.len() == 0 {
                    assert(pressed_keys@.to_set() =~= Set::<u32>::empty());
                }
            }
        }
        success
    }

    /// Sends the modifier state to the compositor and keeps it.
    fn send_modifiers_bitflag(
        &mut self,
        modifiers: ModifiersBitflag,
        alive: bool,
        requests: &mut Vec<VKRequest>,
    ) -> (r: Result<(), SubmitError>)
        ensures
            alive ==> r is Ok && final(self)@ == modifiers_sent(old(self)@, modifiers.spec_bits())
                && final(requests)@ == old(requests)@.push(
                VKRequest::Modifiers(modifiers.spec_bits()),
            ),
            !alive ==> r == Err::<(), SubmitError>(SubmitError::NotAlive) && final(self)@ == old(self)@ && final(requests)@ == old(requests)@,
    {
        if alive {
            requests.push(VKRequest::Modifiers(modifiers.bits()));
            self.pressed_modifiers = modifiers;
            Ok(())
        } else {
            Err(SubmitError::NotAlive)
        }
    }

    /// Releases every modifier.
    pub fn release_all_modifiers(&mut self, alive: bool, requests: &mut Vec<VKRequest>) -> (r:
        Result<(), SubmitError>)
        ensures
            alive ==> r is Ok && final(self)@ == modifiers_sent(old(self)@, 0) && final(requests)@ == old(requests)@.push(VKRequest::Modifiers(0)),
            !alive ==> r == Err::<(), SubmitError>(SubmitError::NotAlive) && final(self)@ == old(self)@ && final(requests)@ == old(requests)@,
    {
        let new_modifier_state = ModifiersBitflag::no_modifiers();
        self.send_modifiers_bitflag(new_modifier_state, alive, requests)
    }

    /// Releases every key and then every modifier. When the virtual
    /// keyboard is not alive that is the error, and nothing changes.
    pub fn release_all_keys_and_modifiers(&mut self, alive: bool, requests: &mut Vec<VKRequest>) -> (r:
        Result<(), SubmitError>)
        ensures
            alive ==> r is Ok && final(self)@.pressed_keys.is_empty() && final(self)@.modifiers
                == 0 && exists|order: Seq<u32>|
                order.no_duplicates() && order.to_set() == old(self)@.pressed_keys
                    && final(requests)@ == old(requests)@ + release_requests(order).push(
                    VKRequest::Modifiers(0),
                ),
            !alive ==> r == Err::<(), SubmitError>(SubmitError::NotAlive) && final(self)@ == old(self)@ && final(requests)@ == old(requests)@,
    {
        let result_key_release = self.release_all_keys(alive, requests);
        let result_modifier_release = self.release_all_modifiers(alive, requests);
        if result_key_release.is_ok() && result_modifier_release.is_ok() {
            Ok(())
        } else if matches!(result_key_release, Err(SubmitError::NotAlive)) || matches!(
            result_modifier_release,
            Err(SubmitError::NotAlive)
        ) {
            Err(SubmitError::NotAlive)
        } else {
            Err(SubmitError::InvalidKeycode)
        }
    }

    /// Toggles a modifier: sets it if it was clear, clears it if it was set.
    pub fn toggle_modifier(&mut self, modifier: Modifier, alive: bool, requests: &mut Vec<VKRequest>) -> (r:
        Result<(), SubmitError>)
        ensures
            alive ==> r is Ok && final(self)@ == modifiers_sent(
                old(self)@,
                old(self)@.modifiers ^ modifier_bits(modifier),
            ) && final(requests)@ == old(requests)@.push(
                VKRequest::Modifiers(old(self)@.modifiers ^ modifier_bits(modifier)),
            ),
            !alive ==> r == Err::<(), SubmitError>(SubmitError::NotAlive) && final(self)@ == old(self)@ && final(requests)@ == old(requests)@,
    {
        let mut new_modifier_state = self.pressed_modifiers;
        new_modifier_state.toggle(ModifiersBitflag::from(modifier));
        self.send_modifiers_bitflag(new_modifier_state, alive, requests)
    }

    /// Toggles the key with that code: releases it if it is held down, else
    /// presses it.
    pub fn toggle_keycode(&mut self, keycode: &u32, alive: bool, requests: &mut Vec<VKRequest>) -> (r:
        Result<(), SubmitError>)
        ensures
            alive ==> r is Ok && final(self)@ == key_sent(
                old(self)@,
                *keycode,
                toggle_motion(old(self)@, *keycode),
            ) && final(requests)@ == old(requests)@.push(
                VKRequest::Key(*keycode, toggle_motion(old(self)@, *keycode)),
            ),
            !alive ==> r == Err::<(), SubmitError>(SubmitError::NotAlive) && final(self)@ == old(self)@ && final(requests)@ == old(requests)@,
    {
        if self.pressed_keys.contains(keycode) {
            self.send_keycode(keycode, KeyMotion::Release, alive, requests)
        } else {
            self.send_keycode(keycode, KeyMotion::Press, alive, requests)
        }
    }

    /// Presses and then releases the key with that code.
    pub fn press_release_keycode(
        &mut self,
        keycode: &u32,
        alive: bool,
        requests: &mut Vec<VKRequest>,
    ) -> (r: Result<(), SubmitError>)
        ensures
            alive ==> r is Ok && final(self)@ == key_sent(
                key_sent(old(self)@, *keycode, KeyMotion::Press),
                *keycode,
                KeyMotion::Release,
            ) && final(requests)@ == old(requests)@.push(
                VKRequest::Key(*keycode, KeyMotion::Press),
            ).push(VKRequest::Key(*keycode, KeyMotion::Release)),
            !alive ==> r == Err::<(), SubmitError>(SubmitError::NotAlive) && final(self)@ == old(self)@ && final(requests)@ == old(requests)@,
    {
        let press_result = self.send_keycode(keycode, KeyMotion::Press, alive, requests);
        if press_result.is_ok() {
            self.send_keycode(keycode, KeyMotion::Release, alive, requests)
        } else {
            press_result
        }
    }

    /// Types the text character by character. Nothing is held down
    /// afterwards that was not before. With no character to type this
    /// succeeds whether or not the virtual keyboard is alive.
    pub fn send_unicode_str(&mut self, text: &str, alive: bool, requests: &mut Vec<VKRequest>) -> (r:
        Result<(), SubmitError>)
        ensures
            final(self)@ == old(self)@,
            alive || text@.len() == 0 ==> r is Ok && final(requests)@ == old(requests)@
                + typing_requests(text@),
            !alive && text@.len() > 0 ==> r == Err::<(), SubmitError>(SubmitError::NotAlive)
                && final(requests)@ == old(requests)@,
    {
        let chars = crate::text::chars_of(text);
        if chars.len() > 0 && !alive {
            return Err(SubmitError::NotAlive);
        }
        let mut i: usize = 0;
        proof {
            lemma_typing_push(Seq::<char>::empty(), ' ');
            assert(chars@.take(0) =~= Seq::<char>::empty());
            assert(old(requests)@ + Seq::<VKRequest>::empty() =~= old(requests)@);
        }
        while i < chars.len()
            invariant
                chars@ == text@,
                i <= chars.len(),
                requests@ == old(requests)@ + typing_requests(chars@.take(i as int)),
            decreases chars.len() - i,
        {
            let ghost before = requests@;
            requests.push(VKRequest::TypeChar(chars[i] as u32));
            proof {
                assert(chars@.take(i + 1) =~= chars@.take(i as int).push(chars@[i as int]));
                lemma_typing_push(chars@.take(i as int), chars@[i as int]);
                assert(requests@ =~= old(requests)@ + typing_requests(chars@.take(i + 1)));
            }
            i = i + 1;
        }
        proof {
            assert(chars@.take(chars.len() as int) =~= chars@);
        }
        Ok(())
    }

    /// Presses or releases the key of that name (its name in
    /// `linux/input-event-codes.h` without the `KEY_` prefix, in any case).
    pub fn send_key(
        &mut self,
        keycode: &str,
        keymotion: KeyMotion,
        alive: bool,
        requests: &mut Vec<VKRequest>,
    ) -> (r: Result<(), SubmitError>)
        ensures
            match keycode_of_name(keycode@) {
                None => r == Err::<(), SubmitError>(SubmitError::InvalidKeycode) && final(self)@
                    == old(self)@ && final(requests)@ == old(requests)@,
                Some(code) => (alive ==> r is Ok && final(self)@ == key_sent(
                    old(self)@,
                    code,
                    keymotion,
                ) && final(requests)@ == old(requests)@.push(VKRequest::Key(code, keymotion))) && (
                !alive ==> r == Err::<(), SubmitError>(SubmitError::NotAlive) && final(self)@
                    == old(self)@ && final(requests)@ == old(requests)@),
            },
    {
        match keycode_from_name(keycode) {
            Some(code) => self.send_keycode(&code, keymotion, alive, requests),
            None => Err(SubmitError::InvalidKeycode),
        }
    }

    /// Toggles the key of that name: releases it if it is held down, else
    /// presses it.
    pub fn toggle_key(&mut self, keycode: &str, alive: bool, requests: &mut Vec<VKRequest>) -> (r:
        Result<(), SubmitError>)
        ensures
            match keycode_of_name(keycode@) {
                None => r == Err::<(), SubmitError>(SubmitError::InvalidKeycode) && final(self)@
                    == old(self)@ && final(requests)@ == old(requests)@,
                Some(code) => (alive ==> r is Ok && final(self)@ == key_sent(
                    old(self)@,
                    code,
                    toggle_motion(old(self)@, code),
                ) && final(requests)@ == old(requests)@.push(
                    VKRequest::Key(code, toggle_motion(old(self)@, code)),
                )) && (!alive ==> r == Err::<(), SubmitError>(SubmitError::NotAlive)
                    && final(self)@ == old(self)@ && final(requests)@ == old(requests)@),
            },
    {
        match keycode_from_name(keycode) {
            Some(code) => self.toggle_keycode(&code, alive, requests),
            None => Err(SubmitError::InvalidKeycode),
        }
    }

    /// Presses and then releases the key of that name.
    pub fn press_release_key(&mut self, keycode: &str, alive: bool, requests: &mut Vec<VKRequest>) -> (r:
        Result<(), SubmitError>)
        ensures
            match keycode_of_name(keycode@) {
                None => r == Err::<(), SubmitError>(SubmitError::InvalidKeycode) && final(self)@
                    == old(self)@ && final(requests)@ == old(requests)@,
                Some(code) => (alive ==> r is Ok && final(self)@ == key_sent(
                    key_sent(old(self)@, code, KeyMotion::Press),
                    code,
                    KeyMotion::Release,
                ) && final(requests)@ == old(requests)@.push(
                    VKRequest::Key(code, KeyMotion::Press),
                ).push(VKRequest::Key(code, KeyMotion::Release))) && (!alive ==> r == Err::<
                    (),
                    SubmitError,
                >(SubmitError::NotAlive) && final(self)@ == old(self)@ && final(requests)@ == old(requests)@),
            },
    {
        let press_result = self.send_key(keycode, KeyMotion::Press, alive, requests);
        if press_result.is_ok() {
            self.send_key(keycode, KeyMotion::Release, alive, requests)
        } else {
            press_result
        }
    }
}

/// Toggling a key twice leaves the keys held down as they were.
pub proof fn lemma_toggle_key_twice(st: VKServiceView, keycode: u32)
    ensures
        ({
            let once = key_sent(st, keycode, toggle_motion(st, keycode));
            key_sent(once, keycode, toggle_motion(once, keycode)) == st
        }),
{
    let once = key_sent(st, keycode, toggle_motion(st, keycode));
    let twice = key_sent(once, keycode, toggle_motion(once, keycode));
    assert(twice.pressed_keys =~= st.pressed_keys);
}

/// Toggling a modifier twice leaves the modifiers as they were.
pub proof fn lemma_toggle_modifier_twice(st: VKServiceView, modifier: Modifier)
    ensures
        ({
            let once = modifiers_sent(st, st.modifiers ^ modifier_bits(modifier));
            modifiers_sent(once, once.modifiers ^ modifier_bits(modifier)) == st
        }),
{
    let m = st.modifiers;
    let b = modifier_bits(modifier);
    assert((m ^ b) ^ b == m) by (bit_vector);
}

/// Pressing and releasing a key leaves it up and every other key as it
/// was.
pub proof fn lemma_press_release_leaves_key_up(st: VKServiceView, keycode: u32)
    ensures
        key_sent(key_sent(st, keycode, KeyMotion::Press), keycode, KeyMotion::Release)
            == (VKServiceView { pressed_keys: st.pressed_keys.remove(keycode), modifiers: st.modifiers }),
        !key_sent(
            key_sent(st, keycode, KeyMotion::Press),
            keycode,
            KeyMotion::Release,
        ).pressed_keys.contains(keycode),
{
    assert(st.pressed_keys.insert(keycode).remove(keycode) =~= st.pressed_keys.remove(keycode));
}

proof fn lemma_typing_push(t: Seq<char>, c: char)
    ensures
        typing_requests(t.push(c)) == typing_requests(t).push(VKRequest::TypeChar(c as u32)),
        typing_requests(Seq::<char>::empty()) == Seq::<VKRequest>::empty(),
{
    assert(typing_requests(t.push(c)) =~= typing_requests(t).push(VKRequest::TypeChar(c as u32)));
    assert(typing_requests(Seq::<char>::empty()) =~= Seq::<VKRequest>::empty());
}

/// Each modifier has its own bit of the X keyboard protocol's modifier
/// state: Shift, Lock, Control, Alt (Mod1), Mod2, Mod3, Mod4 and Mod5 are
/// bits 0 to 7, so no two modifiers share a bit and toggling one leaves the
/// others as they were.
pub proof fn lemma_modifier_bits_distinct(st: VKServiceView, m: Modifier, other: Modifier)
    ensures
        modifier_bits(Modifier::Shift) == 1u32 << 0u32,
        modifier_bits(Modifier::Lock) == 1u32 << 1u32,
        modifier_bits(Modifier::Control) == 1u32 << 2u32,
        modifier_bits(Modifier::Alt) == 1u32 << 3u32,
        modifier_bits(Modifier::Mod2) == 1u32 << 4u32,
        modifier_bits(Modifier::Mod3) == 1u32 << 5u32,
        modifier_bits(Modifier::Mod4) == 1u32 << 6u32,
        modifier_bits(Modifier::Mod5) == 1u32 << 7u32,
        m != other ==> modifier_bits(m) & modifier_bits(other) == 0,
        m != other ==> (st.modifiers ^ modifier_bits(m)) & modifier_bits(other) == st.modifiers
            & modifier_bits(other),
        (st.modifiers ^ modifier_bits(m)) & modifier_bits(m) != st.modifiers & modifier_bits(m),
{
    assert(1u32 << 0u32 == 0x1u32) by (bit_vector);
    assert(1u32 << 1u32 == 0x2u32) by (bit_vector);
    assert(1u32 << 2u32 == 0x4u32) by (bit_vector);
    assert(1u32 << 3u32 == 0x8u32) by (bit_vector);
    assert(1u32 << 4u32 == 0x10u32) by (bit_vector);
    assert(1u32 << 5u32 == 0x20u32) by (bit_vector);
    assert(1u32 << 6u32 == 0x40u32) by (bit_vector);
    assert(1u32 << 7u32 == 0x80u32) by (bit_vector);
    let s = st.modifiers;
    let a = modifier_bits(m);
    let b = modifier_bits(other);
    assert(a == 1 || a == 2 || a == 4 || a == 8 || a == 16 || a == 32 || a == 64 || a == 128);
    assert(b == 1 || b == 2 || b == 4 || b == 8 || b == 16 || b == 32 || b == 64 || b == 128);
    if m != other {
        assert(a != b);
        assert(a & b == 0) by (bit_vector)
            requires
                a == 1 || a == 2 || a == 4 || a == 8 || a == 16 || a == 32 || a == 64 || a == 128,
                b == 1 || b == 2 || b == 4 || b == 8 || b == 16 || b == 32 || b == 64 || b == 128,
                a != b,
        ;
        assert((s ^ a) & b == s & b) by (bit_vector)
            requires
                a & b == 0,
        ;
    }
    assert((s ^ a) & a != s & a) by (bit_vector)
        requires
            a == 1 || a == 2 || a == 4 || a == 8 || a == 16 || a == 32 || a == 64 || a == 128,
    ;
}

} // verus!
