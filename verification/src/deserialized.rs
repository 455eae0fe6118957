//! The description of a layout as its author writes it (in a YAML file),
//! before missing information is completed with defaults.
use vstd::prelude::*;
use crate::str_map::StrMap;
use crate::text::{spec_ascii_upper, to_ascii_uppercase};

verus! {

/// Differentiates a short from a long press in a layout description.
#[derive(Debug, Clone, Copy, PartialEq, Eq, Hash, Structural)]
pub enum KeyEvent {
    ShortPress,
    LongPress,
}

/// The modifiers that are available.
#[derive(Debug, Clone, Copy, PartialEq, Eq, Hash, Structural)]
pub enum Modifier {
    Shift,
    Lock,
    Control,
    Alt,
    Mod2,
    Mod3,
    Mod4,
    Mod5,
}

/// How many cells of the grid a button is wide. Standard is two, so that a
/// row can be shifted by half a button.
#[derive(Debug, Clone, Copy, PartialEq, Eq, Structural)]
pub enum Outline {
    Standard,
    Half,
    OneAndAHalf,
    Double,
    Quadruple,
}

/// The number of grid cells an outline spans.
pub open spec fn outline_cells(o: Outline) -> i32 {
    match o {
        Outline::Standard => 2,
        Outline::Half => 1,
        Outline::OneAndAHalf => 3,
        Outline::Double => 4,
        Outline::Quadruple => 8,
    }
}

impl Outline {
    /// The number of grid cells the outline spans.
    pub fn cells(self) -> (r: i32)
        ensures
            r == outline_cells(self),
            1 <= r <= 8,
    {
        match self {
            Outline::Standard => 2,
            Outline::Half => 1,
            Outline::OneAndAHalf => 3,
            Outline::Double => 4,
            Outline::Quadruple => 8,
        }
    }
}

/// What a key causes when it is activated.
#[derive(Debug, Clone, PartialEq, Eq, Hash)]
pub enum KeyAction {
    /// Feedback that the button was pressed (`true`) or released (`false`).
    /// Added automatically; a layout description does not use it.
    FeedbackPressRelease(bool),
    /// Enter a keycode.
    EnterKeycode(u32),
    /// Press the keycode if it is released, release it if it is pressed.
    ToggleKeycode(u32),
    /// Submit the string.
    EnterString(String),
    /// Toggle the modifier.
    Modifier(Modifier),
    /// Switch the view.
    SwitchView(String),
    /// Switch the view until the next key is pressed.
    TempSwitchView(String),
    /// Switch the layout.
    SwitchLayout(String),
    /// Switch the layout until the next key is pressed.
    TempSwitchLayout(String),
    /// Erase the last character.
    Erase,
    /// Open the popup of the key.
    OpenPopup,
}

/// A key action with its strings taken by their characters.
pub enum KeyActionView {
    FeedbackPressRelease(bool),
    EnterKeycode(u32),
    ToggleKeycode(u32),
    EnterString(Seq<char>),
    Modifier(Modifier),
    SwitchView(Seq<char>),
    TempSwitchView(Seq<char>),
    SwitchLayout(Seq<char>),
    TempSwitchLayout(Seq<char>),
    Erase,
    OpenPopup,
}

impl View for KeyAction {
    type V = KeyActionView;

    open spec fn view(&self) -> KeyActionView {
        match self {
            KeyAction::FeedbackPressRelease(b) => KeyActionView::FeedbackPressRelease(*b),
            KeyAction::EnterKeycode(k) => KeyActionView::EnterKeycode(*k),
            KeyAction::ToggleKeycode(k) => KeyActionView::ToggleKeycode(*k),
            KeyAction::EnterString(s) => KeyActionView::EnterString(s@),
            KeyAction::Modifier(m) => KeyActionView::Modifier(*m),
            KeyAction::SwitchView(s) => KeyActionView::SwitchView(s@),
            KeyAction::TempSwitchView(s) => KeyActionView::TempSwitchView(s@),
            KeyAction::SwitchLayout(s) => KeyActionView::SwitchLayout(s@),
            KeyAction::TempSwitchLayout(s) => KeyActionView::TempSwitchLayout(s@),
            KeyAction::Erase => KeyActionView::Erase,
            KeyAction::OpenPopup => KeyActionView::OpenPopup,
        }
    }
}

/// The views of a sequence of key actions.
pub open spec fn actions_view(v: Seq<KeyAction>) -> Seq<KeyActionView> {
    v.map_values(|a: KeyAction| a@)
}

impl KeyAction {
    /// A copy of the action.
    pub fn duplicate(&self) -> (r: KeyAction)
        ensures
            r@ == self@,
    {
        match self {
            KeyAction::FeedbackPressRelease(b) => KeyAction::FeedbackPressRelease(*b),
            KeyAction::EnterKeycode(k) => KeyAction::EnterKeycode(*k),
            KeyAction::ToggleKeycode(k) => KeyAction::ToggleKeycode(*k),
            KeyAction::EnterString(s) => KeyAction::EnterString(s.clone()),
            KeyAction::Modifier(m) => KeyAction::Modifier(*m),
            KeyAction::SwitchView(s) => KeyAction::SwitchView(s.clone()),
            KeyAction::TempSwitchView(s) => KeyAction::TempSwitchView(s.clone()),
            KeyAction::SwitchLayout(s) => KeyAction::SwitchLayout(s.clone()),
            KeyAction::TempSwitchLayout(s) => KeyAction::TempSwitchLayout(s.clone()),
            KeyAction::Erase => KeyAction::Erase,
            KeyAction::OpenPopup => KeyAction::OpenPopup,
        }
    }
}

/// A copy of a sequence of key actions.
pub fn duplicate_actions(v: &Vec<KeyAction>) -> (r: Vec<KeyAction>)
    ensures
        actions_view(r@) == actions_view(v@),
{
    let mut r: Vec<KeyAction> = Vec::new();
    let mut i: usize = 0;
    while i < v.len()
        invariant
            i <= v.len(),
            r.len() == i,
            forall|k: int| 0 <= k < i ==> (#[trigger] r@[k])@ == v@[k]@,
        decreases v.len() - i,
    {
        r.push(v[i].duplicate());
        i = i + 1;
    }
    assert(actions_view(r@) =~= actions_view(v@));
    r
}

/// A copy of a sequence of strings.
pub fn duplicate_strings(v: &Vec<String>) -> (r: Vec<String>)
    ensures
        crate::text::string_views(r@) == crate::text::string_views(v@),
{
    let mut r: Vec<String> = Vec::new();
    let mut i: usize = 0;
    while i < v.len()
        invariant
            i <= v.len(),
            r.len() == i,
            forall|k: int| 0 <= k < i ==> (#[trigger] r@[k])@ == v@[k]@,
        decreases v.len() - i,
    {
        r.push(v[i].clone());
        i = i + 1;
    }
    assert(crate::text::string_views(r@) =~= crate::text::string_views(v@));
    r
}

/// A key shows a text or an image.
#[derive(Debug, Clone, PartialEq, Eq, Hash)]
pub enum KeyDisplay {
    Text(String),
    Image(String),
}

/// What a key shows, its strings taken by their characters.
pub enum KeyDisplayView {
    Text(Seq<char>),
    Image(Seq<char>),
}

impl View for KeyDisplay {
    type V = KeyDisplayView;

    open spec fn view(&self) -> KeyDisplayView {
        match self {
            KeyDisplay::Text(s) => KeyDisplayView::Text(s@),
            KeyDisplay::Image(s) => KeyDisplayView::Image(s@),
        }
    }
}

impl KeyDisplay {
    /// A copy of the display.
    pub fn duplicate(&self) -> (r: KeyDisplay)
        ensures
            r@ == self@,
    {
        match self {
            KeyDisplay::Text(s) => KeyDisplay::Text(s.clone()),
            KeyDisplay::Image(s) => KeyDisplay::Image(s.clone()),
        }
    }
}

/// The actions of a key as the layout description gives them, for each
/// kind of press.
pub type EventActions = Vec<(KeyEvent, Vec<KeyAction>)>;

/// What a layout description may say about one key. Every part is optional.
#[derive(Debug, Clone)]
pub struct KeyDeserialized {
    /// The actions the key causes, for each kind of press.
    pub actions: Option<EventActions>,
    /// What the button shows as its label.
    pub key_display: Option<KeyDisplay>,
    /// How wide the key is.
    pub outline: Option<Outline>,
    /// The rows of the popover that can be opened.
    pub popup: Option<Vec<String>>,
    /// Style classes attached to the key.
    pub styles: Option<Vec<String>>,
}

/// The root element describing an entire keyboard: for each view its rows
/// of key ids (separated by white space), and what is said about the keys.
pub struct LayoutDeserialized {
    pub views: StrMap<Vec<String>>,
    pub keys: StrMap<KeyDeserialized>,
}

/// Where a layout description is read from.
pub enum LayoutSource {
    /// A YAML file, by its name without the extension, which names the
    /// layout.
    YamlFile(String),
    /// The description built into the keyboard.
    FallbackStr,
}

/// The name of the layout that is used when no other is available.
pub open spec fn fallback_layout_name() -> Seq<char> {
    "FALLBACK"@
}

/// The name of the view a layout starts in.
pub open spec fn fallback_view_name() -> Seq<char> {
    "base"@
}

/// The name of the layout that is used when no other is available.
pub fn fallback_layout_name_string() -> (r: String)
    ensures
        r@ == fallback_layout_name(),
{
    "FALLBACK".to_string()
}

/// The name of the view a layout starts in.
pub fn fallback_view_name_string() -> (r: String)
    ensures
        r@ == fallback_view_name(),
{
    "base".to_string()
}

/// The layout name that requests a switch back to the previous layout. A
/// layout file may not carry it.
pub open spec fn reserved_layout_name() -> Seq<char> {
    "previous"@
}

/// Whether a layout may not be called `name`: `previous` is used to switch
/// back to the previous layout, so a layout with that name could never be
/// switched to.
pub fn is_reserved_layout_name(name: &String) -> (r: bool)
    ensures
        r == (name@ == reserved_layout_name()),
{
    let reserved = "previous".to_string();
    *name == reserved
}

/// The numeric code of a Linux input event key, looked up by its name in
/// upper case (e.g. `SPACE` gives 57).
pub uninterp spec fn key_code_of(name: Seq<char>) -> Option<u32>;

/// Looks the name up in `input_event_codes_hashmap::KEY`, the table of the
/// key names of `linux/input-event-codes.h` with their codes. The table is
/// a constant, so the result is a function of the name alone; what it holds
/// for a given name is left unsaid here.
#[verifier::external_body]
fn lookup_key_code(name: &String) -> (r: Option<u32>)
    ensures
        r == key_code_of(name@),
{
    input_event_codes_hashmap::KEY.get::<str>(name.as_str()).copied()
}

/// The numeric keycode for a keycode name as a layout author writes it;
/// the name is compared in ASCII upper case. `None` for an unknown name.
pub fn keycode_from_name(name: &str) -> (r: Option<u32>)
    ensures
        r == key_code_of(spec_ascii_upper(name@)),
{
    let upper = to_ascii_uppercase(name);
    lookup_key_code(&upper)
}

} // verus!

verus! {

/// The optional string lists of a key, taken by their characters.
pub open spec fn opt_strings_view(o: Option<Vec<String>>) -> Option<Seq<Seq<char>>> {
    match o {
        Some(v) => Some(crate::text::string_views(v@)),
        None => None,
    }
}

/// The actions of a key description, taken by their views.
pub open spec fn event_actions_view(v: Seq<(KeyEvent, Vec<KeyAction>)>) -> Seq<
    (KeyEvent, Seq<KeyActionView>),
> {
    v.map_values(|e: (KeyEvent, Vec<KeyAction>)| (e.0, actions_view(e.1@)))
}

/// What a layout description says about one key, its strings taken by their
/// characters.
pub struct KeyDeserializedView {
    pub actions: Option<Seq<(KeyEvent, Seq<KeyActionView>)>>,
    pub key_display: Option<KeyDisplayView>,
    pub outline: Option<Outline>,
    pub popup: Option<Seq<Seq<char>>>,
    pub styles: Option<Seq<Seq<char>>>,
}

impl View for KeyDeserialized {
    type V = KeyDeserializedView;

    open spec fn view(&self) -> KeyDeserializedView {
        KeyDeserializedView {
            actions: match self.actions {
                Some(a) => Some(event_actions_view(a@)),
                None => None,
            },
            key_display: match self.key_display {
                Some(d) => Some(d@),
                None => None,
            },
            outline: self.outline,
            popup: opt_strings_view(self.popup),
            styles: opt_strings_view(self.styles),
        }
    }
}

/// Why a layout description was not loaded.
#[derive(Debug, Clone)]
pub enum LayoutLoadError {
    /// The layout would be named `previous`, which requests a switch back
    /// to the previous layout.
    ReservedName,
    /// The description is not a valid layout; the text says why.
    Invalid(String),
}

impl LayoutDeserialized {
    /// The name of the layout read from the source: the file name of a YAML
    /// file, `FALLBACK` for the built-in description. A file may not name a
    /// layout `previous`.
    pub fn layout_name(source: &LayoutSource) -> (r: Result<String, LayoutLoadError>)
        ensures
            match source {
                LayoutSource::YamlFile(name) => if name@ == reserved_layout_name() {
                    r matches Err(LayoutLoadError::ReservedName)
                } else {
                    r matches Ok(n) && n@ == name@
                },
                LayoutSource::FallbackStr => r matches Ok(n) && n@ == fallback_layout_name(),
            },
    {
        match source {
            LayoutSource::YamlFile(name) => {
                if is_reserved_layout_name(name) {
                    Err(LayoutLoadError::ReservedName)
                } else {
                    Ok(name.clone())
                }
            },
            LayoutSource::FallbackStr => Ok(fallback_layout_name_string()),
        }
    }
}

/// The layouts after the result of reading one was added: a layout that
/// was read is added by its name, replacing one of the same name; a read
/// error leaves the layouts as they were.
pub open spec fn with_layout(
    layouts: Map<Seq<char>, LayoutDeserialized>,
    layout_result: Result<(String, LayoutDeserialized), LayoutLoadError>,
) -> Map<Seq<char>, LayoutDeserialized> {
    match layout_result {
        Ok((name, layout)) => layouts.insert(name@, layout),
        Err(_) => layouts,
    }
}

/// Collects the layouts that were read.
pub struct LayoutYamlParser;

impl LayoutYamlParser {
    /// Adds a layout that was read to the layouts by its name, replacing one
    /// of the same name. A layout that could not be read is skipped.
    pub fn add_layout_to_hashmap(
        hashmap_with_layouts: &mut StrMap<LayoutDeserialized>,
        layout_result: Result<(String, LayoutDeserialized), LayoutLoadError>,
    )
        ensures
            final(hashmap_with_layouts)@ == with_layout(old(hashmap_with_layouts)@, layout_result),
    {
        match layout_result {
            Ok((file_name, layout)) => {
                hashmap_with_layouts.insert(file_name, layout);
            },
            Err(_) => {},
        }
    }

    /// Whether the built-in layout has to be added: when no layout carries
    /// the name of the user's language.
    pub fn needs_fallback(layouts: &StrMap<LayoutDeserialized>, locale_language: &String) -> (r:
        bool)
        ensures
            r == !layouts@.contains_key(locale_language@),
    {
        !layouts.contains_key(locale_language)
    }
}

/// Each outline spans its number of cells, measured against the standard
/// key of two cells: a half key is half as wide, one and a half keys one
/// and a half times, a double key twice and a quadruple key four times.
pub proof fn lemma_outline_widths()
    ensures
        outline_cells(Outline::Standard) == 2,
        2 * outline_cells(Outline::Half) == outline_cells(Outline::Standard),
        2 * outline_cells(Outline::OneAndAHalf) == 3 * outline_cells(Outline::Standard),
        outline_cells(Outline::Double) == 2 * outline_cells(Outline::Standard),
        outline_cells(Outline::Quadruple) == 4 * outline_cells(Outline::Standard),
        forall|o1: Outline, o2: Outline| o1 != o2 ==> outline_cells(o1) != outline_cells(o2),
{
}

} // verus!
