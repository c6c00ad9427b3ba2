//! Widget state and the decisions widgets take on input.  Hit-testing and
//! painting work on floating-point coordinates and stay with the renderer;
//! what a widget does once an event has been routed to it is here.
use vstd::prelude::*;

use crate::text::{
    char_count, char_is_control, chars_of, contains_seq, insert_char_at, is_control, lowercase,
    remove_char_at, str_contains, str_eq, to_lowercase,
};

verus! {

broadcast use {vstd::seq::group_seq_axioms, vstd::string::group_string_axioms};

/// Unique widget identifier.
pub type WidgetId = u64;

/// An action emitted by a widget in response to an event.
#[derive(Debug, Clone)]
pub enum WidgetAction {
    ValueChanged { key: String, value: String },
    ButtonClicked { id: WidgetId },
    Navigate { panel: String },
}

/// The result of delivering an event to a widget.
#[derive(Debug, Clone)]
pub struct EventResponse {
    pub consumed: bool,
    pub action: Option<WidgetAction>,
}

/// `r` reports a consumed event that changed `key` to `value`.
pub open spec fn emits(r: EventResponse, key: Seq<char>, value: Seq<char>) -> bool {
    &&& r.consumed
    &&& r.action matches Some(WidgetAction::ValueChanged { key: k, value: v })
    &&& k@ == key
    &&& v@ == value
}

/// `r` reports a consumed event without an action.
pub open spec fn consumed_quietly(r: EventResponse) -> bool {
    r.consumed && r.action is None
}

pub open spec fn is_ignored(r: EventResponse) -> bool {
    !r.consumed && r.action is None
}

impl EventResponse {
    pub fn ignored() -> (r: Self)
        ensures
            is_ignored(r),
    {
        Self { consumed: false, action: None }
    }

    /// A consumed event that needs nothing further.
    pub fn handled() -> (r: Self)
        ensures
            consumed_quietly(r),
    {
        Self { consumed: true, action: None }
    }

    /// A consumed event that changed `key` to `value`.
    pub fn value_changed(key: &String, value: String) -> (r: Self)
        ensures
            emits(r, key@, value@),
    {
        Self {
            consumed: true,
            action: Some(WidgetAction::ValueChanged { key: key.clone(), value }),
        }
    }
}

pub open spec fn true_text() -> Seq<char> {
    seq!['t', 'r', 'u', 'e']
}

pub open spec fn false_text() -> Seq<char> {
    seq!['f', 'a', 'l', 's', 'e']
}

/// `b.to_string()`.
pub open spec fn bool_text(b: bool) -> Seq<char> {
    if b {
        true_text()
    } else {
        false_text()
    }
}

pub fn bool_to_string(b: bool) -> (s: String)
    ensures
        s@ == bool_text(b),
{
    if b {
        let s = "true".to_string();
        proof {
            reveal_strlit("true");
        }
        assert(s@ =~= true_text());
        s
    } else {
        let s = "false".to_string();
        proof {
            reveal_strlit("false");
        }
        assert(s@ =~= false_text());
        s
    }
}

// ---------------------------------------------------------------------------
// Button
// ---------------------------------------------------------------------------

/// A push button that emits a value-change action when activated.
pub struct Button {
    pub key: String,
    pub label: String,
    pub pressed: bool,
}

impl Button {
    pub fn new(key: String, label: String) -> (b: Self)
        ensures
            b.key == key,
            b.label == label,
            !b.pressed,
    {
        Self { key, label, pressed: false }
    }

    /// The pointer went down inside the button.
    pub fn press(&mut self) -> (r: EventResponse)
        ensures
            final(self).pressed,
            final(self).key == old(self).key,
            final(self).label == old(self).label,
            consumed_quietly(r),
    {
        self.pressed = true;
        EventResponse::handled()
    }

    /// The pointer went up, `inside` the button or not.  A press released
    /// inside activates the button, which reports `true` for its key.
    pub fn release(&mut self, inside: bool) -> (r: EventResponse)
        ensures
            !final(self).pressed,
            final(self).key == old(self).key,
            final(self).label == old(self).label,
            old(self).pressed && inside ==> emits(r, old(self).key@, true_text()),
            !(old(self).pressed && inside) ==> is_ignored(r),
    {
        let activate = self.pressed && inside;
        self.pressed = false;
        if activate {
            EventResponse::value_changed(&self.key, bool_to_string(true))
        } else {
            EventResponse::ignored()
        }
    }
}

// ---------------------------------------------------------------------------
// Toggle
// ---------------------------------------------------------------------------

/// A boolean toggle switch.
pub struct Toggle {
    pub value: bool,
    pub key: String,
}

impl Toggle {
    pub fn new(key: String, value: bool) -> (t: Self)
        ensures
            t.key == key,
            t.value == value,
    {
        Self { key, value }
    }

    /// A click released on the switch flips it and reports the new value.
    pub fn click(&mut self) -> (r: EventResponse)
        ensures
            final(self).value == !old(self).value,
            final(self).key == old(self).key,
            emits(r, old(self).key@, bool_text(!old(self).value)),
    {
        self.value = !self.value;
        EventResponse::value_changed(&self.key, bool_to_string(self.value))
    }
}

// ---------------------------------------------------------------------------
// Dropdown
// ---------------------------------------------------------------------------

/// A dropdown selector.
pub struct Dropdown {
    pub options: Vec<String>,
    pub selected: usize,
    pub key: String,
    pub open: bool,
}

impl Dropdown {
    pub fn new(key: String, options: Vec<String>, selected: usize) -> (d: Self)
        ensures
            d.key == key,
            d.options == options,
            d.selected == selected,
            !d.open,
    {
        Self { key, options, selected, open: false }
    }

    /// A click on the header opens or closes the list.
    pub fn toggle_open(&mut self) -> (r: EventResponse)
        ensures
            final(self).open == !old(self).open,
            final(self).selected == old(self).selected,
            final(self).options == old(self).options,
            final(self).key == old(self).key,
            consumed_quietly(r),
    {
        self.open = !self.open;
        EventResponse::handled()
    }

    /// A click on option `i` of the open list selects it and closes the list.
    pub fn select_option(&mut self, i: usize) -> (r: EventResponse)
        requires
            i < old(self).options@.len(),
        ensures
            final(self).selected == i,
            !final(self).open,
            final(self).options == old(self).options,
            final(self).key == old(self).key,
            emits(r, old(self).key@, old(self).options@[i as int]@),
    {
        self.selected = i;
        self.open = false;
        EventResponse::value_changed(&self.key, self.options[i].clone())
    }

    pub fn dismiss_overlay(&mut self)
        ensures
            !final(self).open,
            final(self).selected == old(self).selected,
            final(self).options == old(self).options,
            final(self).key == old(self).key,
    {
        self.open = false;
    }
}

// ---------------------------------------------------------------------------
// Text editing
// ---------------------------------------------------------------------------

/// Where inserting at character position `cursor` puts the new character:
/// past the end when the cursor is beyond it.
pub open spec fn insert_index(len: nat, cursor: nat) -> nat {
    if cursor < len {
        cursor
    } else {
        len
    }
}

/// The characters of `text` that are not control characters, in order.
pub open spec fn printable(text: Seq<char>) -> Seq<char>
    decreases text.len(),
{
    if text.len() == 0 {
        seq![]
    } else {
        (if is_control(text[0]) {
            seq![]
        } else {
            seq![text[0]]
        }) + printable(text.drop_first())
    }
}

/// Typing `text` at `cursor` into `value`: each printable character goes in
/// at the cursor (or at the end when the cursor is past it) and the cursor
/// moves one step.
pub open spec fn typed(value: Seq<char>, cursor: nat, text: Seq<char>) -> (Seq<char>, nat)
    decreases text.len(),
{
    if text.len() == 0 {
        (value, cursor)
    } else if is_control(text[0]) {
        typed(value, cursor, text.drop_first())
    } else {
        typed(
            value.insert(insert_index(value.len(), cursor) as int, text[0]),
            cursor + 1,
            text.drop_first(),
        )
    }
}

proof fn lemma_typed_bounds(value: Seq<char>, cursor: nat, text: Seq<char>)
    ensures
        typed(value, cursor, text).1 <= cursor + text.len(),
        typed(value, cursor, text).0.len() <= value.len() + text.len(),
    decreases text.len(),
{
    if text.len() > 0 {
        if is_control(text[0]) {
            lemma_typed_bounds(value, cursor, text.drop_first());
        } else {
            lemma_typed_bounds(
                value.insert(insert_index(value.len(), cursor) as int, text[0]),
                cursor + 1,
                text.drop_first(),
            );
        }
    }
}

/// Types `utf8` into `value` at `cursor`.
fn type_text(value: &mut String, cursor: &mut usize, utf8: &str)
    requires
        *old(cursor) + utf8@.len() <= usize::MAX,
    ensures
        (final(value)@, *final(cursor) as nat) == typed(old(value)@, *old(cursor) as nat, utf8@),
{
    let cs = chars_of(utf8);
    let mut i: usize = 0;
    assert(cs@.skip(0) =~= cs@);
    while i < cs.len()
        invariant
            cs@ == utf8@,
            i <= cs@.len(),
            *cursor + (cs@.len() - i) <= usize::MAX,
            typed(value@, *cursor as nat, cs@.skip(i as int)) == typed(
                old(value)@,
                *old(cursor) as nat,
                utf8@,
            ),
        decreases cs@.len() - i,
    {
        let ch = cs[i];
        assert(cs@.skip(i as int)[0] == ch);
        assert(cs@.skip(i as int).drop_first() =~= cs@.skip(i + 1));
        if !char_is_control(ch) {
            let n = char_count(value);
            let at = if *cursor < n {
                *cursor
            } else {
                n
            };
            *value = insert_char_at(value, at, ch);
            *cursor = *cursor + 1;
        }
        i = i + 1;
    }
    assert(cs@.skip(i as int) =~= Seq::<char>::empty());
}

/// The character position that `BackSpace` removes at `cursor > 0`: the one
/// before the cursor, or the first one when the cursor is past the end.
pub open spec fn backspace_index(len: nat, cursor: nat) -> nat {
    if (cursor - 1) < len {
        (cursor - 1) as nat
    } else {
        0
    }
}

pub open spec fn backspace_text() -> Seq<char> {
    seq!['B', 'a', 'c', 'k', 'S', 'p', 'a', 'c', 'e']
}

pub open spec fn delete_text() -> Seq<char> {
    seq!['D', 'e', 'l', 'e', 't', 'e']
}

pub open spec fn left_text() -> Seq<char> {
    seq!['L', 'e', 'f', 't']
}

pub open spec fn right_text() -> Seq<char> {
    seq!['R', 'i', 'g', 'h', 't']
}

pub open spec fn home_text() -> Seq<char> {
    seq!['H', 'o', 'm', 'e']
}

pub open spec fn end_text() -> Seq<char> {
    seq!['E', 'n', 'd']
}

pub open spec fn return_text() -> Seq<char> {
    seq!['R', 'e', 't', 'u', 'r', 'n']
}

pub open spec fn kp_enter_text() -> Seq<char> {
    seq!['K', 'P', '_', 'E', 'n', 't', 'e', 'r']
}

fn key_is(key: &str, name: &str, Ghost(spec_name): Ghost<Seq<char>>) -> (r: bool)
    requires
        name@ == spec_name,
    ensures
        r == (key@ == spec_name),
{
    str_eq(key, name)
}

// ---------------------------------------------------------------------------
// TextInput
// ---------------------------------------------------------------------------

/// A single-line text input field.
pub struct TextInput {
    pub value: String,
    pub key: String,
    pub focused: bool,
    pub cursor_pos: usize,
}

/// The value and cursor of a text input after the key `key` (with the text
/// `utf8` it produced) was pressed while focused.
pub open spec fn text_input_after(
    value: Seq<char>,
    cursor: nat,
    key: Seq<char>,
    utf8: Option<Seq<char>>,
) -> (Seq<char>, nat) {
    if key == backspace_text() {
        if cursor > 0 {
            (value.remove(backspace_index(value.len(), cursor) as int), (cursor - 1) as nat)
        } else {
            (value, cursor)
        }
    } else if key == delete_text() {
        if cursor < value.len() {
            (value.remove(cursor as int), cursor)
        } else {
            (value, cursor)
        }
    } else if key == left_text() {
        (value, if cursor > 0 {
            (cursor - 1) as nat
        } else {
            cursor
        })
    } else if key == right_text() {
        (value, if cursor < value.len() {
            cursor + 1
        } else {
            cursor
        })
    } else if key == home_text() {
        (value, 0)
    } else if key == end_text() {
        (value, value.len())
    } else {
        match utf8 {
            Some(t) => typed(value, cursor, t),
            None => (value, cursor),
        }
    }
}

/// `Delete` removes the character under the cursor and leaves the cursor
/// where it was; at the end of the text it does nothing.
pub proof fn law_delete_removes_char_under_cursor(value: Seq<char>, c: nat, utf8: Option<Seq<char>>)
    ensures
        c < value.len() ==> text_input_after(value, c, "Delete"@, utf8) == (
            value.subrange(0, c as int) + value.subrange(c as int + 1, value.len() as int),
            c,
        ),
        c >= value.len() ==> text_input_after(value, c, "Delete"@, utf8) == (value, c),
{
    reveal_strlit("Delete");
    reveal_strlit("BackSpace");
    assert("Delete"@ =~= delete_text());
    assert("Delete"@ != backspace_text()) by {
        assert("Delete"@.len() != backspace_text().len());
    }
    if c < value.len() {
        assert(value.remove(c as int) =~= value.subrange(0, c as int) + value.subrange(c as int + 1, value.len() as int));
    }
}

/// `BackSpace` removes the character before the cursor and moves the cursor
/// back one; at the start of the text it does nothing.
pub proof fn law_backspace_removes_char_before_cursor(value: Seq<char>, c: nat, utf8: Option<Seq<char>>)
    requires
        c <= value.len(),
    ensures
        c > 0 ==> text_input_after(value, c, "BackSpace"@, utf8) == (
            value.subrange(0, c - 1) + value.subrange(c as int, value.len() as int),
            (c - 1) as nat,
        ),
        c == 0 ==> text_input_after(value, c, "BackSpace"@, utf8) == (value, c),
{
    reveal_strlit("BackSpace");
    assert("BackSpace"@ =~= backspace_text());
    if c > 0 {
        assert(value.remove(c - 1) =~= value.subrange(0, c - 1) + value.subrange(c as int, value.len() as int));
    }
}

/// `Home` and `End` move the cursor to the start and the end without
/// changing the text.
pub proof fn law_home_end_move_cursor(value: Seq<char>, c: nat, utf8: Option<Seq<char>>)
    ensures
        text_input_after(value, c, "Home"@, utf8) == (value, 0nat),
        text_input_after(value, c, "End"@, utf8) == (value, value.len()),
{
    reveal_strlit("BackSpace");
    reveal_strlit("Delete");
    reveal_strlit("Left");
    reveal_strlit("Right");
    reveal_strlit("Home");
    reveal_strlit("End");
    assert("Home"@ =~= home_text());
    assert("End"@ =~= end_text());
    assert("Home"@ != backspace_text() && "Home"@ != delete_text() && "Home"@ != left_text() && "Home"@ != right_text()) by {
        assert("Home"@[0] != backspace_text()[0]);
        assert("Home"@[0] != delete_text()[0]);
        assert("Home"@[0] != left_text()[0]);
        assert("Home"@[0] != right_text()[0]);
    }
    assert("End"@ != backspace_text() && "End"@ != delete_text() && "End"@ != left_text() && "End"@ != right_text() && "End"@ != home_text()) by {
        assert("End"@[0] != backspace_text()[0]);
        assert("End"@.len() != delete_text().len());
        assert("End"@[0] != left_text()[0]);
        assert("End"@[0] != right_text()[0]);
        assert("End"@[0] != home_text()[0]);
    }
}

/// `Left` and `Right` move the cursor one character, stopping at the start
/// and the end, without changing the text.
pub proof fn law_left_right_move_cursor(value: Seq<char>, c: nat, utf8: Option<Seq<char>>)
    ensures
        text_input_after(value, c, "Left"@, utf8) == (value, if c > 0 { (c - 1) as nat } else { c }),
        text_input_after(value, c, "Right"@, utf8) == (value, if c < value.len() { c + 1 } else { c }),
{
    reveal_strlit("BackSpace");
    reveal_strlit("Delete");
    reveal_strlit("Left");
    reveal_strlit("Right");
    assert("Left"@ =~= left_text());
    assert("Right"@ =~= right_text());
    assert("Left"@[0] != backspace_text()[0] && "Left"@[0] != delete_text()[0]);
    assert("Right"@[0] != backspace_text()[0] && "Right"@[0] != delete_text()[0] && "Right"@[0]
        != left_text()[0]);
}

/// Typing one printable character inserts it at the cursor (within the
/// text) and moves the cursor past it.
pub proof fn law_typing_inserts_at_cursor(value: Seq<char>, c: nat, key: Seq<char>, ch: char)
    requires
        c <= value.len(),
        !is_control(ch),
        key != backspace_text() && key != delete_text() && key != left_text() && key != right_text()
            && key != home_text() && key != end_text(),
    ensures
        text_input_after(value, c, key, Some(seq![ch])) == (
            value.subrange(0, c as int) + seq![ch] + value.subrange(c as int, value.len() as int),
            c + 1,
        ),
{
    let t = seq![ch];
    assert(t.drop_first() =~= Seq::<char>::empty());
    assert(insert_index(value.len(), c) == c);
    reveal_with_fuel(typed, 2);
    assert(typed(value, c, t) == typed(value.insert(c as int, ch), c + 1, t.drop_first()));
    assert(value.insert(c as int, ch) =~= value.subrange(0, c as int) + seq![ch] + value.subrange(c as int, value.len() as int));
}

pub open spec fn opt_view(o: Option<&str>) -> Option<Seq<char>> {
    match o {
        Some(s) => Some(s@),
        None => None,
    }
}

impl TextInput {
    pub fn new(key: String, value: String) -> (t: Self)
        ensures
            t.key == key,
            t.value == value,
            !t.focused,
            t.cursor_pos == 0,
    {
        Self { key, value, focused: false, cursor_pos: 0 }
    }

    /// A pointer press, `inside` the field or not, moves the focus.  The
    /// event is reported only when the focus changed, and consumed only when
    /// the field gained it.
    pub fn pointer_down(&mut self, inside: bool) -> (r: Option<EventResponse>)
        ensures
            final(self).focused == inside,
            final(self).value == old(self).value,
            final(self).cursor_pos == old(self).cursor_pos,
            final(self).key == old(self).key,
            old(self).focused != inside ==> (r matches Some(e) && e.consumed == inside
                && e.action is None),
            old(self).focused == inside ==> r is None,
    {
        let was_focused = self.focused;
        self.focused = inside;
        if was_focused != self.focused {
            Some(EventResponse { consumed: self.focused, action: None })
        } else {
            None
        }
    }

    /// A key press while focused edits the text and reports the new value;
    /// without the focus the key is ignored.
    pub fn key_press(&mut self, key: &str, utf8: Option<&str>) -> (r: EventResponse)
        requires
            old(self).focused && key@ == backspace_text() && old(self).cursor_pos > 0
                ==> old(self).value@.len() > 0,
            old(self).focused ==> (utf8 matches Some(t) ==> old(self).cursor_pos + t@.len()
                <= usize::MAX),
        ensures
            !old(self).focused ==> is_ignored(r) && *final(self) == *old(self),
            old(self).focused ==> (final(self).value@, final(self).cursor_pos as nat)
                == text_input_after(
                old(self).value@,
                old(self).cursor_pos as nat,
                key@,
                opt_view(utf8),
            ) && final(self).focused && emits(r, old(self).key@, final(self).value@),
            final(self).key == old(self).key,
    {
        if !self.focused {
            return EventResponse::ignored();
        }
        proof {
            reveal_strlit("BackSpace");
            reveal_strlit("Delete");
            reveal_strlit("Left");
            reveal_strlit("Right");
            reveal_strlit("Home");
            reveal_strlit("End");
            assert("BackSpace"@ =~= backspace_text());
            assert("Delete"@ =~= delete_text());
            assert("Left"@ =~= left_text());
            assert("Right"@ =~= right_text());
            assert("Home"@ =~= home_text());
            assert("End"@ =~= end_text());
        }
        let n = char_count(&self.value);
        if key_is(key, "BackSpace", Ghost(backspace_text())) {
            if self.cursor_pos > 0 {
                let at = if self.cursor_pos - 1 < n {
                    self.cursor_pos - 1
                } else {
                    0
                };
                self.value = remove_char_at(&self.value, at);
                self.cursor_pos = self.cursor_pos - 1;
            }
        } else if key_is(key, "Delete", Ghost(delete_text())) {
            if self.cursor_pos < n {
                self.value = remove_char_at(&self.value, self.cursor_pos);
            }
        } else if key_is(key, "Left", Ghost(left_text())) {
            if self.cursor_pos > 0 {
                self.cursor_pos = self.cursor_pos - 1;
            }
        } else if key_is(key, "Right", Ghost(right_text())) {
            if self.cursor_pos < n {
                self.cursor_pos = self.cursor_pos + 1;
            }
        } else if key_is(key, "Home", Ghost(home_text())) {
            self.cursor_pos = 0;
        } else if key_is(key, "End", Ghost(end_text())) {
            self.cursor_pos = n;
        } else {
            if let Some(s) = utf8 {
                type_text(&mut self.value, &mut self.cursor_pos, s);
            }
        }
        EventResponse::value_changed(&self.key, self.value.clone())
    }
}

// ---------------------------------------------------------------------------
// SearchableDropdown
// ---------------------------------------------------------------------------

/// A searchable dropdown with type-to-filter and an "Other..." manual entry.
///
/// `options` is a list of `(value, display_label)` pairs. The value stored and
/// emitted in `ValueChanged` is always the first element of the pair.
pub struct SearchableDropdown {
    pub options: Vec<(String, String)>,
    pub selected_value: String,
    pub key: String,
    pub open: bool,
    pub filter_text: String,
    pub filtered_indices: Vec<usize>,
    pub custom_mode: bool,
    pub custom_value: String,
    pub custom_cursor: usize,
}

/// Whether option `(value, label)` passes the (already lowercased) filter.
pub open spec fn option_matches(value: Seq<char>, label: Seq<char>, filter: Seq<char>) -> bool {
    filter.len() == 0 || contains_seq(lowercase(value), filter) || contains_seq(
        lowercase(label),
        filter,
    )
}

/// The indices, in increasing order, of the options among the first `n`
/// that pass `filter`.
pub open spec fn matching_indices(
    options: Seq<(String, String)>,
    filter: Seq<char>,
    n: nat,
) -> Seq<usize>
    decreases n,
{
    if n == 0 || n > options.len() {
        seq![]
    } else {
        let i = (n - 1) as nat;
        matching_indices(options, filter, i) + if option_matches(
            options[i as int].0@,
            options[i as int].1@,
            filter,
        ) {
            seq![i as usize]
        } else {
            seq![]
        }
    }
}

/// The indices of all options that pass the lowercased filter text.
pub open spec fn filter_result(options: Seq<(String, String)>, filter_text: Seq<char>) -> Seq<usize> {
    matching_indices(options, lowercase(filter_text), options.len())
}

/// The label shown for `selected`: that of the first option with that value,
/// or the value itself.
pub open spec fn label_for(options: Seq<(String, String)>, selected: Seq<char>) -> Seq<char>
    decreases options.len(),
{
    if options.len() == 0 {
        selected
    } else if options[0].0@ == selected {
        options[0].1@
    } else {
        label_for(options.drop_first(), selected)
    }
}

/// The fields that an edit of the dropdown leaves alone.
pub open spec fn same_options(a: SearchableDropdown, b: SearchableDropdown) -> bool {
    a.options == b.options && a.key == b.key
}

pub open spec fn indices_valid(d: SearchableDropdown) -> bool {
    forall|i: int| 0 <= i < d.filtered_indices@.len() ==> d.filtered_indices@[i] < d.options@.len()
}

proof fn lemma_matching_indices_valid(options: Seq<(String, String)>, filter: Seq<char>, n: nat)
    requires
        n <= options.len(),
        options.len() <= usize::MAX,
    ensures
        forall|i: int|
            0 <= i < matching_indices(options, filter, n).len() ==> matching_indices(
                options,
                filter,
                n,
            )[i] < n,
    decreases n,
{
    if n > 0 {
        let m = (n - 1) as nat;
        lemma_matching_indices_valid(options, filter, m);
        let a = matching_indices(options, filter, m);
        let b = if option_matches(options[m as int].0@, options[m as int].1@, filter) {
            seq![m as usize]
        } else {
            Seq::<usize>::empty()
        };
        assert(matching_indices(options, filter, n) == a + b);
        assert forall|i: int| 0 <= i < (a + b).len() implies (a + b)[i] < n by {
            if i >= a.len() {
                assert((a + b)[i] == b[i - a.len()]);
            }
        }
    }
}

/// With an empty filter every option passes, in order.
proof fn lemma_empty_filter_lists_all(options: Seq<(String, String)>, filter: Seq<char>, n: nat)
    requires
        filter.len() == 0,
        n <= options.len(),
    ensures
        matching_indices(options, filter, n) == Seq::new(n, |i: int| i as usize),
    decreases n,
{
    if n > 0 {
        lemma_empty_filter_lists_all(options, filter, (n - 1) as nat);
        assert(matching_indices(options, filter, n) =~= Seq::new(n, |i: int| i as usize));
    }
}

impl SearchableDropdown {
    pub fn new(key: String, options: Vec<(String, String)>, initial_value: String) -> (d: Self)
        ensures
            d.key == key,
            d.options == options,
            d.selected_value == initial_value,
            !d.open,
            d.filter_text@.len() == 0,
            d.filtered_indices@ == filter_result(options@, d.filter_text@),
            !d.custom_mode,
            d.custom_value@.len() == 0,
            d.custom_cursor == 0,
            indices_valid(d),
            d.filtered_indices@ == Seq::new(options@.len(), |i: int| i as usize),
    {
        let mut sd = Self {
            options,
            selected_value: initial_value,
            key,
            open: false,
            filter_text: String::new(),
            filtered_indices: Vec::new(),
            custom_mode: false,
            custom_value: String::new(),
            custom_cursor: 0,
        };
        sd.rebuild_filter();
        proof {
            lemma_empty_filter_lists_all(sd.options@, lowercase(sd.filter_text@), sd.options@.len());
        }
        sd
    }

    /// The label shown in the closed header.
    pub fn display_label(&self) -> (r: &str)
        ensures
            r@ == label_for(self.options@, self.selected_value@),
    {
        let mut i: usize = 0;
        assert(self.options@.skip(0) =~= self.options@);
        while i < self.options.len()
            invariant
                i <= self.options@.len(),
                label_for(self.options@.skip(i as int), self.selected_value@) == label_for(
                    self.options@,
                    self.selected_value@,
                ),
            decreases self.options@.len() - i,
        {
            assert(self.options@.skip(i as int)[0] == self.options@[i as int]);
            assert(self.options@.skip(i as int).drop_first() =~= self.options@.skip(i + 1));
            if str_eq(self.options[i].0.as_str(), self.selected_value.as_str()) {
                return self.options[i].1.as_str();
            }
            i = i + 1;
        }
        assert(self.options@.skip(i as int) =~= Seq::<(String, String)>::empty());
        self.selected_value.as_str()
    }

    /// Recompute which options pass the current filter text.
    pub fn rebuild_filter(&mut self)
        ensures
            final(self).filtered_indices@ == filter_result(old(self).options@, old(self).filter_text@),
            old(self).filter_text@.len() == 0 ==> lowercase(old(self).filter_text@).len() == 0,
            indices_valid(*final(self)),
            final(self).options == old(self).options,
            final(self).key == old(self).key,
            final(self).selected_value == old(self).selected_value,
            final(self).open == old(self).open,
            final(self).filter_text == old(self).filter_text,
            final(self).custom_mode == old(self).custom_mode,
            final(self).custom_value == old(self).custom_value,
            final(self).custom_cursor == old(self).custom_cursor,
    {
        let filter = to_lowercase(self.filter_text.as_str());
        let mut out: Vec<usize> = Vec::new();
        let mut i: usize = 0;
        while i < self.options.len()
            invariant
                i <= self.options@.len(),
                filter@ == lowercase(self.filter_text@),
                out@ == matching_indices(self.options@, filter@, i as nat),
            decreases self.options@.len() - i,
        {
            let pass = filter.as_str().is_empty() || {
                let v = to_lowercase(self.options[i].0.as_str());
                str_contains(v.as_str(), filter.as_str())
            } || {
                let l = to_lowercase(self.options[i].1.as_str());
                str_contains(l.as_str(), filter.as_str())
            };
            if pass {
                out.push(i);
            }
            assert(out@ =~= matching_indices(self.options@, filter@, (i + 1) as nat));
            i = i + 1;
        }
        proof {
            lemma_matching_indices_valid(self.options@, filter@, self.options@.len());
        }
        self.filtered_indices = out;
    }

    /// Close the list, clearing the filter and leaving manual entry.
    pub fn dismiss_overlay(&mut self)
        ensures
            !final(self).open,
            final(self).filter_text@.len() == 0,
            !final(self).custom_mode,
            final(self).filtered_indices@ == filter_result(old(self).options@, final(self).filter_text@),
            indices_valid(*final(self)),
            same_options(*final(self), *old(self)),
            final(self).selected_value == old(self).selected_value,
            final(self).custom_value == old(self).custom_value,
            final(self).custom_cursor == old(self).custom_cursor,
    {
        self.open = false;
        self.filter_text = String::new();
        self.custom_mode = false;
        self.rebuild_filter();
    }

    /// A click on the header opens the list, leaving the filter, the
    /// filtered list and manual entry as they were, or closes it as
    /// `dismiss_overlay` does.
    pub fn click_header(&mut self) -> (r: EventResponse)
        ensures
            final(self).open == !old(self).open,
            same_options(*final(self), *old(self)),
            final(self).selected_value == old(self).selected_value,
            old(self).open ==> final(self).filter_text@.len() == 0 && !final(self).custom_mode
                && final(self).filtered_indices@ == filter_result(old(self).options@, seq![])
                && indices_valid(*final(self)) && final(self).custom_value == old(self).custom_value
                && final(self).custom_cursor == old(self).custom_cursor,
            !old(self).open ==> *final(self) == (SearchableDropdown { open: true, ..*old(self) }),
            indices_valid(*old(self)) ==> indices_valid(*final(self)),
            consumed_quietly(r),
    {
        if self.open {
            self.dismiss_overlay();
            assert(self.filter_text@ =~= Seq::<char>::empty());
        } else {
            self.open = true;
        }
        EventResponse::handled()
    }

    /// A click on the visible option in `slot` of the filtered list selects
    /// that option's value and closes the list.
    pub fn click_option(&mut self, slot: usize) -> (r: EventResponse)
        requires
            slot < old(self).filtered_indices@.len(),
            indices_valid(*old(self)),
        ensures
            ({
                let chosen = old(self).options@[old(self).filtered_indices@[slot as int] as int].0@;
                &&& final(self).selected_value@ == chosen
                &&& emits(r, old(self).key@, chosen)
            }),
            !final(self).open,
            !final(self).custom_mode,
            final(self).filter_text@.len() == 0,
            final(self).filtered_indices@ == filter_result(old(self).options@, seq![]),
            indices_valid(*final(self)),
            same_options(*final(self), *old(self)),
    {
        let idx = self.filtered_indices[slot];
        let emitted = self.options[idx].0.clone();
        self.selected_value = emitted.clone();
        self.dismiss_overlay();
        assert(self.filter_text@ =~= Seq::<char>::empty());
        EventResponse::value_changed(&self.key, emitted)
    }

    /// A click on the "Other..." row: enters manual entry seeded with the
    /// selected value, or commits the manual value when already entering.
    pub fn click_other(&mut self) -> (r: EventResponse)
        ensures
            old(self).custom_mode ==> final(self).selected_value@ == old(self).custom_value@
                && emits(r, old(self).key@, old(self).custom_value@) && !final(self).open
                && !final(self).custom_mode,
            old(self).custom_mode ==> final(self).filter_text@.len() == 0
                && final(self).filtered_indices@ == filter_result(old(self).options@, seq![]),
            !old(self).custom_mode ==> final(self).custom_mode && final(self).custom_value@
                == old(self).selected_value@ && final(self).custom_cursor
                == old(self).selected_value@.len() && consumed_quietly(r) && final(self).open
                == old(self).open && final(self).selected_value == old(self).selected_value
                && final(self).filter_text == old(self).filter_text
                && final(self).filtered_indices == old(self).filtered_indices,
            indices_valid(*old(self)) ==> indices_valid(*final(self)),
            same_options(*final(self), *old(self)),
    {
        if self.custom_mode {
            let emitted = self.custom_value.clone();
            self.selected_value = emitted.clone();
            self.dismiss_overlay();
            assert(self.filter_text@ =~= Seq::<char>::empty());
            EventResponse::value_changed(&self.key, emitted)
        } else {
            self.custom_mode = true;
            self.custom_value = self.selected_value.clone();
            self.custom_cursor = char_count(&self.custom_value);
            EventResponse::handled()
        }
    }

    /// A key press.  While the list is closed, and for a key that does
    /// nothing, the event is ignored.
    pub fn key_press(&mut self, key: &str, utf8: Option<&str>) -> (r: EventResponse)
        requires
            indices_valid(*old(self)),
            old(self).open && key@ == backspace_text() && old(self).custom_mode && old(
                self,
            ).custom_cursor > 0 ==> old(self).custom_value@.len() > 0,
            old(self).open ==> (utf8 matches Some(t) ==> old(self).custom_cursor + t@.len()
                <= usize::MAX),
        ensures
            same_options(*final(self), *old(self)),
            indices_valid(*final(self)),
            !old(self).open ==> is_ignored(r) && *final(self) == *old(self),
            old(self).open ==> key_press_opened(*old(self), *final(self), key@, opt_view(utf8), r),
    {
        if !self.open {
            return EventResponse::ignored();
        }
        self.key_press_open(key, utf8)
    }

    /// `key_press` with the list open.
    fn key_press_open(&mut self, key: &str, utf8: Option<&str>) -> (r: EventResponse)
        requires
            old(self).open,
            indices_valid(*old(self)),
            key@ == backspace_text() && old(self).custom_mode && old(self).custom_cursor > 0
                ==> old(self).custom_value@.len() > 0,
            utf8 matches Some(t) ==> old(self).custom_cursor + t@.len() <= usize::MAX,
        ensures
            same_options(*final(self), *old(self)),
            indices_valid(*final(self)),
            key_press_opened(*old(self), *final(self), key@, opt_view(utf8), r),
    {
        proof {
            reveal_strlit("BackSpace");
            reveal_strlit("Return");
            reveal_strlit("KP_Enter");
            assert("BackSpace"@ =~= backspace_text());
            assert("Return"@ =~= return_text());
            assert("KP_Enter"@ =~= kp_enter_text());
        }
        if key_is(key, "BackSpace", Ghost(backspace_text())) {
            if self.custom_mode {
                if self.custom_cursor > 0 {
                    let n = char_count(&self.custom_value);
                    let at = if self.custom_cursor - 1 < n {
                        self.custom_cursor - 1
                    } else {
                        0
                    };
                    self.custom_value = remove_char_at(&self.custom_value, at);
                    self.custom_cursor = self.custom_cursor - 1;
                }
            } else {
                let n = char_count(&self.filter_text);
                if n > 0 {
                    self.filter_text = remove_char_at(&self.filter_text, n - 1);
                    assert(self.filter_text@ =~= old(self).filter_text@.drop_last());
                }
                self.rebuild_filter();
            }
            return EventResponse::handled();
        }
        if key_is(key, "Return", Ghost(return_text())) || key_is(
            key,
            "KP_Enter",
            Ghost(kp_enter_text()),
        ) {
            if self.custom_mode {
                let emitted = self.custom_value.clone();
                self.selected_value = emitted.clone();
                self.dismiss_overlay();
                assert(self.filter_text@ =~= Seq::<char>::empty());
                return EventResponse::value_changed(&self.key, emitted);
            } else if self.filtered_indices.len() > 0 {
                let idx = self.filtered_indices[0];
                let emitted = self.options[idx].0.clone();
                self.selected_value = emitted.clone();
                self.dismiss_overlay();
                assert(self.filter_text@ =~= Seq::<char>::empty());
                return EventResponse::value_changed(&self.key, emitted);
            }
            return EventResponse::ignored();
        }
        match utf8 {
            Some(s) => {
                if self.custom_mode {
                    type_text(&mut self.custom_value, &mut self.custom_cursor, s);
                } else {
                    self.filter_text = append_printable(&self.filter_text, s);
                    self.rebuild_filter();
                }
                EventResponse::handled()
            },
            None => EventResponse::ignored(),
        }
    }
}

/// What a key press does to an open searchable dropdown `old`, giving `new`
/// and the response `r`.
pub open spec fn key_press_opened(
    old: SearchableDropdown,
    new: SearchableDropdown,
    key: Seq<char>,
    utf8: Option<Seq<char>>,
    r: EventResponse,
) -> bool {
    &&& key == backspace_text() ==> consumed_quietly(r) && new.open && new.custom_mode
        == old.custom_mode && new.selected_value == old.selected_value && if old.custom_mode {
        &&& (new.custom_value@, new.custom_cursor as nat) == text_input_after(
            old.custom_value@,
            old.custom_cursor as nat,
            key,
            None,
        )
        &&& new.filter_text == old.filter_text
        &&& new.filtered_indices == old.filtered_indices
    } else {
        new.filter_text@ == (if old.filter_text@.len() > 0 {
            old.filter_text@.drop_last()
        } else {
            old.filter_text@
        }) && new.filtered_indices@ == filter_result(old.options@, new.filter_text@)
    }
    &&& (key == return_text() || key == kp_enter_text()) ==> if old.custom_mode
        || old.filtered_indices@.len() > 0 {
        let chosen = if old.custom_mode {
            old.custom_value@
        } else {
            old.options@[old.filtered_indices@[0] as int].0@
        };
        &&& new.selected_value@ == chosen
        &&& emits(r, old.key@, chosen)
        &&& !new.open
        &&& !new.custom_mode
        &&& new.filter_text@.len() == 0
        &&& new.filtered_indices@ == filter_result(old.options@, seq![])
        &&& new.custom_value == old.custom_value
        &&& new.custom_cursor == old.custom_cursor
    } else {
        is_ignored(r) && new == old
    }
    &&& (key != backspace_text() && key != return_text() && key != kp_enter_text()) ==> (
    match utf8 {
        Some(t) => consumed_quietly(r) && new.open && new.custom_mode == old.custom_mode
            && new.selected_value == old.selected_value && if old.custom_mode {
            &&& (new.custom_value@, new.custom_cursor as nat) == typed(
                old.custom_value@,
                old.custom_cursor as nat,
                t,
            )
            &&& new.filter_text == old.filter_text
            &&& new.filtered_indices == old.filtered_indices
        } else {
            &&& new.filter_text@ == old.filter_text@ + printable(t)
            &&& new.filtered_indices@ == filter_result(old.options@, new.filter_text@)
            &&& new.custom_value == old.custom_value
            &&& new.custom_cursor == old.custom_cursor
        },
        None => is_ignored(r) && new == old,
    })
}

/// `base` followed by the printable characters of `text`.
fn append_printable(base: &String, text: &str) -> (r: String)
    ensures
        r@ == base@ + printable(text@),
{
    let cs = chars_of(text);
    let mut r = base.clone();
    let mut i: usize = 0;
    assert(cs@.skip(0) =~= cs@);
    while i < cs.len()
        invariant
            cs@ == text@,
            i <= cs@.len(),
            r@ + printable(cs@.skip(i as int)) == base@ + printable(text@),
        decreases cs@.len() - i,
    {
        let ch = cs[i];
        assert(cs@.skip(i as int)[0] == ch);
        assert(cs@.skip(i as int).drop_first() =~= cs@.skip(i + 1));
        let ghost before = r@;
        if !char_is_control(ch) {
            r = insert_char_at(&r, char_count(&r), ch);
            assert(r@ =~= before + seq![ch]);
        }
        assert(before + printable(cs@.skip(i as int)) =~= r@ + printable(cs@.skip(i + 1)));
        i = i + 1;
    }
    assert(cs@.skip(i as int) =~= Seq::<char>::empty());
    assert(r@ + printable(Seq::<char>::empty()) =~= r@);
    r
}

// ---------------------------------------------------------------------------
// SectionHeader
// ---------------------------------------------------------------------------

/// A labelled section divider.
pub struct SectionHeader {
    pub title: String,
}

impl SectionHeader {
    pub fn new(title: String) -> (h: Self)
        ensures
            h.title == title,
    {
        Self { title }
    }
}

} // verus!
