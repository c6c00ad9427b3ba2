//! The inline color picker's state: its value, whether it is expanded, the
//! hex text field and what the pointer drags.  The saturation/value square
//! and the hue and alpha bars are floating-point geometry and HSV
//! arithmetic that stay with the renderer: it decides which control an event
//! hit and what color a pointer position stands for, and hands that color
//! (rounded to 8-bit channels) to the picker.
use vstd::prelude::*;
use vstd::utf8::encode_utf8;

use crate::color::{hex_parse_safe, hex_text, spec_from_hex, HexColor};
use crate::text::{char_count, char_is_control, chars_of, is_control, push_char, remove_char_at};
use crate::widget::{
    backspace_text, consumed_quietly, emits, is_ignored, kp_enter_text, return_text, EventResponse,
};

verus! {

broadcast use {vstd::seq::group_seq_axioms, vstd::string::group_string_axioms};

/// The controls of the expanded picker that a press can start dragging.
#[derive(Debug, Clone, Copy, PartialEq, Eq)]
pub enum PickerControl {
    SvSquare,
    HueBar,
    AlphaBar,
}

/// Where a pointer release landed, as the renderer's hit-test found it.
#[derive(Debug, Clone, Copy, PartialEq, Eq)]
pub enum PickerSpot {
    /// The collapsed swatch and hex text at the top.
    Header,
    /// The button next to the hex field.
    ApplyButton,
    /// The hex text field.
    HexInput,
    /// Anywhere else.
    Other,
}

/// The hex field after typing `chars`: each printable character is added
/// while the text is shorter than 9 bytes.
pub open spec fn hex_typed(text: Seq<char>, chars: Seq<char>) -> Seq<char>
    decreases chars.len(),
{
    if chars.len() == 0 {
        text
    } else {
        let next = if !is_control(chars[0]) && encode_utf8(text).len() < 9 {
            text.push(chars[0])
        } else {
            text
        };
        hex_typed(next, chars.drop_first())
    }
}

/// Types `utf8` into the hex field `text`.
fn type_hex(text: &mut String, utf8: &str)
    ensures
        final(text)@ == hex_typed(old(text)@, utf8@),
{
    let cs = chars_of(utf8);
    let mut i: usize = 0;
    assert(cs@.skip(0) =~= cs@);
    while i < cs.len()
        invariant
            cs@ == utf8@,
            i <= cs@.len(),
            hex_typed(text@, cs@.skip(i as int)) == hex_typed(old(text)@, utf8@),
        decreases cs@.len() - i,
    {
        let ch = cs[i];
        assert(cs@.skip(i as int)[0] == ch);
        assert(cs@.skip(i as int).drop_first() =~= cs@.skip(i + 1));
        let bytes = text.as_str().as_bytes().len();
        assert(bytes == encode_utf8(text@).len());
        if !char_is_control(ch) && bytes < 9 {
            push_char(text, ch);
        }
        i = i + 1;
    }
    assert(cs@.skip(i as int) =~= Seq::<char>::empty());
}

/// An inline color picker that collapses to a swatch with its hex text and
/// expands to an HSV editor with a hex field.
pub struct InlineColorPicker {
    pub value: HexColor,
    pub key: String,
    pub expanded: bool,
    /// The text in the hex field.
    pub hex_input: String,
    /// Whether the hex field has the keyboard focus.
    pub hex_focused: bool,
    /// The control the pointer is dragging, if any.
    pub dragging: Option<PickerControl>,
}

impl InlineColorPicker {
    /// A collapsed picker showing `value`.
    pub fn new(key: String, value: HexColor) -> (p: Self)
        ensures
            p.key == key,
            p.value == value,
            p.hex_input@ == hex_text(value),
            !p.expanded,
            !p.hex_focused,
            p.dragging is None,
    {
        let hex_input = value.to_hex();
        InlineColorPicker { value, key, expanded: false, hex_input, hex_focused: false, dragging: None }
    }

    /// Shows `color`, set from elsewhere (a preset, say).
    pub fn set_color(&mut self, color: HexColor)
        ensures
            final(self).value == color,
            final(self).hex_input@ == hex_text(color),
            final(self).key == old(self).key,
            final(self).expanded == old(self).expanded,
            final(self).hex_focused == old(self).hex_focused,
            final(self).dragging == old(self).dragging,
    {
        self.value = color;
        self.hex_input = color.to_hex();
    }

    /// Whether the expanded editor is showing over the widgets below.
    pub fn has_overlay(&self) -> (r: bool)
        ensures
            r == self.expanded,
    {
        self.expanded
    }

    /// Collapses the picker: the hex field loses the focus and any drag ends.
    pub fn dismiss_overlay(&mut self)
        ensures
            !final(self).expanded,
            !final(self).hex_focused,
            final(self).dragging is None,
            final(self).value == old(self).value,
            final(self).hex_input == old(self).hex_input,
            final(self).key == old(self).key,
    {
        self.expanded = false;
        self.hex_focused = false;
        self.dragging = None;
    }

    /// Takes the color in the hex field: on success it becomes the value
    /// and the change is reported; text that is no color changes nothing.
    fn apply_hex(&mut self) -> (r: EventResponse)
        requires
            hex_parse_safe(old(self).hex_input@),
        ensures
            match spec_from_hex(old(self).hex_input@) {
                Some(c) => final(self).value == c && emits(r, old(self).key@, hex_text(c)),
                None => final(self).value == old(self).value && consumed_quietly(r),
            },
            final(self).hex_input == old(self).hex_input,
            final(self).key == old(self).key,
            final(self).expanded == old(self).expanded,
            final(self).hex_focused == old(self).hex_focused,
            final(self).dragging == old(self).dragging,
    {
        match HexColor::from_hex(self.hex_input.as_str()) {
            Ok(c) => {
                self.value = c;
                EventResponse::value_changed(&self.key, c.to_hex())
            },
            Err(_) => EventResponse::handled(),
        }
    }

    /// A pointer release on `spot`.  A release that ends a drag only ends
    /// it.  Otherwise the header opens or closes the editor (and takes the
    /// focus from the hex field); in the open editor the apply button takes
    /// the hex text, the hex field takes the focus, and anywhere else drops
    /// it.
    pub fn pointer_up(&mut self, spot: PickerSpot) -> (r: EventResponse)
        requires
            old(self).dragging is None && spot == PickerSpot::ApplyButton && old(self).expanded
                ==> hex_parse_safe(old(self).hex_input@),
        ensures
            final(self).key == old(self).key,
            final(self).hex_input == old(self).hex_input,
            final(self).dragging is None,
            old(self).dragging is Some ==> {
                &&& consumed_quietly(r)
                &&& final(self).value == old(self).value
                &&& final(self).expanded == old(self).expanded
                &&& final(self).hex_focused == old(self).hex_focused
            },
            old(self).dragging is None ==> match spot {
                PickerSpot::Header => {
                    &&& consumed_quietly(r)
                    &&& final(self).expanded == !old(self).expanded
                    &&& !final(self).hex_focused
                    &&& final(self).value == old(self).value
                },
                PickerSpot::ApplyButton if old(self).expanded => {
                    &&& final(self).expanded
                    &&& final(self).hex_focused == old(self).hex_focused
                    &&& match spec_from_hex(old(self).hex_input@) {
                        Some(c) => final(self).value == c && emits(r, old(self).key@, hex_text(c)),
                        None => final(self).value == old(self).value && consumed_quietly(r),
                    }
                },
                PickerSpot::HexInput if old(self).expanded => {
                    &&& consumed_quietly(r)
                    &&& final(self).expanded
                    &&& final(self).hex_focused
                    &&& final(self).value == old(self).value
                },
                _ => {
                    &&& is_ignored(r)
                    &&& final(self).expanded == old(self).expanded
                    &&& final(self).hex_focused == (old(self).hex_focused && !old(self).expanded)
                    &&& final(self).value == old(self).value
                },
            },
    {
        if self.dragging.is_some() {
            self.dragging = None;
            return EventResponse::handled();
        }
        match spot {
            PickerSpot::Header => {
                self.expanded = !self.expanded;
                self.hex_focused = false;
                EventResponse::handled()
            },
            _ => {
                if !self.expanded {
                    return EventResponse::ignored();
                }
                match spot {
                    PickerSpot::ApplyButton => self.apply_hex(),
                    PickerSpot::HexInput => {
                        self.hex_focused = true;
                        EventResponse::handled()
                    },
                    _ => {
                        self.hex_focused = false;
                        EventResponse::ignored()
                    },
                }
            },
        }
    }

    /// A pointer press in the open editor: on one of its controls (`hit`,
    /// with the color that position stands for) the drag starts and the
    /// color is taken; elsewhere, or with the editor closed, nothing happens.
    pub fn pointer_down(&mut self, hit: Option<(PickerControl, HexColor)>) -> (r: EventResponse)
        ensures
            final(self).key == old(self).key,
            final(self).expanded == old(self).expanded,
            final(self).hex_focused == old(self).hex_focused,
            match hit {
                Some((control, color)) if old(self).expanded => {
                    &&& final(self).dragging == Some(control)
                    &&& final(self).value == color
                    &&& final(self).hex_input@ == hex_text(color)
                    &&& emits(r, old(self).key@, hex_text(color))
                },
                _ => {
                    &&& is_ignored(r)
                    &&& final(self).dragging == old(self).dragging
                    &&& final(self).value == old(self).value
                    &&& final(self).hex_input == old(self).hex_input
                },
            },
    {
        if !self.expanded {
            return EventResponse::ignored();
        }
        match hit {
            Some((control, color)) => {
                self.dragging = Some(control);
                self.value = color;
                self.hex_input = color.to_hex();
                EventResponse::value_changed(&self.key, self.hex_input.clone())
            },
            None => EventResponse::ignored(),
        }
    }

    /// A pointer move while dragging in the open editor takes `color`, the
    /// color the new position stands for on the dragged control.
    pub fn pointer_move(&mut self, color: HexColor) -> (r: EventResponse)
        ensures
            final(self).key == old(self).key,
            final(self).expanded == old(self).expanded,
            final(self).hex_focused == old(self).hex_focused,
            final(self).dragging == old(self).dragging,
            if old(self).dragging is Some && old(self).expanded {
                &&& final(self).value == color
                &&& final(self).hex_input@ == hex_text(color)
                &&& emits(r, old(self).key@, hex_text(color))
            } else {
                &&& is_ignored(r)
                &&& final(self).value == old(self).value
                &&& final(self).hex_input == old(self).hex_input
            },
    {
        if self.dragging.is_none() || !self.expanded {
            return EventResponse::ignored();
        }
        self.value = color;
        self.hex_input = color.to_hex();
        EventResponse::value_changed(&self.key, self.hex_input.clone())
    }

    /// A key press while the hex field has the focus: `BackSpace` removes
    /// the last character, `Return` or `KP_Enter` takes the text as the
    /// color, and any other key types its printable text while the field
    /// holds fewer than 9 bytes.  Without the focus the key is ignored.
    pub fn key_press(&mut self, key: &str, utf8: Option<&str>) -> (r: EventResponse)
        requires
            old(self).hex_focused && (key@ == return_text() || key@ == kp_enter_text())
                ==> hex_parse_safe(old(self).hex_input@),
        ensures
            final(self).key == old(self).key,
            final(self).expanded == old(self).expanded,
            final(self).hex_focused == old(self).hex_focused,
            final(self).dragging == old(self).dragging,
            !old(self).hex_focused ==> {
                &&& is_ignored(r)
                &&& final(self).value == old(self).value
                &&& final(self).hex_input == old(self).hex_input
            },
            old(self).hex_focused ==> if key@ == backspace_text() {
                &&& consumed_quietly(r)
                &&& final(self).value == old(self).value
                &&& final(self).hex_input@ == (if old(self).hex_input@.len() > 0 {
                    old(self).hex_input@.drop_last()
                } else {
                    old(self).hex_input@
                })
            } else if key@ == return_text() || key@ == kp_enter_text() {
                &&& final(self).hex_input == old(self).hex_input
                &&& match spec_from_hex(old(self).hex_input@) {
                    Some(c) => final(self).value == c && emits(r, old(self).key@, hex_text(c)),
                    None => final(self).value == old(self).value && consumed_quietly(r),
                }
            } else {
                &&& consumed_quietly(r)
                &&& final(self).value == old(self).value
                &&& final(self).hex_input@ == match utf8 {
                    Some(t) => hex_typed(old(self).hex_input@, t@),
                    None => old(self).hex_input@,
                }
            },
    {
        if !self.hex_focused {
            return EventResponse::ignored();
        }
        proof {
            reveal_strlit("BackSpace");
            reveal_strlit("Return");
            reveal_strlit("KP_Enter");
            assert("BackSpace"@ =~= backspace_text());
            assert("Return"@ =~= return_text());
            assert("KP_Enter"@ =~= kp_enter_text());
        }
        if crate::text::str_eq(key, "BackSpace") {
            let n = char_count(&self.hex_input);
            if n > 0 {
                self.hex_input = remove_char_at(&self.hex_input, n - 1);
                assert(self.hex_input@ =~= old(self).hex_input@.drop_last());
            }
            EventResponse::handled()
        } else if crate::text::str_eq(key, "Return") || crate::text::str_eq(key, "KP_Enter") {
            self.apply_hex()
        } else {
            if let Some(s) = utf8 {
                type_hex(&mut self.hex_input, s);
            }
            EventResponse::handled()
        }
    }
}

} // verus!
