//! A settings form: its rows, the row with the keyboard focus and the row
//! whose widget holds the pointer.  Where each row lies on screen is
//! floating-point geometry that stays with the renderer; it tells the form
//! which row an event reached and hands back that row widget's response.
use vstd::prelude::*;

use crate::color::{hex_parse_safe, hex_text, spec_from_hex, spec_from_rgba, HexColor};
use crate::color_picker::InlineColorPicker;
use crate::display::strings_view;
use crate::hyprdeck::clone_strings;
use crate::hyprsaver::{int_text, int_to_string};
use crate::panels::{pairs_view, FieldType, PanelField};
use crate::text::{lowercase, str_eq, to_lowercase};
use crate::widget::{
    filter_result, indices_valid, Button, Dropdown, EventResponse, SearchableDropdown, TextInput,
    Toggle, WidgetAction,
};

verus! {

broadcast use vstd::string::group_string_axioms;

/// The field after its widget answered `r`: a value change becomes the
/// field's current value, anything else leaves it as it was.
pub open spec fn after_response(f: PanelField, r: EventResponse) -> PanelField {
    match r.action {
        Some(WidgetAction::ValueChanged { value, .. }) => PanelField { current_value: value, ..f },
        _ => f,
    }
}

/// The rows of a settings form, in order, with the focused row and the row
/// whose widget is being dragged.
pub struct FormLayout {
    rows: Vec<PanelField>,
    focused_row: Option<usize>,
    dragging_widget: Option<usize>,
}

impl FormLayout {
    /// The focused and the dragged row, when there are such, are rows of
    /// the form.
    pub closed spec fn wf(&self) -> bool {
        &&& (self.focused_row matches Some(i) ==> i < self.rows@.len())
        &&& (self.dragging_widget matches Some(i) ==> i < self.rows@.len())
    }

    /// The rows' fields, in order.
    pub closed spec fn fields(&self) -> Seq<PanelField> {
        self.rows@
    }

    /// The row that receives key presses.
    pub closed spec fn focused(&self) -> Option<usize> {
        self.focused_row
    }

    /// The row whose widget receives pointer moves until the button is
    /// released.
    pub closed spec fn dragging(&self) -> Option<usize> {
        self.dragging_widget
    }

    /// A form with one row per field, nothing focused or dragged.
    pub fn from_fields(fields: Vec<PanelField>) -> (r: Self)
        ensures
            r.wf(),
            r.fields() == fields@,
            r.focused() is None,
            r.dragging() is None,
    {
        FormLayout { rows: fields, focused_row: None, dragging_widget: None }
    }

    /// How many rows the form has.
    pub fn len(&self) -> (r: usize)
        ensures
            r == self.fields().len(),
    {
        self.rows.len()
    }

    /// The row that receives key presses.
    pub fn focused_row(&self) -> (r: Option<usize>)
        ensures
            r == self.focused(),
            self.wf() ==> (r matches Some(i) ==> i < self.fields().len()),
    {
        self.focused_row
    }

    /// The row whose widget receives pointer moves.
    pub fn grabbed_row(&self) -> (r: Option<usize>)
        ensures
            r == self.dragging(),
            self.wf() ==> (r matches Some(i) ==> i < self.fields().len()),
    {
        self.dragging_widget
    }

    /// `(key, current value)` of each row, in order.
    pub fn values(&self) -> (r: Vec<(String, String)>)
        ensures
            r@.len() == self.fields().len(),
            forall|i: int|
                0 <= i < r@.len() ==> (#[trigger] r@[i]).0@ == self.fields()[i].key@ && r@[i].1@
                    == self.fields()[i].current_value@,
    {
        let mut out: Vec<(String, String)> = Vec::new();
        let mut i: usize = 0;
        while i < self.rows.len()
            invariant
                i <= self.rows@.len(),
                out@.len() == i,
                forall|k: int|
                    0 <= k < i ==> (#[trigger] out@[k]).0@ == self.rows@[k].key@ && out@[k].1@
                        == self.rows@[k].current_value@,
            decreases self.rows@.len() - i,
        {
            out.push((self.rows[i].key.clone(), self.rows[i].current_value.clone()));
            i = i + 1;
        }
        out
    }

    /// Escape, after the caller closed every open overlay: when one was
    /// open the drag ends and the key is consumed; otherwise nothing
    /// happens and the key goes on to the focused row.
    pub fn escape(&mut self, any_overlay_open: bool) -> (consumed: bool)
        ensures
            old(self).wf() ==> final(self).wf(),
            consumed == any_overlay_open,
            final(self).fields() == old(self).fields(),
            final(self).focused() == old(self).focused(),
            final(self).dragging() == (if any_overlay_open {
                None
            } else {
                old(self).dragging()
            }),
    {
        if any_overlay_open {
            self.dragging_widget = None;
        }
        any_overlay_open
    }

    /// The button was released: the drag ends, and the row that held it
    /// (which receives the release) is returned.
    pub fn release_grab(&mut self) -> (r: Option<usize>)
        ensures
            old(self).wf() ==> final(self).wf(),
            r == old(self).dragging(),
            old(self).wf() ==> (r matches Some(i) ==> i < old(self).fields().len()),
            final(self).dragging() is None,
            final(self).fields() == old(self).fields(),
            final(self).focused() == old(self).focused(),
    {
        let r = self.dragging_widget;
        self.dragging_widget = None;
        r
    }

    /// Records what the widget of `row` answered to an event it received
    /// as the focused or the dragged row: a value change becomes the row's
    /// current value.
    pub fn record(&mut self, row: usize, response: &EventResponse)
        requires
            row < old(self).fields().len(),
        ensures
            old(self).wf() ==> final(self).wf(),
            final(self).fields() == old(self).fields().update(
                row as int,
                after_response(old(self).fields()[row as int], *response),
            ),
            final(self).focused() == old(self).focused(),
            final(self).dragging() == old(self).dragging(),
    {
        match &response.action {
            Some(WidgetAction::ValueChanged { value, .. }) => {
                let mut f = self.rows.remove(row);
                f.current_value = value.clone();
                self.rows.insert(row, f);
                assert(self.rows@ =~= old(self).rows@.update(
                    row as int,
                    after_response(old(self).rows@[row as int], *response),
                ));
            },
            _ => {},
        }
    }

    /// A pointer press (`press`) or release reached the widget of `row`,
    /// through its open overlay or by hitting the row: the row takes the
    /// focus, a press the widget consumed starts a drag, and the response
    /// is recorded.
    pub fn deliver(&mut self, row: usize, response: &EventResponse, press: bool)
        requires
            row < old(self).fields().len(),
        ensures
            old(self).wf() ==> final(self).wf(),
            final(self).fields() == old(self).fields().update(
                row as int,
                after_response(old(self).fields()[row as int], *response),
            ),
            final(self).focused() == Some(row),
            final(self).dragging() == (if press && response.consumed {
                Some(row)
            } else {
                old(self).dragging()
            }),
    {
        self.focused_row = Some(row);
        if press && response.consumed {
            self.dragging_widget = Some(row);
        }
        self.record(row, response);
    }
}


// ---------------------------------------------------------------------------
// The widget each field gets
// ---------------------------------------------------------------------------

/// The control a form row shows for its field.  A number slider holds
/// floating-point values and is built by the renderer from the field.
pub enum FormWidget {
    Text(TextInput),
    Button(Button),
    Toggle(Toggle),
    Color(InlineColorPicker),
    Choice(Dropdown),
    Searchable(SearchableDropdown),
    Slider,
}

/// Whether a boolean field's text reads as on: "true", "yes" or "1",
/// ignoring case.
pub open spec fn reads_on(value: Seq<char>) -> bool {
    let l = lowercase(value);
    l == "true"@ || l == "yes"@ || l == "1"@
}

/// The color a color field shows: its hex or `rgba()` text read, or mid
/// gray.
pub open spec fn field_color(value: Seq<char>) -> HexColor {
    match spec_from_hex(value) {
        Some(c) => c,
        None => match spec_from_rgba(value) {
            Some(c) => c,
            None => HexColor { r: 128, g: 128, b: 128, a: 255 },
        },
    }
}

/// Some option equals `value`.
pub open spec fn exists_option(options: Seq<Seq<char>>, value: Seq<char>) -> bool {
    exists|i: int| 0 <= i < options.len() && options[i] == value
}

/// An integer field gets a dropdown when its bounds (0 and 100 when left
/// open) are 1 to 10 apart.
pub open spec fn int_dropdown(min: Option<i64>, max: Option<i64>) -> bool {
    let lo: int = match min {
        Some(m) => m as int,
        None => 0,
    };
    let hi: int = match max {
        Some(m) => m as int,
        None => 100,
    };
    0 < hi - lo <= 10
}

/// The decimal texts of the integers from `a` to `b`.
pub open spec fn int_options(a: i64, b: i64) -> Seq<Seq<char>> {
    if a > b {
        seq![]
    } else {
        Seq::new((b - a + 1) as nat, |j: int| int_text((a + j) as i64))
    }
}

/// The widget `field` gets, where `number` is its current text read as a
/// whole number, when it is one.
pub open spec fn widget_for(field: PanelField, number: Option<i64>, w: FormWidget) -> bool {
    let key = field.key@;
    let value = field.current_value@;
    match field.field_type {
        FieldType::Text | FieldType::KeyBind => w matches FormWidget::Text(t) && t.key@ == key
            && t.value@ == value && !t.focused && t.cursor_pos == 0,
        FieldType::Action { label } => w matches FormWidget::Button(b) && b.key@ == key && b.label@
            == label@ && !b.pressed,
        FieldType::Boolean => w matches FormWidget::Toggle(t) && t.key@ == key && t.value == reads_on(
            value,
        ),
        FieldType::Color => w matches FormWidget::Color(p) && p.key@ == key && p.value == field_color(
            value,
        ) && p.hex_input@ == hex_text(p.value) && !p.expanded && !p.hex_focused
            && p.dragging is None,
        FieldType::Choice { options } => w matches FormWidget::Choice(d) && d.key@ == key
            && strings_view(d.options@) == strings_view(options@) && d.selected == first_equal(
            strings_view(options@),
            value,
        ) && !d.open,
        FieldType::SearchableChoice { options } => w matches FormWidget::Searchable(d) && d.key@
            == key && pairs_view(d.options@) == pairs_view(options@) && d.selected_value@ == value
            && !d.open && d.filter_text@.len() == 0 && !d.custom_mode && d.filtered_indices@
            == filter_result(d.options@, d.filter_text@) && indices_valid(d),
        FieldType::Integer { min, max } => if int_dropdown(min, max) {
            let a = match min {
                Some(m) => m,
                None => 0,
            };
            let b = match max {
                Some(m) => m,
                None => 10,
            };
            w matches FormWidget::Choice(d) && d.key@ == key && strings_view(d.options@)
                == int_options(a, b) && d.selected == (match number {
                Some(k) if a <= k <= b => (k - a) as usize,
                _ => 0usize,
            }) && !d.open
        } else {
            w is Slider
        },
        FieldType::Float { .. } => w is Slider,
    }
}

/// The position of the first entry of `options` equal to `value`, or 0.
pub open spec fn first_equal(options: Seq<Seq<char>>, value: Seq<char>) -> usize
    decreases options.len(),
{
    if options.len() == 0 {
        0
    } else if options.last() == value && !exists_option(options.drop_last(), value) {
        (options.len() - 1) as usize
    } else {
        first_equal(options.drop_last(), value)
    }
}

fn clone_pairs(v: &Vec<(String, String)>) -> (r: Vec<(String, String)>)
    ensures
        pairs_view(r@) == pairs_view(v@),
{
    let mut out: Vec<(String, String)> = Vec::new();
    let mut i: usize = 0;
    while i < v.len()
        invariant
            i <= v@.len(),
            pairs_view(out@) == pairs_view(v@).take(i as int),
        decreases v@.len() - i,
    {
        let ghost before = out@;
        out.push((v[i].0.clone(), v[i].1.clone()));
        assert(pairs_view(out@) =~= pairs_view(before).push((v@[i as int].0@, v@[i as int].1@)));
        assert(pairs_view(out@) =~= pairs_view(v@).take(i + 1));
        i = i + 1;
    }
    assert(pairs_view(v@).take(v@.len() as int) =~= pairs_view(v@));
    out
}

/// The position of the first option equal to `value`, or 0.
fn position_or_zero(options: &Vec<String>, value: &str) -> (r: usize)
    ensures
        r == first_equal(strings_view(options@), value@),
{
    let ghost sv = strings_view(options@);
    let mut i: usize = 0;
    while i < options.len()
        invariant
            i <= options@.len(),
            sv == strings_view(options@),
            forall|j: int| 0 <= j < i ==> sv[j] != value@,
        decreases options@.len() - i,
    {
        if str_eq(options[i].as_str(), value) {
            proof {
                lemma_first_equal_at(sv, value@, i as int);
            }
            return i;
        }
        assert(sv[i as int] == options@[i as int]@);
        i = i + 1;
    }
    proof {
        assert(!exists_option(sv, value@)) by {
            if exists_option(sv, value@) {
                let j = choose|j: int| 0 <= j < sv.len() && sv[j] == value@;
                assert(sv[j] != value@);
            }
        }
        lemma_first_equal_absent(sv, value@);
    }
    0
}

proof fn lemma_first_equal_absent(s: Seq<Seq<char>>, v: Seq<char>)
    requires
        !exists_option(s, v),
    ensures
        first_equal(s, v) == 0,
    decreases s.len(),
{
    if s.len() > 0 {
        assert(s.last() == s[s.len() - 1]);
        assert(!exists_option(s.drop_last(), v)) by {
            if exists_option(s.drop_last(), v) {
                let j = choose|j: int| 0 <= j < s.drop_last().len() && s.drop_last()[j] == v;
                assert(s[j] == v);
            }
        }
        lemma_first_equal_absent(s.drop_last(), v);
    }
}

/// When entry `i` is the first equal to `v`, `first_equal` is `i`.
proof fn lemma_first_equal_at(s: Seq<Seq<char>>, v: Seq<char>, i: int)
    requires
        0 <= i < s.len(),
        s[i] == v,
        forall|j: int| 0 <= j < i ==> s[j] != v,
        s.len() <= usize::MAX,
    ensures
        first_equal(s, v) == i,
    decreases s.len(),
{
    if s.len() - 1 == i {
        assert(!exists_option(s.drop_last(), v)) by {
            if exists_option(s.drop_last(), v) {
                let j = choose|j: int| 0 <= j < s.drop_last().len() && s.drop_last()[j] == v;
                assert(s[j] == v);
            }
        }
    } else {
        assert(exists_option(s.drop_last(), v)) by {
            assert(s.drop_last()[i] == v);
        }
        lemma_first_equal_at(s.drop_last(), v, i);
    }
}

/// The texts of the integers from `a` to `b`.
fn int_option_texts(a: i64, b: i64) -> (r: Vec<String>)
    requires
        a <= b ==> b - a <= 10,
    ensures
        strings_view(r@) == int_options(a, b),
{
    let mut out: Vec<String> = Vec::new();
    if a > b {
        assert(strings_view(out@) =~= int_options(a, b));
        return out;
    }
    let mut k: i64 = a;
    while k < b
        invariant
            a <= k <= b,
            strings_view(out@) =~= Seq::new((k - a) as nat, |j: int| int_text((a + j) as i64)),
        decreases b - k,
    {
        let ghost before = out@;
        out.push(int_to_string(k));
        assert(strings_view(out@) =~= strings_view(before).push(int_text(k)));
        k = k + 1;
    }
    let ghost before = out@;
    out.push(int_to_string(b));
    assert(strings_view(out@) =~= strings_view(before).push(int_text(b)));
    assert(strings_view(out@) =~= int_options(a, b));
    out
}

/// The widget a field's row shows; `number` is the field's current text
/// read as a whole number, when it is one (reading numbers is
/// floating-point work left to the caller).
pub fn make_widget(field: &PanelField, number: Option<i64>) -> (w: FormWidget)
    requires
        field.field_type is Color ==> hex_parse_safe(field.current_value@),
    ensures
        widget_for(*field, number, w),
{
    let key = field.key.clone();
    match &field.field_type {
        FieldType::Text | FieldType::KeyBind => FormWidget::Text(TextInput::new(key, field.current_value.clone())),
        FieldType::Action { label } => FormWidget::Button(Button::new(key, label.clone())),
        FieldType::Boolean => {
            let l = to_lowercase(field.current_value.as_str());
            proof {
                reveal_strlit("true");
                reveal_strlit("yes");
                reveal_strlit("1");
            }
            let on = str_eq(l.as_str(), "true") || str_eq(l.as_str(), "yes") || str_eq(l.as_str(), "1");
            FormWidget::Toggle(Toggle::new(key, on))
        },
        FieldType::Color => {
            let color = match HexColor::from_hex(field.current_value.as_str()) {
                Ok(c) => c,
                Err(_) => match HexColor::from_hypr_rgba(field.current_value.as_str()) {
                    Some(c) => c,
                    None => HexColor { r: 128, g: 128, b: 128, a: 255 },
                },
            };
            FormWidget::Color(InlineColorPicker::new(key, color))
        },
        FieldType::Choice { options } => {
            let sel = position_or_zero(options, field.current_value.as_str());
            FormWidget::Choice(Dropdown::new(key, clone_strings(options), sel))
        },
        FieldType::SearchableChoice { options } => {
            FormWidget::Searchable(SearchableDropdown::new(key, clone_pairs(options), field.current_value.clone()))
        },
        FieldType::Integer { min, max } => {
            let lo: i64 = match min {
                Some(m) => *m,
                None => 0,
            };
            let hi: i64 = match max {
                Some(m) => *m,
                None => 100,
            };
            let range: i128 = hi as i128 - lo as i128;
            if 0 < range && range <= 10 {
                let b: i64 = match max {
                    Some(m) => *m,
                    None => 10,
                };
                let opts = int_option_texts(lo, b);
                let sel: usize = match number {
                    Some(k) => if lo <= k && k <= b {
                        (k - lo) as usize
                    } else {
                        0
                    },
                    None => 0,
                };
                FormWidget::Choice(Dropdown::new(key, opts, sel))
            } else {
                FormWidget::Slider
            }
        },
        FieldType::Float { .. } => FormWidget::Slider,
    }
}

} // verus!
