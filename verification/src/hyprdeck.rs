//! The HyprDeck editor: fields built from HyprDeck's versioned schema,
//! schema-typed values, module settings, and validation reports.
use vstd::prelude::*;

use crate::hyprsaver::{bool_text, int_text, parse_i64, spec_parse_i64, int_to_string};
use crate::panels::{FieldType, PanelError, PanelField};
use crate::text::{lossy_text, utf8_lossy, 
    chars_of, join_strings, join_with, split_once, split_once_spec, str_eq, str_starts_with,
    string_of, trim, trim_string, push_char, push_decimal, decimal,
};
use crate::toml_model::{
    get_path, set_path, spec_get_path, spec_set_path, split_on, tv_get, tv_insert, PathFault,
    SetFault, TomlTable, TomlValue, TomlView,
};

verus! {

broadcast use {vstd::seq::group_seq_axioms, vstd::string::group_string_axioms};

/// The configuration contract version this editor understands.
pub const CONFIG_CONTRACT_VERSION: u32 = 1;

// ---------------------------------------------------------------------------
// The schema
// ---------------------------------------------------------------------------

/// HyprDeck's description of its configuration.
#[derive(Debug, Clone)]
pub struct ConfigSchema {
    pub contract_version: u32,
    pub fields: Vec<ConfigField>,
    pub themes: Vec<ThemeMetadata>,
    pub modules: Vec<ModuleConfigSchema>,
}

/// A theme and the modules it shows.
#[derive(Debug, Clone)]
pub struct ThemeMetadata {
    pub id: String,
    pub name: String,
    pub description: String,
    pub modules: Vec<String>,
}

/// A module's own settings.
#[derive(Debug, Clone)]
pub struct ModuleConfigSchema {
    pub module_id: String,
    pub fields: Vec<ConfigField>,
}

/// One setting of the schema.
#[derive(Debug, Clone)]
pub struct ConfigField {
    pub key: String,
    pub label: String,
    pub description: String,
    pub field_type: ConfigFieldType,
}

/// A setting's type and default; a number's default and bounds are held
/// as their decimal text.
#[derive(Debug, Clone)]
#[allow(inconsistent_fields)]
pub enum ConfigFieldType {
    Text { default: String },
    Integer { default: i64, min: Option<i64>, max: Option<i64> },
    Float { default: String, min: Option<String>, max: Option<String> },
    Boolean { default: bool },
    Choice { options: Vec<String>, default: String },
    LabeledChoice { options: Vec<String>, labels: Vec<String>, default: String },
    Color { default: String },
}

/// One finding of HyprDeck's validation.
#[derive(Debug, Clone)]
pub struct ConfigDiagnostic {
    pub severity: String,
    pub path: String,
    pub message: String,
}

// ---------------------------------------------------------------------------
// Field specifications
// ---------------------------------------------------------------------------

/// What a schema setting accepts and shows by default.
#[derive(Debug, Clone)]
#[allow(inconsistent_fields)]
pub enum FieldSpec {
    Text(String),
    Integer { default: i64, min: Option<i64>, max: Option<i64> },
    Float { default: String, min: Option<String>, max: Option<String> },
    Boolean(bool),
    Choice { options: Vec<String>, default: String },
    Color(String),
}

/// How an edited number compares with what a number setting accepts:
/// whether it is a finite number within the bounds, and if so its TOML
/// text.
#[derive(Debug, Clone, PartialEq, Eq)]
pub enum FloatCheck {
    NotANumber,
    OutOfRange,
    Number(String),
}

pub(crate) fn clone_strings(v: &Vec<String>) -> (r: Vec<String>)
    ensures
        r@.map_values(|s: String| s@) == v@.map_values(|s: String| s@),
{
    let mut out: Vec<String> = Vec::new();
    let mut i: usize = 0;
    while i < v.len()
        invariant
            i <= v@.len(),
            out@.map_values(|s: String| s@) == v@.map_values(|s: String| s@).take(i as int),
        decreases v@.len() - i,
    {
        let ghost before = out@;
        let c = v[i].clone();
        assert(c@ == v@[i as int]@);
        out.push(c);
        assert(out@.map_values(|s: String| s@) =~= before.map_values(|s: String| s@).push(v@[i as int]@));
        assert(out@.map_values(|s: String| s@) =~= v@.map_values(|s: String| s@).take(i + 1));
        i = i + 1;
    }
    assert(v@.map_values(|s: String| s@).take(v@.len() as int) =~= v@.map_values(|s: String| s@));
    out
}

fn clone_opt(o: &Option<String>) -> (r: Option<String>)
    ensures
        match (o, r) {
            (Some(a), Some(b)) => a@ == b@,
            (None, None) => true,
            _ => false,
        },
{
    match o {
        Some(s) => Some(s.clone()),
        None => None,
    }
}

/// What a specification accepts, in mathematical form.
pub enum SpecKind {
    Text,
    Integer { min: Option<i64>, max: Option<i64> },
    Float { min: Option<Seq<char>>, max: Option<Seq<char>> },
    Boolean,
    Choice(Seq<Seq<char>>),
    Color,
}

pub open spec fn opt_str(o: Option<String>) -> Option<Seq<char>> {
    match o {
        Some(s) => Some(s@),
        None => None,
    }
}

/// `t` is the widget for a setting that accepts `k`.
pub open spec fn widget_for(t: FieldType, k: SpecKind) -> bool {
    match k {
        SpecKind::Text => t is Text,
        SpecKind::Integer { min, max } => t == (FieldType::Integer { min, max }),
        SpecKind::Float { min, max } => t matches FieldType::Float { min: a, max: b } && opt_str(a) == min
            && opt_str(b) == max,
        SpecKind::Boolean => t is Boolean,
        SpecKind::Choice(options) => t matches FieldType::Choice { options: o } && strs(o@) == options,
        SpecKind::Color => t is Color,
    }
}

pub open spec fn strs(v: Seq<String>) -> Seq<Seq<char>> {
    v.map_values(|x: String| x@)
}

pub open spec fn kind_of(s: FieldSpec) -> SpecKind {
    match s {
        FieldSpec::Text(_) => SpecKind::Text,
        FieldSpec::Integer { min, max, .. } => SpecKind::Integer { min, max },
        FieldSpec::Float { min, max, .. } => SpecKind::Float { min: opt_str(min), max: opt_str(max) },
        FieldSpec::Boolean(_) => SpecKind::Boolean,
        FieldSpec::Choice { options, .. } => SpecKind::Choice(strs(options@)),
        FieldSpec::Color(_) => SpecKind::Color,
    }
}

/// What a schema type accepts (a labeled choice is a choice).
pub open spec fn kind_of_type(t: ConfigFieldType) -> SpecKind {
    match t {
        ConfigFieldType::Text { .. } => SpecKind::Text,
        ConfigFieldType::Integer { min, max, .. } => SpecKind::Integer { min, max },
        ConfigFieldType::Float { min, max, .. } => SpecKind::Float { min: opt_str(min), max: opt_str(max) },
        ConfigFieldType::Boolean { .. } => SpecKind::Boolean,
        ConfigFieldType::Choice { options, .. } => SpecKind::Choice(strs(options@)),
        ConfigFieldType::LabeledChoice { options, .. } => SpecKind::Choice(strs(options@)),
        ConfigFieldType::Color { .. } => SpecKind::Color,
    }
}

/// The default a specification shows.
pub open spec fn spec_default_text(s: FieldSpec) -> Seq<char> {
    match s {
        FieldSpec::Text(v) => v@,
        FieldSpec::Choice { default, .. } => default@,
        FieldSpec::Color(v) => v@,
        FieldSpec::Integer { default, .. } => int_text(default),
        FieldSpec::Float { default, .. } => default@,
        FieldSpec::Boolean(b) => bool_text(b),
    }
}

/// The default a schema type shows.
pub open spec fn default_of_type(t: ConfigFieldType) -> Seq<char> {
    match t {
        ConfigFieldType::Text { default } => default@,
        ConfigFieldType::Integer { default, .. } => int_text(default),
        ConfigFieldType::Float { default, .. } => default@,
        ConfigFieldType::Boolean { default } => bool_text(default),
        ConfigFieldType::Choice { default, .. } => default@,
        ConfigFieldType::LabeledChoice { default, .. } => default@,
        ConfigFieldType::Color { default } => default@,
    }
}

impl FieldSpec {
    pub fn from_schema(field: &ConfigFieldType) -> (r: FieldSpec)
        ensures
            kind_of(r) == kind_of_type(*field),
            spec_default_text(r) == default_of_type(*field),
    {
        match field {
            ConfigFieldType::Text { default } => FieldSpec::Text(default.clone()),
            ConfigFieldType::Integer { default, min, max } => FieldSpec::Integer { default: *default, min: *min, max: *max },
            ConfigFieldType::Float { default, min, max } => FieldSpec::Float {
                default: default.clone(),
                min: clone_opt(min),
                max: clone_opt(max),
            },
            ConfigFieldType::Boolean { default } => FieldSpec::Boolean(*default),
            ConfigFieldType::Choice { options, default } => FieldSpec::Choice { options: clone_strings(options), default: default.clone() },
            ConfigFieldType::LabeledChoice { options, default, .. } => FieldSpec::Choice {
                options: clone_strings(options),
                default: default.clone(),
            },
            ConfigFieldType::Color { default } => FieldSpec::Color(default.clone()),
        }
    }

    /// The widget type of the setting.
    pub fn field_type(&self) -> (r: FieldType)
        ensures
            match kind_of(*self) {
                SpecKind::Text => r is Text,
                SpecKind::Integer { min, max } => r == (FieldType::Integer { min, max }),
                SpecKind::Float { min, max } => r matches FieldType::Float { min: a, max: b } && opt_str(a) == min
                    && opt_str(b) == max,
                SpecKind::Boolean => r is Boolean,
                SpecKind::Choice(options) => r matches FieldType::Choice { options: o } && strs(o@) == options,
                SpecKind::Color => r is Color,
            },
    {
        match self {
            FieldSpec::Text(_) => FieldType::Text,
            FieldSpec::Integer { min, max, .. } => FieldType::Integer { min: *min, max: *max },
            FieldSpec::Float { min, max, .. } => FieldType::Float { min: clone_opt(min), max: clone_opt(max) },
            FieldSpec::Boolean(_) => FieldType::Boolean,
            FieldSpec::Choice { options, .. } => FieldType::Choice { options: clone_strings(options) },
            FieldSpec::Color(_) => FieldType::Color,
        }
    }

    /// The default, as a field shows it.
    pub fn default_string(&self) -> (r: String)
        ensures
            r@ == spec_default_text(*self),
    {
        match self {
            FieldSpec::Text(v) => v.clone(),
            FieldSpec::Choice { default, .. } => default.clone(),
            FieldSpec::Color(v) => v.clone(),
            FieldSpec::Integer { default, .. } => int_to_string(*default),
            FieldSpec::Float { default, .. } => default.clone(),
            FieldSpec::Boolean(b) => if *b {
                "true".to_string()
            } else {
                "false".to_string()
            },
        }
    }
}

/// The value an edited text becomes under a specification, or the reason
/// it is refused.  A number setting takes the verdict `check` on the text.
pub open spec fn spec_parse_value(k: SpecKind, value: Seq<char>, check: FloatCheck) -> Result<TomlView, Seq<char>> {
    match k {
        SpecKind::Text | SpecKind::Color => Ok(TomlView::Str(value)),
        SpecKind::Boolean => if value == "true"@ {
            Ok(TomlView::Bool(true))
        } else if value == "false"@ {
            Ok(TomlView::Bool(false))
        } else {
            Err("expected true or false"@)
        },
        SpecKind::Integer { min, max } => match spec_parse_i64(value) {
            None => Err("expected an integer"@),
            Some(n) => if (min matches Some(lo) && n < lo) || (max matches Some(hi) && n > hi) {
                Err("outside the supported range"@)
            } else {
                Ok(TomlView::Int(n))
            },
        },
        SpecKind::Float { .. } => match check {
            FloatCheck::NotANumber => Err("expected a finite number"@),
            FloatCheck::OutOfRange => Err("outside the supported range"@),
            FloatCheck::Number(t) => Ok(TomlView::Float(t@)),
        },
        SpecKind::Choice(options) => if options.contains(value) {
            Ok(TomlView::Str(value))
        } else {
            Err("not one of the supported choices"@)
        },
    }
}

/// An integer setting takes exactly the whole numbers within its schema
/// bounds: whatever it accepts is the number the text reads as and lies
/// within `[min, max]`; a number below `min` or above `max` is refused as
/// "outside the supported range", one within is taken, and text that is no
/// whole number is refused as "expected an integer".
pub proof fn law_integer_settings_stay_in_range(
    t: ConfigFieldType,
    value: Seq<char>,
    check: FloatCheck,
)
    requires
        t is Integer,
    ensures
        ({
            let (min, max) = match t {
                ConfigFieldType::Integer { min, max, .. } => (min, max),
                _ => (None, None),
            };
            let r = spec_parse_value(kind_of_type(t), value, check);
            &&& (r matches Ok(v) ==> (v matches TomlView::Int(n) && spec_parse_i64(value) == Some(n)
                && (min matches Some(lo) ==> lo <= n) && (max matches Some(hi) ==> n <= hi)))
            &&& (spec_parse_i64(value) matches Some(n) ==> (((min matches Some(lo) && n < lo) || (
            max matches Some(hi) && n > hi)) <==> r == Err::<TomlView, Seq<char>>("outside the supported range"@)))
            &&& (spec_parse_i64(value) matches Some(n) ==> (!((min matches Some(lo) && n < lo) || (
            max matches Some(hi) && n > hi)) ==> r == Ok::<TomlView, Seq<char>>(TomlView::Int(n))))
            &&& (spec_parse_i64(value) is None ==> r == Err::<TomlView, Seq<char>>("expected an integer"@))
        }),
{
}

fn invalid(key: &str, reason: &str) -> (e: PanelError)
    ensures
        e matches PanelError::InvalidValue { key: k, reason: m } && k@ == key@ && m@ == reason@,
{
    PanelError::InvalidValue { key: key.to_string(), reason: reason.to_string() }
}

fn strings_contain(v: &Vec<String>, s: &str) -> (r: bool)
    ensures
        r == v@.map_values(|o: String| o@).contains(s@),
{
    let ghost vv = v@.map_values(|o: String| o@);
    let mut i: usize = 0;
    while i < v.len()
        invariant
            vv == v@.map_values(|o: String| o@),
            i <= v@.len(),
            forall|j: int| 0 <= j < i ==> vv[j] != s@,
        decreases v@.len() - i,
    {
        if str_eq(v[i].as_str(), s) {
            assert(vv[i as int] == s@);
            return true;
        }
        i = i + 1;
    }
    false
}

impl FieldSpec {
    /// Types an edited text, or says why it is refused.
    pub fn parse(&self, value: &str, key: &str, check: FloatCheck) -> (r: Result<TomlValue, PanelError>)
        ensures
            match spec_parse_value(kind_of(*self), value@, check) {
                Ok(v) => r matches Ok(x) && x.view_value() == v,
                Err(reason) => r matches Err(PanelError::InvalidValue { key: k, reason: m }) && k@ == key@
                    && m@ == reason,
            },
    {
        match self {
            FieldSpec::Text(_) | FieldSpec::Color(_) => Ok(TomlValue::String(value.to_string())),
            FieldSpec::Boolean(_) => {
                if str_eq(value, "true") {
                    Ok(TomlValue::Boolean(true))
                } else if str_eq(value, "false") {
                    Ok(TomlValue::Boolean(false))
                } else {
                    Err(invalid(key, "expected true or false"))
                }
            },
            FieldSpec::Integer { min, max, .. } => {
                let n = match parse_i64(value) {
                    Some(n) => n,
                    None => {
                        return Err(invalid(key, "expected an integer"));
                    },
                };
                let below = match min {
                    Some(lo) => n < *lo,
                    None => false,
                };
                let above = match max {
                    Some(hi) => n > *hi,
                    None => false,
                };
                if below || above {
                    Err(invalid(key, "outside the supported range"))
                } else {
                    Ok(TomlValue::Integer(n))
                }
            },
            FieldSpec::Float { .. } => match check {
                FloatCheck::NotANumber => Err(invalid(key, "expected a finite number")),
                FloatCheck::OutOfRange => Err(invalid(key, "outside the supported range")),
                FloatCheck::Number(t) => Ok(TomlValue::Float(t)),
            },
            FieldSpec::Choice { options, .. } => {
                if strings_contain(options, value) {
                    Ok(TomlValue::String(value.to_string()))
                } else {
                    Err(invalid(key, "not one of the supported choices"))
                }
            },
        }
    }
}

// ---------------------------------------------------------------------------
// Module keys
// ---------------------------------------------------------------------------

pub open spec fn spec_module_key(module_id: Seq<char>, field_key: Seq<char>) -> Seq<char> {
    "module:"@ + module_id + ":"@ + field_key
}

/// The field key of a module setting: `module:ID:KEY`.
pub fn module_key(module_id: &str, field_key: &str) -> (r: String)
    ensures
        r@ == spec_module_key(module_id@, field_key@),
{
    let mut s = "module:".to_string();
    s.append(module_id);
    s.append(":");
    s.append(field_key);
    s
}

/// A module setting's module and key: what follows `module:`, split at
/// its first colon.
pub open spec fn spec_parse_module_key(key: Seq<char>) -> Option<(Seq<char>, Seq<char>)> {
    if key.len() >= 7 && key.take(7) == "module:"@ {
        split_once_spec(key.skip(7), ':')
    } else {
        None
    }
}

pub fn parse_module_key(key: &str) -> (r: Option<(String, String)>)
    ensures
        match spec_parse_module_key(key@) {
            Some((a, b)) => r matches Some((x, y)) && x@ == a && y@ == b,
            None => r is None,
        },
{
    proof {
        reveal_strlit("module:");
    }
    if !str_starts_with(key, "module:") {
        return None;
    }
    let v = chars_of(key);
    let rest = string_of(&v, 7, v.len());
    assert(rest@ =~= key@.skip(7));
    split_once(rest.as_str(), ':')
}

/// A module setting's key reads back as its module and key, for module
/// names without a colon.
pub proof fn law_module_key_roundtrip(module_id: Seq<char>, field_key: Seq<char>)
    requires
        forall|i: int| 0 <= i < module_id.len() ==> module_id[i] != ':',
    ensures
        spec_parse_module_key(spec_module_key(module_id, field_key)) == Some((module_id, field_key)),
{
    reveal_strlit("module:");
    reveal_strlit(":");
    let k = spec_module_key(module_id, field_key);
    assert(k.take(7) =~= "module:"@);
    let rest = k.skip(7);
    assert(rest =~= module_id + seq![':'] + field_key);
    assert(rest[module_id.len() as int] == ':');
    assert forall|j: int| 0 <= j < module_id.len() implies rest[j] != ':' by {
        assert(rest[j] == module_id[j]);
    }
    crate::text::lemma_find_char_at(rest, ':', module_id.len() as int);
    assert(rest.take(module_id.len() as int) =~= module_id);
    assert(rest.skip(module_id.len() as int + 1) =~= field_key);
}

// ---------------------------------------------------------------------------
// Validation
// ---------------------------------------------------------------------------

pub open spec fn diag_error_lines(ds: Seq<ConfigDiagnostic>) -> Seq<Seq<char>>
    decreases ds.len(),
{
    if ds.len() == 0 {
        seq![]
    } else if ds.last().severity@ == "error"@ {
        diag_error_lines(ds.drop_last()).push(ds.last().path@ + ": "@ + ds.last().message@)
    } else {
        diag_error_lines(ds.drop_last())
    }
}

pub open spec fn config_error_is(r: Result<(), PanelError>, m: Seq<char>) -> bool {
    r matches Err(PanelError::Config(x)) && x@ == m
}

/// What validation diagnostics mean: any error rejects the config (each
/// listed as `path: message`); otherwise success is success, and a failure
/// is reported with HyprDeck's trimmed error output.
pub fn report_diagnostics(success: bool, diagnostics: &Vec<ConfigDiagnostic>, stderr: &str) -> (r: Result<(), PanelError>)
    ensures
        ({
            let errs = diag_error_lines(diagnostics@);
            if errs.len() > 0 {
                config_error_is(r, "HyprDeck validation rejected the config: "@ + join_with(errs, "; "@))
            } else if success {
                r is Ok
            } else if trim(stderr@).len() == 0 {
                config_error_is(r, "HyprDeck validation failed without error diagnostics"@)
            } else {
                config_error_is(r, "HyprDeck validation failed: "@ + trim(stderr@))
            }
        }),
{
    let mut errors: Vec<String> = Vec::new();
    let mut i: usize = 0;
    assert(diagnostics@.take(0) =~= Seq::<ConfigDiagnostic>::empty());
    while i < diagnostics.len()
        invariant
            i <= diagnostics@.len(),
            errors@.map_values(|s: String| s@) == diag_error_lines(diagnostics@.take(i as int)),
        decreases diagnostics@.len() - i,
    {
        proof {
            assert(diagnostics@.take(i + 1).drop_last() =~= diagnostics@.take(i as int));
            assert(diagnostics@.take(i + 1).last() == diagnostics@[i as int]);
        }
        let d = &diagnostics[i];
        if str_eq(d.severity.as_str(), "error") {
            let mut line = d.path.clone();
            line.append(": ");
            line.append(d.message.as_str());
            let ghost before = errors@;
            let ghost lv = line@;
            errors.push(line);
            assert(errors@.map_values(|s: String| s@) =~= before.map_values(|s: String| s@).push(lv));
        }
        i = i + 1;
    }
    assert(diagnostics@.take(diagnostics@.len() as int) =~= diagnostics@);
    if errors.len() > 0 {
        let mut m = "HyprDeck validation rejected the config: ".to_string();
        let j = join_strings(&errors, "; ");
        m.append(j.as_str());
        return Err(PanelError::Config(m));
    }
    if success {
        return Ok(());
    }
    let t = trim_string(stderr);
    if t.as_str().unicode_len() == 0 {
        Err(PanelError::Config("HyprDeck validation failed without error diagnostics".to_string()))
    } else {
        let mut m = "HyprDeck validation failed: ".to_string();
        m.append(t.as_str());
        Err(PanelError::Config(m))
    }
}

/// What HyprDeck's validation run means: its diagnostics (`Some` when its
/// standard output was a diagnostics list), else its success and its
/// trimmed error output.
pub fn interpret_validation_result(
    success: bool,
    diagnostics: Option<Vec<ConfigDiagnostic>>,
    stderr: &[u8],
) -> (r: Result<(), PanelError>)
    ensures
        match diagnostics {
            Some(ds) => {
                let errs = diag_error_lines(ds@);
                if errs.len() > 0 {
                    config_error_is(r, "HyprDeck validation rejected the config: "@ + join_with(errs, "; "@))
                } else if success {
                    r is Ok
                } else if trim(utf8_lossy(stderr@)).len() == 0 {
                    config_error_is(r, "HyprDeck validation failed without error diagnostics"@)
                } else {
                    config_error_is(r, "HyprDeck validation failed: "@ + trim(utf8_lossy(stderr@)))
                }
            },
            None => if success {
                config_error_is(r, "HyprDeck returned invalid validation JSON"@)
            } else if trim(utf8_lossy(stderr@)).len() == 0 {
                config_error_is(r, "HyprDeck validation failed without diagnostics"@)
            } else {
                config_error_is(r, "HyprDeck validation failed: "@ + trim(utf8_lossy(stderr@)))
            },
        },
{
    let text = lossy_text(stderr);
    match diagnostics {
        Some(ds) => report_diagnostics(success, &ds, text.as_str()),
        None => {
            let t = trim_string(text.as_str());
            if success {
                Err(PanelError::Config("HyprDeck returned invalid validation JSON".to_string()))
            } else if t.as_str().unicode_len() == 0 {
                Err(PanelError::Config("HyprDeck validation failed without diagnostics".to_string()))
            } else {
                let mut m = "HyprDeck validation failed: ".to_string();
                m.append(t.as_str());
                Err(PanelError::Config(m))
            }
        },
    }
}

/// Accepts a schema of the supported contract version, and refuses any
/// other with the versions named.
pub fn check_contract_version(version: u32) -> (r: Result<(), String>)
    ensures
        version == CONFIG_CONTRACT_VERSION ==> r is Ok,
        version != CONFIG_CONTRACT_VERSION ==> (r matches Err(m) && m@ == "HyprDeck config contract v"@
            + decimal(version as nat) + " is unsupported (HyprCube supports v"@ + decimal(
            CONFIG_CONTRACT_VERSION as nat,
        ) + ")"@),
{
    if version == CONFIG_CONTRACT_VERSION {
        return Ok(());
    }
    let mut m = "HyprDeck config contract v".to_string();
    push_decimal(&mut m, version as u64);
    m.append(" is unsupported (HyprCube supports v");
    push_decimal(&mut m, CONFIG_CONTRACT_VERSION as u64);
    m.append(")");
    Err(m)
}

// ---------------------------------------------------------------------------
// Showing values
// ---------------------------------------------------------------------------

/// A value in TOML's inline notation: strings in double quotes, arrays in
/// brackets and tables in braces.
pub open spec fn spec_toml_text(v: TomlView) -> Seq<char>
    decreases v, 1nat,
{
    match v {
        TomlView::Str(s) => "\""@ + s + "\""@,
        TomlView::Int(n) => int_text(n),
        TomlView::Float(t) => t,
        TomlView::Bool(b) => bool_text(b),
        TomlView::Date(t) => t,
        TomlView::Arr(items) => "["@ + join_with(toml_items(items), ", "@) + "]"@,
        TomlView::Tab(entries) => if entries.len() == 0 {
            "{}"@
        } else {
            "{ "@ + join_with(toml_entries(entries), ", "@) + " }"@
        },
    }
}

pub open spec fn toml_items(items: Seq<TomlView>) -> Seq<Seq<char>>
    decreases items, 0nat,
{
    if items.len() == 0 {
        seq![]
    } else {
        toml_items(items.drop_last()).push(spec_toml_text(items[items.len() - 1]))
    }
}

pub open spec fn toml_entries(entries: Seq<(Seq<char>, TomlView)>) -> Seq<Seq<char>>
    decreases entries, 0nat,
{
    if entries.len() == 0 {
        seq![]
    } else {
        toml_entries(entries.drop_last()).push(
            entries[entries.len() - 1].0 + " = "@ + spec_toml_text(entries[entries.len() - 1].1),
        )
    }
}

/// A value in TOML's inline notation.
#[verifier::loop_isolation(false)]
pub fn toml_text(v: &TomlValue) -> (r: String)
    ensures
        r@ == spec_toml_text(v.view_value()),
    decreases v,
{
    match v {
        TomlValue::String(s) => {
            let mut r = "\"".to_string();
            r.append(s.as_str());
            r.append("\"");
            r
        },
        TomlValue::Integer(n) => int_to_string(*n),
        TomlValue::Float(t) => t.clone(),
        TomlValue::Boolean(b) => {
            let r = if *b {
                "true".to_string()
            } else {
                "false".to_string()
            };
            r
        },
        TomlValue::Datetime(t) => t.clone(),
        TomlValue::Array(items) => {
            let ghost iv = crate::toml_model::view_values(items@);
            let mut parts: Vec<String> = Vec::new();
            let mut i: usize = 0;
            assert(iv.take(0) =~= Seq::<TomlView>::empty());
            while i < items.len()
                invariant
                    i <= items@.len(),
                    iv == crate::toml_model::view_values(items@),
                    parts@.map_values(|p: String| p@) == toml_items(iv.take(i as int)),
                decreases items@.len() - i,
            {
                let d = toml_text(&items[i]);
                assert(iv[i as int] == items@[i as int].view_value());
                assert(iv.take(i + 1).drop_last() =~= iv.take(i as int));
                let ghost before = parts@;
                parts.push(d);
                assert(parts@.map_values(|p: String| p@) =~= before.map_values(|p: String| p@).push(d@));
                i = i + 1;
            }
            assert(iv.take(items@.len() as int) =~= iv);
            let mut r = "[".to_string();
            let j = join_strings(&parts, ", ");
            r.append(j.as_str());
            r.append("]");
            assert(r@ == spec_toml_text(v.view_value()));
            r
        },
        TomlValue::Table(t) => {
            let ghost ev = crate::toml_model::view_entries(t.entries@);
            if t.entries.len() == 0 {
                return "{}".to_string();
            }
            let mut parts: Vec<String> = Vec::new();
            let mut i: usize = 0;
            assert(ev.take(0) =~= Seq::<(Seq<char>, TomlView)>::empty());
            while i < t.entries.len()
                invariant
                    i <= t.entries@.len(),
                    ev == crate::toml_model::view_entries(t.entries@),
                    parts@.map_values(|p: String| p@) == toml_entries(ev.take(i as int)),
                decreases t.entries@.len() - i,
            {
                let mut e = t.entries[i].0.clone();
                e.append(" = ");
                let d = toml_text(&t.entries[i].1);
                e.append(d.as_str());
                assert(ev[i as int] == (t.entries@[i as int].0@, t.entries@[i as int].1.view_value()));
                assert(ev.take(i + 1).drop_last() =~= ev.take(i as int));
                let ghost before = parts@;
                parts.push(e);
                assert(parts@.map_values(|p: String| p@) =~= before.map_values(|p: String| p@).push(e@));
                i = i + 1;
            }
            assert(ev.take(t.entries@.len() as int) =~= ev);
            let mut s = "{ ".to_string();
            let j = join_strings(&parts, ", ");
            s.append(j.as_str());
            s.append(" }");
            assert(s@ == spec_toml_text(v.view_value()));
            s
        },
    }
}

/// How a field shows a value: a string as it is, anything else in TOML's
/// inline notation.
pub open spec fn spec_value_string(v: TomlView) -> Seq<char> {
    match v {
        TomlView::Str(s) => s,
        _ => spec_toml_text(v),
    }
}

pub fn value_string(v: &TomlValue) -> (r: String)
    ensures
        r@ == spec_value_string(v.view_value()),
{
    match v {
        TomlValue::String(s) => s.clone(),
        _ => toml_text(v),
    }
}

// ---------------------------------------------------------------------------
// The panel
// ---------------------------------------------------------------------------

/// The type of the first field with key `key`.
pub open spec fn first_field(fs: Seq<ConfigField>, key: Seq<char>) -> Option<ConfigFieldType>
    decreases fs.len(),
{
    if fs.len() == 0 {
        None
    } else if fs[0].key@ == key {
        Some(fs[0].field_type)
    } else {
        first_field(fs.drop_first(), key)
    }
}

/// The first module with id `id`.
pub open spec fn first_module(ms: Seq<ModuleConfigSchema>, id: Seq<char>) -> Option<ModuleConfigSchema>
    decreases ms.len(),
{
    if ms.len() == 0 {
        None
    } else if ms[0].module_id@ == id {
        Some(ms[0])
    } else {
        first_module(ms.drop_first(), id)
    }
}

/// The schema type of setting `key`: a common setting, else a module
/// setting named by a `module:ID:KEY` key.
pub open spec fn schema_type_for(schema: Option<ConfigSchema>, key: Seq<char>) -> Option<ConfigFieldType> {
    match schema {
        None => None,
        Some(sc) => match first_field(sc.fields@, key) {
            Some(t) => Some(t),
            None => match spec_parse_module_key(key) {
                Some((m, f)) => match first_module(sc.modules@, m) {
                    Some(module) => first_field(module.fields@, f),
                    None => None,
                },
                None => None,
            },
        },
    }
}

pub open spec fn cfg_view(c: Option<TomlTable>) -> Option<Seq<(Seq<char>, TomlView)>> {
    match c {
        Some(t) => Some(t@),
        None => None,
    }
}

/// The configured value of setting `key`: a module setting is read from
/// `modules.ID`, anything else from the top-level table.
pub open spec fn spec_value_for(cfg: Option<Seq<(Seq<char>, TomlView)>>, key: Seq<char>) -> Option<TomlView> {
    match cfg {
        None => None,
        Some(t) => match spec_parse_module_key(key) {
            Some((m, f)) => match spec_get_path(t, seq!["modules"@]) {
                Some(TomlView::Tab(mods)) => match tv_get(mods, m) {
                    Some(TomlView::Tab(module)) => spec_get_path(module, split_on(f, '.')),
                    _ => None,
                },
                _ => None,
            },
            None => spec_get_path(t, split_on(key, '.')),
        },
    }
}

/// The message of a failed path walk.
pub open spec fn fault_text(f: PathFault) -> Seq<char> {
    match f {
        PathFault::Empty => "HyprDeck schema contains an empty path"@,
        PathFault::EmptySegment => "HyprDeck schema contains an empty path segment"@,
        PathFault::NotTable(p) => "`"@ + p + "` must be a TOML table for nested configuration"@,
    }
}

/// Setting `v` for setting `key`: the table afterwards and the error
/// message, if any.  A module setting goes to `modules.ID` (both tables
/// made when missing), anything else to its dotted path.
pub open spec fn spec_set_config(t: Seq<(Seq<char>, TomlView)>, key: Seq<char>, v: TomlView) -> (
    Seq<(Seq<char>, TomlView)>,
    Option<Seq<char>>,
) {
    match spec_parse_module_key(key) {
        Some((m, f)) => {
            let mods = match tv_get(t, "modules"@) {
                Some(TomlView::Tab(s)) => Some(s),
                None => Some(seq![]),
                Some(_) => None,
            };
            match mods {
                None => (t, Some("`modules` must be a TOML table"@)),
                Some(mods) => {
                    let module = match tv_get(mods, m) {
                        Some(TomlView::Tab(s)) => Some(s),
                        None => Some(seq![]),
                        Some(_) => None,
                    };
                    match module {
                        None => (t, Some("`modules."@ + m + "` must be a TOML table"@)),
                        Some(module) => {
                            let (s2, fault) = spec_set_path(module, split_on(f, '.'), v, true);
                            (
                                tv_insert(t, "modules"@, TomlView::Tab(tv_insert(mods, m, TomlView::Tab(s2)))),
                                match fault {
                                    Some(x) => Some(fault_text(x)),
                                    None => None,
                                },
                            )
                        },
                    }
                },
            }
        },
        None => {
            let (t2, fault) = spec_set_path(t, split_on(key, '.'), v, true);
            (t2, match fault {
                Some(x) => Some(fault_text(x)),
                None => None,
            })
        },
    }
}

fn fault_message(f: SetFault) -> (m: String)
    ensures
        match f {
            SetFault::Empty => m@ == fault_text(PathFault::Empty),
            SetFault::EmptySegment => m@ == fault_text(PathFault::EmptySegment),
            SetFault::NotTable(p) => m@ == fault_text(PathFault::NotTable(p@)),
        },
{
    match f {
        SetFault::Empty => "HyprDeck schema contains an empty path".to_string(),
        SetFault::EmptySegment => "HyprDeck schema contains an empty path segment".to_string(),
        SetFault::NotTable(p) => {
            let mut m = "`".to_string();
            m.append(p.as_str());
            m.append("` must be a TOML table for nested configuration");
            m
        },
    }
}

/// Takes the table entry `key` out of `t` when it is a table: its
/// position, if it was there, and the table (empty when it was not).
fn take_table(t: &mut TomlTable, key: &str) -> (r: Result<(Option<usize>, TomlTable), ()>)
    ensures
        match crate::toml_model::tv_get(old(t)@, key@) {
            Some(TomlView::Tab(s)) => r matches Ok((Some(i), sub)) && i == crate::toml_model::key_index(old(t)@, key@)
                && sub@ == s && final(t)@ == old(t)@.remove(i as int),
            None => r matches Ok((None, sub)) && sub@.len() == 0 && final(t)@ == old(t)@,
            Some(_) => r is Err && final(t)@ == old(t)@,
        },
{
    let idx = t.find(key);
    proof {
        crate::toml_model::lemma_key_index(old(t)@, key@);
    }
    if idx < t.entries.len() {
        let is_table = match &t.entries[idx].1 {
            TomlValue::Table(_) => true,
            _ => false,
        };
        if !is_table {
            return Err(());
        }
        let (k, v) = t.entries.remove(idx);
        proof {
            assert(t@ =~= old(t)@.remove(idx as int));
        }
        match v {
            TomlValue::Table(sub) => Ok((Some(idx), sub)),
            _ => Err(()),
        }
    } else {
        Ok((None, TomlTable::new()))
    }
}

/// Puts a table entry back: at its old position, or at the end.
fn put_table(t: &mut TomlTable, key: &str, at: Option<usize>, sub: TomlTable)
    requires
        match at {
            Some(i) => i <= old(t)@.len(),
            None => true,
        },
    ensures
        match at {
            Some(i) => final(t)@ == old(t)@.insert(i as int, (key@, TomlView::Tab(sub@))),
            None => final(t)@ == old(t)@.push((key@, TomlView::Tab(sub@))),
        },
{
    let ghost sv = sub@;
    match at {
        Some(i) => {
            t.entries.insert(i, (key.to_string(), TomlValue::Table(sub)));
            assert(t@ =~= old(t)@.insert(i as int, (key@, TomlView::Tab(sv))));
        },
        None => {
            t.entries.push((key.to_string(), TomlValue::Table(sub)));
            assert(t@ =~= old(t)@.push((key@, TomlView::Tab(sv))));
        },
    }
}

proof fn lemma_reinsert(t: Seq<(Seq<char>, TomlView)>, k: Seq<char>, v: TomlView)
    requires
        crate::toml_model::key_index(t, k) < t.len(),
    ensures
        t.remove(crate::toml_model::key_index(t, k)).insert(crate::toml_model::key_index(t, k), (k, v))
            == tv_insert(t, k, v),
{
    crate::toml_model::lemma_key_index(t, k);
    let i = crate::toml_model::key_index(t, k);
    assert(t.remove(i).insert(i, (k, v)) =~= t.update(i, (k, v)));
}

proof fn lemma_push_new(t: Seq<(Seq<char>, TomlView)>, k: Seq<char>, v: TomlView)
    requires
        tv_get(t, k) is None,
    ensures
        t.push((k, v)) == tv_insert(t, k, v),
{
    crate::toml_model::lemma_key_index(t, k);
}

/// Sets `v` for setting `key` as `spec_set_config` says.
pub fn set_config_value(t: &mut TomlTable, key: &str, value: TomlValue) -> (r: Option<String>)
    ensures
        ({
            let (t2, e) = spec_set_config(old(t)@, key@, value.view_value());
            &&& final(t)@ == t2
            &&& match (r, e) {
                (Some(a), Some(b)) => a@ == b,
                (None, None) => true,
                _ => false,
            }
        }),
{
    match parse_module_key(key) {
        Some((m, f)) => {
            let mods_taken = take_table(t, "modules");
            let (mods_at, mut mods) = match mods_taken {
                Ok(x) => x,
                Err(()) => {
                    return Some("`modules` must be a TOML table".to_string());
                },
            };
            let ghost mods0 = mods@;
            let module_taken = take_table(&mut mods, m.as_str());
            let (mod_at, mut module) = match module_taken {
                Ok(x) => x,
                Err(()) => {
                    put_table(t, "modules", mods_at, mods);
                    proof {
                        reveal_strlit("modules");
                        if mods_at is Some {
                            lemma_reinsert(old(t)@, "modules"@, TomlView::Tab(mods0));
                            crate::toml_model::lemma_key_index(old(t)@, "modules"@);
                            assert(old(t)@.update(mods_at->0 as int, ("modules"@, TomlView::Tab(mods0))) =~= old(t)@);
                        }
                    }
                    let mut msg = "`modules.".to_string();
                    msg.append(m.as_str());
                    msg.append("` must be a TOML table");
                    return Some(msg);
                },
            };
            let ghost mods1 = mods@;
            let ghost module0 = module@;
            proof {
                let (sm, sf) = spec_parse_module_key(key@)->0;
                assert(sm == m@ && sf == f@);
                match tv_get(old(t)@, "modules"@) {
                    None => assert(mods0 =~= Seq::<(Seq<char>, TomlView)>::empty()),
                    _ => {},
                }
                match tv_get(mods0, m@) {
                    None => assert(module0 =~= Seq::<(Seq<char>, TomlView)>::empty()),
                    _ => {},
                }
            }
            let fault = set_path(&mut module, f.as_str(), value, true);
            put_table(&mut mods, m.as_str(), mod_at, module);
            proof {
                match mod_at {
                    Some(i) => {
                        lemma_reinsert(mods0, m@, TomlView::Tab(module@));
                    },
                    None => {
                        lemma_push_new(mods0, m@, TomlView::Tab(module@));
                    },
                }
            }
            let ghost newmods = mods@;
            put_table(t, "modules", mods_at, mods);
            proof {
                match mods_at {
                    Some(i) => {
                        lemma_reinsert(old(t)@, "modules"@, TomlView::Tab(newmods));
                    },
                    None => {
                        lemma_push_new(old(t)@, "modules"@, TomlView::Tab(newmods));
                    },
                }
            }
            let r = match fault {
                Some(x) => Some(fault_message(x)),
                None => None,
            };
            assert(t@ == spec_set_config(old(t)@, key@, value.view_value()).0);
            r
        },
        None => {
            let fault = set_path(t, key, value, true);
            match fault {
                Some(x) => Some(fault_message(x)),
                None => None,
            }
        },
    }
}

/// The first theme with id `id`.
pub open spec fn first_theme(ts: Seq<ThemeMetadata>, id: Seq<char>) -> Option<ThemeMetadata>
    decreases ts.len(),
{
    if ts.len() == 0 {
        None
    } else if ts[0].id@ == id {
        Some(ts[0])
    } else {
        first_theme(ts.drop_first(), id)
    }
}

/// The modules the configured theme shows, when it names some.
pub open spec fn active_modules(sc: ConfigSchema, cfg: Option<Seq<(Seq<char>, TomlView)>>) -> Option<Seq<Seq<char>>> {
    match spec_value_for(cfg, "theme"@) {
        Some(TomlView::Str(th)) => match first_theme(sc.themes@, th) {
            Some(tm) => if tm.modules@.len() > 0 {
                Some(strs(tm.modules@))
            } else {
                None
            },
            None => None,
        },
        _ => None,
    }
}

/// One listed setting: key, label, description and type.
pub type Listed = (Seq<char>, Seq<char>, Seq<char>, ConfigFieldType);

pub open spec fn common_listed(fs: Seq<ConfigField>) -> Seq<Listed> {
    fs.map_values(|f: ConfigField| (f.key@, f.label@, f.description@, f.field_type))
}

/// A module's settings as listed: keyed `module:ID:KEY`, labelled
/// `ID — label`.
pub open spec fn module_listed(id: Seq<char>, fs: Seq<ConfigField>) -> Seq<Listed> {
    fs.map_values(|f: ConfigField| (spec_module_key(id, f.key@), id + " \u{2014} "@ + f.label@, f.description@, f.field_type))
}

/// The settings of the modules shown, in schema order.
pub open spec fn modules_listed(ms: Seq<ModuleConfigSchema>, active: Option<Seq<Seq<char>>>) -> Seq<Listed>
    decreases ms.len(),
{
    if ms.len() == 0 {
        seq![]
    } else {
        let m = ms.last();
        let shown = match active {
            Some(a) => a.contains(m.module_id@),
            None => true,
        };
        if shown {
            modules_listed(ms.drop_last(), active) + module_listed(m.module_id@, m.fields@)
        } else {
            modules_listed(ms.drop_last(), active)
        }
    }
}

/// `f` is the field of the listed setting `l` over `cfg`.
pub open spec fn field_is(f: PanelField, cfg: Option<Seq<(Seq<char>, TomlView)>>, l: Listed, dirty: bool) -> bool {
    &&& f.key@ == l.0
    &&& f.label@ == l.1
    &&& f.description@ == l.2
    &&& f.section is None
    &&& f.dirty == dirty
    &&& widget_for(f.field_type, kind_of_type(l.3))
    &&& match spec_value_for(cfg, l.0) {
        Some(v) => f.current_value@ == spec_value_string(v) && (f.original_value matches Some(o) && o@
            == spec_value_string(v)),
        None => f.current_value@ == default_of_type(l.3) && f.original_value is None,
    }
}

/// `f` is a status line: a text field with `key` and `label` and no value.
pub open spec fn status_is(f: PanelField, key: Seq<char>, label: Seq<char>) -> bool {
    &&& f.key@ == key
    &&& f.label@ == label
    &&& f.current_value@.len() == 0
    &&& f.original_value is None
    &&& !f.dirty
    &&& f.field_type is Text
}

/// What a setting reads back after it was written without fault: the value
/// written, for common and module settings alike.
pub proof fn law_read_after_write(t: Seq<(Seq<char>, TomlView)>, key: Seq<char>, v: TomlView)
    requires
        spec_set_config(t, key, v).1 is None,
    ensures
        spec_value_for(Some(spec_set_config(t, key, v).0), key) == Some(v),
{
    reveal_strlit("modules");
    match spec_parse_module_key(key) {
        Some((m, f)) => {
            let mods = match tv_get(t, "modules"@) {
                Some(TomlView::Tab(s)) => s,
                _ => seq![],
            };
            let module = match tv_get(mods, m) {
                Some(TomlView::Tab(s)) => s,
                _ => seq![],
            };
            let (s2, fault) = spec_set_path(module, split_on(f, '.'), v, true);
            crate::toml_model::law_get_after_set(module, split_on(f, '.'), v, true);
            let mods2 = tv_insert(mods, m, TomlView::Tab(s2));
            crate::toml_model::lemma_get_insert(mods, m, TomlView::Tab(s2));
            crate::toml_model::lemma_get_insert(t, "modules"@, TomlView::Tab(mods2));
            let t2 = tv_insert(t, "modules"@, TomlView::Tab(mods2));
            assert(seq!["modules"@][0] == "modules"@);
            assert(spec_get_path(t2, seq!["modules"@]) == Some(TomlView::Tab(mods2)));
        },
        None => {
            crate::toml_model::law_get_after_set(t, split_on(key, '.'), v, true);
        },
    }
}

/// HyprDeck's configuration editor.
pub struct HyprdeckPanel {
    pub config: Option<TomlTable>,
    pub config_error: Option<String>,
    pub schema: Option<ConfigSchema>,
    pub schema_error: Option<String>,
    pub dirty: bool,
}

fn status_field(key: &str, message: String) -> (r: Vec<PanelField>)
    ensures
        r@.len() == 1,
        status_is(r@[0], key@, message@),
{
    vec![PanelField {
        key: key.to_string(),
        section: None,
        label: message,
        description: String::new(),
        field_type: FieldType::Text,
        current_value: String::new(),
        original_value: None,
        dirty: false,
    }]
}

fn find_field(fs: &Vec<ConfigField>, key: &str) -> (r: Option<usize>)
    ensures
        match first_field(fs@, key@) {
            Some(t) => r matches Some(i) && i < fs@.len() && fs@[i as int].field_type == t,
            None => r is None,
        },
{
    let mut i: usize = 0;
    assert(fs@.skip(0) =~= fs@);
    while i < fs.len()
        invariant
            i <= fs@.len(),
            first_field(fs@, key@) == first_field(fs@.skip(i as int), key@),
        decreases fs@.len() - i,
    {
        assert(fs@.skip(i as int)[0] == fs@[i as int]);
        assert(fs@.skip(i as int).drop_first() =~= fs@.skip(i + 1));
        if str_eq(fs[i].key.as_str(), key) {
            return Some(i);
        }
        i = i + 1;
    }
    assert(fs@.skip(i as int) =~= Seq::<ConfigField>::empty());
    None
}

fn find_module(ms: &Vec<ModuleConfigSchema>, id: &str) -> (r: Option<usize>)
    ensures
        match first_module(ms@, id@) {
            Some(m) => r matches Some(i) && i < ms@.len() && ms@[i as int] == m,
            None => r is None,
        },
{
    let mut i: usize = 0;
    assert(ms@.skip(0) =~= ms@);
    while i < ms.len()
        invariant
            i <= ms@.len(),
            first_module(ms@, id@) == first_module(ms@.skip(i as int), id@),
        decreases ms@.len() - i,
    {
        assert(ms@.skip(i as int)[0] == ms@[i as int]);
        assert(ms@.skip(i as int).drop_first() =~= ms@.skip(i + 1));
        if str_eq(ms[i].module_id.as_str(), id) {
            return Some(i);
        }
        i = i + 1;
    }
    assert(ms@.skip(i as int) =~= Seq::<ModuleConfigSchema>::empty());
    None
}

fn find_theme(ts: &Vec<ThemeMetadata>, id: &str) -> (r: Option<usize>)
    ensures
        match first_theme(ts@, id@) {
            Some(m) => r matches Some(i) && i < ts@.len() && ts@[i as int] == m,
            None => r is None,
        },
{
    let mut i: usize = 0;
    assert(ts@.skip(0) =~= ts@);
    while i < ts.len()
        invariant
            i <= ts@.len(),
            first_theme(ts@, id@) == first_theme(ts@.skip(i as int), id@),
        decreases ts@.len() - i,
    {
        assert(ts@.skip(i as int)[0] == ts@[i as int]);
        assert(ts@.skip(i as int).drop_first() =~= ts@.skip(i + 1));
        if str_eq(ts[i].id.as_str(), id) {
            return Some(i);
        }
        i = i + 1;
    }
    assert(ts@.skip(i as int) =~= Seq::<ThemeMetadata>::empty());
    None
}

impl HyprdeckPanel {
    /// A panel over a loaded configuration (or why it could not be loaded)
    /// and the schema HyprDeck printed (or why it could not be had).
    pub fn new(config: Option<TomlTable>, config_error: Option<String>, schema: Result<ConfigSchema, String>) -> (p: Self)
        ensures
            p.config == config,
            p.config_error == config_error,
            match schema {
                Ok(sc) => p.schema == Some(sc) && p.schema_error is None,
                Err(e) => p.schema is None && p.schema_error == Some(e),
            },
            !p.dirty,
    {
        let (schema, schema_error) = match schema {
            Ok(sc) => (Some(sc), None),
            Err(e) => (None, Some(e)),
        };
        HyprdeckPanel { config, config_error, schema, schema_error, dirty: false }
    }

    /// A panel over a configuration and a schema.
    pub fn with_parts(config: TomlTable, schema: ConfigSchema) -> (p: Self)
        ensures
            p.config == Some(config),
            p.config_error is None,
            p.schema == Some(schema),
            p.schema_error is None,
            !p.dirty,
    {
        HyprdeckPanel { config: Some(config), config_error: None, schema: Some(schema), schema_error: None, dirty: false }
    }

    /// Whether HyprDeck has a configuration here, readable or not.
    pub fn available(&self) -> (r: bool)
        ensures
            r == (self.config is Some || self.config_error is Some),
    {
        self.config.is_some() || self.config_error.is_some()
    }

    /// Whether settings were changed since loading or saving.
    pub fn has_unsaved_changes(&self) -> (r: bool)
        ensures
            r == self.dirty,
    {
        self.dirty
    }

    /// The schema type of setting `key`.
    pub fn field_type_for(&self, key: &str) -> (r: Option<&ConfigFieldType>)
        ensures
            match schema_type_for(self.schema, key@) {
                Some(t) => r matches Some(x) && *x == t,
                None => r is None,
            },
    {
        let sc = match &self.schema {
            Some(sc) => sc,
            None => {
                return None;
            },
        };
        match find_field(&sc.fields, key) {
            Some(i) => {
                return Some(&sc.fields[i].field_type);
            },
            None => {},
        }
        match parse_module_key(key) {
            Some((m, f)) => match find_module(&sc.modules, m.as_str()) {
                Some(j) => match find_field(&sc.modules[j].fields, f.as_str()) {
                    Some(k) => Some(&sc.modules[j].fields[k].field_type),
                    None => None,
                },
                None => None,
            },
            None => None,
        }
    }

    /// The specification of setting `key`.
    pub fn field_spec(&self, key: &str) -> (r: Option<FieldSpec>)
        ensures
            match schema_type_for(self.schema, key@) {
                Some(t) => r matches Some(s) && kind_of(s) == kind_of_type(t) && spec_default_text(s)
                    == default_of_type(t),
                None => r is None,
            },
    {
        match self.field_type_for(key) {
            Some(t) => Some(FieldSpec::from_schema(t)),
            None => None,
        }
    }

    /// The configured value of setting `key`.
    pub fn value_for(&self, key: &str) -> (r: Option<&TomlValue>)
        ensures
            match spec_value_for(cfg_view(self.config), key@) {
                Some(v) => r matches Some(x) && x.view_value() == v,
                None => r is None,
            },
    {
        let table = match &self.config {
            Some(t) => t,
            None => {
                return None;
            },
        };
        match parse_module_key(key) {
            Some((m, f)) => {
                proof {
                    reveal_strlit("modules");
                    assert(split_on("modules"@, '.') =~= seq!["modules"@]) by {
                        crate::text::lemma_find_char_at("modules"@, '.', 7);
                    }
                }
                let mods = match get_path(table, "modules") {
                    Some(TomlValue::Table(mods)) => mods,
                    _ => {
                        return None;
                    },
                };
                let module = match mods.get(m.as_str()) {
                    Some(TomlValue::Table(module)) => module,
                    _ => {
                        return None;
                    },
                };
                get_path(module, f.as_str())
            },
            None => get_path(table, key),
        }
    }

    /// Sets the setting `key` to the edited text `value` (a number setting
    /// takes the verdict `check` on it), and gives back the value shown
    /// before: the configured one, or the default.
    pub fn set_value(&mut self, key: &str, value: &str, check: FloatCheck) -> (r: Result<String, PanelError>)
        ensures
            final(self).schema == old(self).schema,
            final(self).config_error == old(self).config_error,
            match schema_type_for(old(self).schema, key@) {
                None => (r matches Err(PanelError::UnknownKey(k)) && k@ == key@) && *final(self) == *old(self),
                Some(t) => {
                    let cfg = cfg_view(old(self).config);
                    let shown = match spec_value_for(cfg, key@) {
                        Some(v) => spec_value_string(v),
                        None => default_of_type(t),
                    };
                    match spec_parse_value(kind_of_type(t), value@, check) {
                        Err(reason) => (r matches Err(PanelError::InvalidValue { key: k, reason: m }) && k@ == key@
                            && m@ == reason) && *final(self) == *old(self),
                        Ok(v) => match cfg {
                            None => (r matches Err(PanelError::Config(m)) && m@ == "HyprDeck config not loaded"@)
                                && *final(self) == *old(self),
                            Some(tab) => {
                                let (t2, e) = spec_set_config(tab, key@, v);
                                &&& cfg_view(final(self).config) == Some(t2)
                                &&& match e {
                                    None => (r matches Ok(o) && o@ == shown) && final(self).dirty,
                                    Some(m) => (r matches Err(PanelError::Config(x)) && x@ == m) && final(self).dirty
                                        == old(self).dirty,
                                }
                            },
                        },
                    }
                },
            },
    {
        let spec = match self.field_spec(key) {
            Some(s) => s,
            None => {
                return Err(PanelError::UnknownKey(key.to_string()));
            },
        };
        let old = match self.value_for(key) {
            Some(v) => value_string(v),
            None => spec.default_string(),
        };
        let parsed = match spec.parse(value, key, check) {
            Ok(v) => v,
            Err(e) => {
                return Err(e);
            },
        };
        match &mut self.config {
            None => Err(PanelError::Config("HyprDeck config not loaded".to_string())),
            Some(t) => match set_config_value(t, key, parsed) {
                Some(m) => Err(PanelError::Config(m)),
                None => {
                    self.dirty = true;
                    Ok(old)
                },
            },
        }
    }

    /// The field of the listed setting `l`.
    fn make_field(&self, key: &str, label: String, description: &String, t: &ConfigFieldType) -> (f: PanelField)
        ensures
            field_is(f, cfg_view(self.config), (key@, label@, description@, *t), self.dirty),
    {
        let spec = FieldSpec::from_schema(t);
        let original = match self.value_for(key) {
            Some(v) => Some(value_string(v)),
            None => None,
        };
        let current = match &original {
            Some(o) => o.clone(),
            None => spec.default_string(),
        };
        PanelField {
            key: key.to_string(),
            section: None,
            label,
            description: description.clone(),
            field_type: spec.field_type(),
            current_value: current,
            original_value: original,
            dirty: self.dirty,
        }
    }

    /// The modules the configured theme shows, when it names some.
    fn active<'a>(&self, sc: &'a ConfigSchema) -> (r: Option<&'a Vec<String>>)
        ensures
            match active_modules(*sc, cfg_view(self.config)) {
                Some(a) => r matches Some(v) && strs(v@) == a,
                None => r is None,
            },
    {
        proof {
            reveal_strlit("theme");
            assert(spec_parse_module_key("theme"@) is None);
        }
        let theme = match self.value_for("theme") {
            Some(TomlValue::String(th)) => th,
            _ => {
                return None;
            },
        };
        match find_theme(&sc.themes, theme.as_str()) {
            Some(i) => {
                if sc.themes[i].modules.len() > 0 {
                    Some(&sc.themes[i].modules)
                } else {
                    None
                }
            },
            None => None,
        }
    }

    /// The fields the panel shows: a status line when the configuration or
    /// the schema is missing; otherwise the common settings, then the
    /// settings of the modules the theme shows (all modules when it names
    /// none).
    #[verifier::loop_isolation(false)]
    pub fn fields(&self) -> (r: Vec<PanelField>)
        ensures
            match self.config_error {
                Some(e) => r@.len() == 1 && status_is(r@[0], "_config_invalid"@, "Could not load HyprDeck configuration: "@ + e@),
                None => match self.config {
                    None => r@.len() == 1 && status_is(r@[0], "_not_installed"@, "HyprDeck is not installed"@),
                    Some(_) => match self.schema_error {
                        Some(e) => r@.len() == 1 && status_is(
                            r@[0],
                            "_schema_unavailable"@,
                            "Could not load HyprDeck configuration schema: "@ + e@,
                        ),
                        None => match self.schema {
                            None => r@.len() == 0,
                            Some(sc) => {
                                let all = common_listed(sc.fields@) + modules_listed(sc.modules@, active_modules(sc, cfg_view(self.config)));
                                &&& r@.len() == all.len()
                                &&& forall|i: int| 0 <= i < all.len() ==> field_is(#[trigger] r@[i], cfg_view(self.config), all[i], self.dirty)
                            },
                        },
                    },
                },
            },
    {
        match &self.config_error {
            Some(e) => {
                let mut m = "Could not load HyprDeck configuration: ".to_string();
                m.append(e.as_str());
                return status_field("_config_invalid", m);
            },
            None => {},
        }
        if self.config.is_none() {
            return status_field("_not_installed", "HyprDeck is not installed".to_string());
        }
        match &self.schema_error {
            Some(e) => {
                let mut m = "Could not load HyprDeck configuration schema: ".to_string();
                m.append(e.as_str());
                return status_field("_schema_unavailable", m);
            },
            None => {},
        }
        let sc = match &self.schema {
            Some(sc) => sc,
            None => {
                return Vec::new();
            },
        };
        let ghost cfg = cfg_view(self.config);
        let ghost common = common_listed(sc.fields@);
        let mut out: Vec<PanelField> = Vec::new();
        let mut i: usize = 0;
        while i < sc.fields.len()
            invariant
                i <= sc.fields@.len(),
                common == common_listed(sc.fields@),
                cfg == cfg_view(self.config),
                out@.len() == i,
                forall|k: int| 0 <= k < i ==> field_is(#[trigger] out@[k], cfg, common[k], self.dirty),
            decreases sc.fields@.len() - i,
        {
            let f = &sc.fields[i];
            let fld = self.make_field(f.key.as_str(), f.label.clone(), &f.description, &f.field_type);
            out.push(fld);
            i = i + 1;
        }
        let active = self.active(sc);
        let ghost act = active_modules(*sc, cfg);
        let mut j: usize = 0;
        assert(sc.modules@.take(0) =~= Seq::<ModuleConfigSchema>::empty());
        while j < sc.modules.len()
            invariant
                j <= sc.modules@.len(),
                common == common_listed(sc.fields@),
                cfg == cfg_view(self.config),
                act == active_modules(*sc, cfg),
                match act {
                    Some(a) => active matches Some(v) && strs(v@) == a,
                    None => active is None,
                },
                out@.len() == common.len() + modules_listed(sc.modules@.take(j as int), act).len(),
                forall|k: int| 0 <= k < common.len() ==> field_is(#[trigger] out@[k], cfg, common[k], self.dirty),
                forall|k: int| 0 <= k < modules_listed(sc.modules@.take(j as int), act).len() ==> field_is(
                    #[trigger] out@[common.len() + k],
                    cfg,
                    modules_listed(sc.modules@.take(j as int), act)[k],
                    self.dirty,
                ),
            decreases sc.modules@.len() - j,
        {
            let module = &sc.modules[j];
            let ghost before = modules_listed(sc.modules@.take(j as int), act);
            proof {
                assert(sc.modules@.take(j + 1).drop_last() =~= sc.modules@.take(j as int));
                assert(sc.modules@.take(j + 1).last() == sc.modules@[j as int]);
            }
            let shown = match active {
                Some(v) => strings_contain(v, module.module_id.as_str()),
                None => true,
            };
            if shown {
                let ghost ml = module_listed(module.module_id@, module.fields@);
                let mut k: usize = 0;
                while k < module.fields.len()
                    invariant
                        k <= module.fields@.len(),
                        ml == module_listed(module.module_id@, module.fields@),
                        cfg == cfg_view(self.config),
                        out@.len() == common.len() + before.len() + k,
                        forall|q: int| 0 <= q < common.len() ==> field_is(#[trigger] out@[q], cfg, common[q], self.dirty),
                        forall|q: int| 0 <= q < before.len() ==> field_is(#[trigger] out@[common.len() + q], cfg, before[q], self.dirty),
                        forall|q: int| 0 <= q < k ==> field_is(#[trigger] out@[common.len() + before.len() + q], cfg, ml[q], self.dirty),
                    decreases module.fields@.len() - k,
                {
                    let f = &module.fields[k];
                    let key = module_key(module.module_id.as_str(), f.key.as_str());
                    let mut label = module.module_id.clone();
                    label.append(" \u{2014} ");
                    label.append(f.label.as_str());
                    let fld = self.make_field(key.as_str(), label, &f.description, &f.field_type);
                    assert(ml[k as int] == (key@, label@, f.description@, f.field_type));
                    out.push(fld);
                    k = k + 1;
                }
                proof {
                    assert(modules_listed(sc.modules@.take(j + 1), act) == before + ml);
                    assert forall|q: int| 0 <= q < modules_listed(sc.modules@.take(j + 1), act).len() implies field_is(
                        #[trigger] out@[common.len() + q],
                        cfg,
                        modules_listed(sc.modules@.take(j + 1), act)[q],
                        self.dirty,
                    ) by {
                        if q < before.len() {
                        } else {
                            assert(out@[common.len() + q] == out@[common.len() + before.len() + (q - before.len())]);
                        }
                    }
                }
            } else {
                proof {
                    assert(modules_listed(sc.modules@.take(j + 1), act) == before);
                }
            }
            j = j + 1;
        }
        assert(sc.modules@.take(sc.modules@.len() as int) =~= sc.modules@);
        assert(self.config_error is None);
        assert(self.config is Some);
        assert(self.schema_error is None);
        assert(self.schema == Some(*sc));
        proof {
            let all = common + modules_listed(sc.modules@, act);
            assert(out@.len() == all.len());
            assert forall|q: int| 0 <= q < all.len() implies field_is(#[trigger] out@[q], cfg, all[q], self.dirty) by {
                if q >= common.len() {
                    assert(out@[q] == out@[common.len() + (q - common.len())]);
                }
            }
        }
        out
    }
}

impl HyprdeckPanel {
    /// Shown after a save: HyprDeck reads its settings only when it starts.
    pub fn save_notice(&self) -> (r: &'static str)
        ensures
            r@ == "Restart HyprDeck to apply these settings."@,
    {
        "Restart HyprDeck to apply these settings."
    }
}

} // verus!
