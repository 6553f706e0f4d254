//! The a2native form protocol: the form spec an agent sends and the result
//! that comes back.
use vstd::prelude::*;
use crate::json::{Float64Bits, Float32Bits, JsonValue, JsonView, json_view};
use crate::strmap::StrMap;

verus! {

/// What a button does when pressed.
#[derive(Debug, Clone, Copy, PartialEq, Eq, Structural)]
pub enum ButtonAction {
    Submit,
    Cancel,
    Custom,
}

impl Default for ButtonAction {
    fn default() -> (r: Self)
        ensures
            r == ButtonAction::Submit,
    {
        ButtonAction::Submit
    }
}

/// The severity of an alert block.
#[derive(Debug, Clone, Copy, PartialEq, Eq, Structural)]
pub enum AlertKind {
    Info,
    Success,
    Warning,
    Error,
}

impl Default for AlertKind {
    fn default() -> (r: Self)
        ensures
            r == AlertKind::Info,
    {
        AlertKind::Info
    }
}

/// How a form ended.
#[derive(Debug, Clone, Copy, PartialEq, Eq, Structural)]
pub enum OutputStatus {
    Submitted,
    Cancelled,
    Timeout,
}

/// The default of a collapsible section's `open` flag.
pub fn default_true() -> (r: bool)
    ensures
        r,
{
    true
}

/// The default number of stars of a rating.
pub fn default_rating_max() -> (r: u32)
    ensures
        r == 5,
{
    5
}

/// The view of an optional string.
pub open spec fn opt_str_view(o: Option<String>) -> Option<Seq<char>> {
    match o {
        Some(s) => Some(s@),
        None => None,
    }
}

/// One choice of a dropdown, radio group or checkbox group.
#[derive(Debug)]
pub struct SelectOption {
    pub value: String,
    pub label: String,
}

/// The view of a `SelectOption`.
pub struct SelectOptionView {
    pub value: Seq<char>,
    pub label: Seq<char>,
}

impl View for SelectOption {
    type V = SelectOptionView;

    open spec fn view(&self) -> SelectOptionView {
        SelectOptionView { value: self.value@, label: self.label@ }
    }
}

/// Window appearance.
#[derive(Debug)]
pub struct Theme {
    pub accent_color: Option<String>,
    pub dark_mode: Option<bool>,
}

/// The view of a `Theme`.
pub struct ThemeView {
    pub accent_color: Option<Seq<char>>,
    pub dark_mode: Option<bool>,
}

impl View for Theme {
    type V = ThemeView;

    open spec fn view(&self) -> ThemeView {
        ThemeView { accent_color: opt_str_view(self.accent_color), dark_mode: self.dark_mode }
    }
}

/// The view of an optional theme.
pub open spec fn opt_theme_view(o: Option<Theme>) -> Option<ThemeView> {
    match o {
        Some(t) => Some(t@),
        None => None,
    }
}

/// One element of a form.  Numbers of the form are binary64 values held
/// by their bit patterns.
#[derive(Debug)]
#[allow(inconsistent_fields)]
pub enum Component {
    Text {
        id: String,
        content: String,
    },
    Markdown {
        id: String,
        content: String,
    },
    Image {
        id: String,
        src: String,
        alt: Option<String>,
    },
    Divider {
        id: String,
    },
    TextField {
        id: String,
        label: Option<String>,
        placeholder: Option<String>,
        required: bool,
        default_value: Option<String>,
        min_length: Option<usize>,
        max_length: Option<usize>,
        pattern: Option<String>,
        error_message: Option<String>,
    },
    Textarea {
        id: String,
        label: Option<String>,
        placeholder: Option<String>,
        required: bool,
        default_value: Option<String>,
        min_length: Option<usize>,
        max_length: Option<usize>,
        pattern: Option<String>,
        error_message: Option<String>,
    },
    NumberInput {
        id: String,
        label: Option<String>,
        min: Option<Float64Bits>,
        max: Option<Float64Bits>,
        step: Option<Float64Bits>,
        default_value: Option<Float64Bits>,
    },
    DatePicker {
        id: String,
        label: Option<String>,
        required: bool,
        default_value: Option<String>,
    },
    TimePicker {
        id: String,
        label: Option<String>,
        required: bool,
        default_value: Option<String>,
    },
    Dropdown {
        id: String,
        label: Option<String>,
        options: Vec<SelectOption>,
        required: bool,
        default_value: Option<String>,
    },
    Checkbox {
        id: String,
        label: Option<String>,
        default_value: bool,
    },
    CheckboxGroup {
        id: String,
        label: Option<String>,
        options: Vec<SelectOption>,
        default_values: Vec<String>,
    },
    RadioGroup {
        id: String,
        label: Option<String>,
        options: Vec<SelectOption>,
        required: bool,
        default_value: Option<String>,
    },
    Slider {
        id: String,
        label: Option<String>,
        min: Float64Bits,
        max: Float64Bits,
        step: Option<Float64Bits>,
        default_value: Option<Float64Bits>,
    },
    FileUpload {
        id: String,
        label: Option<String>,
        accept: Option<String>,
        multiple: bool,
    },
    Button {
        id: String,
        label: String,
        action: ButtonAction,
    },
    Card {
        id: String,
        title: Option<String>,
        children: Vec<Component>,
    },
    Row {
        id: String,
        children: Vec<Component>,
    },
    Password {
        id: String,
        label: Option<String>,
        placeholder: Option<String>,
        required: bool,
        min_length: Option<usize>,
        max_length: Option<usize>,
        pattern: Option<String>,
        error_message: Option<String>,
    },
    Rating {
        id: String,
        label: Option<String>,
        max: u32,
        default_value: Option<u32>,
    },
    Toggle {
        id: String,
        label: Option<String>,
        default_value: bool,
    },
    Code {
        id: String,
        content: String,
        language: Option<String>,
    },
    Email {
        id: String,
        label: Option<String>,
        placeholder: Option<String>,
        required: bool,
        default_value: Option<String>,
        error_message: Option<String>,
    },
    Url {
        id: String,
        label: Option<String>,
        placeholder: Option<String>,
        required: bool,
        default_value: Option<String>,
        error_message: Option<String>,
    },
    Hidden {
        id: String,
        value: JsonValue,
    },
    DatetimePicker {
        id: String,
        label: Option<String>,
        required: bool,
        default_value: Option<String>,
    },
    DateRange {
        id: String,
        label: Option<String>,
        required: bool,
        default_start: Option<String>,
        default_end: Option<String>,
    },
    ColorPicker {
        id: String,
        label: Option<String>,
        default_value: Option<String>,
    },
    RangeSlider {
        id: String,
        label: Option<String>,
        min: Float64Bits,
        max: Float64Bits,
        step: Option<Float64Bits>,
        default_min: Option<Float64Bits>,
        default_max: Option<Float64Bits>,
    },
    MultiSelect {
        id: String,
        label: Option<String>,
        options: Vec<SelectOption>,
        default_values: Vec<String>,
        placeholder: Option<String>,
    },
    Combobox {
        id: String,
        label: Option<String>,
        placeholder: Option<String>,
        options: Vec<SelectOption>,
        required: bool,
        default_value: Option<String>,
    },
    Tags {
        id: String,
        label: Option<String>,
        placeholder: Option<String>,
        default_values: Vec<String>,
        max: Option<usize>,
    },
    Alert {
        id: String,
        kind: AlertKind,
        title: Option<String>,
        content: String,
    },
    Link {
        id: String,
        label: String,
        url: String,
    },
    Progress {
        id: String,
        label: Option<String>,
        value: Float64Bits,
        max: Option<Float64Bits>,
        show_percent: bool,
    },
    Collapsible {
        id: String,
        title: String,
        open: bool,
        children: Vec<Component>,
    },
    Spacer {
        id: String,
        size: Float32Bits,
    },
}

/// The view of a `Component`.
#[allow(inconsistent_fields)]
pub enum ComponentView {
    Text {
        id: Seq<char>,
        content: Seq<char>,
    },
    Markdown {
        id: Seq<char>,
        content: Seq<char>,
    },
    Image {
        id: Seq<char>,
        src: Seq<char>,
        alt: Option<Seq<char>>,
    },
    Divider {
        id: Seq<char>,
    },
    TextField {
        id: Seq<char>,
        label: Option<Seq<char>>,
        placeholder: Option<Seq<char>>,
        required: bool,
        default_value: Option<Seq<char>>,
        min_length: Option<usize>,
        max_length: Option<usize>,
        pattern: Option<Seq<char>>,
        error_message: Option<Seq<char>>,
    },
    Textarea {
        id: Seq<char>,
        label: Option<Seq<char>>,
        placeholder: Option<Seq<char>>,
        required: bool,
        default_value: Option<Seq<char>>,
        min_length: Option<usize>,
        max_length: Option<usize>,
        pattern: Option<Seq<char>>,
        error_message: Option<Seq<char>>,
    },
    NumberInput {
        id: Seq<char>,
        label: Option<Seq<char>>,
        min: Option<Float64Bits>,
        max: Option<Float64Bits>,
        step: Option<Float64Bits>,
        default_value: Option<Float64Bits>,
    },
    DatePicker {
        id: Seq<char>,
        label: Option<Seq<char>>,
        required: bool,
        default_value: Option<Seq<char>>,
    },
    TimePicker {
        id: Seq<char>,
        label: Option<Seq<char>>,
        required: bool,
        default_value: Option<Seq<char>>,
    },
    Dropdown {
        id: Seq<char>,
        label: Option<Seq<char>>,
        options: Seq<SelectOptionView>,
        required: bool,
        default_value: Option<Seq<char>>,
    },
    Checkbox {
        id: Seq<char>,
        label: Option<Seq<char>>,
        default_value: bool,
    },
    CheckboxGroup {
        id: Seq<char>,
        label: Option<Seq<char>>,
        options: Seq<SelectOptionView>,
        default_values: Seq<Seq<char>>,
    },
    RadioGroup {
        id: Seq<char>,
        label: Option<Seq<char>>,
        options: Seq<SelectOptionView>,
        required: bool,
        default_value: Option<Seq<char>>,
    },
    Slider {
        id: Seq<char>,
        label: Option<Seq<char>>,
        min: Float64Bits,
        max: Float64Bits,
        step: Option<Float64Bits>,
        default_value: Option<Float64Bits>,
    },
    FileUpload {
        id: Seq<char>,
        label: Option<Seq<char>>,
        accept: Option<Seq<char>>,
        multiple: bool,
    },
    Button {
        id: Seq<char>,
        label: Seq<char>,
        action: ButtonAction,
    },
    Card {
        id: Seq<char>,
        title: Option<Seq<char>>,
        children: Seq<ComponentView>,
    },
    Row {
        id: Seq<char>,
        children: Seq<ComponentView>,
    },
    Password {
        id: Seq<char>,
        label: Option<Seq<char>>,
        placeholder: Option<Seq<char>>,
        required: bool,
        min_length: Option<usize>,
        max_length: Option<usize>,
        pattern: Option<Seq<char>>,
        error_message: Option<Seq<char>>,
    },
    Rating {
        id: Seq<char>,
        label: Option<Seq<char>>,
        max: u32,
        default_value: Option<u32>,
    },
    Toggle {
        id: Seq<char>,
        label: Option<Seq<char>>,
        default_value: bool,
    },
    Code {
        id: Seq<char>,
        content: Seq<char>,
        language: Option<Seq<char>>,
    },
    Email {
        id: Seq<char>,
        label: Option<Seq<char>>,
        placeholder: Option<Seq<char>>,
        required: bool,
        default_value: Option<Seq<char>>,
        error_message: Option<Seq<char>>,
    },
    Url {
        id: Seq<char>,
        label: Option<Seq<char>>,
        placeholder: Option<Seq<char>>,
        required: bool,
        default_value: Option<Seq<char>>,
        error_message: Option<Seq<char>>,
    },
    Hidden {
        id: Seq<char>,
        value: JsonView,
    },
    DatetimePicker {
        id: Seq<char>,
        label: Option<Seq<char>>,
        required: bool,
        default_value: Option<Seq<char>>,
    },
    DateRange {
        id: Seq<char>,
        label: Option<Seq<char>>,
        required: bool,
        default_start: Option<Seq<char>>,
        default_end: Option<Seq<char>>,
    },
    ColorPicker {
        id: Seq<char>,
        label: Option<Seq<char>>,
        default_value: Option<Seq<char>>,
    },
    RangeSlider {
        id: Seq<char>,
        label: Option<Seq<char>>,
        min: Float64Bits,
        max: Float64Bits,
        step: Option<Float64Bits>,
        default_min: Option<Float64Bits>,
        default_max: Option<Float64Bits>,
    },
    MultiSelect {
        id: Seq<char>,
        label: Option<Seq<char>>,
        options: Seq<SelectOptionView>,
        default_values: Seq<Seq<char>>,
        placeholder: Option<Seq<char>>,
    },
    Combobox {
        id: Seq<char>,
        label: Option<Seq<char>>,
        placeholder: Option<Seq<char>>,
        options: Seq<SelectOptionView>,
        required: bool,
        default_value: Option<Seq<char>>,
    },
    Tags {
        id: Seq<char>,
        label: Option<Seq<char>>,
        placeholder: Option<Seq<char>>,
        default_values: Seq<Seq<char>>,
        max: Option<usize>,
    },
    Alert {
        id: Seq<char>,
        kind: AlertKind,
        title: Option<Seq<char>>,
        content: Seq<char>,
    },
    Link {
        id: Seq<char>,
        label: Seq<char>,
        url: Seq<char>,
    },
    Progress {
        id: Seq<char>,
        label: Option<Seq<char>>,
        value: Float64Bits,
        max: Option<Float64Bits>,
        show_percent: bool,
    },
    Collapsible {
        id: Seq<char>,
        title: Seq<char>,
        open: bool,
        children: Seq<ComponentView>,
    },
    Spacer {
        id: Seq<char>,
        size: Float32Bits,
    },
}

/// The view of a component.
pub open spec fn component_view(c: Component) -> ComponentView
    decreases c,
{
    match c {
        Component::Text { id, content } => ComponentView::Text { id: id@, content: content@ },
        Component::Markdown { id, content } => ComponentView::Markdown { id: id@, content: content@ },
        Component::Image { id, src, alt } => ComponentView::Image { id: id@, src: src@, alt: opt_str_view(alt) },
        Component::Divider { id } => ComponentView::Divider { id: id@ },
        Component::TextField { id, label, placeholder, required, default_value, min_length, max_length, pattern, error_message } => ComponentView::TextField { id: id@, label: opt_str_view(label), placeholder: opt_str_view(placeholder), required: required, default_value: opt_str_view(default_value), min_length: min_length, max_length: max_length, pattern: opt_str_view(pattern), error_message: opt_str_view(error_message) },
        Component::Textarea { id, label, placeholder, required, default_value, min_length, max_length, pattern, error_message } => ComponentView::Textarea { id: id@, label: opt_str_view(label), placeholder: opt_str_view(placeholder), required: required, default_value: opt_str_view(default_value), min_length: min_length, max_length: max_length, pattern: opt_str_view(pattern), error_message: opt_str_view(error_message) },
        Component::NumberInput { id, label, min, max, step, default_value } => ComponentView::NumberInput { id: id@, label: opt_str_view(label), min: min, max: max, step: step, default_value: default_value },
        Component::DatePicker { id, label, required, default_value } => ComponentView::DatePicker { id: id@, label: opt_str_view(label), required: required, default_value: opt_str_view(default_value) },
        Component::TimePicker { id, label, required, default_value } => ComponentView::TimePicker { id: id@, label: opt_str_view(label), required: required, default_value: opt_str_view(default_value) },
        Component::Dropdown { id, label, options, required, default_value } => ComponentView::Dropdown { id: id@, label: opt_str_view(label), options: options@.map_values(|o: SelectOption| o@), required: required, default_value: opt_str_view(default_value) },
        Component::Checkbox { id, label, default_value } => ComponentView::Checkbox { id: id@, label: opt_str_view(label), default_value: default_value },
        Component::CheckboxGroup { id, label, options, default_values } => ComponentView::CheckboxGroup { id: id@, label: opt_str_view(label), options: options@.map_values(|o: SelectOption| o@), default_values: default_values@.map_values(|s: String| s@) },
        Component::RadioGroup { id, label, options, required, default_value } => ComponentView::RadioGroup { id: id@, label: opt_str_view(label), options: options@.map_values(|o: SelectOption| o@), required: required, default_value: opt_str_view(default_value) },
        Component::Slider { id, label, min, max, step, default_value } => ComponentView::Slider { id: id@, label: opt_str_view(label), min: min, max: max, step: step, default_value: default_value },
        Component::FileUpload { id, label, accept, multiple } => ComponentView::FileUpload { id: id@, label: opt_str_view(label), accept: opt_str_view(accept), multiple: multiple },
        Component::Button { id, label, action } => ComponentView::Button { id: id@, label: label@, action: action },
        Component::Card { id, title, children } => ComponentView::Card { id: id@, title: opt_str_view(title), children: components_view(children@) },
        Component::Row { id, children } => ComponentView::Row { id: id@, children: components_view(children@) },
        Component::Password { id, label, placeholder, required, min_length, max_length, pattern, error_message } => ComponentView::Password { id: id@, label: opt_str_view(label), placeholder: opt_str_view(placeholder), required: required, min_length: min_length, max_length: max_length, pattern: opt_str_view(pattern), error_message: opt_str_view(error_message) },
        Component::Rating { id, label, max, default_value } => ComponentView::Rating { id: id@, label: opt_str_view(label), max: max, default_value: default_value },
        Component::Toggle { id, label, default_value } => ComponentView::Toggle { id: id@, label: opt_str_view(label), default_value: default_value },
        Component::Code { id, content, language } => ComponentView::Code { id: id@, content: content@, language: opt_str_view(language) },
        Component::Email { id, label, placeholder, required, default_value, error_message } => ComponentView::Email { id: id@, label: opt_str_view(label), placeholder: opt_str_view(placeholder), required: required, default_value: opt_str_view(default_value), error_message: opt_str_view(error_message) },
        Component::Url { id, label, placeholder, required, default_value, error_message } => ComponentView::Url { id: id@, label: opt_str_view(label), placeholder: opt_str_view(placeholder), required: required, default_value: opt_str_view(default_value), error_message: opt_str_view(error_message) },
        Component::Hidden { id, value } => ComponentView::Hidden { id: id@, value: json_view(value) },
        Component::DatetimePicker { id, label, required, default_value } => ComponentView::DatetimePicker { id: id@, label: opt_str_view(label), required: required, default_value: opt_str_view(default_value) },
        Component::DateRange { id, label, required, default_start, default_end } => ComponentView::DateRange { id: id@, label: opt_str_view(label), required: required, default_start: opt_str_view(default_start), default_end: opt_str_view(default_end) },
        Component::ColorPicker { id, label, default_value } => ComponentView::ColorPicker { id: id@, label: opt_str_view(label), default_value: opt_str_view(default_value) },
        Component::RangeSlider { id, label, min, max, step, default_min, default_max } => ComponentView::RangeSlider { id: id@, label: opt_str_view(label), min: min, max: max, step: step, default_min: default_min, default_max: default_max },
        Component::MultiSelect { id, label, options, default_values, placeholder } => ComponentView::MultiSelect { id: id@, label: opt_str_view(label), options: options@.map_values(|o: SelectOption| o@), default_values: default_values@.map_values(|s: String| s@), placeholder: opt_str_view(placeholder) },
        Component::Combobox { id, label, placeholder, options, required, default_value } => ComponentView::Combobox { id: id@, label: opt_str_view(label), placeholder: opt_str_view(placeholder), options: options@.map_values(|o: SelectOption| o@), required: required, default_value: opt_str_view(default_value) },
        Component::Tags { id, label, placeholder, default_values, max } => ComponentView::Tags { id: id@, label: opt_str_view(label), placeholder: opt_str_view(placeholder), default_values: default_values@.map_values(|s: String| s@), max: max },
        Component::Alert { id, kind, title, content } => ComponentView::Alert { id: id@, kind: kind, title: opt_str_view(title), content: content@ },
        Component::Link { id, label, url } => ComponentView::Link { id: id@, label: label@, url: url@ },
        Component::Progress { id, label, value, max, show_percent } => ComponentView::Progress { id: id@, label: opt_str_view(label), value: value, max: max, show_percent: show_percent },
        Component::Collapsible { id, title, open, children } => ComponentView::Collapsible { id: id@, title: title@, open: open, children: components_view(children@) },
        Component::Spacer { id, size } => ComponentView::Spacer { id: id@, size: size },
    }
}

/// The views of a sequence of components.
pub open spec fn components_view(s: Seq<Component>) -> Seq<ComponentView>
    decreases s,
{
    if s.len() == 0 {
        seq![]
    } else {
        seq![component_view(s[0])] + components_view(s.drop_first())
    }
}

/// Each element of `components_view(s)` is the view of the element of `s`.
pub proof fn lemma_components_view(s: Seq<Component>)
    ensures
        components_view(s).len() == s.len(),
        forall|i: int| 0 <= i < s.len() ==> #[trigger] components_view(s)[i] == component_view(s[i]),
    decreases s.len(),
{
    if s.len() > 0 {
        lemma_components_view(s.drop_first());
        assert forall|i: int| 0 <= i < s.len() implies #[trigger] components_view(s)[i] == component_view(s[i]) by {
            if i > 0 {
                assert(s.drop_first()[i - 1] == s[i]);
            }
        }
    }
}

impl View for Component {
    type V = ComponentView;

    open spec fn view(&self) -> ComponentView {
        component_view(*self)
    }
}

/// A form spec.
#[derive(Debug)]
pub struct A2NInput {
    pub title: Option<String>,
    pub timeout: Option<u64>,
    pub theme: Option<Theme>,
    pub components: Vec<Component>,
}

/// The view of an `A2NInput`.
pub struct A2NInputView {
    pub title: Option<Seq<char>>,
    pub timeout: Option<u64>,
    pub theme: Option<ThemeView>,
    pub components: Seq<ComponentView>,
}

impl View for A2NInput {
    type V = A2NInputView;

    open spec fn view(&self) -> A2NInputView {
        A2NInputView {
            title: opt_str_view(self.title),
            timeout: self.timeout,
            theme: opt_theme_view(self.theme),
            components: components_view(self.components@),
        }
    }
}

/// The result of a form: how it ended, and the value of each input field
/// by component id.
#[derive(Debug)]
pub struct A2NOutput {
    pub status: OutputStatus,
    pub values: StrMap<JsonValue>,
}

/// A message to a running session: show a new form, or close the window.
#[derive(Debug)]
pub enum IpcMessage {
    Update { input: A2NInput },
    Close,
}

} // verus!
