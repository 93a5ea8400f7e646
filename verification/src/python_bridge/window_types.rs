//! Script-built windows: the window table's entries, the element tree a
//! window shows, and the per-window element values that scripts read and
//! write.  Geometry and other purely visual magnitudes (positions, sizes,
//! slider ranges, colors) live with the rendering layer, outside this
//! model; here a window holds what the registration logic itself reads.

use vstd::prelude::*;

verus! {

/// One script-created window and the elements it shows, in insertion
/// order.
#[derive(Debug)]
pub struct WindowDefinition {
    pub id: String,
    pub title: String,
    pub visible: bool,
    pub resizable: bool,
    pub collapsible: bool,
    pub scroll: bool,
    pub elements: Vec<UiElement>,
}

impl WindowDefinition {
    /// A fresh window: visible, resizable, collapsible, scrolling, empty.
    pub fn new(id: String, title: String) -> (w: Self)
        ensures
            w.id == id,
            w.title == title,
            w.visible,
            w.resizable,
            w.collapsible,
            w.scroll,
            w.elements@.len() == 0,
    {
        Self {
            id,
            title,
            visible: true,
            resizable: true,
            collapsible: true,
            scroll: true,
            elements: Vec::new(),
        }
    }
}

/// Every element a script can place in a window.
#[derive(Debug)]
pub enum UiElement {
    Label(LabelElement),
    Button(ButtonElement),
    TextEdit(TextEditElement),
    Checkbox(CheckboxElement),
    RadioButton(RadioButtonElement),
    Slider(SliderElement),
    DragValue(DragValueElement),
    ComboBox(ComboBoxElement),
    Separator,
    Spacing,
    Heading(HeadingElement),
    Hyperlink(HyperlinkElement),
    Image(ImageElement),
    ProgressBar(ProgressBarElement),
    Spinner,
    ColorPicker(ColorPickerElement),
    HorizontalLayout(Vec<UiElement>),
    VerticalLayout(Vec<UiElement>),
    Group(GroupElement),
    CollapsingHeader(CollapsingHeaderElement),
}

#[derive(Debug, Clone)]
pub struct LabelElement {
    pub text: String,
    pub wrap: bool,
    pub selectable: bool,
}

#[derive(Debug, Clone)]
pub struct ButtonElement {
    pub text: String,
    pub function_name: Option<String>,
    pub small: bool,
}

#[derive(Debug, Clone)]
pub struct TextEditElement {
    pub id: String,
    pub multiline: bool,
    pub hint: Option<String>,
    pub password: bool,
}

#[derive(Debug, Clone)]
pub struct CheckboxElement {
    pub id: String,
    pub label: String,
}

#[derive(Debug, Clone)]
pub struct RadioButtonElement {
    pub id: String,
    pub label: String,
    pub group: String,
}

/// A slider's identity and shape; its numeric range is the rendering
/// layer's concern.
#[derive(Debug, Clone)]
pub struct SliderElement {
    pub id: String,
    pub label: Option<String>,
    pub integer: bool,
}

/// A drag-value's identity; its drag speed is the rendering layer's
/// concern.
#[derive(Debug, Clone)]
pub struct DragValueElement {
    pub id: String,
    pub label: Option<String>,
}

#[derive(Debug, Clone)]
pub struct ComboBoxElement {
    pub id: String,
    pub label: String,
    pub options: Vec<String>,
}

#[derive(Debug, Clone)]
pub struct HeadingElement {
    pub text: String,
    /// Between 1 and 3.
    pub level: u8,
}

#[derive(Debug, Clone)]
pub struct HyperlinkElement {
    pub text: String,
    pub url: String,
}

/// An image's source path; its display size is the rendering layer's
/// concern.
#[derive(Debug, Clone)]
pub struct ImageElement {
    pub path: String,
}

#[derive(Debug, Clone)]
pub struct ProgressBarElement {
    pub id: String,
    pub show_percentage: bool,
}

#[derive(Debug, Clone)]
pub struct ColorPickerElement {
    pub id: String,
    pub label: String,
    pub alpha: bool,
}

#[derive(Debug)]
pub struct GroupElement {
    pub elements: Vec<UiElement>,
}

#[derive(Debug)]
pub struct CollapsingHeaderElement {
    pub text: String,
    pub default_open: bool,
    pub elements: Vec<UiElement>,
}

/// The element values of one window, keyed by element identifier, each
/// key held at most once.  Numeric and color values belong to the
/// rendering layer's own store.
#[derive(Debug, Clone)]
pub struct ElementState {
    pub text_values: Vec<(String, String)>,
    pub bool_values: Vec<(String, bool)>,
    pub combo_values: Vec<(String, usize)>,
}

impl ElementState {
    /// A state with no recorded values.
    pub fn new() -> (s: Self)
        ensures
            s.text_values@.len() == 0,
            s.bool_values@.len() == 0,
            s.combo_values@.len() == 0,
    {
        Self { text_values: Vec::new(), bool_values: Vec::new(), combo_values: Vec::new() }
    }
}

} // verus!
