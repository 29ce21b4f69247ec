//! The types that describe a settings field: its widget, its validation rule, its place.

use vstd::prelude::*;

use crate::json::Json;

verus! {

/// One choice of a select widget.
#[derive(Debug)]
pub struct SelectOption {
    pub value: String,
    pub label: String,
}

impl SelectOption {
    pub fn new(value: &str, label: &str) -> (r: SelectOption)
        ensures
            r.value@ == value@,
            r.label@ == label@,
    {
        SelectOption { value: value.to_owned(), label: label.to_owned() }
    }
}

/// Where the choices of a dynamic select come from.
#[derive(Debug, Clone, Copy, PartialEq, Eq, Structural)]
pub enum OptionSource {
    AcpAgents,
    AcpModels,
    AcpModes,
    Projects,
    Groups,
}

/// How a field is edited.
#[derive(Debug)]
pub enum WidgetKind {
    Toggle,
    Text { multiline: bool, mono: bool },
    OptionalText { mono: bool },
    Number { min: Option<i64>, max: Option<i64> },
    Slider { min: Option<i64>, max: Option<i64> },
    Select { options: Vec<SelectOption> },
    List,
    DynamicSelect { source: OptionSource, depends_on: Vec<String> },
    Cron,
    ObjectList {
        id_field: String,
        fields: Vec<ObjectFieldDescriptor>,
        min_items: Option<u32>,
        max_items: Option<u32>,
    },
    Custom { id: String },
}

/// How a field of an object-list item is edited.
#[derive(Debug)]
pub enum ObjectFieldWidget {
    Toggle,
    Text { multiline: bool, mono: bool },
    Number { min: Option<i64>, max: Option<i64> },
    Select { options: Vec<SelectOption> },
    DynamicSelect { source: OptionSource, depends_on: Vec<String> },
    Cron,
}

/// The rule that a value has to meet before it is stored.
#[derive(Debug)]
pub enum ValidationKind {
    Unchecked,
    RangeU64 { min: u64, max: Option<u64> },
    NonEmptyString,
    MemoryLimit,
    VolumeList,
    EnvList,
    PortMappingList,
    Network,
    OneOf { options: Vec<String> },
    Cron,
    ObjectList {
        id_field: String,
        fields: Vec<ObjectFieldDescriptor>,
        min_items: Option<u32>,
        max_items: Option<u32>,
    },
}

/// One field of the items of an object list.
#[derive(Debug)]
pub struct ObjectFieldDescriptor {
    pub field: String,
    pub label: String,
    pub description: String,
    pub required: bool,
    pub widget: ObjectFieldWidget,
    pub validation: ValidationKind,
    pub default: Option<Json>,
}

/// Whether the dashboard may write a field.
#[derive(Debug, Clone, Copy, PartialEq, Eq, Structural)]
pub enum WebWritePolicy {
    Allow,
}

/// One settings field.
#[derive(Debug)]
pub struct FieldDescriptor {
    pub section: String,
    pub field: String,
    pub category: String,
    pub label: String,
    pub description: String,
    pub widget: WidgetKind,
    pub web_write: WebWritePolicy,
    pub profile_overridable: bool,
    pub validation: ValidationKind,
    pub advanced: bool,
    pub default: Option<Json>,
}

} // verus!
