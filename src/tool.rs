//! Tool descriptors.

use vstd::prelude::*;

use crate::json::{copy_members, members_view, Json, JsonValue};

verus! {

/// The mathematical model of a tool descriptor.
pub struct ToolModel {
    pub name: Seq<char>,
    pub description: Option<Seq<char>>,
    pub input_schema: Seq<(Seq<char>, Json)>,
    pub output_schema: Option<Seq<(Seq<char>, Json)>>,
    pub extra: Seq<(Seq<char>, Json)>,
}

/// A named callable with a JSON Schema for its input and, optionally, one for
/// its output.
#[derive(Debug, PartialEq)]
pub struct ToolDescriptor {
    pub name: String,
    pub description: Option<String>,
    /// The members of the input schema object.
    pub input_schema: Vec<(String, JsonValue)>,
    /// The members of the output schema object, where there is one.
    pub output_schema: Option<Vec<(String, JsonValue)>>,
    /// The descriptor's other members (title, annotations, icons, metadata),
    /// carried through unchanged.
    pub extra: Vec<(String, JsonValue)>,
}

/// The characters of an optional string.
pub open spec fn opt_text(o: Option<String>) -> Option<Seq<char>> {
    match o {
        Some(s) => Some(s@),
        None => None,
    }
}

/// The models of an optional list of object members.
pub open spec fn opt_members(o: Option<Vec<(String, JsonValue)>>) -> Option<
    Seq<(Seq<char>, Json)>,
> {
    match o {
        Some(ms) => Some(members_view(ms@)),
        None => None,
    }
}

impl View for ToolDescriptor {
    type V = ToolModel;

    open spec fn view(&self) -> ToolModel {
        ToolModel {
            name: self.name@,
            description: opt_text(self.description),
            input_schema: members_view(self.input_schema@),
            output_schema: opt_members(self.output_schema),
            extra: members_view(self.extra@),
        }
    }
}

/// The models of a sequence of descriptors.
pub open spec fn tools_view(s: Seq<ToolDescriptor>) -> Seq<ToolModel> {
    s.map_values(|t: ToolDescriptor| t@)
}

/// The names of a sequence of tools.
pub open spec fn names_of(s: Seq<ToolModel>) -> Seq<Seq<char>> {
    s.map_values(|t: ToolModel| t.name)
}

impl ToolDescriptor {
    /// A copy of this descriptor, member for member.
    pub fn copy(&self) -> (r: ToolDescriptor)
        ensures
            r@ == self@,
    {
        ToolDescriptor {
            name: self.name.clone(),
            description: match &self.description {
                Some(d) => Some(d.clone()),
                None => None,
            },
            input_schema: copy_members(&self.input_schema),
            output_schema: match &self.output_schema {
                Some(ms) => Some(copy_members(ms)),
                None => None,
            },
            extra: copy_members(&self.extra),
        }
    }
}

} // verus!
