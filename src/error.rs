//! The structural errors of template resolution.
use vstd::prelude::*;

verus! {

/// Why a template cannot be resolved.
#[derive(Debug)]
pub enum BuildError {
    /// A repetition node without an id.
    ForNeedsId,
    /// A repetition node without its parent-linkage descriptor.
    ForNeedsParent,
    /// A node of a static widget that declares inheritance.
    StaticInherits,
    /// A node of a purely static template that declares callbacks.
    StaticCallbacks,
    /// A property-forwarding node that declares callbacks.
    AsPropCallback,
    /// A node with callbacks and no id.
    CallbackNeedsId,
    /// A builtin widget given a property that it does not accept.
    UnknownProperty { widget: String, prop: String },
}

/// The description of an error.
pub open spec fn message_of(e: BuildError) -> Seq<char> {
    match e {
        BuildError::ForNeedsId => "GenUI Component -> Makepad Widget, for widget need id!"@,
        BuildError::ForNeedsParent => "GenUI Component -> Makepad Widget, for widget need a parent!"@,
        BuildError::StaticInherits => "GenUI Component -> Makepad Widget, Static Widget has no inherits"@,
        BuildError::StaticCallbacks => "GenUI Component -> Makepad Widget, Static Widget has no callbacks"@,
        BuildError::AsPropCallback => "GenUI Component -> Makepad Widget, as_prop widget can't have callback!"@,
        BuildError::CallbackNeedsId => "GenUI Component -> Makepad Widget, callback widget need id!"@,
        BuildError::UnknownProperty { widget, prop } => "GenUI Component -> Makepad Widget, "@ + widget@
            + " has no property "@ + prop@,
    }
}

impl BuildError {
    /// A "from construct X to construct Y" description of the error.
    pub fn message(&self) -> (r: String)
        ensures
            r@ == message_of(*self),
    {
        match self {
            BuildError::ForNeedsId => String::from_str(
                "GenUI Component -> Makepad Widget, for widget need id!",
            ),
            BuildError::ForNeedsParent => String::from_str(
                "GenUI Component -> Makepad Widget, for widget need a parent!",
            ),
            BuildError::StaticInherits => String::from_str(
                "GenUI Component -> Makepad Widget, Static Widget has no inherits",
            ),
            BuildError::StaticCallbacks => String::from_str(
                "GenUI Component -> Makepad Widget, Static Widget has no callbacks",
            ),
            BuildError::AsPropCallback => String::from_str(
                "GenUI Component -> Makepad Widget, as_prop widget can't have callback!",
            ),
            BuildError::CallbackNeedsId => String::from_str(
                "GenUI Component -> Makepad Widget, callback widget need id!",
            ),
            BuildError::UnknownProperty { widget, prop } => {
                let mut s = String::from_str("GenUI Component -> Makepad Widget, ");
                s.append(widget.as_str());
                s.append(" has no property ");
                s.append(prop.as_str());
                s
            },
        }
    }
}

} // verus!
