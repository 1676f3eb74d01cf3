//! What an implementation of a tagged interface is extended with: the name it
//! is tagged by, the items added to it, and whether it registers itself.
//!
//! The implementer's self type is read through [`TypeSyntax`], which keeps of
//! a type's syntax what naming depends on.

use vstd::prelude::*;

verus! {

/// The shape of a type as written in an implementation header.
pub enum TypeSyntax {
    /// A path such as `a::b::Point`; `qualified` is set for a qualified self
    /// path such as `<T as Trait>::Assoc`.
    Path { qualified: bool, segments: Vec<String> },
    /// A type in invisible grouping, standing for `elem`.
    Group { elem: Box<TypeSyntax> },
    /// Any other type: a reference, a tuple, a slice, a trait object.
    Other,
}

/// Which capabilities an implementation takes part in.
#[derive(Clone, Copy, PartialEq, Eq, Structural)]
pub struct Mode {
    /// The implementation reports its tag when a value is written.
    pub ser: bool,
    /// The implementation can be rebuilt from a tag when a value is read.
    pub de: bool,
}

/// How the tag accessor added to an implementation finds its tag.
pub enum TagAccessor {
    /// It returns this fixed name.
    Fixed(String),
    /// It asks the self type's own tagging capability, as a generic
    /// implementation must.
    ViaTagged,
}

/// The items an implementation is extended with.
pub struct Augmentation {
    /// The tag accessor, when the implementation reports tags.
    pub tag_accessor: Option<TagAccessor>,
    /// Whether the self type is required to be tag-capable.
    pub bound_self_tagged: bool,
    /// Whether the marker that admits the implementation to reading is added.
    pub deserialize_marker: bool,
}

/// Everything an implementation of the interface is expanded into.
pub struct Expansion {
    /// The name the implementation is tagged by.
    pub name: String,
    /// The items added to the implementation.
    pub items: Augmentation,
    /// Whether a binding is registered for it directly (it has no generic
    /// parameters), rather than through a registration helper.
    pub register_directly: bool,
}

/// Why an implementation cannot be expanded.
#[derive(PartialEq, Eq, Structural)]
pub enum NameError {
    /// The self type has no derivable name and none was given.
    NoDerivableName,
}

/// The name derived from a type: the last segment of an unqualified path,
/// looking through groups.
pub open spec fn derived_name(ty: TypeSyntax) -> Option<Seq<char>>
    decreases ty,
{
    match ty {
        TypeSyntax::Path { qualified, segments } => {
            if !qualified && segments.len() > 0 {
                Some(segments[segments.len() - 1]@)
            } else {
                None
            }
        },
        TypeSyntax::Group { elem } => derived_name(*elem),
        TypeSyntax::Other => None,
    }
}

/// The view of an optional string.
pub open spec fn opt_view(s: Option<String>) -> Option<Seq<char>> {
    match s {
        Some(s) => Some(s@),
        None => None,
    }
}

/// The items that an implementation tagged by `name` is extended with.
pub open spec fn augmentation_of(a: Augmentation, name: Seq<char>, generic: bool, mode: Mode) -> bool {
    &&& a.bound_self_tagged == (mode.ser && generic)
    &&& a.deserialize_marker == mode.de
    &&& match a.tag_accessor {
        None => !mode.ser,
        Some(TagAccessor::Fixed(n)) => mode.ser && !generic && n@ == name,
        Some(TagAccessor::ViaTagged) => mode.ser && generic,
    }
}

/// The name derived from a type's syntax, if it has one.
pub fn self_type_name(ty: &TypeSyntax) -> (r: Option<String>)
    ensures
        opt_view(r) == derived_name(*ty),
    decreases *ty,
{
    match ty {
        TypeSyntax::Path { qualified, segments } => {
            if !*qualified && segments.len() > 0 {
                Some(segments[segments.len() - 1].clone())
            } else {
                None
            }
        },
        TypeSyntax::Group { elem } => self_type_name(elem),
        TypeSyntax::Other => None,
    }
}

/// Decides the items an implementation tagged by `name` is extended with.
pub fn augment_impl(name: &String, generic: bool, mode: Mode) -> (r: Augmentation)
    ensures
        augmentation_of(r, name@, generic, mode),
{
    let tag_accessor = if !mode.ser {
        None
    } else if !generic {
        Some(TagAccessor::Fixed(name.clone()))
    } else {
        Some(TagAccessor::ViaTagged)
    };
    Augmentation { tag_accessor, bound_self_tagged: mode.ser && generic, deserialize_marker: mode.de }
}

/// Expands an implementation whose self type is `self_ty`: it is tagged by
/// `name` when one is given, else by the name derived from its self type;
/// it registers directly when read in and not generic.
pub fn expand(name: Option<String>, self_ty: &TypeSyntax, generic: bool, mode: Mode) -> (r: Result<
    Expansion,
    NameError,
>)
    ensures
        r is Err <==> (name is None && derived_name(*self_ty) is None),
        r is Err ==> r == Err::<Expansion, NameError>(NameError::NoDerivableName),
        r matches Ok(e) ==> {
            &&& Some(e.name@) == (if name is Some {
                opt_view(name)
            } else {
                derived_name(*self_ty)
            })
            &&& augmentation_of(e.items, e.name@, generic, mode)
            &&& e.register_directly == (mode.de && !generic)
        },
{
    let name = match name {
        Some(name) => name,
        None => match self_type_name(self_ty) {
            Some(name) => name,
            None => return Err(NameError::NoDerivableName),
        },
    };
    let items = augment_impl(&name, generic, mode);
    Ok(Expansion { name, items, register_directly: mode.de && !generic })
}

} // verus!
