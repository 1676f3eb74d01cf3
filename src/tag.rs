//! Canonical tag strings for types.
//!
//! A type is described by a [`TypeDesc`]: either a named type with an ordered
//! list of generic arguments, or a type whose tag is delegated to the single
//! type it wraps (a blanket implementation over `T`).

use vstd::prelude::*;
use vstd::string::*;

verus! {

/// The description of a concrete type whose tag is to be rendered.
pub enum TypeDesc {
    /// A named type: its base identifier and its generic arguments, in
    /// declaration order.
    Named { base: String, args: Vec<GenericArg> },
    /// A type implemented for every `T` by delegation: its tag is the tag of
    /// `inner`, with no wrapping.
    Delegated { inner: Box<TypeDesc> },
}

/// One generic argument of a named type.
pub enum GenericArg {
    /// A type argument, rendered as its own tag.
    Type(TypeDesc),
    /// A const argument, rendered as its literal text.
    Const(String),
    /// A parameter left at its declared default: it is not rendered.
    Defaulted,
}

/// Whether an argument takes part in the rendered tag.
pub open spec fn is_shown(a: GenericArg) -> bool {
    !(a is Defaulted)
}

/// The number of shown arguments among the first `n` of `args`.
pub open spec fn shown_count(args: Seq<GenericArg>, n: int) -> nat
    decreases n,
{
    if n <= 0 {
        0
    } else if is_shown(args[n - 1]) {
        shown_count(args, n - 1) + 1
    } else {
        shown_count(args, n - 1)
    }
}

/// The canonical tag of a type.
pub open spec fn tag_of(t: TypeDesc) -> Seq<char>
    decreases t, 0int,
{
    match t {
        TypeDesc::Named { base, args } => {
            if shown_count(args@, args.len() as int) == 0 {
                base@
            } else {
                base@ + seq!['<'] + joined_args(args, args.len() as int) + seq!['>']
            }
        },
        TypeDesc::Delegated { inner } => tag_of(*inner),
    }
}

/// The text of one argument: a type's tag, or a const's literal.
pub open spec fn arg_text(a: GenericArg) -> Seq<char>
    decreases a, 0int,
{
    match a {
        GenericArg::Type(t) => tag_of(t),
        GenericArg::Const(c) => c@,
        GenericArg::Defaulted => Seq::empty(),
    }
}

/// The shown arguments among the first `n` of `args`, joined by commas.
pub open spec fn joined_args(args: Vec<GenericArg>, n: int) -> Seq<char>
    decreases args, n,
{
    if n <= 0 || n > args.len() {
        Seq::empty()
    } else if !is_shown(args[n - 1]) {
        joined_args(args, n - 1)
    } else if shown_count(args@, n - 1) == 0 {
        arg_text(args[n - 1])
    } else {
        joined_args(args, n - 1) + seq![','] + arg_text(args[n - 1])
    }
}

/// With no shown argument among the first `n`, their joined text is empty.
proof fn lemma_joined_empty(args: Vec<GenericArg>, n: int)
    requires
        shown_count(args@, n) == 0,
    ensures
        joined_args(args, n) == Seq::<char>::empty(),
    decreases n,
{
    if n > 0 && n <= args.len() {
        lemma_joined_empty(args, n - 1);
    }
}

/// A named type whose parameters are all left at their defaults (or that has
/// none) is tagged with its base identifier alone.
pub proof fn lemma_defaulted_args_elided(base: String, args: Vec<GenericArg>)
    requires
        forall|i: int| 0 <= i < args.len() ==> args[i] is Defaulted,
    ensures
        tag_of(TypeDesc::Named { base, args }) == base@,
{
    lemma_none_shown(args@, args.len() as int);
}

proof fn lemma_none_shown(args: Seq<GenericArg>, n: int)
    requires
        n <= args.len(),
        forall|i: int| 0 <= i < n ==> args[i] is Defaulted,
    ensures
        shown_count(args, n) == 0,
    decreases n,
{
    if n > 0 {
        lemma_none_shown(args, n - 1);
    }
}

/// A named type with one shown argument is tagged `Base<Arg>`, where `Arg` is
/// the argument's own tag or literal.
pub proof fn lemma_single_argument_tag(base: String, args: Vec<GenericArg>)
    requires
        args.len() == 1,
        is_shown(args[0]),
    ensures
        tag_of(TypeDesc::Named { base, args }) == base@ + seq!['<'] + arg_text(args[0]) + seq![
            '>',
        ],
{
    assert(shown_count(args@, 0) == 0);
    assert(shown_count(args@, 1) == 1);
    assert(joined_args(args, 0) == Seq::<char>::empty());
    assert(joined_args(args, 1) == arg_text(args[0]));
}

/// A type implemented by delegation carries exactly the tag of the type it
/// wraps.
pub proof fn lemma_delegated_tag(inner: Box<TypeDesc>)
    ensures
        tag_of(TypeDesc::Delegated { inner }) == tag_of(*inner),
{
}

/// Generic arguments nest: `Outer<Inner<Leaf>>` renders with nested groups,
/// each argument being the tag of the type it names.
pub proof fn lemma_nested_tag(outer: String, outer_args: Vec<GenericArg>, inner: String,
    inner_args: Vec<GenericArg>, leaf: String, leaf_args: Vec<GenericArg>)
    requires
        outer_args@ == seq![GenericArg::Type(TypeDesc::Named { base: inner, args: inner_args })],
        inner_args@ == seq![GenericArg::Type(TypeDesc::Named { base: leaf, args: leaf_args })],
        leaf_args.len() == 0,
    ensures
        tag_of(TypeDesc::Named { base: outer, args: outer_args }) == outer@ + seq!['<'] + inner@
            + seq!['<'] + leaf@ + seq!['>', '>'],
{
    lemma_defaulted_args_elided(leaf, leaf_args);
    lemma_single_argument_tag(inner, inner_args);
    lemma_single_argument_tag(outer, outer_args);
    assert(outer@ + seq!['<'] + (inner@ + seq!['<'] + leaf@ + seq!['>']) + seq!['>'] =~= outer@
        + seq!['<'] + inner@ + seq!['<'] + leaf@ + seq!['>', '>']);
}

impl TypeDesc {
    /// Renders the canonical tag of this type.
    pub fn tag(&self) -> (r: String)
        ensures
            r@ == tag_of(*self),
        decreases *self, 0int,
    {
        match self {
            TypeDesc::Named { base, args } => {
                let mut text = base.clone();
                let (inner, shown) = joined_text(args, args.len());
                if shown > 0 {
                    proof {
                        reveal_strlit("<");
                        reveal_strlit(">");
                        assert("<"@ =~= seq!['<']);
                        assert(">"@ =~= seq!['>']);
                    }
                    text.append("<");
                    text.append(inner.as_str());
                    text.append(">");
                }
                text
            },
            TypeDesc::Delegated { inner } => inner.tag(),
        }
    }
}

/// The shown arguments among the first `n` of `args`, joined by commas, and
/// how many they are.
fn joined_text(args: &Vec<GenericArg>, n: usize) -> (r: (String, usize))
    requires
        n <= args.len(),
    ensures
        r.0@ == joined_args(*args, n as int),
        r.1 == shown_count(args@, n as int),
        r.1 <= n,
    decreases *args, n,
{
    if n == 0 {
        return (String::new(), 0);
    }
    let (mut text, shown) = joined_text(args, n - 1);
    let arg = &args[n - 1];
    if !arg.is_shown() {
        return (text, shown);
    }
    proof {
        vstd::std_specs::vec::axiom_vec_index_decreases(*args, n - 1);
    }
    let piece = arg.text();
    if shown == 0 {
        proof {
            lemma_joined_empty(*args, n - 1);
            assert(text@ + piece@ =~= piece@);
        }
    }
    if shown > 0 {
        proof {
            reveal_strlit(",");
            assert(","@ =~= seq![',']);
        }
        text.append(",");
    }
    text.append(piece.as_str());
    (text, shown + 1)
}

impl GenericArg {
    /// Whether this argument takes part in the rendered tag.
    pub fn is_shown(&self) -> (r: bool)
        ensures
            r == is_shown(*self),
    {
        !matches!(self, GenericArg::Defaulted)
    }

    /// The text of this argument: a type's tag, or a const's literal.
    pub fn text(&self) -> (r: String)
        ensures
            r@ == arg_text(*self),
        decreases *self, 0int,
    {
        match self {
            GenericArg::Type(t) => t.tag(),
            GenericArg::Const(c) => c.clone(),
            GenericArg::Defaulted => String::new(),
        }
    }
}

} // verus!
