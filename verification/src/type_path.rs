//! The type classifier: structural inspection of a field's declared type.
//!
//! A declared type is kept as the surface syntax shows it: the segments of
//! its path and the generic arguments of its last segment. Classification
//! looks only at the name and arity of the outer symbol, never at what the
//! name resolves to; any type outside the five recognized shapes passes
//! through as a primitive.

use vstd::prelude::*;

use crate::paths::string_eq_lit;

verus! {

/// The surface syntax of a declared type: path segments, and the generic
/// arguments of the last segment, e.g. `core::option::Option<Foo>` has
/// segments `["core", "option", "Option"]` and one argument `Foo`.
#[derive(Debug, PartialEq)]
pub struct TypeName {
    pub segments: Vec<String>,
    pub args: Vec<TypeName>,
}

pub ghost struct TypeNameV {
    pub segments: Seq<Seq<char>>,
    pub args: Seq<TypeNameV>,
}

pub open spec fn type_name_view(t: TypeName) -> TypeNameV
    decreases t,
{
    TypeNameV { segments: t.segments.deep_view(), args: type_names_view(t.args@) }
}

pub open spec fn type_names_view(ts: Seq<TypeName>) -> Seq<TypeNameV>
    decreases ts,
{
    if ts.len() == 0 {
        Seq::empty()
    } else {
        type_names_view(ts.drop_last()).push(type_name_view(ts.last()))
    }
}

impl View for TypeName {
    type V = TypeNameV;

    open spec fn view(&self) -> TypeNameV {
        type_name_view(*self)
    }
}

pub proof fn lemma_type_names_view_index(ts: Seq<TypeName>, i: int)
    requires
        0 <= i < ts.len(),
    ensures
        type_names_view(ts).len() == ts.len(),
        type_names_view(ts)[i] == type_name_view(ts[i]),
    decreases ts.len(),
{
    lemma_type_names_view_len(ts);
    if i < ts.len() - 1 {
        lemma_type_names_view_index(ts.drop_last(), i);
    }
}

pub proof fn lemma_type_names_view_len(ts: Seq<TypeName>)
    ensures
        type_names_view(ts).len() == ts.len(),
    decreases ts.len(),
{
    if ts.len() > 0 {
        lemma_type_names_view_len(ts.drop_last());
    }
}

// ---------------------------------------------------------------------------
// Shape predicates
// ---------------------------------------------------------------------------

/// An `Option<..>` by name and arity of the outer symbol.
pub open spec fn is_option_spec(t: TypeNameV) -> bool {
    t.segments.len() > 0 && t.segments.last() == "Option"@ && t.args.len() > 0
}

/// A `Vec<..>` by name and arity of the outer symbol.
pub open spec fn is_vec_spec(t: TypeNameV) -> bool {
    t.segments.len() > 0 && t.segments.last() == "Vec"@ && t.args.len() > 0
}

/// A `HashMap<..>` by name and arity of the outer symbol.
pub open spec fn is_hashmap_spec(t: TypeNameV) -> bool {
    t.segments.len() > 0 && t.segments.last() == "HashMap"@ && t.args.len() > 0
}

/// The scalar-type table of the source format. `Vec` is listed so that the
/// doubly-nested `Vec<Vec<u8>>`, the byte-string encoding, passes through as
/// a scalar rather than being treated as a general container.
pub open spec fn is_scalar_ident(s: Seq<char>) -> bool {
    ||| s == "f64"@
    ||| s == "f32"@
    ||| s == "i32"@
    ||| s == "i64"@
    ||| s == "u32"@
    ||| s == "u64"@
    ||| s == "u8"@
    ||| s == "bool"@
    ||| s == "String"@
    ||| s == "Vec"@
}

/// A type whose last segment is not in the scalar table (an empty path is
/// treated as non-scalar as well).
pub open spec fn is_non_scalar_spec(t: TypeNameV) -> bool {
    t.segments.len() == 0 || !is_scalar_ident(t.segments.last())
}

/// The five shapes a declared type classifies into.
#[derive(Clone, Copy, Debug, PartialEq, Eq, Structural)]
pub enum Shape {
    Primitive,
    Optional,
    Sequence,
    Mapping,
    Reference,
}

/// The shape of a declared type: single-level wrapping is detected by the
/// name and arity of the outer symbol; a doubly-nested sequence passes
/// through as a primitive (the byte-string special case); a bare
/// non-scalar name is a reference to a record or union; everything else is
/// an opaque primitive pass-through.
pub open spec fn classify_spec(t: TypeNameV) -> Shape {
    if is_option_spec(t) {
        Shape::Optional
    } else if is_vec_spec(t) {
        if is_vec_spec(t.args[0]) {
            Shape::Primitive
        } else {
            Shape::Sequence
        }
    } else if is_hashmap_spec(t) {
        Shape::Mapping
    } else if t.segments.len() > 0 && !is_scalar_ident(t.segments.last()) {
        Shape::Reference
    } else {
        Shape::Primitive
    }
}

// ---------------------------------------------------------------------------
// Executable classification
// ---------------------------------------------------------------------------

/// Whether the declared type is an `Option<..>`.
pub fn is_std_option_type(ty: &TypeName) -> (r: bool)
    ensures
        r == is_option_spec(ty@),
{
    let n = ty.segments.len();
    n > 0 && string_eq_lit(&ty.segments[n - 1], "Option") && ty.args.len() > 0
}

/// Whether the declared type is a `Vec<..>`.
pub fn is_std_vec_type(ty: &TypeName) -> (r: bool)
    ensures
        r == is_vec_spec(ty@),
{
    let n = ty.segments.len();
    n > 0 && string_eq_lit(&ty.segments[n - 1], "Vec") && ty.args.len() > 0
}

/// Whether the declared type is a `HashMap<..>`.
pub fn is_std_hashmap_type(ty: &TypeName) -> (r: bool)
    ensures
        r == is_hashmap_spec(ty@),
{
    let n = ty.segments.len();
    n > 0 && string_eq_lit(&ty.segments[n - 1], "HashMap") && ty.args.len() > 0
}

/// The first generic argument of the outer symbol: the `T` of `Option<T>`.
/// Yields nothing where the type carries no generic argument.
pub fn maybe_unwrap_option_type(ty: &TypeName) -> (r: Option<&TypeName>)
    ensures
        match r {
            Some(inner) => ty@.args.len() > 0 && inner@ == ty@.args[0],
            None => ty@.args.len() == 0,
        },
{
    if ty.args.len() > 0 {
        proof {
            lemma_type_names_view_index(ty.args@, 0);
        }
        Some(&ty.args[0])
    } else {
        proof {
            lemma_type_names_view_len(ty.args@);
        }
        None
    }
}

/// Whether the last segment lies outside the scalar table.
pub fn is_type_non_scalar(ty: &TypeName) -> (r: bool)
    ensures
        r == is_non_scalar_spec(ty@),
{
    let n = ty.segments.len();
    if n == 0 {
        return true;
    }
    let s = &ty.segments[n - 1];
    !(string_eq_lit(s, "f64") || string_eq_lit(s, "f32") || string_eq_lit(s, "i32")
        || string_eq_lit(s, "i64") || string_eq_lit(s, "u32") || string_eq_lit(s, "u64")
        || string_eq_lit(s, "u8") || string_eq_lit(s, "bool") || string_eq_lit(s, "String")
        || string_eq_lit(s, "Vec"))
}

/// Whether the declared type is a `Vec` whose element type is non-scalar.
pub fn is_std_vec_non_scalar(ty: &TypeName) -> (r: bool)
    ensures
        r == (is_vec_spec(ty@) && is_non_scalar_spec(ty@.args[0])),
{
    if is_std_vec_type(ty) {
        proof {
            lemma_type_names_view_index(ty.args@, 0);
        }
        is_type_non_scalar(&ty.args[0])
    } else {
        false
    }
}

/// Whether the declared type is a `HashMap` whose value type (the last
/// generic argument) is non-scalar.
pub fn is_std_hashmap_non_scalar(ty: &TypeName) -> (r: bool)
    ensures
        r == (is_hashmap_spec(ty@) && is_non_scalar_spec(ty@.args[ty@.args.len() - 1])),
{
    if is_std_hashmap_type(ty) {
        proof {
            lemma_type_names_view_index(ty.args@, ty.args@.len() - 1);
        }
        is_type_non_scalar(&ty.args[ty.args.len() - 1])
    } else {
        false
    }
}

/// The shape of a declared type; see `classify_spec`.
pub fn classify(ty: &TypeName) -> (r: Shape)
    ensures
        r == classify_spec(ty@),
{
    if is_std_option_type(ty) {
        Shape::Optional
    } else if is_std_vec_type(ty) {
        proof {
            lemma_type_names_view_index(ty.args@, 0);
        }
        if is_std_vec_type(&ty.args[0]) {
            Shape::Primitive
        } else {
            Shape::Sequence
        }
    } else if is_std_hashmap_type(ty) {
        Shape::Mapping
    } else if ty.segments.len() > 0 && is_type_non_scalar(ty) {
        Shape::Reference
    } else {
        Shape::Primitive
    }
}

/// The path of the emitted error type as seen from `mod_stack.len()` levels
/// below the output root: one `super` per level, then `Error`.
#[verifier::loop_isolation(false)]
pub fn error_typepath(mod_stack: &Vec<String>) -> (r: TypeName)
    ensures
        r@.args.len() == 0,
        r@.segments.len() == mod_stack@.len() + 1,
        forall|k: int| 0 <= k < mod_stack@.len() ==> r@.segments[k] == "super"@,
        r@.segments.last() == "Error"@,
{
    let mut segments: Vec<String> = Vec::new();
    let mut i: usize = 0;
    while i < mod_stack.len()
        invariant
            i <= mod_stack.len(),
            segments@.len() == i,
            forall|k: int| 0 <= k < i ==> (#[trigger] segments@[k])@ == "super"@,
        decreases mod_stack.len() - i,
    {
        let s = String::from_str("super");
        segments.push(s);
        i = i + 1;
    }
    let e = String::from_str("Error");
    segments.push(e);
    let r = TypeName { segments, args: Vec::new() };
    proof {
        lemma_type_names_view_len(r.args@);
        assert forall|k: int|
            0 <= k < mod_stack@.len() implies r@.segments[k] == "super"@ by {
            assert(r.segments@[k]@ == "super"@);
        }
        assert(r@.segments.last() == "Error"@);
    }
    r
}

// ---------------------------------------------------------------------------
// Construction helpers
// ---------------------------------------------------------------------------

impl TypeName {
    /// A type with the given path segments and no generic arguments.
    pub fn plain(segments: Vec<String>) -> (r: TypeName)
        ensures
            r@ == (TypeNameV { segments: segments.deep_view(), args: Seq::<TypeNameV>::empty() }),
    {
        let r = TypeName { segments, args: Vec::new() };
        r
    }

    /// A structurally equal copy of this type.
    #[verifier::loop_isolation(false)]
    pub fn duplicate(&self) -> (r: TypeName)
        ensures
            r@ == self@,
        decreases *self,
    {
        let segments = self.segments.clone();
        proof {
            assert forall|t: int|
                0 <= t < segments@.len() implies segments@[t]@ == self.segments@[t]@ by {}
            assert(segments.deep_view() =~= self.segments.deep_view());
        }
        let mut args: Vec<TypeName> = Vec::new();
        let mut i: usize = 0;
        while i < self.args.len()
            invariant
                i <= self.args.len(),
                args@.len() == i,
                segments.deep_view() == self.segments.deep_view(),
                forall|k: int| 0 <= k < i ==> type_name_view(#[trigger] args@[k]) == type_name_view(
                    self.args@[k],
                ),
            decreases self.args.len() - i,
        {
            proof {
                lemma_type_names_view_index(self.args@, i as int);
            }
            let c = self.args[i].duplicate();
            args.push(c);
            i = i + 1;
        }
        let r = TypeName { segments, args };
        proof {
            assert forall|k: int|
                0 <= k < r.args@.len() implies type_names_view(r.args@)[k] == type_names_view(
                self.args@,
            )[k] by {
                lemma_type_names_view_index(r.args@, k);
                lemma_type_names_view_index(self.args@, k);
            }
            lemma_type_names_view_len(r.args@);
            lemma_type_names_view_len(self.args@);
            assert(type_names_view(r.args@) =~= type_names_view(self.args@));
        }
        r
    }
}

} // verus!
