//! The checks that the `Task` derive makes of the struct it is written on:
//! a struct with named fields, each of type `TaskState<T>`. The struct is
//! read through a plain model of its syntax.
use vstd::prelude::*;

use crate::text::push_text;

verus! {

/// A generic argument: a type, written as its text, or anything else.
pub enum GenericArgShape {
    Type(String),
    Other,
}

/// The arguments of a path segment: none, `<..>` ones, or `(..)` ones.
pub enum SegmentArgs {
    Plain,
    AngleBracketed(Vec<GenericArgShape>),
    Parenthesized,
}

/// A segment of a type's path: its identifier and its arguments.
pub struct PathSegment {
    pub ident: String,
    pub arguments: SegmentArgs,
}

/// The type of a field: a path, or any other form.
pub enum TypeShape {
    Path(Vec<PathSegment>),
    Other,
}

/// A field: its name, where it has one, and its type.
pub struct FieldShape {
    pub ident: Option<String>,
    pub ty: TypeShape,
}

/// The fields of a struct: named, unnamed (a tuple struct), or none (a unit struct).
pub enum FieldsShape {
    Named(Vec<FieldShape>),
    Unnamed,
    Unit,
}

/// The item that the derive is written on.
pub enum DataShape {
    Struct(FieldsShape),
    Enum,
    Union,
}

/// Why the derive refuses the item.
#[derive(Debug, Clone, Copy, PartialEq, Eq, Structural)]
pub enum DeriveError {
    OnlyStructs,
    OnlyNamedFields,
    OnlyPathTypes,
    NoSegments,
    NotTaskState,
    NoAngleBracketedArguments,
    NoTypePath,
}

/// The message with which the derive refuses the item.
pub open spec fn derive_error_text(e: DeriveError) -> Seq<char> {
    match e {
        DeriveError::OnlyStructs => "Only structs are supported"@,
        DeriveError::OnlyNamedFields => "Only named fields supported"@,
        DeriveError::OnlyPathTypes => "Only path types supported"@,
        DeriveError::NoSegments => "No segments found"@,
        DeriveError::NotTaskState => "State fields must be TaskState<T>"@,
        DeriveError::NoAngleBracketedArguments => "No angle bracketed arguments found"@,
        DeriveError::NoTypePath => "No type path found"@,
    }
}

impl DeriveError {
    /// The message with which the derive refuses the item.
    pub fn message(&self) -> (r: &'static str)
        ensures
            r@ == derive_error_text(*self),
    {
        match self {
            DeriveError::OnlyStructs => "Only structs are supported",
            DeriveError::OnlyNamedFields => "Only named fields supported",
            DeriveError::OnlyPathTypes => "Only path types supported",
            DeriveError::NoSegments => "No segments found",
            DeriveError::NotTaskState => "State fields must be TaskState<T>",
            DeriveError::NoAngleBracketedArguments => "No angle bracketed arguments found",
            DeriveError::NoTypePath => "No type path found",
        }
    }
}

/// A field of a task: its name, and the type `T` of its `TaskState<T>`,
/// read from the first segment of its type's path; or why it is refused.
pub open spec fn spec_check_field(f: FieldShape) -> Result<(Seq<char>, Seq<char>), DeriveError> {
    match f.ident {
        None => Err(DeriveError::OnlyNamedFields),
        Some(name) => match f.ty {
            TypeShape::Other => Err(DeriveError::OnlyPathTypes),
            TypeShape::Path(segments) => {
                if segments@.len() == 0 {
                    Err(DeriveError::NoSegments)
                } else if segments@[0].ident@ != "TaskState"@ {
                    Err(DeriveError::NotTaskState)
                } else {
                    match segments@[0].arguments {
                        SegmentArgs::AngleBracketed(args) => {
                            if args@.len() > 0 && args@[0] is Type {
                                Ok((name@, args@[0]->Type_0@))
                            } else {
                                Err(DeriveError::NoTypePath)
                            }
                        },
                        _ => Err(DeriveError::NoAngleBracketedArguments),
                    }
                }
            },
        },
    }
}

/// The fields of the item, each checked in turn: all of them, or the first
/// refusal.
pub open spec fn spec_check_fields(fields: Seq<FieldShape>) -> Result<
    Seq<(Seq<char>, Seq<char>)>,
    DeriveError,
>
    decreases fields.len(),
{
    if fields.len() == 0 {
        Ok(Seq::empty())
    } else {
        match spec_check_fields(fields.drop_last()) {
            Err(e) => Err(e),
            Ok(prev) => match spec_check_field(fields.last()) {
                Err(e) => Err(e),
                Ok(p) => Ok(prev.push(p)),
            },
        }
    }
}

/// What the derive reads of the item: the names and inner types of its
/// fields, or why it is refused.
pub open spec fn spec_check_item(data: DataShape) -> Result<Seq<(Seq<char>, Seq<char>)>, DeriveError> {
    match data {
        DataShape::Struct(FieldsShape::Named(fields)) => spec_check_fields(fields@),
        DataShape::Struct(_) => Err(DeriveError::OnlyNamedFields),
        _ => Err(DeriveError::OnlyStructs),
    }
}

/// The texts of pairs of strings.
pub open spec fn pair_texts(v: Seq<(String, String)>) -> Seq<(Seq<char>, Seq<char>)> {
    v.map_values(|p: (String, String)| (p.0@, p.1@))
}

/// Checks a field of a task: gives its name and the type that its
/// `TaskState` holds, or why the derive refuses it.
pub fn check_field(f: &FieldShape) -> (r: Result<(String, String), DeriveError>)
    ensures
        match r {
            Ok((name, inner)) => spec_check_field(*f) == Ok::<(Seq<char>, Seq<char>), DeriveError>(
                (name@, inner@),
            ),
            Err(e) => spec_check_field(*f) == Err::<(Seq<char>, Seq<char>), DeriveError>(e),
        },
{
    let name = match &f.ident {
        None => return Err(DeriveError::OnlyNamedFields),
        Some(name) => name,
    };
    let segments = match &f.ty {
        TypeShape::Other => return Err(DeriveError::OnlyPathTypes),
        TypeShape::Path(segments) => segments,
    };
    if segments.len() == 0 {
        return Err(DeriveError::NoSegments);
    }
    let segment = &segments[0];
    let mut expected = String::new();
    push_text(&mut expected, "TaskState");
    assert(expected@ =~= "TaskState"@);
    if segment.ident != expected {
        return Err(DeriveError::NotTaskState);
    }
    match &segment.arguments {
        SegmentArgs::AngleBracketed(args) => {
            if args.len() > 0 {
                match &args[0] {
                    GenericArgShape::Type(inner) => Ok((name.clone(), inner.clone())),
                    GenericArgShape::Other => Err(DeriveError::NoTypePath),
                }
            } else {
                Err(DeriveError::NoTypePath)
            }
        },
        _ => Err(DeriveError::NoAngleBracketedArguments),
    }
}

/// Checks the item that the `Task` derive is written on: a struct with
/// named fields, each a `TaskState<T>`. Gives each field's name and inner
/// type, in order, or the first reason to refuse the item.
pub fn check_item(data: &DataShape) -> (r: Result<Vec<(String, String)>, DeriveError>)
    ensures
        match r {
            Ok(v) => spec_check_item(*data) == Ok::<Seq<(Seq<char>, Seq<char>)>, DeriveError>(
                pair_texts(v@),
            ),
            Err(e) => spec_check_item(*data) == Err::<Seq<(Seq<char>, Seq<char>)>, DeriveError>(e),
        },
{
    let fields = match data {
        DataShape::Struct(FieldsShape::Named(fields)) => fields,
        DataShape::Struct(_) => return Err(DeriveError::OnlyNamedFields),
        _ => return Err(DeriveError::OnlyStructs),
    };
    let mut out: Vec<(String, String)> = Vec::new();
    let mut i: usize = 0;
    assert(fields@.take(0) =~= Seq::<FieldShape>::empty());
    assert(pair_texts(out@) =~= Seq::<(Seq<char>, Seq<char>)>::empty());
    while i < fields.len()
        invariant
            i <= fields.len(),
            spec_check_item(*data) == spec_check_fields(fields@),
            spec_check_fields(fields@.take(i as int)) == Ok::<
                Seq<(Seq<char>, Seq<char>)>,
                DeriveError,
            >(pair_texts(out@)),
        decreases fields.len() - i,
    {
        let checked = check_field(&fields[i]);
        proof {
            assert(fields@.take(i + 1).drop_last() =~= fields@.take(i as int));
            assert(fields@.take(i + 1).last() == fields@[i as int]);
        }
        match checked {
            Err(e) => {
                proof {
                    assert(spec_check_field(fields@[i as int]) == Err::<(Seq<char>, Seq<char>), DeriveError>(e));
                    assert(spec_check_fields(fields@.take(i + 1)) == Err::<Seq<(Seq<char>, Seq<char>)>, DeriveError>(e));
                    spec_check_fields_err_stays(fields@, i + 1, e);
                }
                return Err(e);
            },
            Ok(p) => {
                let ghost before = pair_texts(out@);
                let ghost pv = (p.0@, p.1@);
                out.push(p);
                assert(pair_texts(out@) =~= before.push(pv));
            },
        }
        i = i + 1;
    }
    assert(fields@.take(fields.len() as int) =~= fields@);
    Ok(out)
}

/// A refusal among the first fields is the refusal of all of them.
proof fn spec_check_fields_err_stays(fields: Seq<FieldShape>, n: int, e: DeriveError)
    requires
        0 <= n <= fields.len(),
        spec_check_fields(fields.take(n)) == Err::<Seq<(Seq<char>, Seq<char>)>, DeriveError>(e),
    ensures
        spec_check_fields(fields) == Err::<Seq<(Seq<char>, Seq<char>)>, DeriveError>(e),
    decreases fields.len() - n,
{
    if n < fields.len() {
        assert(fields.take(n + 1).drop_last() =~= fields.take(n));
        spec_check_fields_err_stays(fields, n + 1, e);
    } else {
        assert(fields.take(n) =~= fields);
    }
}

} // verus!
