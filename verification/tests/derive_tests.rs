use pulsync::derive::{
    check_field, check_item, DataShape, DeriveError, FieldShape, FieldsShape, GenericArgShape,
    PathSegment, SegmentArgs, TypeShape,
};

fn state_field(name: &str, inner: &str) -> FieldShape {
    FieldShape {
        ident: Some(String::from(name)),
        ty: TypeShape::Path(vec![PathSegment {
            ident: String::from("TaskState"),
            arguments: SegmentArgs::AngleBracketed(vec![GenericArgShape::Type(String::from(inner))]),
        }]),
    }
}

#[test]
fn task_state_fields_are_read() {
    let r = check_field(&state_field("login", "String")).unwrap();
    assert_eq!(r, (String::from("login"), String::from("String")));
    let item = DataShape::Struct(FieldsShape::Named(vec![
        state_field("login", "String"),
        state_field("state", "u8"),
    ]));
    assert_eq!(
        check_item(&item).unwrap(),
        vec![
            (String::from("login"), String::from("String")),
            (String::from("state"), String::from("u8"))
        ]
    );
}

#[test]
fn refusals_and_their_messages() {
    let unnamed = FieldShape { ident: None, ty: TypeShape::Other };
    assert_eq!(check_field(&unnamed).unwrap_err(), DeriveError::OnlyNamedFields);
    let other = FieldShape { ident: Some(String::from("a")), ty: TypeShape::Other };
    assert_eq!(check_field(&other).unwrap_err(), DeriveError::OnlyPathTypes);
    let empty = FieldShape { ident: Some(String::from("a")), ty: TypeShape::Path(vec![]) };
    assert_eq!(check_field(&empty).unwrap_err(), DeriveError::NoSegments);
    let arc = FieldShape {
        ident: Some(String::from("a")),
        ty: TypeShape::Path(vec![PathSegment { ident: String::from("Arc"), arguments: SegmentArgs::Plain }]),
    };
    assert_eq!(check_field(&arc).unwrap_err(), DeriveError::NotTaskState);
    let bare = FieldShape {
        ident: Some(String::from("a")),
        ty: TypeShape::Path(vec![PathSegment { ident: String::from("TaskState"), arguments: SegmentArgs::Plain }]),
    };
    assert_eq!(check_field(&bare).unwrap_err(), DeriveError::NoAngleBracketedArguments);
    let lifetime = FieldShape {
        ident: Some(String::from("a")),
        ty: TypeShape::Path(vec![PathSegment {
            ident: String::from("TaskState"),
            arguments: SegmentArgs::AngleBracketed(vec![GenericArgShape::Other]),
        }]),
    };
    assert_eq!(check_field(&lifetime).unwrap_err(), DeriveError::NoTypePath);
    assert_eq!(check_item(&DataShape::Enum).unwrap_err(), DeriveError::OnlyStructs);
    assert_eq!(check_item(&DataShape::Struct(FieldsShape::Unnamed)).unwrap_err(), DeriveError::OnlyNamedFields);
    let mixed = DataShape::Struct(FieldsShape::Named(vec![state_field("ok", "u8"), arc, bare]));
    assert_eq!(check_item(&mixed).unwrap_err(), DeriveError::NotTaskState);
    assert_eq!(DeriveError::NotTaskState.message(), "State fields must be TaskState<T>");
    assert_eq!(DeriveError::OnlyStructs.message(), "Only structs are supported");
    assert_eq!(DeriveError::NoTypePath.message(), "No type path found");
}
