use mongodb_agent_core::query_plan_error::{at_path, in_object_type, QueryPlanError};

#[test]
fn unknown_field_messages_name_type_and_path() {
    let e = QueryPlanError::UnknownObjectTypeField {
        object_type: Some("Album".to_owned()),
        field_name: "rating".to_owned(),
        path: vec!["albums".to_owned(), "tracks".to_owned()],
    };
    assert_eq!(
        e.unknown_field_message(),
        Some("Unknown field \"rating\" in object type \"Album\" at path albums.tracks".to_owned())
    );
    assert_eq!(at_path(&vec![]), "");
    assert_eq!(in_object_type(None), "");
    assert_eq!(QueryPlanError::UnknownCollection("x".to_owned()).unknown_field_message(), None);
}
