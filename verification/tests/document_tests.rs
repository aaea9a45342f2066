use organise::document::{BsonValue, Document, ValueAccessError};
use organise::oid::ObjectId;

#[test]
fn reads_see_the_latest_value_under_a_name() {
    let mut d = Document::new();
    assert_eq!(d.len(), 0);
    d.insert("mood", BsonValue::String("calm".to_string()));
    d.insert("mood", BsonValue::String("busy".to_string()));
    assert_eq!(d.len(), 2);
    assert_eq!(d.get_str("mood").unwrap().as_str(), "busy");
}

#[test]
fn each_read_reports_a_missing_name_and_a_wrong_type() {
    let mut d = Document::new();
    d.insert("flag", BsonValue::Boolean(true));
    d.insert("when", BsonValue::DateTime(42));
    d.insert("who", BsonValue::ObjectId(ObjectId { value: 7 }));
    d.insert("names", BsonValue::StringArray(vec!["a".to_string()]));

    assert_eq!(d.get_bool("flag"), Ok(true));
    assert_eq!(d.get_datetime("when"), Ok(42));
    assert_eq!(d.get_object_id("who"), Ok(ObjectId { value: 7 }));
    assert_eq!(d.get_array("names").unwrap(), vec!["a".to_string()]);

    assert_eq!(d.get_bool("missing"), Err(ValueAccessError::NotPresent));
    assert_eq!(d.get_datetime("flag"), Err(ValueAccessError::UnexpectedType));
    assert_eq!(d.get_object_id("when"), Err(ValueAccessError::UnexpectedType));
    assert!(matches!(d.get_str("flag"), Err(ValueAccessError::UnexpectedType)));
    assert_eq!(d.get_bool("when"), Err(ValueAccessError::UnexpectedType));
}

#[test]
fn fields_come_back_in_insertion_order() {
    let mut d = Document::new();
    d.insert("first", BsonValue::DateTime(1));
    d.insert("second", BsonValue::DateTime(2));
    let names: Vec<&str> = d.fields().iter().map(|(k, _)| k.as_str()).collect();
    assert_eq!(names, vec!["first", "second"]);
}
