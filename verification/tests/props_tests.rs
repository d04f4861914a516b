use cmish::props::{
    Object, PropertyList, PropertyValue, create_dir_entry, get_length, get_name, get_object_id,
    get_object_type, get_parent_id, get_path,
};

#[test]
fn property_read_after_write() {
    let mut props = PropertyList::new();
    assert!(props.get("a").is_none());
    props.insert("a".to_string(), PropertyValue::Bool(true));
    props.insert("b".to_string(), PropertyValue::Null);
    props.insert("a".to_string(), PropertyValue::String("x".to_string()));
    assert!(matches!(props.get("a"), Some(PropertyValue::String(s)) if s == "x"));
    assert!(matches!(props.get("b"), Some(PropertyValue::Null)));
    assert!(props.get("c").is_none());
}

#[test]
fn string_properties_null_and_missing() {
    let mut props = PropertyList::new();
    props.insert("cmis:name".to_string(), PropertyValue::Null);
    props.insert("cmis:objectId".to_string(), PropertyValue::String("id1".to_string()));
    props.insert("cmis:parentId".to_string(), PropertyValue::Number(Some(3)));
    assert_eq!(get_name(&props).ok().unwrap(), "");
    assert_eq!(get_object_id(&props).ok().unwrap(), "id1");
    assert_eq!(
        get_parent_id(&props).err().unwrap().message(),
        "property not found: cmis:parentId"
    );
    assert_eq!(
        get_object_type(&props).err().unwrap().message(),
        "property not found: cmis:objectTypeId"
    );
}

#[test]
fn length_property_cases() {
    let mut props = PropertyList::new();
    assert_eq!(
        get_length(&props).err().unwrap().message(),
        "property not found: cmis:contentStreamLength"
    );
    props.insert("cmis:contentStreamLength".to_string(), PropertyValue::Number(Some(42)));
    assert_eq!(get_length(&props).ok().unwrap(), 42);
    props.insert("cmis:contentStreamLength".to_string(), PropertyValue::Number(None));
    assert_eq!(get_length(&props).ok().unwrap(), 0);
    props.insert("cmis:contentStreamLength".to_string(), PropertyValue::Null);
    assert_eq!(get_length(&props).ok().unwrap(), 0);
    props.insert("cmis:contentStreamLength".to_string(), PropertyValue::String("7".to_string()));
    assert!(get_length(&props).is_err());
}

#[test]
fn path_prefers_cmis_path() {
    let mut props = PropertyList::new();
    assert_eq!(
        get_path(&props).err().unwrap().message(),
        "missing path attribute: cmis:path or path_tokens"
    );
    props.insert("path_tokens".to_string(), PropertyValue::String("/t".to_string()));
    assert_eq!(get_path(&props).ok().unwrap(), "/t");
    props.insert("cmis:path".to_string(), PropertyValue::String("/p".to_string()));
    assert_eq!(get_path(&props).ok().unwrap(), "/p");
    props.insert("cmis:path".to_string(), PropertyValue::Array);
    assert_eq!(get_path(&props).ok().unwrap(), "/t");
}

fn object(type_id: Option<&str>, length: Option<PropertyValue>, name: Option<&str>) -> Object {
    let mut props = PropertyList::new();
    if let Some(t) = type_id {
        props.insert("cmis:objectTypeId".to_string(), PropertyValue::String(t.to_string()));
    }
    if let Some(l) = length {
        props.insert("cmis:contentStreamLength".to_string(), l);
    }
    if let Some(n) = name {
        props.insert("cmis:name".to_string(), PropertyValue::String(n.to_string()));
    }
    Object { succinct_properties: props }
}

#[test]
fn dir_entries_for_folders_documents_and_others() {
    let folder = object(Some("cmis:folder"), Some(PropertyValue::Number(Some(5))), Some("f"));
    let (t, l, n) = create_dir_entry(&folder);
    assert_eq!((t, l.as_str(), n), ("dir", "", "f"));

    let doc = object(Some("cmis:document"), Some(PropertyValue::Number(Some(1234))), Some("d"));
    let (t, l, n) = create_dir_entry(&doc);
    assert_eq!((t, l.as_str(), n), ("\u{2027}\u{2027}\u{2027}", "1234", "d"));

    let doc_without_length = object(Some("cmis:document"), None, None);
    let (t, l, n) = create_dir_entry(&doc_without_length);
    assert_eq!((t, l.as_str(), n), ("\u{2027}\u{2027}\u{2027}", "?", "?"));

    let other = object(None, None, Some("o"));
    let (t, l, n) = create_dir_entry(&other);
    assert_eq!((t, l.as_str(), n), ("\u{2027}?\u{2027}", "", "o"));
}
