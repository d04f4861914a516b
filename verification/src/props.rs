//! Properties of repository objects, as the succinct browser binding reports
//! them, and the readers of the properties that the shell uses.
use vstd::prelude::*;

use crate::def::{CMIS_TYPE_ID_DOCUMENT, CMIS_TYPE_ID_FOLDER};
use crate::error::CmisError;
use crate::table::{get_entry, insert_entry, lookup};
use crate::text::{decimal, str_eq, u64_to_string};

verus! {

/// The value of a property, as far as the shell reads it.
pub enum PropertyValue {
    /// JSON `null`.
    Null,
    /// A boolean.
    Bool(bool),
    /// A number, with the unsigned integer it denotes when it denotes one.
    Number(Option<u64>),
    /// A string.
    String(String),
    /// An array.
    Array,
    /// An object.
    Object,
}

/// The properties of an object, by name.
pub struct PropertyList {
    entries: Vec<(String, PropertyValue)>,
}

impl PropertyList {
    /// The entries, a later one never repeating the name of an earlier one.
    pub closed spec fn spec_entries(&self) -> Seq<(String, PropertyValue)> {
        self.entries@
    }

    /// The value of the property `name`.
    pub open spec fn spec_get(&self, name: Seq<char>) -> Option<PropertyValue> {
        match lookup(self.spec_entries(), name) {
            Some(e) => Some(e.1),
            None => None,
        }
    }

    /// A list without properties.
    pub fn new() -> (res: Self)
        ensures
            forall|name: Seq<char>| #[trigger] res.spec_get(name) is None,
    {
        PropertyList { entries: Vec::new() }
    }

    /// Sets property `name` to `value`.
    pub fn insert(&mut self, name: String, value: PropertyValue)
        ensures
            final(self).spec_get(name@) == Some(value),
            forall|other: Seq<char>|
                other != name@ ==> #[trigger] final(self).spec_get(other) == old(self).spec_get(
                    other,
                ),
    {
        let ghost n = name@;
        let ghost v = value;
        insert_entry(&mut self.entries, (name, value));
        assert(lookup(self.entries@, n) == Some((name, v)));
    }

    /// The value of property `name`.
    pub fn get(&self, name: &str) -> (res: Option<&PropertyValue>)
        ensures
            match res {
                Some(v) => self.spec_get(name@) == Some(*v),
                None => self.spec_get(name@) is None,
            },
    {
        match get_entry(&self.entries, name) {
            Some(e) => Some(&e.1),
            None => None,
        }
    }
}

/// A repository object with its succinct properties.
pub struct Object {
    pub succinct_properties: PropertyList,
}

/// The text of a string property: the string itself, the empty string for
/// `null`, and nothing (an error) when the property is missing or not a string.
pub open spec fn str_property(props: PropertyList, name: Seq<char>) -> Option<Seq<char>> {
    match props.spec_get(name) {
        Some(PropertyValue::String(s)) => Some(s@),
        Some(PropertyValue::Null) => Some(Seq::<char>::empty()),
        _ => None,
    }
}

/// The value of an integer property: the number when it is an unsigned
/// integer, 0 for any other number and for `null`, and nothing (an error)
/// when the property is missing or not a number.
pub open spec fn u64_property(props: PropertyList, name: Seq<char>) -> Option<u64> {
    match props.spec_get(name) {
        Some(PropertyValue::Number(Some(n))) => Some(n),
        Some(PropertyValue::Number(None)) => Some(0),
        Some(PropertyValue::Null) => Some(0),
        _ => None,
    }
}

/// Whether `e` is the error for a missing property `name`.
pub open spec fn is_missing_property(e: CmisError, name: Seq<char>) -> bool {
    e matches CmisError::PropertyNotFound(n) && n@ == name
}

/// Reads the string property `name`.
pub fn get_str_property<'a>(properties: &'a PropertyList, name: &str) -> (res: Result<
    &'a str,
    CmisError,
>)
    ensures
        match res {
            Ok(s) => str_property(*properties, name@) == Some(s@),
            Err(e) => str_property(*properties, name@) is None && is_missing_property(e, name@),
        },
{
    match properties.get(name) {
        Some(PropertyValue::String(s)) => Ok(s.as_str()),
        Some(PropertyValue::Null) => {
            proof {
                reveal_strlit("");
            }
            Ok("")
        },
        _ => Err(CmisError::PropertyNotFound(String::from_str(name))),
    }
}

/// Reads the integer property `name`.
pub fn get_u64_property(properties: &PropertyList, name: &str) -> (res: Result<u64, CmisError>)
    ensures
        match res {
            Ok(n) => u64_property(*properties, name@) == Some(n),
            Err(e) => u64_property(*properties, name@) is None && is_missing_property(e, name@),
        },
{
    match properties.get(name) {
        Some(PropertyValue::Number(Some(n))) => Ok(*n),
        Some(PropertyValue::Number(None)) => Ok(0),
        Some(PropertyValue::Null) => Ok(0),
        _ => Err(CmisError::PropertyNotFound(String::from_str(name))),
    }
}

/// Reads `cmis:objectId`.
pub fn get_object_id(properties: &PropertyList) -> (res: Result<&str, CmisError>)
    ensures
        match res {
            Ok(s) => str_property(*properties, "cmis:objectId"@) == Some(s@),
            Err(e) => str_property(*properties, "cmis:objectId"@) is None && is_missing_property(
                e,
                "cmis:objectId"@,
            ),
        },
{
    get_str_property(properties, "cmis:objectId")
}

/// Reads `cmis:objectTypeId`.
pub fn get_object_type(properties: &PropertyList) -> (res: Result<&str, CmisError>)
    ensures
        match res {
            Ok(s) => str_property(*properties, "cmis:objectTypeId"@) == Some(s@),
            Err(e) => str_property(*properties, "cmis:objectTypeId"@) is None
                && is_missing_property(e, "cmis:objectTypeId"@),
        },
{
    get_str_property(properties, "cmis:objectTypeId")
}

/// Reads `cmis:name`.
pub fn get_name(properties: &PropertyList) -> (res: Result<&str, CmisError>)
    ensures
        match res {
            Ok(s) => str_property(*properties, "cmis:name"@) == Some(s@),
            Err(e) => str_property(*properties, "cmis:name"@) is None && is_missing_property(
                e,
                "cmis:name"@,
            ),
        },
{
    get_str_property(properties, "cmis:name")
}

/// Reads `cmis:path`.
pub fn get_cmis_path(properties: &PropertyList) -> (res: Result<&str, CmisError>)
    ensures
        match res {
            Ok(s) => str_property(*properties, "cmis:path"@) == Some(s@),
            Err(e) => str_property(*properties, "cmis:path"@) is None && is_missing_property(
                e,
                "cmis:path"@,
            ),
        },
{
    get_str_property(properties, "cmis:path")
}

/// Reads `path_tokens`.
pub fn get_path_tokens(properties: &PropertyList) -> (res: Result<&str, CmisError>)
    ensures
        match res {
            Ok(s) => str_property(*properties, "path_tokens"@) == Some(s@),
            Err(e) => str_property(*properties, "path_tokens"@) is None && is_missing_property(
                e,
                "path_tokens"@,
            ),
        },
{
    get_str_property(properties, "path_tokens")
}

/// Reads `cmis:parentId`.
pub fn get_parent_id(properties: &PropertyList) -> (res: Result<&str, CmisError>)
    ensures
        match res {
            Ok(s) => str_property(*properties, "cmis:parentId"@) == Some(s@),
            Err(e) => str_property(*properties, "cmis:parentId"@) is None && is_missing_property(
                e,
                "cmis:parentId"@,
            ),
        },
{
    get_str_property(properties, "cmis:parentId")
}

/// Reads `cmis:contentStreamLength`.
pub fn get_length(properties: &PropertyList) -> (res: Result<u64, CmisError>)
    ensures
        match res {
            Ok(n) => u64_property(*properties, "cmis:contentStreamLength"@) == Some(n),
            Err(e) => u64_property(*properties, "cmis:contentStreamLength"@) is None
                && is_missing_property(e, "cmis:contentStreamLength"@),
        },
{
    get_u64_property(properties, "cmis:contentStreamLength")
}

/// The path of an object: `cmis:path` when it can be read, else `path_tokens`.
pub open spec fn path_property(props: PropertyList) -> Option<Seq<char>> {
    match str_property(props, "cmis:path"@) {
        Some(p) => Some(p),
        None => str_property(props, "path_tokens"@),
    }
}

/// The path of an object is its `cmis:path` whenever that reads as a string,
/// whatever `path_tokens` holds; `path_tokens` is used only when `cmis:path`
/// is missing or not a string, and the path is missing only when neither
/// reads as a string.
pub proof fn lemma_cmis_path_first(props: PropertyList)
    ensures
        str_property(props, "cmis:path"@) matches Some(s) ==> path_property(props) == Some(s),
        str_property(props, "cmis:path"@) is None ==> path_property(props) == str_property(
            props,
            "path_tokens"@,
        ),
        path_property(props) is None <==> (str_property(props, "cmis:path"@) is None
            && str_property(props, "path_tokens"@) is None),
{
}

/// Reads the path of an object from `cmis:path`, or else from `path_tokens`.
pub fn get_path(properties: &PropertyList) -> (res: Result<&str, CmisError>)
    ensures
        match res {
            Ok(s) => path_property(*properties) == Some(s@),
            Err(e) => path_property(*properties) is None && e is MissingPath,
        },
        str_property(*properties, "cmis:path"@) matches Some(p) ==> res matches Ok(s) && s@ == p,
{
    match get_cmis_path(properties) {
        Ok(path) => Ok(path),
        Err(_) => match get_path_tokens(properties) {
            Ok(path) => Ok(path),
            Err(_) => Err(CmisError::MissingPath),
        },
    }
}

/// The type shown in a directory listing for an object type.
pub open spec fn entry_type(type_id: Seq<char>) -> Seq<char> {
    if type_id == CMIS_TYPE_ID_FOLDER@ {
        "dir"@
    } else if type_id == CMIS_TYPE_ID_DOCUMENT@ {
        "\u{2027}\u{2027}\u{2027}"@
    } else {
        "\u{2027}?\u{2027}"@
    }
}

/// The length shown in a directory listing: the content length of a
/// document, `?` when it cannot be read, and nothing for other objects.
pub open spec fn entry_length(type_id: Seq<char>, props: PropertyList) -> Seq<char> {
    if type_id == CMIS_TYPE_ID_DOCUMENT@ {
        match u64_property(props, "cmis:contentStreamLength"@) {
            Some(n) => decimal(n as nat),
            None => "?"@,
        }
    } else {
        ""@
    }
}

/// The object type as a listing reads it: empty when it cannot be read.
pub open spec fn listed_type(props: PropertyList) -> Seq<char> {
    match str_property(props, "cmis:objectTypeId"@) {
        Some(t) => t,
        None => ""@,
    }
}

/// The name shown in a directory listing: `?` when it cannot be read.
pub open spec fn entry_name(props: PropertyList) -> Seq<char> {
    match str_property(props, "cmis:name"@) {
        Some(n) => n,
        None => "?"@,
    }
}

/// The type, length and name of an object in a directory listing.
pub fn create_dir_entry(wrapped_object: &Object) -> (res: (&str, String, &str))
    ensures
        res.0@ == entry_type(listed_type(wrapped_object.succinct_properties)),
        res.1@ == entry_length(
            listed_type(wrapped_object.succinct_properties),
            wrapped_object.succinct_properties,
        ),
        res.2@ == entry_name(wrapped_object.succinct_properties),
{
    proof {
        reveal_strlit("");
    }
    let properties = &wrapped_object.succinct_properties;
    let type_id = match get_object_type(properties) {
        Ok(t) => t,
        Err(_) => "",
    };
    let kind = if str_eq(type_id, CMIS_TYPE_ID_FOLDER) {
        "dir"
    } else if str_eq(type_id, CMIS_TYPE_ID_DOCUMENT) {
        "\u{2027}\u{2027}\u{2027}"
    } else {
        "\u{2027}?\u{2027}"
    };
    let length = if str_eq(type_id, CMIS_TYPE_ID_DOCUMENT) {
        match get_length(properties) {
            Ok(length) => u64_to_string(length),
            Err(_) => String::from_str("?"),
        }
    } else {
        String::new()
    };
    let name = match get_name(properties) {
        Ok(name) => name,
        Err(_) => "?",
    };
    (kind, length, name)
}

} // verus!
