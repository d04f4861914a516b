use cmish::def::ObjectId;
use cmish::error::CmisError;
use cmish::path::{PathLookup, PathStep, PathWalk, path_steps};
use cmish::props::{Object, PropertyList, PropertyValue};

fn object(props: &[(&str, PropertyValue)]) -> Object {
    let mut list = PropertyList::new();
    for (k, v) in props {
        let v = match v {
            PropertyValue::Null => PropertyValue::Null,
            PropertyValue::Bool(b) => PropertyValue::Bool(*b),
            PropertyValue::Number(n) => PropertyValue::Number(*n),
            PropertyValue::String(s) => PropertyValue::String(s.clone()),
            PropertyValue::Array => PropertyValue::Array,
            PropertyValue::Object => PropertyValue::Object,
        };
        list.insert(k.to_string(), v);
    }
    Object { succinct_properties: list }
}

fn text(s: &str) -> PropertyValue {
    PropertyValue::String(s.to_string())
}

fn describe(steps: &[PathStep]) -> Vec<String> {
    steps
        .iter()
        .map(|s| match s {
            PathStep::Stay => "stay".to_string(),
            PathStep::Parent => "parent".to_string(),
            PathStep::Child(n) => format!("child {n}"),
        })
        .collect()
}

#[test]
fn object_id_basics() {
    assert!(ObjectId::default().is_empty());
    let o = ObjectId::from_id("abc").ok().unwrap();
    assert_eq!(o.id, "abc");
    assert!(!o.is_empty());
}

#[test]
fn path_start_absolute_relative_and_without_cwd() {
    let cwd = ObjectId::from_id("cwd").ok().unwrap();
    assert_eq!(ObjectId::path_start("/a", &cwd, "root").id, "root");
    assert_eq!(ObjectId::path_start("a", &cwd, "root").id, "cwd");
    assert_eq!(ObjectId::path_start("", &cwd, "root").id, "cwd");
    assert_eq!(ObjectId::path_start("a", &ObjectId::default(), "root").id, "root");
}

#[test]
fn path_steps_of_components() {
    assert_eq!(
        describe(&path_steps("/a/../b/./")),
        vec!["stay", "child a", "parent", "child b", "stay", "stay"]
    );
    assert_eq!(describe(&path_steps("")), vec!["stay"]);
    assert_eq!(describe(&path_steps("..")), vec!["parent"]);
    assert_eq!(describe(&path_steps("a//b")), vec!["child a", "stay", "child b"]);
    assert_eq!(describe(&path_steps("...")), vec!["child ..."]);
}

#[test]
fn path_split_round_trip_on_example() {
    let path = "/x/y/../z";
    let parts: Vec<String> = path_steps(path)
        .iter()
        .map(|s| match s {
            PathStep::Stay => String::new(),
            PathStep::Parent => "..".to_string(),
            PathStep::Child(n) => n.clone(),
        })
        .collect();
    assert_eq!(parts.join("/"), path);
}

#[test]
fn parent_from_results_cases() {
    let one = vec![object(&[("cmis:parentId", text("p"))])];
    assert_eq!(ObjectId::parent_from_results(&one, "me").ok().unwrap().id, "p");
    let none: Vec<Object> = vec![];
    let err = ObjectId::parent_from_results(&none, "me").err().unwrap();
    assert_eq!(err.message(), "not found: me");
    let two = vec![object(&[]), object(&[])];
    let err = ObjectId::parent_from_results(&two, "me").err().unwrap();
    assert_eq!(err.message(), "bad tree: me is not unique");
    let missing = vec![object(&[("cmis:parentId", PropertyValue::Bool(true))])];
    let err = ObjectId::parent_from_results(&missing, "me").err().unwrap();
    assert!(matches!(err, CmisError::PropertyNotFound(_)));
    assert_eq!(err.message(), "property not found: cmis:parentId");
}

#[test]
fn child_from_results_cases() {
    let one = vec![object(&[("cmis:objectId", text("c"))])];
    assert_eq!(ObjectId::child_from_results(&one, "x").ok().unwrap().id, "c");
    let none: Vec<Object> = vec![];
    assert_eq!(
        ObjectId::child_from_results(&none, "x").err().unwrap().message(),
        "not found: x"
    );
    let two = vec![object(&[]), object(&[])];
    assert_eq!(
        ObjectId::child_from_results(&two, "x").err().unwrap().message(),
        "bad tree: x is not unique"
    );
}

#[test]
fn child_from_listing_finds_first_by_name() {
    let children = vec![
        object(&[("cmis:name", text("a")), ("cmis:objectId", text("1"))]),
        object(&[("cmis:name", text("b")), ("cmis:objectId", text("2"))]),
        object(&[("cmis:name", text("b")), ("cmis:objectId", text("3"))]),
    ];
    assert_eq!(ObjectId::child_from_listing(&children, "b").ok().unwrap().id, "2");
    assert_eq!(
        ObjectId::child_from_listing(&children, "c").err().unwrap().message(),
        "not found: c"
    );
    let no_id = vec![object(&[("cmis:name", text("a"))])];
    assert_eq!(
        ObjectId::child_from_listing(&no_id, "a").err().unwrap().message(),
        "property not found: cmis:objectId"
    );
    let null_name = vec![object(&[("cmis:name", PropertyValue::Null), ("cmis:objectId", text("9"))])];
    assert_eq!(ObjectId::child_from_listing(&null_name, "").ok().unwrap().id, "9");
}

#[test]
fn path_of_a_then_b_is_a_then_the_steps_of_b() {
    let whole = describe(&path_steps("a/../c/"));
    let mut parts = describe(&path_steps("a"));
    parts.extend(describe(&path_steps("../c/")));
    assert_eq!(whole, parts);
}

fn id(s: &str) -> ObjectId {
    ObjectId { id: s.to_string() }
}

/// Resolves `path` against a small tree: root "r" with children "a" (id "A")
/// and "b" (id "B"); "A" has child "c" (id "C"). Returns the result and the
/// lookups made.
fn walk(path: &str, cwd: &str) -> (Result<String, String>, Vec<String>) {
    let mut walk = PathWalk::start(path, &id(cwd), "r");
    let mut asked = vec![];
    loop {
        let here = walk.current().id.clone();
        let answer = match walk.next_lookup() {
            PathLookup::Done => return (Ok(walk.into_object().id), asked),
            PathLookup::Parent => {
                asked.push(format!("parent {here}"));
                match here.as_str() {
                    "A" | "B" => Ok(id("r")),
                    "C" => Ok(id("A")),
                    _ => Err(CmisError::NotFound(here.clone())),
                }
            }
            PathLookup::Child(name) => {
                asked.push(format!("child {here} {name}"));
                match (here.as_str(), name.as_str()) {
                    ("r", "a") => Ok(id("A")),
                    ("r", "b") => Ok(id("B")),
                    ("A", "c") => Ok(id("C")),
                    _ => Err(CmisError::NotFound(name.clone())),
                }
            }
        };
        if let Err(e) = walk.take_answer(answer) {
            return (Err(e.message()), asked);
        }
    }
}

#[test]
fn path_is_resolved_step_by_step() {
    let (res, asked) = walk("/a/./c/../../b/", "");
    assert_eq!(res, Ok("B".to_string()));
    assert_eq!(
        asked,
        vec!["child r a", "child A c", "parent C", "parent A", "child r b"]
    );
    assert_eq!(walk("c", "A").0, Ok("C".to_string()));
    assert_eq!(walk("", "A").0, Ok("A".to_string()));
    assert_eq!(walk("", "").0, Ok("r".to_string()));
}

#[test]
fn resolving_a_then_b_is_resolving_a_slash_b() {
    let (whole, _) = walk("a/c", "");
    let (first, _) = walk("a", "");
    let (then, _) = walk("c", &first.unwrap());
    assert_eq!(whole, then);
}

#[test]
fn failed_lookup_ends_resolution() {
    let (res, asked) = walk("x/a/b", "");
    assert_eq!(res, Err("not found: x".to_string()));
    assert_eq!(asked, vec!["child r x"]);
}
