use cmish::def::{CMIS_DIR_ATTRIBUTES, ObjectId};
use cmish::ops::{and, id, in_folder, name, not, or};
use cmish::query::{QueryBuilder, QuerySet};

fn statements(set: &QuerySet) -> Vec<String> {
    (0..set.len()).map(|i| set.get(i).clone()).collect()
}

#[test]
fn condition_operators_render_cmis_sql() {
    assert_eq!(id("4711"), "cmis:objectId='4711'");
    assert_eq!(name("docs"), "cmis:name='docs'");
    assert_eq!(in_folder("f1"), "in_folder('f1')");
    assert_eq!(not("a"), "not (a)");
    assert_eq!(and("a", "b"), "(a) and (b)");
    assert_eq!(or("a", "b"), "(a) or (b)");
    assert_eq!(
        and(&in_folder("f1"), &name("x")),
        "(in_folder('f1')) and (cmis:name='x')"
    );
}

#[test]
fn builder_without_condition_has_no_where() {
    let set = QueryBuilder::from_documents().query_set();
    assert_eq!(statements(&set), vec!["select * from cmis:document  ".to_string()]);
    let set = QueryBuilder::from_folders().query_set();
    assert_eq!(statements(&set), vec!["select * from cmis:folder  ".to_string()]);
}

#[test]
fn builder_with_condition_and_columns() {
    let cond = id("x");
    let set = QueryBuilder::from_objects()
        .select("cmis:name")
        .condition(&cond)
        .query_set();
    assert_eq!(
        statements(&set),
        vec![
            "select cmis:name from cmis:document where cmis:objectId='x'".to_string(),
            "select cmis:name from cmis:folder where cmis:objectId='x'".to_string(),
        ]
    );
}

#[test]
fn query_set_keeps_order() {
    let set = QuerySet::new().add("a".to_string()).add("b".to_string());
    assert_eq!(set.len(), 2);
    assert_eq!(statements(&set), vec!["a".to_string(), "b".to_string()]);
    assert_eq!(QuerySet::new().len(), 0);
}

#[test]
fn object_queries_for_path_lookup() {
    let folder = ObjectId::from_id("f1").ok().unwrap();
    assert_eq!(
        statements(&folder.parent_query()),
        vec![format!(
            "select {} from cmis:folder where cmis:objectId='f1'",
            CMIS_DIR_ATTRIBUTES
        )]
    );
    assert_eq!(
        statements(&folder.child_query("x")),
        vec![
            format!(
                "select {} from cmis:document where (in_folder('f1')) and (cmis:name='x')",
                CMIS_DIR_ATTRIBUTES
            ),
            format!(
                "select {} from cmis:folder where (in_folder('f1')) and (cmis:name='x')",
                CMIS_DIR_ATTRIBUTES
            ),
        ]
    );
    assert_eq!(
        statements(&folder.children_query()),
        vec![
            format!("select {} from cmis:document where in_folder('f1')", CMIS_DIR_ATTRIBUTES),
            format!("select {} from cmis:folder where in_folder('f1')", CMIS_DIR_ATTRIBUTES),
        ]
    );
}
