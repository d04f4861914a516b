//! Names of the CMIS browser binding and the plain data of a repository.
use vstd::prelude::*;

verus! {

/// Request parameter naming an object.
pub const CMIS_OBJECT_ID: &'static str = "objectId";
/// Request parameter choosing what the browser binding returns.
pub const CMIS_SELECTOR: &'static str = "cmisselector";
/// Selector value for a query.
pub const CMIS_SELECTOR_QUERY: &'static str = "query";
/// Selector value for the children of a folder.
pub const CMIS_SELECTOR_CHILDREN: &'static str = "children";
/// Selector value for the properties of an object.
pub const CMIS_SELECTOR_PROPERTIES: &'static str = "properties";
/// Request parameter holding the query statement.
pub const CMIS_QUERY: &'static str = "q";
/// Request parameter bounding the size of a page.
pub const CMIS_MAX_ITEMS: &'static str = "maxItems";
/// Request parameter giving the number of items to skip.
pub const CMIS_SKIP_COUNT: &'static str = "skipCount";
/// Request parameter asking for succinct properties.
pub const CMIS_SUCCINCT: &'static str = "succinct";
/// Request parameter restricting the properties returned.
pub const CMIS_FILTER: &'static str = "filter";
/// The properties that directory listings and path lookups ask for.
pub const CMIS_DIR_ATTRIBUTES: &'static str =
    "cmis:objectId,cmis:objectTypeId,cmis:name,cmis:parentId,cmis:path,path,cmis:contentStreamLength";
/// Object type of folders.
pub const CMIS_TYPE_ID_FOLDER: &'static str = "cmis:folder";
/// Object type of documents.
pub const CMIS_TYPE_ID_DOCUMENT: &'static str = "cmis:document";
/// Header that carries the access token.
pub const HEADER_AUTH: &'static str = "Authorization";

/// A repository that a connection offers.
#[derive(Clone)]
pub struct Repository {
    pub repository_name: String,
    pub root_folder_id: String,
    pub root_folder_url: String,
}

impl Default for Repository {
    /// A repository with empty name, root folder id and root folder url.
    fn default() -> (res: Repository)
        ensures
            res.repository_name@ == Seq::<char>::empty(),
            res.root_folder_id@ == Seq::<char>::empty(),
            res.root_folder_url@ == Seq::<char>::empty(),
    {
        Repository {
            repository_name: String::new(),
            root_folder_id: String::new(),
            root_folder_url: String::new(),
        }
    }
}

/// The id of a repository object.
#[derive(Clone)]
pub struct ObjectId {
    pub id: String,
}

} // verus!
