//! Object ids and the resolution of paths: where a path starts, the steps it
//! takes, the queries that find parents and children, and how their results
//! decide the next object.
use vstd::prelude::*;

use crate::def::{CMIS_DIR_ATTRIBUTES, CMIS_TYPE_ID_DOCUMENT, CMIS_TYPE_ID_FOLDER, ObjectId};
use crate::error::CmisError;
use crate::ops;
use crate::props::{Object, get_name, get_object_id, get_parent_id, is_missing_property, str_property};
use crate::query::{QueryBuilder, QuerySet, select_statement};
use crate::text::{append_chars, chars_of};

verus! {

impl Default for ObjectId {
    /// The empty id, which stands for no object.
    fn default() -> (res: ObjectId)
        ensures
            res.id@ == Seq::<char>::empty(),
    {
        ObjectId { id: String::new() }
    }
}

impl ObjectId {
    fn new(id: &str) -> (res: ObjectId)
        ensures
            res.id@ == id@,
    {
        ObjectId { id: String::from_str(id) }
    }

    /// Whether the id is empty.
    pub fn is_empty(&self) -> (res: bool)
        ensures
            res == (self.id@.len() == 0),
    {
        self.id.as_str().is_empty()
    }

    /// The object with the given id; this always succeeds.
    pub fn from_id(id: &str) -> (res: Result<ObjectId, CmisError>)
        ensures
            res matches Ok(o) && o.id@ == id@,
    {
        Ok(Self::new(id))
    }

    /// The object where the resolution of `path` starts: the root folder for
    /// an absolute path or when there is no working directory, else the
    /// working directory.
    pub fn path_start(path: &str, cwd: &ObjectId, root_folder_id: &str) -> (res: ObjectId)
        ensures
            res.id@ == (if is_absolute(path@) || cwd.id@.len() == 0 {
                root_folder_id@
            } else {
                cwd.id@
            }),
            res.id@ == start_object(path@, cwd.id@, root_folder_id@),
            path@.len() > 0 && path@[0] == '/' ==> res.id@ == root_folder_id@,
    {
        let cs = chars_of(path);
        if (cs.len() > 0 && cs[0] == '/') || cwd.is_empty() {
            Self::new(root_folder_id)
        } else {
            ObjectId { id: cwd.id.clone() }
        }
    }

    /// The query that finds the parent of this object.
    pub fn parent_query(&self) -> (res: QuerySet)
        ensures
            res@ == seq![
                select_statement(
                    CMIS_DIR_ATTRIBUTES@,
                    CMIS_TYPE_ID_FOLDER@,
                    "cmis:objectId='"@ + self.id@ + "'"@,
                ),
            ],
    {
        let condition = ops::id(self.id.as_str());
        let res = QueryBuilder::from_folders().select(CMIS_DIR_ATTRIBUTES).condition(
            condition.as_str(),
        ).query_set();
        assert(res@ =~= seq![
            select_statement(
                CMIS_DIR_ATTRIBUTES@,
                CMIS_TYPE_ID_FOLDER@,
                "cmis:objectId='"@ + self.id@ + "'"@,
            ),
        ]);
        res
    }

    /// The queries that find the child of this folder with the given name.
    pub fn child_query(&self, child_name: &str) -> (res: QuerySet)
        ensures
            res@ == seq![
                select_statement(
                    CMIS_DIR_ATTRIBUTES@,
                    CMIS_TYPE_ID_DOCUMENT@,
                    child_condition(self.id@, child_name@),
                ),
                select_statement(
                    CMIS_DIR_ATTRIBUTES@,
                    CMIS_TYPE_ID_FOLDER@,
                    child_condition(self.id@, child_name@),
                ),
            ],
    {
        let in_folder = ops::in_folder(self.id.as_str());
        let named = ops::name(child_name);
        let condition = ops::and(in_folder.as_str(), named.as_str());
        let res = QueryBuilder::from_objects().select(CMIS_DIR_ATTRIBUTES).condition(
            condition.as_str(),
        ).query_set();
        assert(res@ =~= seq![
            select_statement(
                CMIS_DIR_ATTRIBUTES@,
                CMIS_TYPE_ID_DOCUMENT@,
                child_condition(self.id@, child_name@),
            ),
            select_statement(
                CMIS_DIR_ATTRIBUTES@,
                CMIS_TYPE_ID_FOLDER@,
                child_condition(self.id@, child_name@),
            ),
        ]);
        res
    }

    /// The queries that list the children of this folder.
    pub fn children_query(&self) -> (res: QuerySet)
        ensures
            res@ == seq![
                select_statement(
                    CMIS_DIR_ATTRIBUTES@,
                    CMIS_TYPE_ID_DOCUMENT@,
                    "in_folder('"@ + self.id@ + "')"@,
                ),
                select_statement(
                    CMIS_DIR_ATTRIBUTES@,
                    CMIS_TYPE_ID_FOLDER@,
                    "in_folder('"@ + self.id@ + "')"@,
                ),
            ],
    {
        let condition = ops::in_folder(self.id.as_str());
        let res = QueryBuilder::from_objects().select(CMIS_DIR_ATTRIBUTES).condition(
            condition.as_str(),
        ).query_set();
        assert(res@ =~= seq![
            select_statement(
                CMIS_DIR_ATTRIBUTES@,
                CMIS_TYPE_ID_DOCUMENT@,
                "in_folder('"@ + self.id@ + "')"@,
            ),
            select_statement(
                CMIS_DIR_ATTRIBUTES@,
                CMIS_TYPE_ID_FOLDER@,
                "in_folder('"@ + self.id@ + "')"@,
            ),
        ]);
        res
    }

    /// The parent of the object `this_id`, from the results of its parent
    /// query: the parent id of the one result, or an error when there is no
    /// result or more than one.
    pub fn parent_from_results(objects: &Vec<Object>, this_id: &str) -> (res: Result<
        ObjectId,
        CmisError,
    >)
        ensures
            objects@.len() == 1 ==> match res {
                Ok(o) => str_property(objects@[0].succinct_properties, "cmis:parentId"@) == Some(
                    o.id@,
                ),
                Err(e) => str_property(objects@[0].succinct_properties, "cmis:parentId"@) is None
                    && is_missing_property(e, "cmis:parentId"@),
            },
            objects@.len() == 0 ==> (res matches Err(CmisError::NotFound(s)) && s@ == this_id@),
            objects@.len() > 1 ==> (res matches Err(CmisError::BadTree(s)) && s@ == this_id@),
    {
        if objects.len() == 1 {
            match get_parent_id(&objects[0].succinct_properties) {
                Ok(id) => Self::from_id(id),
                Err(e) => Err(e),
            }
        } else if objects.len() == 0 {
            Err(CmisError::NotFound(String::from_str(this_id)))
        } else {
            Err(CmisError::BadTree(String::from_str(this_id)))
        }
    }

    /// The child named `child_name`, from the results of its child query:
    /// the object id of the one result, or an error when there is no result
    /// or more than one.
    pub fn child_from_results(objects: &Vec<Object>, child_name: &str) -> (res: Result<
        ObjectId,
        CmisError,
    >)
        ensures
            objects@.len() == 1 ==> match res {
                Ok(o) => str_property(objects@[0].succinct_properties, "cmis:objectId"@) == Some(
                    o.id@,
                ),
                Err(e) => str_property(objects@[0].succinct_properties, "cmis:objectId"@) is None
                    && is_missing_property(e, "cmis:objectId"@),
            },
            objects@.len() == 0 ==> (res matches Err(CmisError::NotFound(s)) && s@ == child_name@),
            objects@.len() > 1 ==> (res matches Err(CmisError::BadTree(s)) && s@ == child_name@),
    {
        if objects.len() == 1 {
            match get_object_id(&objects[0].succinct_properties) {
                Ok(id) => Self::from_id(id),
                Err(e) => Err(e),
            }
        } else if objects.len() == 0 {
            Err(CmisError::NotFound(String::from_str(child_name)))
        } else {
            Err(CmisError::BadTree(String::from_str(child_name)))
        }
    }

    /// The child named `child_name` in a listing of a folder's children: the
    /// object id of the first child with that name, or an error when no
    /// child has it.
    pub fn child_from_listing(children: &Vec<Object>, child_name: &str) -> (res: Result<
        ObjectId,
        CmisError,
    >)
        ensures
            match first_named(children@, child_name@) {
                Some(i) => match res {
                    Ok(o) => str_property(children@[i].succinct_properties, "cmis:objectId"@)
                        == Some(o.id@),
                    Err(e) => str_property(children@[i].succinct_properties, "cmis:objectId"@)
                        is None && is_missing_property(e, "cmis:objectId"@),
                },
                None => res matches Err(CmisError::NotFound(s)) && s@ == child_name@,
            },
    {
        let n = children.len();
        for i in 0..n
            invariant
                n == children@.len(),
                forall|j: int|
                    0 <= j < i ==> !has_name(#[trigger] children@[j], child_name@),
        {
            let matched = match get_name(&children[i].succinct_properties) {
                Ok(name) => crate::text::str_eq(name, child_name),
                Err(_) => false,
            };
            if matched {
                assert(is_first_named(children@, child_name@, i as int));
                proof {
                    lemma_first_named_unique(children@, child_name@, i as int);
                }
                return match get_object_id(&children[i].succinct_properties) {
                    Ok(id) => Self::from_id(id),
                    Err(e) => Err(e),
                };
            }
        }
        assert(!exists|i: int| is_first_named(children@, child_name@, i));
        Err(CmisError::NotFound(String::from_str(child_name)))
    }
}

/// Whether a path is absolute: it starts with `/`.
pub open spec fn is_absolute(path: Seq<char>) -> bool {
    path.len() > 0 && path[0] == '/'
}

/// The id of the object where the resolution of `path` starts, from the
/// working directory `cwd` in a repository whose root folder is `root`.
pub open spec fn start_object(path: Seq<char>, cwd: Seq<char>, root: Seq<char>) -> Seq<char> {
    if is_absolute(path) || cwd.len() == 0 {
        root
    } else {
        cwd
    }
}

/// Every path whose first character is `/`, whatever its length (`/` alone
/// included), is absolute and resolved from the root folder, whatever the
/// working directory; a path that does not start with `/` is resolved from
/// the working directory when there is one, and from the root folder when
/// there is none.
pub proof fn lemma_rooted_paths(path: Seq<char>, cwd: Seq<char>, root: Seq<char>)
    ensures
        is_absolute(path) <==> (path.len() > 0 && path[0] == '/'),
        path.len() > 0 && path[0] == '/' ==> start_object(path, cwd, root) == root,
        !(path.len() > 0 && path[0] == '/') && cwd.len() > 0 ==> start_object(path, cwd, root)
            == cwd,
        cwd.len() == 0 ==> start_object(path, cwd, root) == root,
{
}

/// The condition of the query for a named child of a folder.
pub open spec fn child_condition(folder_id: Seq<char>, child_name: Seq<char>) -> Seq<char> {
    "("@ + ("in_folder('"@ + folder_id + "')"@) + ") and ("@ + ("cmis:name='"@ + child_name
        + "'"@) + ")"@
}

/// Whether an object has the given name.
pub open spec fn has_name(object: Object, name: Seq<char>) -> bool {
    str_property(object.succinct_properties, "cmis:name"@) == Some(name)
}

/// Whether position `i` holds the first object with the given name.
pub open spec fn is_first_named(objects: Seq<Object>, name: Seq<char>, i: int) -> bool {
    &&& 0 <= i < objects.len()
    &&& has_name(objects[i], name)
    &&& forall|j: int| 0 <= j < i ==> !has_name(#[trigger] objects[j], name)
}

/// The position of the first object with the given name, if any.
pub open spec fn first_named(objects: Seq<Object>, name: Seq<char>) -> Option<int> {
    if exists|i: int| is_first_named(objects, name, i) {
        Some(choose|i: int| is_first_named(objects, name, i))
    } else {
        None
    }
}

proof fn lemma_first_named_unique(objects: Seq<Object>, name: Seq<char>, i: int)
    requires
        is_first_named(objects, name, i),
    ensures
        first_named(objects, name) == Some(i),
{
    let f = choose|f: int| is_first_named(objects, name, f);
    assert(is_first_named(objects, name, f));
    if f < i {
        assert(has_name(objects[f], name));
    } else if i < f {
        assert(has_name(objects[i], name));
    }
}

/// What one component of a path does.
pub enum PathStep {
    /// Stay at the current object (an empty component or `.`).
    Stay,
    /// Go to the parent (`..`).
    Parent,
    /// Go to the child with this name.
    Child(String),
}

/// The components of a path, separated by `/`; the empty path has one
/// empty component.
pub open spec fn split_path(s: Seq<char>) -> Seq<Seq<char>>
    decreases s.len(),
{
    if s.len() == 0 {
        seq![Seq::<char>::empty()]
    } else {
        let prev = split_path(s.drop_last());
        if s.last() == '/' {
            prev.push(Seq::<char>::empty())
        } else {
            prev.update(prev.len() - 1, prev.last().push(s.last()))
        }
    }
}

/// The components joined with `/` between them.
pub open spec fn join_path(parts: Seq<Seq<char>>) -> Seq<char>
    decreases parts.len(),
{
    if parts.len() == 0 {
        Seq::<char>::empty()
    } else if parts.len() == 1 {
        parts[0]
    } else {
        join_path(parts.drop_last()) + seq!['/'] + parts.last()
    }
}

/// Whether `step` is what the component `c` does.
pub open spec fn step_matches(step: PathStep, c: Seq<char>) -> bool {
    match step {
        PathStep::Stay => c.len() == 0 || c == seq!['.'],
        PathStep::Parent => c == seq!['.', '.'],
        PathStep::Child(name) => name@ == c && c.len() != 0 && c != seq!['.'] && c != seq![
            '.',
            '.',
        ],
    }
}

/// A path has at least one component.
pub proof fn lemma_split_path_len(s: Seq<char>)
    ensures
        split_path(s).len() >= 1,
    decreases s.len(),
{
    if s.len() > 0 {
        lemma_split_path_len(s.drop_last());
    }
}

/// Splitting a path at `/` and joining the components with `/` gives the
/// path back, and no component holds a `/`.
pub proof fn lemma_split_join(s: Seq<char>)
    ensures
        join_path(split_path(s)) == s,
        forall|i: int, j: int|
            0 <= i < split_path(s).len() && 0 <= j < split_path(s)[i].len() ==> #[trigger] split_path(
                s,
            )[i][j] != '/',
    decreases s.len(),
{
    if s.len() > 0 {
        let prev = split_path(s.drop_last());
        lemma_split_join(s.drop_last());
        lemma_split_path_len(s.drop_last());
        let c = s.last();
        if c == '/' {
            let parts = prev.push(Seq::<char>::empty());
            assert(parts.drop_last() == prev);
            assert(join_path(parts) == s.drop_last() + seq!['/'] + Seq::<char>::empty());
            assert(s == s.drop_last() + seq!['/']);
            assert forall|i: int, j: int|
                0 <= i < parts.len() && 0 <= j < parts[i].len() implies #[trigger] parts[i][j]
                != '/' by {
                assert(parts[i] == prev[i]);
            }
        } else {
            let n = prev.len() - 1;
            let parts = prev.update(n, prev.last().push(c));
            if prev.len() == 1 {
                assert(join_path(prev) == prev[0]);
                assert(join_path(parts) == parts[0]);
                assert(parts[0] == s.drop_last().push(c));
            } else {
                assert(parts.drop_last() == prev.drop_last());
                assert(join_path(parts) == join_path(prev.drop_last()) + seq!['/'] + prev.last().push(
                    c,
                ));
                assert(join_path(prev) == join_path(prev.drop_last()) + seq!['/'] + prev.last());
            }
            assert(s == s.drop_last().push(c));
            assert forall|i: int, j: int|
                0 <= i < parts.len() && 0 <= j < parts[i].len() implies #[trigger] parts[i][j]
                != '/' by {
                if i != n {
                    assert(parts[i] == prev[i]);
                } else if j < prev[n].len() {
                    assert(parts[i][j] == prev[n][j]);
                }
            }
        }
    }
}

/// A path without `/` is a single component.
pub proof fn lemma_split_single(a: Seq<char>)
    requires
        forall|i: int| 0 <= i < a.len() ==> a[i] != '/',
    ensures
        split_path(a) == seq![a],
    decreases a.len(),
{
    if a.len() > 0 {
        let p = a.drop_last();
        lemma_split_single(p);
        assert(a.last() != '/');
        assert(p.push(a.last()) =~= a);
        assert(seq![p].update(0, p.push(a.last())) =~= seq![a]);
    } else {
        assert(a == Seq::<char>::empty());
    }
}

/// Resolving `a/b`, for a component `a` without `/`, takes the step of `a`
/// and then the steps of `b`: the components of `a/b` are `a` followed by
/// the components of `b`.
pub proof fn lemma_split_prefix(a: Seq<char>, b: Seq<char>)
    requires
        forall|i: int| 0 <= i < a.len() ==> a[i] != '/',
    ensures
        split_path(a + seq!['/'] + b) == seq![a] + split_path(b),
    decreases b.len(),
{
    let s = a + seq!['/'] + b;
    if b.len() == 0 {
        lemma_split_single(a);
        assert(s.drop_last() == a);
        assert(s.last() == '/');
        assert(split_path(b) == seq![Seq::<char>::empty()]);
        assert(seq![a].push(Seq::<char>::empty()) == seq![a] + seq![Seq::<char>::empty()]);
    } else {
        lemma_split_prefix(a, b.drop_last());
        lemma_split_path_len(b.drop_last());
        assert(s.drop_last() == a + seq!['/'] + b.drop_last());
        assert(s.last() == b.last());
        let x = split_path(b.drop_last());
        let prev = seq![a] + x;
        if b.last() == '/' {
            assert(prev.push(Seq::<char>::empty()) == seq![a] + x.push(Seq::<char>::empty()));
        } else {
            assert(prev.last() == x.last());
            assert(prev.update(prev.len() - 1, prev.last().push(b.last())) == seq![a] + x.update(
                x.len() - 1,
                x.last().push(b.last()),
            ));
        }
    }
}

fn classify(component: &Vec<char>) -> (res: PathStep)
    ensures
        step_matches(res, component@),
{
    let n = component.len();
    if n == 0 {
        PathStep::Stay
    } else if n == 1 && component[0] == '.' {
        assert(component@ == seq!['.']);
        PathStep::Stay
    } else if n == 2 && component[0] == '.' && component[1] == '.' {
        assert(component@ == seq!['.', '.']);
        PathStep::Parent
    } else {
        let mut name = String::new();
        append_chars(&mut name, component);
        assert(name@ == component@);
        assert(component@ != seq!['.']) by {
            if n == 1 {
                assert(seq!['.'][0] == '.');
            }
        }
        assert(component@ != seq!['.', '.']) by {
            if n == 2 {
                assert(seq!['.', '.'][0] == '.');
                assert(seq!['.', '.'][1] == '.');
            }
        }
        PathStep::Child(name)
    }
}

/// The steps of a path, one for each of its components.
pub fn path_steps(path: &str) -> (res: Vec<PathStep>)
    ensures
        res@.len() == split_path(path@).len(),
        forall|i: int| 0 <= i < res@.len() ==> step_matches(#[trigger] res@[i], split_path(path@)[i]),
{
    let cs = chars_of(path);
    let n = cs.len();
    let mut steps: Vec<PathStep> = Vec::new();
    let mut current: Vec<char> = Vec::new();
    assert(cs@.take(0) == Seq::<char>::empty());
    for i in 0..n
        invariant
            n == cs@.len(),
            cs@ == path@,
            split_path(cs@.take(i as int)).len() >= 1,
            steps@.len() == split_path(cs@.take(i as int)).len() - 1,
            current@ == split_path(cs@.take(i as int)).last(),
            forall|j: int|
                0 <= j < steps@.len() ==> step_matches(
                    #[trigger] steps@[j],
                    split_path(cs@.take(i as int))[j],
                ),
    {
        let c = cs[i];
        let ghost prefix = cs@.take(i as int);
        let ghost next = cs@.take(i + 1);
        assert(next.drop_last() == prefix);
        assert(next.last() == c);
        let ghost prev = split_path(prefix);
        if c == '/' {
            steps.push(classify(&current));
            current = Vec::new();
            assert(split_path(next) == prev.push(Seq::<char>::empty()));
        } else {
            current.push(c);
            assert(split_path(next) == prev.update(prev.len() - 1, prev.last().push(c)));
        }
    }
    assert(cs@.take(n as int) == cs@);
    steps.push(classify(&current));
    steps
}

/// Whether a component keeps the current object (an empty component or `.`).
pub open spec fn stays(c: Seq<char>) -> bool {
    c.len() == 0 || c == seq!['.']
}

/// The outcome of one component taken from the object `current`, when the
/// server answers the lookup of the parent of an object `id` with
/// `parent(id)` and that of its child `name` with `child(id, name)`.
pub open spec fn component_outcome(
    current: Seq<char>,
    c: Seq<char>,
    parent: spec_fn(Seq<char>) -> Result<Seq<char>, CmisError>,
    child: spec_fn(Seq<char>, Seq<char>) -> Result<Seq<char>, CmisError>,
) -> Result<Seq<char>, CmisError> {
    if stays(c) {
        Ok(current)
    } else if c == seq!['.', '.'] {
        parent(current)
    } else {
        child(current, c)
    }
}

/// The object reached from `current` by the components `comps`, taken one
/// after the other; the first failed lookup ends the resolution with its
/// error, and nothing after it is looked up.
pub open spec fn resolve_components(
    current: Seq<char>,
    comps: Seq<Seq<char>>,
    parent: spec_fn(Seq<char>) -> Result<Seq<char>, CmisError>,
    child: spec_fn(Seq<char>, Seq<char>) -> Result<Seq<char>, CmisError>,
) -> Result<Seq<char>, CmisError>
    decreases comps.len(),
{
    if comps.len() == 0 {
        Ok(current)
    } else {
        match component_outcome(current, comps[0], parent, child) {
            Ok(next) => resolve_components(next, comps.skip(1), parent, child),
            Err(e) => Err(e),
        }
    }
}

/// The components left once the leading ones that keep the current object
/// are passed over.
pub open spec fn skip_stays(comps: Seq<Seq<char>>) -> Seq<Seq<char>>
    decreases comps.len(),
{
    if comps.len() > 0 && stays(comps[0]) {
        skip_stays(comps.skip(1))
    } else {
        comps
    }
}

/// Passing over components that keep the current object does not change
/// where the resolution ends.
pub proof fn lemma_skip_stays(
    current: Seq<char>,
    comps: Seq<Seq<char>>,
    parent: spec_fn(Seq<char>) -> Result<Seq<char>, CmisError>,
    child: spec_fn(Seq<char>, Seq<char>) -> Result<Seq<char>, CmisError>,
)
    ensures
        resolve_components(current, skip_stays(comps), parent, child) == resolve_components(
            current,
            comps,
            parent,
            child,
        ),
        skip_stays(comps).len() == 0 || !stays(skip_stays(comps)[0]),
    decreases comps.len(),
{
    if comps.len() > 0 && stays(comps[0]) {
        lemma_skip_stays(current, comps.skip(1), parent, child);
    }
}

/// Resolving the components `xs` followed by `ys` is resolving `xs`, and then,
/// from the object reached, `ys`; when `xs` fails, `ys` is not resolved.
pub proof fn lemma_resolve_concat(
    current: Seq<char>,
    xs: Seq<Seq<char>>,
    ys: Seq<Seq<char>>,
    parent: spec_fn(Seq<char>) -> Result<Seq<char>, CmisError>,
    child: spec_fn(Seq<char>, Seq<char>) -> Result<Seq<char>, CmisError>,
)
    ensures
        resolve_components(current, xs + ys, parent, child) == match resolve_components(
            current,
            xs,
            parent,
            child,
        ) {
            Ok(next) => resolve_components(next, ys, parent, child),
            Err(e) => Err(e),
        },
    decreases xs.len(),
{
    if xs.len() == 0 {
        assert(xs + ys == ys);
    } else {
        assert((xs + ys)[0] == xs[0]);
        assert((xs + ys).skip(1) == xs.skip(1) + ys);
        match component_outcome(current, xs[0], parent, child) {
            Ok(next) => lemma_resolve_concat(next, xs.skip(1), ys, parent, child),
            Err(e) => {},
        }
    }
}

/// Resolving the path `a/b`, for a component `a` without `/`, from an object
/// is resolving `a` from it and then `b` from the object reached; when `a`
/// fails, nothing of `b` is looked up. A path without `/` is one component.
pub proof fn lemma_resolve_path_prefix(
    current: Seq<char>,
    a: Seq<char>,
    b: Seq<char>,
    parent: spec_fn(Seq<char>) -> Result<Seq<char>, CmisError>,
    child: spec_fn(Seq<char>, Seq<char>) -> Result<Seq<char>, CmisError>,
)
    requires
        forall|i: int| 0 <= i < a.len() ==> a[i] != '/',
    ensures
        resolve_components(current, split_path(a), parent, child) == component_outcome(
            current,
            a,
            parent,
            child,
        ),
        resolve_components(current, split_path(a + seq!['/'] + b), parent, child) == match resolve_components(
            current,
            split_path(a),
            parent,
            child,
        ) {
            Ok(next) => resolve_components(next, split_path(b), parent, child),
            Err(e) => Err(e),
        },
{
    lemma_split_single(a);
    lemma_split_prefix(a, b);
    assert(seq![a].skip(1) =~= Seq::<Seq<char>>::empty());
    assert(seq![a][0] == a);
    match component_outcome(current, a, parent, child) {
        Ok(next) => {
            assert(resolve_components(next, Seq::<Seq<char>>::empty(), parent, child) == Ok::<
                Seq<char>,
                CmisError,
            >(next));
        },
        Err(e) => {},
    }
    lemma_resolve_concat(current, seq![a], split_path(b), parent, child);
}

/// What resolving a path asks of the server next.
pub enum PathLookup {
    /// The parent of the current object.
    Parent,
    /// The child of the current object with this name.
    Child(String),
    /// Nothing: the current object is the one the path names.
    Done,
}

/// The resolution of a path, one lookup at a time: the object reached so far
/// and the components still to take.
pub struct PathWalk {
    current: ObjectId,
    steps: Vec<PathStep>,
    next: usize,
    comps: Ghost<Seq<Seq<char>>>,
}

impl PathWalk {
    #[verifier::type_invariant]
    spec fn steps_match(self) -> bool {
        &&& self.next <= self.steps@.len()
        &&& self.steps@.len() == self.comps@.len()
        &&& forall|i: int|
            0 <= i < self.steps@.len() ==> step_matches(#[trigger] self.steps@[i], self.comps@[i])
    }

    /// The id of the object reached so far.
    pub closed spec fn current_id(&self) -> Seq<char> {
        self.current.id@
    }

    /// The components still to take.
    pub closed spec fn remaining(&self) -> Seq<Seq<char>> {
        self.comps@.skip(self.next as int)
    }

    /// The resolution of `path`, from the object where it starts (see
    /// `ObjectId::path_start`), with all its components still to take.
    pub fn start(path: &str, cwd: &ObjectId, root_folder_id: &str) -> (res: Self)
        ensures
            res.current_id() == (if is_absolute(path@) || cwd.id@.len() == 0 {
                root_folder_id@
            } else {
                cwd.id@
            }),
            res.current_id() == start_object(path@, cwd.id@, root_folder_id@),
            res.remaining() == split_path(path@),
    {
        let current = ObjectId::path_start(path, cwd, root_folder_id);
        let steps = path_steps(path);
        let res = PathWalk { current, steps, next: 0, comps: Ghost(split_path(path@)) };
        assert(res.comps@.skip(0) =~= res.comps@);
        res
    }

    /// The object reached so far.
    pub fn current(&self) -> (res: &ObjectId)
        ensures
            res.id@ == self.current_id(),
    {
        &self.current
    }

    /// The object reached, once the resolution is over.
    pub fn into_object(self) -> (res: ObjectId)
        ensures
            res.id@ == self.current_id(),
    {
        self.current
    }

    /// Passes over the components that keep the current object and says what
    /// the next component asks of the server, or that none is left.
    pub fn next_lookup(&mut self) -> (res: PathLookup)
        ensures
            final(self).current_id() == old(self).current_id(),
            final(self).remaining() == skip_stays(old(self).remaining()),
            match res {
                PathLookup::Done => final(self).remaining().len() == 0,
                PathLookup::Parent => final(self).remaining().len() > 0 && final(self).remaining()[0]
                    == seq!['.', '.'],
                PathLookup::Child(name) => {
                    &&& final(self).remaining().len() > 0
                    &&& !stays(final(self).remaining()[0])
                    &&& final(self).remaining()[0] != seq!['.', '.']
                    &&& name@ == final(self).remaining()[0]
                },
            },
    {
        proof {
            use_type_invariant(&*self);
        }
        let ghost start = self.remaining();
        let n = self.steps.len();
        while self.next < n && matches!(self.steps[self.next], PathStep::Stay)
            invariant
                n == self.steps@.len(),
                self.next <= n,
                self.steps@.len() == self.comps@.len(),
                forall|i: int|
                    0 <= i < self.steps@.len() ==> step_matches(
                        #[trigger] self.steps@[i],
                        self.comps@[i],
                    ),
                self.current.id@ == old(self).current.id@,
                self.comps@ == old(self).comps@,
                skip_stays(self.remaining()) == skip_stays(start),
            decreases n - self.next,
        {
            proof {
                let r = self.remaining();
                assert(r[0] == self.comps@[self.next as int]);
                assert(step_matches(self.steps@[self.next as int], r[0]));
                assert(r.skip(1) =~= self.comps@.skip(self.next + 1));
            }
            self.next = self.next + 1;
        }
        proof {
            let r = self.remaining();
            if self.next < n {
                assert(r[0] == self.comps@[self.next as int]);
                assert(step_matches(self.steps@[self.next as int], r[0]));
            } else {
                assert(r.len() == 0);
            }
            assert(skip_stays(r) == r);
        }
        if self.next == n {
            PathLookup::Done
        } else {
            match &self.steps[self.next] {
                PathStep::Parent => PathLookup::Parent,
                PathStep::Child(name) => PathLookup::Child(name.clone()),
                PathStep::Stay => PathLookup::Done,
            }
        }
    }

    /// Takes the server's answer to the lookup that the next component asked
    /// for: the object found becomes the current one and the component is
    /// taken; an error ends the resolution and leaves the walk as it was. With
    /// no lookup asked for, the answer is dropped.
    pub fn take_answer(&mut self, answer: Result<ObjectId, CmisError>) -> (res: Result<(), CmisError>)
        ensures
            (old(self).remaining().len() > 0 && !stays(old(self).remaining()[0])) ==> match answer {
                Ok(o) => {
                    &&& res is Ok
                    &&& final(self).current_id() == o.id@
                    &&& final(self).remaining() == old(self).remaining().skip(1)
                },
                Err(e) => {
                    &&& res == Err::<(), CmisError>(e)
                    &&& final(self).current_id() == old(self).current_id()
                    &&& final(self).remaining() == old(self).remaining()
                },
            },
            !(old(self).remaining().len() > 0 && !stays(old(self).remaining()[0])) ==> {
                &&& res is Ok
                &&& final(self).current_id() == old(self).current_id()
                &&& final(self).remaining() == old(self).remaining()
            },
    {
        proof {
            use_type_invariant(&*self);
        }
        if self.next == self.steps.len() || matches!(self.steps[self.next], PathStep::Stay) {
            proof {
                if self.next < self.steps@.len() {
                    assert(self.remaining()[0] == self.comps@[self.next as int]);
                    assert(step_matches(self.steps@[self.next as int], self.remaining()[0]));
                }
            }
            return Ok(());
        }
        proof {
            assert(self.remaining()[0] == self.comps@[self.next as int]);
            assert(step_matches(self.steps@[self.next as int], self.remaining()[0]));
        }
        match answer {
            Ok(o) => {
                let ghost before = self.remaining();
                self.current = o;
                self.next = self.next + 1;
                assert(self.remaining() =~= before.skip(1));
                Ok(())
            },
            Err(e) => Err(e),
        }
    }
}

} // verus!
