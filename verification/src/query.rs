//! CMIS query statements: a builder over object types, and sets of statements.
use vstd::prelude::*;

use crate::def::{CMIS_TYPE_ID_DOCUMENT, CMIS_TYPE_ID_FOLDER};

verus! {

/// A list of query statements, to be run one after the other.
pub struct QuerySet {
    queries: Vec<String>,
}

impl View for QuerySet {
    type V = Seq<Seq<char>>;

    open spec fn view(&self) -> Seq<Seq<char>> {
        self.spec_queries()
    }
}

impl QuerySet {
    /// The statements, in order.
    pub closed spec fn spec_queries(&self) -> Seq<Seq<char>> {
        self.queries@.map_values(|q: String| q@)
    }

    /// An empty set.
    pub fn new() -> (res: Self)
        ensures
            res@ == Seq::<Seq<char>>::empty(),
    {
        let res = QuerySet { queries: Vec::new() };
        assert(res@ =~= Seq::<Seq<char>>::empty());
        res
    }

    /// The set with `query` appended.
    pub fn add(self, query: String) -> (res: Self)
        ensures
            res@ == self@.push(query@),
    {
        let mut s = self;
        let ghost before = s@;
        s.queries.push(query);
        assert(s@ =~= before.push(query@));
        s
    }

    /// The number of statements.
    pub fn len(&self) -> (res: usize)
        ensures
            res == self@.len(),
    {
        self.queries.len()
    }

    /// The statement at position `i`.
    pub fn get(&self, i: usize) -> (res: &String)
        requires
            i < self@.len(),
        ensures
            res@ == self@[i as int],
    {
        &self.queries[i]
    }
}

/// The statement `select {columns} from {from} {where} {condition}`, where
/// `{where}` is `where` for a non-empty condition and empty otherwise.
pub open spec fn select_statement(columns: Seq<char>, from: Seq<char>, condition: Seq<char>) -> Seq<
    char,
> {
    "select "@ + columns + " from "@ + from + " "@ + (if condition.len() == 0 {
        ""@
    } else {
        "where"@
    }) + " "@ + condition
}

/// A query over one or more object types, with chosen columns and an
/// optional condition.
pub struct QueryBuilder<'a> {
    from: Vec<&'a str>,
    columns: &'a str,
    condition: &'a str,
}

impl<'a> QueryBuilder<'a> {
    /// The object types queried.
    pub closed spec fn spec_from(&self) -> Seq<Seq<char>> {
        self.from@.map_values(|f: &str| f@)
    }

    /// The columns selected.
    pub closed spec fn spec_columns(&self) -> Seq<char> {
        self.columns@
    }

    /// The condition, empty when there is none.
    pub closed spec fn spec_condition(&self) -> Seq<char> {
        self.condition@
    }

    /// All columns of documents.
    pub fn from_documents() -> (res: Self)
        ensures
            res.spec_from() == seq![CMIS_TYPE_ID_DOCUMENT@],
            res.spec_columns() == "*"@,
            res.spec_condition() == ""@,
    {
        let mut from: Vec<&'a str> = Vec::new();
        from.push(CMIS_TYPE_ID_DOCUMENT);
        let res = QueryBuilder { from, columns: "*", condition: "" };
        assert(res.spec_from() =~= seq![CMIS_TYPE_ID_DOCUMENT@]);
        res
    }

    /// All columns of folders.
    pub fn from_folders() -> (res: Self)
        ensures
            res.spec_from() == seq![CMIS_TYPE_ID_FOLDER@],
            res.spec_columns() == "*"@,
            res.spec_condition() == ""@,
    {
        let mut from: Vec<&'a str> = Vec::new();
        from.push(CMIS_TYPE_ID_FOLDER);
        let res = QueryBuilder { from, columns: "*", condition: "" };
        assert(res.spec_from() =~= seq![CMIS_TYPE_ID_FOLDER@]);
        res
    }

    /// All columns of documents, then of folders.
    pub fn from_objects() -> (res: Self)
        ensures
            res.spec_from() == seq![CMIS_TYPE_ID_DOCUMENT@, CMIS_TYPE_ID_FOLDER@],
            res.spec_columns() == "*"@,
            res.spec_condition() == ""@,
    {
        let mut from: Vec<&'a str> = Vec::new();
        from.push(CMIS_TYPE_ID_DOCUMENT);
        from.push(CMIS_TYPE_ID_FOLDER);
        let res = QueryBuilder { from, columns: "*", condition: "" };
        assert(res.spec_from() =~= seq![CMIS_TYPE_ID_DOCUMENT@, CMIS_TYPE_ID_FOLDER@]);
        res
    }

    /// The same query with the given columns.
    pub fn select(self, columns: &'a str) -> (res: Self)
        ensures
            res.spec_from() == self.spec_from(),
            res.spec_columns() == columns@,
            res.spec_condition() == self.spec_condition(),
    {
        let mut s = self;
        s.columns = columns;
        s
    }

    /// The same query with the given condition.
    pub fn condition(self, condition: &'a str) -> (res: Self)
        ensures
            res.spec_from() == self.spec_from(),
            res.spec_columns() == self.spec_columns(),
            res.spec_condition() == condition@,
    {
        let mut s = self;
        s.condition = condition;
        s
    }

    /// One statement per object type, in the order of the types.
    pub fn query_set(&self) -> (res: QuerySet)
        ensures
            res@.len() == self.spec_from().len(),
            forall|i: int|
                0 <= i < res@.len() ==> #[trigger] res@[i] == select_statement(
                    self.spec_columns(),
                    self.spec_from()[i],
                    self.spec_condition(),
                ),
    {
        let where_statement = if self.condition.is_empty() {
            ""
        } else {
            "where"
        };
        let mut set = QuerySet::new();
        let n = self.from.len();
        for i in 0..n
            invariant
                n == self.from@.len(),
                where_statement@ == (if self.condition@.len() == 0 {
                    ""@
                } else {
                    "where"@
                }),
                set@.len() == i,
                forall|j: int|
                    0 <= j < i ==> #[trigger] set@[j] == select_statement(
                        self.spec_columns(),
                        self.spec_from()[j],
                        self.spec_condition(),
                    ),
        {
            let mut q = String::from_str("select ");
            q.append(self.columns);
            q.append(" from ");
            q.append(self.from[i]);
            q.append(" ");
            q.append(where_statement);
            q.append(" ");
            q.append(self.condition);
            set = set.add(q);
        }
        set
    }
}

} // verus!
