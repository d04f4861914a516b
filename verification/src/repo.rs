//! Choosing among the repositories that a connection offers.
use vstd::prelude::*;

use crate::config::ConfigConnection;
use crate::def::Repository;
use crate::error::CmisError;
use crate::text::{eq_ignore_ascii_case, sort_strings, sorted, str_eq_ignore_ascii_case, views};

verus! {

/// Whether position `i` holds the first repository whose name equals `name`
/// when ASCII case is ignored.
pub open spec fn is_first_repository(repos: Seq<Repository>, name: Seq<char>, i: int) -> bool {
    &&& 0 <= i < repos.len()
    &&& eq_ignore_ascii_case(repos[i].repository_name@, name)
    &&& forall|j: int|
        0 <= j < i ==> !eq_ignore_ascii_case((#[trigger] repos[j]).repository_name@, name)
}

/// Whether some repository is named `name`, ASCII case ignored.
pub open spec fn has_repository(repos: Seq<Repository>, name: Seq<char>) -> bool {
    exists|i: int|
        0 <= i < repos.len() && eq_ignore_ascii_case((#[trigger] repos[i]).repository_name@, name)
}

/// The first repository named `name`, ASCII case ignored.
pub fn find_repository<'a>(repositories: &'a Vec<Repository>, name: &str) -> (res: Option<
    &'a Repository,
>)
    ensures
        match res {
            Some(r) => exists|i: int| is_first_repository(repositories@, name@, i) && *r == repositories@[i],
            None => !has_repository(repositories@, name@),
        },
{
    let n = repositories.len();
    for i in 0..n
        invariant
            n == repositories@.len(),
            forall|j: int|
                0 <= j < i ==> !eq_ignore_ascii_case(
                    (#[trigger] repositories@[j]).repository_name@,
                    name@,
                ),
    {
        if str_eq_ignore_ascii_case(repositories[i].repository_name.as_str(), name) {
            assert(is_first_repository(repositories@, name@, i as int));
            return Some(&repositories[i]);
        }
    }
    None
}

/// The names of the repositories, in the order given.
pub open spec fn repository_names_of(repos: Seq<Repository>) -> Seq<Seq<char>> {
    repos.map_values(|r: Repository| r.repository_name@)
}

/// The names of the repositories, sorted.
pub fn repository_names(repositories: &Vec<Repository>) -> (res: Vec<String>)
    ensures
        sorted(views(res@)),
        views(res@).to_multiset() == repository_names_of(repositories@).to_multiset(),
{
    let mut names: Vec<String> = Vec::new();
    let n = repositories.len();
    for i in 0..n
        invariant
            n == repositories@.len(),
            views(names@) == repository_names_of(repositories@).take(i as int),
    {
        let ghost before = views(names@);
        names.push(repositories[i].repository_name.clone());
        assert(views(names@) == before.push(repositories@[i as int].repository_name@));
        assert(repository_names_of(repositories@).take(i + 1) == repository_names_of(
            repositories@,
        ).take(i as int).push(repositories@[i as int].repository_name@));
    }
    assert(repository_names_of(repositories@).take(n as int) == repository_names_of(
        repositories@,
    ));
    sort_strings(names)
}

/// The repository to switch to: the one named `requested`, or else the
/// connection's initial repository, ASCII case ignored; an error names the
/// repository and the connection when there is none.
pub fn switch_target<'a>(
    repositories: &'a Vec<Repository>,
    requested: Option<&str>,
    connection: &ConfigConnection,
    connection_name: &str,
) -> (res: Result<&'a Repository, CmisError>)
    ensures
        ({
            let wanted = match requested {
                Some(r) => r@,
                None => connection.initial_repo@,
            };
            match res {
                Ok(r) => exists|i: int|
                    is_first_repository(repositories@, wanted, i) && *r == repositories@[i],
                Err(e) => !has_repository(repositories@, wanted) && (e matches CmisError::RepositoryNotFound { repository, connection: c }
                    && repository@ == wanted && c@ == connection_name@),
            }
        }),
{
    let wanted = match requested {
        Some(name) => name,
        None => connection.initial_repo.as_str(),
    };
    match find_repository(repositories, wanted) {
        Some(info) => Ok(info),
        None => Err(
            CmisError::RepositoryNotFound {
                repository: String::from_str(wanted),
                connection: String::from_str(connection_name),
            },
        ),
    }
}

} // verus!
