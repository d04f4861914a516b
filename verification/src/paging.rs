//! Reading a result in pages. The reader keeps the pages received so far and
//! the error that stopped the reading; after each page it says whether to ask for the next one.
//! The last page is the first one that holds fewer items than a page may
//! hold, since the server's own "more items" flag is not reliable.
use vstd::prelude::*;

use crate::config::{Config, ConfigConnection};
use crate::error::CmisError;
use crate::table::{has_key, lookup};

verus! {

/// What to do after a page has been received.
pub enum PageStep {
    /// Ask for the page that starts after `skip_count` items, and advance
    /// the progress display by `progress`.
    Next { skip_count: usize, progress: u64 },
    /// The result is complete.
    Done,
    /// Reading failed: no further page is asked for.
    Failed,
}

/// What to do after a page of `count` items that was asked for after
/// `skip_count` items: stop on a page shorter than `paging_size`, else ask
/// for the page after it.
pub open spec fn page_step(skip_count: usize, count: nat, paging_size: usize) -> PageStep {
    if count < paging_size {
        PageStep::Done
    } else {
        PageStep::Next { skip_count: (skip_count + count) as usize, progress: count as u64 }
    }
}

/// The pages of one or more results, and the error that stopped the reading.
pub struct PageReader<T> {
    objects: Vec<Vec<T>>,
    error: Option<CmisError>,
}

/// The items of the pages, page after page.
pub open spec fn flatten_pages<T>(pages: Seq<Seq<T>>) -> Seq<T>
    decreases pages.len(),
{
    if pages.len() == 0 {
        Seq::<T>::empty()
    } else {
        flatten_pages(pages.drop_last()) + pages.last()
    }
}

impl<T> PageReader<T> {
    /// The pages received, in order.
    pub closed spec fn pages(&self) -> Seq<Seq<T>> {
        self.objects@.map_values(|p: Vec<T>| p@)
    }

    /// The error that stopped the reading, if any.
    pub closed spec fn spec_error(&self) -> Option<CmisError> {
        self.error
    }

    /// A reader without pages or error.
    pub fn new() -> (res: Self)
        ensures
            res.pages() == Seq::<Seq<T>>::empty(),
            res.spec_error() is None,
    {
        let res = PageReader { objects: Vec::new(), error: None };
        assert(res.pages() =~= Seq::<Seq<T>>::empty());
        res
    }

    /// Whether an error stopped the reading.
    pub fn has_error(&self) -> (res: bool)
        ensures
            res == self.spec_error() is Some,
    {
        self.error.is_some()
    }

    /// Records that reading failed with `error`.
    pub fn set_error(&mut self, error: CmisError)
        ensures
            final(self).pages() == old(self).pages(),
            final(self).spec_error() == Some(error),
    {
        self.error = Some(error);
    }

    /// Keeps a page that was asked for after `skip_count` items, and says
    /// what to do next: stop when the page holds fewer than `paging_size`
    /// items, else ask for the following page.
    pub fn add_page(&mut self, page: Vec<T>, skip_count: usize, paging_size: usize) -> (res:
        PageStep)
        requires
            skip_count + page@.len() <= usize::MAX,
        ensures
            final(self).pages() == old(self).pages().push(page@),
            final(self).spec_error() == old(self).spec_error(),
            res == page_step(skip_count, page@.len(), paging_size),
    {
        let count = page.len();
        let ghost before = self.pages();
        self.objects.push(page);
        assert(self.pages() =~= before.push(page@));
        if count < paging_size {
            PageStep::Done
        } else {
            PageStep::Next { skip_count: skip_count + count, progress: count as u64 }
        }
    }

    /// The connection with which a result is read into this reader: the
    /// configuration's connection named `connection_name`. Nothing is read,
    /// and no error is recorded, when the configuration lacks it or when an
    /// error has already stopped the reader.
    pub fn reading_connection<'a>(&self, config: &'a Config, connection_name: &str) -> (res:
        Option<&'a ConfigConnection>)
        ensures
            match res {
                Some(c) => {
                    &&& self.spec_error() is None
                    &&& lookup(config.spec_connections(), connection_name@) == Some(*c)
                    &&& c.name@ == connection_name@
                },
                None => self.spec_error() is Some || !has_key(
                    config.spec_connections(),
                    connection_name@,
                ),
            },
    {
        if self.error.is_some() {
            None
        } else {
            config.get_connection(connection_name)
        }
    }

    /// Takes the answer to the request for the page after `skip_count` items
    /// and says what to do next. A page is kept and judged as `add_page` does;
    /// an error is recorded and ends the reading. A reader that already holds
    /// an error asks for nothing more, and drops the answer.
    pub fn read_response(
        &mut self,
        response: Result<Vec<T>, CmisError>,
        skip_count: usize,
        paging_size: usize,
    ) -> (res: PageStep)
        requires
            old(self).spec_error() is None ==> (response matches Ok(page) ==> skip_count
                + page@.len() <= usize::MAX),
        ensures
            old(self).spec_error() is Some ==> {
                &&& final(self).pages() == old(self).pages()
                &&& final(self).spec_error() == old(self).spec_error()
                &&& res is Failed
            },
            old(self).spec_error() is None ==> match response {
                Ok(page) => {
                    &&& final(self).pages() == old(self).pages().push(page@)
                    &&& final(self).spec_error() is None
                    &&& res == page_step(skip_count, page@.len(), paging_size)
                },
                Err(e) => {
                    &&& final(self).pages() == old(self).pages()
                    &&& final(self).spec_error() == Some(e)
                    &&& res is Failed
                },
            },
    {
        if self.error.is_some() {
            return PageStep::Failed;
        }
        match response {
            Ok(page) => self.add_page(page, skip_count, paging_size),
            Err(e) => {
                self.set_error(e);
                PageStep::Failed
            },
        }
    }

    /// The items of all pages, each passed through `conversion`, or the
    /// error that stopped the reading.
    pub fn collect<U, F: Fn(T) -> U>(self, conversion: F) -> (res: Result<Vec<U>, CmisError>)
        requires
            forall|t: T| #[trigger] conversion.requires((t,)),
        ensures
            match self.spec_error() {
                Some(e) => res == Err::<Vec<U>, CmisError>(e),
                None => res matches Ok(items) && items@.len() == flatten_pages(self.pages()).len()
                    && forall|i: int|
                    0 <= i < items@.len() ==> conversion.ensures(
                        (flatten_pages(self.pages())[i],),
                        #[trigger] items@[i],
                    ),
            },
    {
        let ghost pages = self.pages();
        match self.error {
            Some(err) => Err(err),
            None => {
                let mut items: Vec<U> = Vec::new();
                let mut objects = self.objects;
                let mut k: usize = 0;
                let count = objects.len();
                let mut rest: Vec<Vec<T>> = Vec::new();
                // Take the pages out in reverse, so that each can be moved out.
                while objects.len() > 0
                    invariant
                        objects@.len() + rest@.len() == count,
                        count == pages.len(),
                        forall|j: int|
                            0 <= j < objects@.len() ==> (#[trigger] objects@[j])@ == pages[j],
                        forall|j: int|
                            0 <= j < rest@.len() ==> (#[trigger] rest@[j])@ == pages[count - 1
                                - j],
                    decreases objects@.len(),
                {
                    let p = objects.pop().unwrap();
                    rest.push(p);
                }
                while rest.len() > 0
                    invariant
                        k + rest@.len() == count,
                        count == pages.len(),
                        forall|j: int|
                            0 <= j < rest@.len() ==> (#[trigger] rest@[j])@ == pages[count - 1
                                - j],
                        forall|t: T| #[trigger] conversion.requires((t,)),
                        items@.len() == flatten_pages(pages.take(k as int)).len(),
                        forall|i: int|
                            0 <= i < items@.len() ==> conversion.ensures(
                                (flatten_pages(pages.take(k as int))[i],),
                                #[trigger] items@[i],
                            ),
                    decreases rest@.len(),
                {
                    let page = rest.pop().unwrap();
                    let ghost done = flatten_pages(pages.take(k as int));
                    assert(page@ == pages[k as int]);
                    assert(pages.take(k + 1).drop_last() == pages.take(k as int));
                    assert(flatten_pages(pages.take(k + 1)) == done + page@);
                    let mut page = page;
                    let mut inner: Vec<T> = Vec::new();
                    let plen = page.len();
                    while page.len() > 0
                        invariant
                            page@.len() + inner@.len() == plen,
                            forall|j: int|
                                0 <= j < inner@.len() ==> #[trigger] inner@[j] == pages[k as int][plen
                                    - 1 - j],
                            forall|j: int|
                                0 <= j < page@.len() ==> #[trigger] page@[j] == pages[k as int][j],
                            plen == pages[k as int].len(),
                        decreases page@.len(),
                    {
                        let t = page.pop().unwrap();
                        inner.push(t);
                    }
                    let mut m: usize = 0;
                    while inner.len() > 0
                        invariant
                            m + inner@.len() == plen,
                            plen == pages[k as int].len(),
                            forall|j: int|
                                0 <= j < inner@.len() ==> #[trigger] inner@[j] == pages[k as int][plen
                                    - 1 - j],
                            forall|t: T| #[trigger] conversion.requires((t,)),
                            items@.len() == done.len() + m,
                            forall|i: int|
                                0 <= i < items@.len() ==> conversion.ensures(
                                    ((done + pages[k as int])[i],),
                                    #[trigger] items@[i],
                                ),
                        decreases inner@.len(),
                    {
                        let t = inner.pop().unwrap();
                        let ghost tg = t;
                        assert(tg == pages[k as int][m as int]);
                        let u = conversion(t);
                        items.push(u);
                        assert((done + pages[k as int])[done.len() + m] == pages[k as int][m as int]);
                        m = m + 1;
                    }
                    k = k + 1;
                }
                proof {
                    assert(pages.take(count as int) == pages);
                }
                Ok(items)
            },
        }
    }
}

/// The number of items in the first `k` pages: the skip count with which
/// page `k` is asked for.
pub open spec fn skip_before<T>(pages: Seq<Seq<T>>, k: int) -> nat {
    flatten_pages(pages.take(k)).len()
}

/// Adding a page to the pages read appends its items.
pub proof fn lemma_pages_accumulate<T>(pages: Seq<Seq<T>>, page: Seq<T>)
    ensures
        flatten_pages(pages.push(page)) == flatten_pages(pages) + page,
{
    assert(pages.push(page).drop_last() == pages);
}

/// The items of two runs of pages read one after the other are the items of
/// the first run followed by those of the second: reading several queries
/// into one reader gives their results in the order of the queries.
pub proof fn lemma_flatten_concat<T>(first: Seq<Seq<T>>, second: Seq<Seq<T>>)
    ensures
        flatten_pages(first + second) == flatten_pages(first) + flatten_pages(second),
    decreases second.len(),
{
    if second.len() == 0 {
        assert(first + second == first);
        assert(flatten_pages(first) + flatten_pages(second) == flatten_pages(first));
    } else {
        lemma_flatten_concat(first, second.drop_last());
        assert((first + second).drop_last() == first + second.drop_last());
        assert((first + second).last() == second.last());
    }
}

/// The whole reading of one result: when the server answers with pages that
/// hold `paging_size` items each except the last, which holds fewer, page `k`
/// is asked for after the items of the pages before it, every page but the
/// last leads to asking for the next one, the last one ends the reading, and
/// the items read are those of all pages in order.
pub proof fn lemma_paging_run<T>(pages: Seq<Seq<T>>, paging_size: usize, k: int)
    requires
        pages.len() > 0,
        forall|j: int| 0 <= j < pages.len() - 1 ==> (#[trigger] pages[j]).len() >= paging_size,
        pages.last().len() < paging_size,
        flatten_pages(pages).len() <= usize::MAX,
        0 <= k < pages.len(),
    ensures
        skip_before(pages, 0) == 0,
        skip_before(pages, k + 1) == skip_before(pages, k) + pages[k].len(),
        skip_before(pages, k + 1) <= usize::MAX,
        k < pages.len() - 1 ==> page_step(skip_before(pages, k) as usize, pages[k].len(), paging_size)
            == (PageStep::Next {
            skip_count: skip_before(pages, k + 1) as usize,
            progress: pages[k].len() as u64,
        }),
        k == pages.len() - 1 ==> page_step(
            skip_before(pages, k) as usize,
            pages[k].len(),
            paging_size,
        ) is Done,
        flatten_pages(pages.take(pages.len() as int)) == flatten_pages(pages),
{
    assert(pages.take(0) == Seq::<Seq<T>>::empty());
    assert(pages.take(k + 1) == pages.take(k).push(pages[k]));
    lemma_pages_accumulate(pages.take(k), pages[k]);
    assert(pages.take(pages.len() as int) == pages);
    lemma_flatten_concat(pages.take(k + 1), pages.skip(k + 1));
    assert(pages.take(k + 1) + pages.skip(k + 1) == pages);
}

/// A whole reading of one result into a reader that holds the pages `start`
/// and no error. The server answers the request for page `k`, which is asked
/// for after `skip_before(run, k)` items, with `run[k]`; every page but the
/// last holds at least `paging_size` items and the last holds fewer. Then each
/// answer can be taken by `read_response`; the answer to every page but the
/// last leads to asking for the next page after the items read so far, and the
/// last ends the reading, so that exactly `run.len()` pages are asked for.
/// After the answer to page `k` the reader holds `start` followed by the
/// first `k + 1` pages of the run; at the end it holds `start` followed by
/// the run, and its items are those of `start` followed by those of the run.
pub proof fn lemma_paging_whole_run<T>(start: Seq<Seq<T>>, run: Seq<Seq<T>>, paging_size: usize)
    requires
        run.len() > 0,
        forall|j: int| 0 <= j < run.len() - 1 ==> (#[trigger] run[j]).len() >= paging_size,
        run.last().len() < paging_size,
        flatten_pages(run).len() <= usize::MAX,
    ensures
        skip_before(run, 0) == 0,
        forall|k: int|
            0 <= k < run.len() ==> skip_before(run, k) + (#[trigger] run[k]).len() <= usize::MAX,
        forall|k: int|
            0 <= k < run.len() - 1 ==> page_step(
                skip_before(run, k) as usize,
                (#[trigger] run[k]).len(),
                paging_size,
            ) == (PageStep::Next {
                skip_count: skip_before(run, k + 1) as usize,
                progress: run[k].len() as u64,
            }),
        page_step(skip_before(run, run.len() - 1) as usize, run.last().len(), paging_size) is Done,
        forall|k: int|
            0 <= k < run.len() ==> (start + run.take(k)).push(#[trigger] run[k]) == start
                + run.take(k + 1),
        start + run.take(run.len() as int) == start + run,
        flatten_pages(start + run) == flatten_pages(start) + flatten_pages(run),
{
    assert forall|k: int| 0 <= k < run.len() implies skip_before(run, k) + (#[trigger] run[k]).len()
        <= usize::MAX && (k < run.len() - 1 ==> page_step(
        skip_before(run, k) as usize,
        run[k].len(),
        paging_size,
    ) == (PageStep::Next {
        skip_count: skip_before(run, k + 1) as usize,
        progress: run[k].len() as u64,
    })) && (start + run.take(k)).push(run[k]) == start + run.take(k + 1) by {
        lemma_paging_run(run, paging_size, k);
        assert((start + run.take(k)).push(run[k]) =~= start + run.take(k + 1));
    }
    lemma_paging_run(run, paging_size, run.len() - 1);
    assert(run.take(run.len() as int) =~= run);
    lemma_flatten_concat(start, run);
}

/// The pages of several runs read one after the other into one reader.
pub open spec fn concat_runs<T>(runs: Seq<Seq<Seq<T>>>) -> Seq<Seq<T>>
    decreases runs.len(),
{
    if runs.len() == 0 {
        Seq::<Seq<T>>::empty()
    } else {
        concat_runs(runs.drop_last()) + runs.last()
    }
}

/// Reading the results of any number of queries one after the other into one
/// reader: the reader holds the pages of the queries before query `i` when
/// query `i` is read, and reading it appends its pages; the items read are
/// the items of each query's own pages, query after query, in the order of
/// the queries, duplicates kept.
pub proof fn lemma_runs_in_order<T>(runs: Seq<Seq<Seq<T>>>)
    ensures
        concat_runs(runs.take(0)) == Seq::<Seq<T>>::empty(),
        forall|i: int|
            0 <= i < runs.len() ==> concat_runs(runs.take(i)) + #[trigger] runs[i] == concat_runs(
                runs.take(i + 1),
            ),
        concat_runs(runs.take(runs.len() as int)) == concat_runs(runs),
        flatten_pages(concat_runs(runs)) == flatten_pages(
            runs.map_values(|run: Seq<Seq<T>>| flatten_pages(run)),
        ),
    decreases runs.len(),
{
    let items = runs.map_values(|run: Seq<Seq<T>>| flatten_pages(run));
    assert(runs.take(0) =~= Seq::<Seq<Seq<T>>>::empty());
    assert forall|i: int| 0 <= i < runs.len() implies concat_runs(runs.take(i)) + #[trigger] runs[i]
        == concat_runs(runs.take(i + 1)) by {
        assert(runs.take(i + 1).drop_last() =~= runs.take(i));
    }
    assert(runs.take(runs.len() as int) =~= runs);
    if runs.len() == 0 {
        assert(items =~= Seq::<Seq<T>>::empty());
    } else {
        lemma_runs_in_order(runs.drop_last());
        lemma_flatten_concat(concat_runs(runs.drop_last()), runs.last());
        assert(items.drop_last() =~= runs.drop_last().map_values(
            |run: Seq<Seq<T>>| flatten_pages(run),
        ));
        assert(items.last() == flatten_pages(runs.last()));
    }
}

} // verus!
