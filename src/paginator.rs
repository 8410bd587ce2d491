use vstd::arithmetic::div_mod::{lemma_fundamental_div_mod, lemma_mod_pos_bound};
use vstd::prelude::*;

use crate::model::PlaylistEntry;

verus! {

/// A request for one page of entries, starting at `offset`, of at most `limit` entries.
#[derive(PartialEq, Eq, Structural, Clone, Copy, Debug)]
pub struct PageRequest {
    pub offset: usize,
    pub limit: usize,
}

/// What the paginator asks for after a page has come in.
#[derive(PartialEq, Eq, Structural, Clone, Copy, Debug)]
pub enum PageStep {
    /// Fetch this page next.
    Fetch(PageRequest),
    /// The source is exhausted: an empty page came in.
    Done,
}

/// A page size of zero, refused when a paginator is made.
#[derive(PartialEq, Eq, Structural, Clone, Copy, Debug)]
pub struct InvalidPageSize;

/// A page that holds more entries than were asked for. The offset of the
/// next request would no longer be trustworthy, so pagination stops there.
#[derive(PartialEq, Eq, Structural, Clone, Copy, Debug)]
pub struct OversizedPage;

/// Drains a paginated source: it says which page to fetch next, collects
/// the pages in order, and ends at the first empty page.
pub struct Paginator {
    page_size: usize,
    entries: Vec<PlaylistEntry>,
    finished: bool,
}

impl Paginator {
    /// The number of entries asked for in each request.
    pub closed spec fn page_size(&self) -> nat {
        self.page_size as nat
    }

    /// The entries received so far, pages in the order they came.
    pub closed spec fn collected(&self) -> Seq<PlaylistEntry> {
        self.entries@
    }

    /// Whether an empty page has come in.
    pub closed spec fn is_finished(&self) -> bool {
        self.finished
    }

    /// A paginator that has fetched nothing yet; a page size of zero is refused.
    pub fn new(page_size: usize) -> (r: Result<Paginator, InvalidPageSize>)
        ensures
            page_size == 0 <==> r is Err,
            r matches Ok(p) ==> p.page_size() == page_size && p.collected() == Seq::<PlaylistEntry>::empty()
                && !p.is_finished(),
    {
        if page_size == 0 {
            return Err(InvalidPageSize);
        }
        Ok(Paginator { page_size, entries: Vec::new(), finished: false })
    }

    /// The number of entries received so far.
    pub fn collected_len(&self) -> (r: usize)
        ensures
            r == self.collected().len(),
    {
        self.entries.len()
    }

    /// The page to fetch next: it starts where the entries received so far end.
    pub fn next_request(&self) -> (r: PageRequest)
        ensures
            r.offset == self.collected().len(),
            r.limit == self.page_size(),
    {
        PageRequest { offset: self.entries.len(), limit: self.page_size }
    }

    /// Takes in the page that the last request returned. An empty page ends
    /// pagination; any other page is appended, and the next request starts
    /// after it. A page larger than the page size is refused and changes nothing.
    pub fn receive_page(&mut self, page: Vec<PlaylistEntry>) -> (r: Result<PageStep, OversizedPage>)
        requires
            !old(self).is_finished(),
        ensures
            final(self).page_size() == old(self).page_size(),
            page@.len() > old(self).page_size() ==> r == Err::<PageStep, OversizedPage>(OversizedPage)
                && final(self).collected() == old(self).collected() && !final(self).is_finished(),
            page@.len() == 0 ==> r == Ok::<PageStep, OversizedPage>(PageStep::Done)
                && final(self).collected() == old(self).collected() && final(self).is_finished(),
            0 < page@.len() <= old(self).page_size() ==> final(self).collected() == old(self).collected()
                + page@ && !final(self).is_finished() && r == Ok::<PageStep, OversizedPage>(
                PageStep::Fetch(
                    (PageRequest {
                        offset: final(self).collected().len() as usize,
                        limit: old(self).page_size() as usize,
                    }),
                ),
            ),
    {
        if page.len() > self.page_size {
            return Err(OversizedPage);
        }
        if page.len() == 0 {
            self.finished = true;
            return Ok(PageStep::Done);
        }
        let mut page = page;
        self.entries.append(&mut page);
        Ok(PageStep::Fetch(PageRequest { offset: self.entries.len(), limit: self.page_size }))
    }

    /// Hands out everything collected, in a uniformly random order, so that
    /// a prefix of the result does not follow the playlist's own order.
    pub fn into_shuffled_entries(self) -> (r: Vec<PlaylistEntry>)
        ensures
            r@.to_multiset() == self.collected().to_multiset(),
            r@.len() == self.collected().len(),
    {
        let mut entries = self.entries;
        shuffle_in_place(&mut entries);
        proof {
            vstd::seq_lib::to_multiset_len(entries@);
            vstd::seq_lib::to_multiset_len(self.entries@);
        }
        entries
    }
}

/// Relies on fastrand::shuffle, which reorders the slice by swaps: the
/// result is a permutation of the input (which one is random).
#[verifier::external_body]
fn shuffle_in_place<T>(v: &mut Vec<T>)
    ensures
        final(v)@.to_multiset() == old(v)@.to_multiset(),
{
    fastrand::shuffle(v.as_mut_slice());
}

/// The page that a source holding `source` returns for a request at
/// `offset` of at most `limit` entries: empty past the end.
pub open spec fn source_page(source: Seq<PlaylistEntry>, offset: nat, limit: nat) -> Seq<PlaylistEntry> {
    if offset >= source.len() {
        Seq::empty()
    } else if offset + limit >= source.len() {
        source.subrange(offset as int, source.len() as int)
    } else {
        source.subrange(offset as int, (offset + limit) as int)
    }
}

/// What a paginator has collected from `source` after `fetches` requests,
/// each starting where the entries received before it end.
pub open spec fn drained(source: Seq<PlaylistEntry>, limit: nat, fetches: nat) -> Seq<PlaylistEntry>
    decreases fetches,
{
    if fetches == 0 {
        Seq::empty()
    } else {
        let prev = drained(source, limit, (fetches - 1) as nat);
        prev + source_page(source, prev.len(), limit)
    }
}

/// The number of non-empty pages of `n` entries at `page_size` per page: `ceil(n / page_size)`.
pub open spec fn pages_needed(n: nat, page_size: nat) -> nat
    recommends
        page_size > 0,
{
    ((n + page_size - 1) / page_size as int) as nat
}

proof fn lemma_drained_prefix(source: Seq<PlaylistEntry>, limit: nat, fetches: nat)
    requires
        limit > 0,
    ensures
        fetches * limit < source.len() ==> drained(source, limit, fetches) == source.take((fetches * limit) as int),
        fetches * limit >= source.len() ==> drained(source, limit, fetches) == source,
    decreases fetches,
{
    if fetches > 0 {
        let k = (fetches - 1) as nat;
        lemma_drained_prefix(source, limit, k);
        assert(fetches * limit == k * limit + limit) by (nonlinear_arith)
            requires
                fetches == k + 1,
        ;
        if k * limit < source.len() {
            assert(drained(source, limit, fetches) =~= source.take(
                if fetches * limit < source.len() {
                    (fetches * limit) as int
                } else {
                    source.len() as int
                },
            ));
        }
    }
}

/// Pagination completeness: a source of `n` entries, read `page_size` at a
/// time, yields a non-empty page on each of the first `ceil(n / page_size)`
/// requests and an empty one on the next, and by then every entry has been
/// collected, in the source's order. So there are `ceil(n / page_size) + 1`
/// requests, whatever `n mod page_size` is.
pub proof fn lemma_pagination_complete(source: Seq<PlaylistEntry>, page_size: nat)
    requires
        page_size > 0,
    ensures
        drained(source, page_size, pages_needed(source.len(), page_size)) == source,
        source_page(source, source.len(), page_size).len() == 0,
        forall|k: nat|
            k < pages_needed(source.len(), page_size) ==> 0 < (#[trigger] source_page(
                source,
                drained(source, page_size, k).len(),
                page_size,
            )).len() <= page_size,
{
    let n = source.len();
    let c = pages_needed(n, page_size);
    let p = page_size as int;
    let x = n + p - 1;
    lemma_fundamental_div_mod(x, p);
    lemma_mod_pos_bound(x, p);
    assert(c * p >= n && (c - 1) * p < n) by (nonlinear_arith)
        requires
            x == p * (x / p) + x % p,
            c == x / p,
            0 <= x % p < p,
            x == n + p - 1,
    ;
    lemma_drained_prefix(source, page_size, c);
    assert forall|k: nat| k < c implies 0 < (#[trigger] source_page(
        source,
        drained(source, page_size, k).len(),
        page_size,
    )).len() <= page_size by {
        assert(k * p <= (c - 1) * p) by (nonlinear_arith)
            requires
                (k as int) < (c as int),
                p > 0,
        ;
        lemma_drained_prefix(source, page_size, k);
    }
}

} // verus!
