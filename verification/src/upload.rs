//! The reconciliation engine: it brings a remote store into agreement with
//! the local publish directory by uploading what the store lacks and
//! deleting what the directory lacks.
//!
//! The engine makes no call itself. A [`Reconciliation`] names the next
//! operation and takes its result back; the caller lists, uploads and
//! deletes.

use vstd::prelude::*;
use vstd::string::*;

verus! {

/// The remote stores that a publish can be mirrored to.
#[derive(Clone, Copy, Debug, PartialEq, Eq, Structural)]
pub enum Backend {
    Webdav,
    S3,
}

/// The names in a listing.
pub open spec fn names(list: Seq<String>) -> Seq<Seq<char>> {
    list.map_values(|name: String| name@)
}

/// The members of `list` that `other` does not hold, in the order of
/// `list`. Names are compared letter for letter; nothing else of a file is
/// looked at.
pub open spec fn without(list: Seq<Seq<char>>, other: Seq<Seq<char>>) -> Seq<Seq<char>>
    decreases list.len(),
{
    if list.len() == 0 {
        Seq::empty()
    } else if other.contains(list.last()) {
        without(list.drop_last(), other)
    } else {
        without(list.drop_last(), other).push(list.last())
    }
}

/// The stores to reconcile, in the order in which they are taken: WebDAV
/// first, then S3, each only where it is enabled.
pub open spec fn backends(webdav_enabled: bool, s3_enabled: bool) -> Seq<Backend> {
    (if webdav_enabled { seq![Backend::Webdav] } else { Seq::empty() })
        + (if s3_enabled { seq![Backend::S3] } else { Seq::empty() })
}

pub fn enabled_backends(webdav_enabled: bool, s3_enabled: bool) -> (list: Vec<Backend>)
    ensures
        list@ == backends(webdav_enabled, s3_enabled),
{
    let mut list: Vec<Backend> = Vec::new();
    if webdav_enabled {
        list.push(Backend::Webdav);
    }
    if s3_enabled {
        list.push(Backend::S3);
    }
    assert(list@ =~= backends(webdav_enabled, s3_enabled));
    list
}

/// The status of a publish whose stores were reconciled with these results:
/// 0 where every one went through, 1 where any failed.
pub fn exit_code(results: &Vec<Result<(), String>>) -> (code: u8)
    ensures
        code == if exists|i: int| 0 <= i < results.len() && results[i] is Err {
            1int
        } else {
            0int
        },
{
    let mut i: usize = 0;
    while i < results.len()
        invariant
            i <= results.len(),
            forall|k: int| 0 <= k < i ==> !(results[k] is Err),
        decreases results.len() - i,
    {
        if results[i].is_err() {
            return 1;
        }
        i += 1;
    }
    0
}

/// Whether `list` holds `name`.
pub fn holds(list: &Vec<String>, name: &String) -> (found: bool)
    ensures
        found == names(list@).contains(name@),
{
    let mut i: usize = 0;
    while i < list.len()
        invariant
            i <= list.len(),
            forall|k: int| 0 <= k < i ==> names(list@)[k] != name@,
        decreases list.len() - i,
    {
        if list[i] == *name {
            assert(names(list@)[i as int] == name@);
            return true;
        }
        i += 1;
    }
    false
}

/// The members of `list` that `other` does not hold.
pub fn difference(list: &Vec<String>, other: &Vec<String>) -> (rest: Vec<String>)
    ensures
        names(rest@) == without(names(list@), names(other@)),
{
    let mut rest: Vec<String> = Vec::new();
    let mut i: usize = 0;
    while i < list.len()
        invariant
            i <= list.len(),
            names(rest@) == without(names(list@).subrange(0, i as int), names(other@)),
        decreases list.len() - i,
    {
        let ghost held = rest@;
        assert(names(list@).subrange(0, i + 1).drop_last() =~= names(list@).subrange(0, i as int));
        assert(names(list@).subrange(0, i + 1).last() == list[i as int]@);
        if !holds(other, &list[i]) {
            rest.push(list[i].clone());
            assert(names(rest@) =~= names(held).push(list[i as int]@));
        }
        i += 1;
    }
    assert(names(list@).subrange(0, i as int) =~= names(list@));
    rest
}

/// What a reconciliation has to do.
#[derive(Debug, PartialEq, Eq)]
pub struct Plan {
    /// The files that the directory holds and the store lacks.
    pub need_upload: Vec<String>,
    /// The objects that the store holds and the directory lacks.
    pub need_delete: Vec<String>,
}

/// One call on the remote store.
#[derive(Debug, PartialEq, Eq)]
pub enum Operation {
    Upload(String),
    Delete(String),
}

pub enum OperationView {
    Upload(Seq<char>),
    Delete(Seq<char>),
}

impl View for Operation {
    type V = OperationView;

    open spec fn view(&self) -> OperationView {
        match self {
            Operation::Upload(name) => OperationView::Upload(name@),
            Operation::Delete(name) => OperationView::Delete(name@),
        }
    }
}

/// The operations for these uploads and deletions, in the order in which
/// they are made: every upload, then every deletion.
pub open spec fn operations_of(uploads: Seq<Seq<char>>, deletions: Seq<Seq<char>>) -> Seq<
    OperationView,
> {
    uploads.map_values(|name: Seq<char>| OperationView::Upload(name)) + deletions.map_values(
        |name: Seq<char>| OperationView::Delete(name),
    )
}

/// The operations that bring a store with the listing `remote` into
/// agreement with a directory that holds `local`.
pub open spec fn planned(local: Seq<Seq<char>>, remote: Seq<Seq<char>>) -> Seq<OperationView> {
    operations_of(without(local, remote), without(remote, local))
}

impl Plan {
    pub open spec fn operations(self) -> Seq<OperationView> {
        operations_of(names(self.need_upload@), names(self.need_delete@))
    }
}

/// Compares the two listings.
pub fn diff(local: &Vec<String>, remote: &Vec<String>) -> (plan: Plan)
    ensures
        names(plan.need_upload@) == without(names(local@), names(remote@)),
        names(plan.need_delete@) == without(names(remote@), names(local@)),
{
    Plan { need_upload: difference(local, remote), need_delete: difference(remote, local) }
}

/// The operation that is due when `done` operations went through and
/// `failure` holds the first error, if there was one.
pub open spec fn due(operations: Seq<OperationView>, done: nat, failure: Option<Seq<char>>) -> Option<
    OperationView,
> {
    if failure is None && done < operations.len() {
        Some(operations[done as int])
    } else {
        None
    }
}

/// How a reconciliation stands: `None` while an operation is due, then the
/// first error, or success where there was none.
pub open spec fn standing(
    operations: Seq<OperationView>,
    done: nat,
    failure: Option<Seq<char>>,
) -> Option<Result<(), Seq<char>>> {
    match failure {
        Some(reason) => Some(Err(reason)),
        None => if done < operations.len() {
            None
        } else {
            Some(Ok(()))
        },
    }
}

/// The count of operations that went through and the first error, after the
/// operation that was due came to `error` (`None` for success). Where no
/// operation was due, both stay.
pub open spec fn recorded(
    operations: Seq<OperationView>,
    done: nat,
    failure: Option<Seq<char>>,
    error: Option<Seq<char>>,
) -> (nat, Option<Seq<char>>) {
    if due(operations, done, failure) is None {
        (done, failure)
    } else if error is None {
        (done + 1, None)
    } else {
        (done, error)
    }
}

/// The error in a result, if it is one.
pub open spec fn error_of(result: Result<(), String>) -> Option<Seq<char>> {
    match result {
        Ok(_) => None,
        Err(reason) => Some(reason@),
    }
}

/// The reconciliation of one store in progress.
pub struct Reconciliation {
    plan: Plan,
    uploaded: usize,
    deleted: usize,
    failure: Option<String>,
}

impl Reconciliation {
    /// The operations that the reconciliation is made of.
    pub closed spec fn operations(&self) -> Seq<OperationView> {
        self.plan.operations()
    }

    /// How many of them went through.
    pub closed spec fn completed(&self) -> nat {
        (self.uploaded + self.deleted) as nat
    }

    /// The error that stopped the reconciliation, if one did.
    pub closed spec fn failure(&self) -> Option<Seq<char>> {
        match self.failure {
            Some(reason) => Some(reason@),
            None => None,
        }
    }

    /// The counters are within the plan, and no deletion is counted before
    /// the uploads are through.
    #[verifier::type_invariant]
    spec fn wf(&self) -> bool {
        &&& self.uploaded <= self.plan.need_upload.len()
        &&& self.deleted <= self.plan.need_delete.len()
        &&& self.deleted > 0 ==> self.uploaded == self.plan.need_upload.len()
    }

    /// Begins the reconciliation of a store, with the names in the publish
    /// directory and the store's listing. Where the listing failed, the
    /// reconciliation has failed with that error and nothing is to be done.
    pub fn start(local: &Vec<String>, remote: Result<Vec<String>, String>) -> (run: Reconciliation)
        ensures
            run.completed() == 0,
            match remote {
                Ok(listing) => run.failure() is None && run.operations() == planned(
                    names(local@),
                    names(listing@),
                ),
                Err(reason) => run.failure() == Some(reason@) && run.operations()
                    == Seq::<OperationView>::empty(),
            },
    {
        match remote {
            Ok(listing) => {
                let plan = diff(local, &listing);
                Reconciliation { plan, uploaded: 0, deleted: 0, failure: None }
            },
            Err(reason) => {
                let plan = Plan { need_upload: Vec::new(), need_delete: Vec::new() };
                assert(plan.operations() =~= Seq::<OperationView>::empty());
                Reconciliation { plan, uploaded: 0, deleted: 0, failure: Some(reason) }
            },
        }
    }

    /// The operation to make now, or `None` when the reconciliation is over.
    pub fn next(&self) -> (operation: Option<Operation>)
        ensures
            match due(self.operations(), self.completed(), self.failure()) {
                Some(expected) => operation is Some && operation->0@ == expected,
                None => operation is None,
            },
    {
        proof {
            use_type_invariant(self);
        }
        if self.failure.is_some() {
            None
        } else if self.uploaded < self.plan.need_upload.len() {
            Some(Operation::Upload(self.plan.need_upload[self.uploaded].clone()))
        } else if self.deleted < self.plan.need_delete.len() {
            Some(Operation::Delete(self.plan.need_delete[self.deleted].clone()))
        } else {
            None
        }
    }

    /// Takes the result of the operation that was due. An error stops the
    /// reconciliation: what went through stays, and nothing more is done.
    /// Where no operation was due, nothing changes.
    pub fn record(&mut self, result: Result<(), String>)
        ensures
            final(self).operations() == old(self).operations(),
            (final(self).completed(), final(self).failure()) == recorded(
                old(self).operations(),
                old(self).completed(),
                old(self).failure(),
                error_of(result),
            ),
    {
        proof {
            use_type_invariant(&*self);
        }
        if self.failure.is_some() {
            return ;
        }
        let uploading = self.uploaded < self.plan.need_upload.len();
        let deleting = !uploading && self.deleted < self.plan.need_delete.len();
        match result {
            Ok(_) => {
                if uploading {
                    self.uploaded = self.uploaded + 1;
                } else if deleting {
                    self.deleted = self.deleted + 1;
                }
            },
            Err(reason) => {
                if uploading || deleting {
                    self.failure = Some(reason);
                }
            },
        }
    }

    /// How the reconciliation ended, or `None` while an operation is due.
    pub fn outcome(&self) -> (result: Option<Result<(), String>>)
        ensures
            match standing(self.operations(), self.completed(), self.failure()) {
                None => result is None,
                Some(Ok(_)) => result == Some(Ok::<(), String>(())),
                Some(Err(reason)) => result is Some && result->0 is Err && result->0->Err_0@
                    == reason,
            },
    {
        proof {
            use_type_invariant(self);
        }
        match &self.failure {
            Some(reason) => Some(Err(reason.clone())),
            None => if self.uploaded < self.plan.need_upload.len() || self.deleted
                < self.plan.need_delete.len() {
                None
            } else {
                Some(Ok(()))
            },
        }
    }
}

/// What a cache holds after a listing is handed to it: the first listing
/// stays.
pub open spec fn kept(held: Option<Seq<Seq<char>>>, listing: Seq<Seq<char>>) -> Option<
    Seq<Seq<char>>,
> {
    if held is Some {
        held
    } else {
        Some(listing)
    }
}

/// The listing of one store for one reconciliation run: fetched once, then
/// served from here.
pub struct FileListCache {
    listing: Option<Vec<String>>,
}

impl FileListCache {
    /// The names held, if a listing was stored.
    pub closed spec fn contents(&self) -> Option<Seq<Seq<char>>> {
        match self.listing {
            Some(listing) => Some(names(listing@)),
            None => None,
        }
    }

    pub fn new() -> (cache: FileListCache)
        ensures
            cache.contents() is None,
    {
        FileListCache { listing: None }
    }

    /// The listing, where one is held. `None` tells the caller to fetch it
    /// and to hand it to [`FileListCache::store`].
    pub fn list(&self) -> (listing: Option<&Vec<String>>)
        ensures
            match self.contents() {
                Some(held) => listing is Some && names(listing->0@) == held,
                None => listing is None,
            },
    {
        match &self.listing {
            Some(listing) => Some(listing),
            None => None,
        }
    }

    /// Keeps a fetched listing, unless one is held already.
    pub fn store(&mut self, listing: Vec<String>)
        ensures
            final(self).contents() == kept(old(self).contents(), names(listing@)),
    {
        if self.listing.is_none() {
            self.listing = Some(listing);
        }
    }
}

/// A reconciliation that has run to its end.
pub struct Settled {
    /// How many operations went through.
    pub applied: nat,
    /// The operations that were made, in order, the failed one included.
    pub attempted: Seq<OperationView>,
    pub end: Result<(), Seq<char>>,
}

/// The rest of a reconciliation: each operation that is due is made, and
/// comes to `results(n)` where `n` operations went through before it
/// (`None` for success).
pub open spec fn settle(
    operations: Seq<OperationView>,
    done: nat,
    failure: Option<Seq<char>>,
    results: spec_fn(nat) -> Option<Seq<char>>,
) -> Settled
    decreases (if failure is None { 1nat } else { 0nat }), operations.len() - done,
{
    match due(operations, done, failure) {
        None => Settled {
            applied: done,
            attempted: Seq::empty(),
            end: match failure {
                Some(reason) => Err(reason),
                None => Ok(()),
            },
        },
        Some(operation) => {
            let next = recorded(operations, done, failure, results(done));
            let rest = settle(operations, next.0, next.1, results);
            Settled {
                applied: rest.applied,
                attempted: seq![operation] + rest.attempted,
                end: rest.end,
            }
        },
    }
}

/// A name is in the difference exactly when the first list holds it and
/// the second does not.
pub proof fn lemma_without_members(list: Seq<Seq<char>>, other: Seq<Seq<char>>, name: Seq<char>)
    ensures
        without(list, other).contains(name) <==> list.contains(name) && !other.contains(name),
    decreases list.len(),
{
    if list.len() == 0 {
    } else {
        let earlier = list.drop_last();
        let last = list.last();
        lemma_without_members(earlier, other, name);
        assert(list =~= earlier.push(last));
        if list.contains(name) {
            let i = choose|i: int| 0 <= i < list.len() && list[i] == name;
            if i < earlier.len() {
                assert(earlier[i] == name);
            }
        }
        if earlier.contains(name) {
            let i = choose|i: int| 0 <= i < earlier.len() && earlier[i] == name;
            assert(list[i] == name);
        }
        assert(list[list.len() - 1] == last);
        let kept = without(earlier, other);
        if !other.contains(last) {
            assert(without(list, other) == kept.push(last));
            if kept.push(last).contains(name) {
                let i = choose|i: int| 0 <= i < kept.push(last).len() && kept.push(last)[i] == name;
                if i < kept.len() {
                    assert(kept[i] == name);
                }
            }
            if kept.contains(name) {
                let i = choose|i: int| 0 <= i < kept.len() && kept[i] == name;
                assert(kept.push(last)[i] == name);
            }
            assert(kept.push(last)[kept.len() as int] == last);
        }
    }
}

/// Diff correctness: what is uploaded is the set of local names less the
/// remote ones, and what is deleted is the set of remote names less the
/// local ones.
pub proof fn lemma_diff_is_set_difference(local: Seq<Seq<char>>, remote: Seq<Seq<char>>)
    ensures
        without(local, remote).to_set() == local.to_set().difference(remote.to_set()),
        without(remote, local).to_set() == remote.to_set().difference(local.to_set()),
{
    assert forall|name: Seq<char>|
        without(local, remote).to_set().contains(name) <==> local.to_set().difference(
            remote.to_set(),
        ).contains(name) by {
        lemma_without_members(local, remote, name);
    }
    assert forall|name: Seq<char>|
        without(remote, local).to_set().contains(name) <==> remote.to_set().difference(
            local.to_set(),
        ).contains(name) by {
        lemma_without_members(remote, local, name);
    }
    assert(without(local, remote).to_set() =~= local.to_set().difference(remote.to_set()));
    assert(without(remote, local).to_set() =~= remote.to_set().difference(local.to_set()));
}

/// Nothing is left of a list all of whose members the other list holds.
pub proof fn lemma_without_subset(list: Seq<Seq<char>>, other: Seq<Seq<char>>)
    requires
        forall|i: int| 0 <= i < list.len() ==> other.contains(#[trigger] list[i]),
    ensures
        without(list, other) == Seq::<Seq<char>>::empty(),
    decreases list.len(),
{
    if list.len() > 0 {
        let earlier = list.drop_last();
        assert forall|i: int| 0 <= i < earlier.len() implies other.contains(
            #[trigger] earlier[i],
        ) by {
            assert(earlier[i] == list[i]);
        }
        lemma_without_subset(earlier, other);
        assert(other.contains(list[list.len() - 1]));
    }
}

/// Where the directory and the store hold the same names, reconciliation is
/// a no-op: no operation is planned.
pub proof fn lemma_no_op_when_equal(local: Seq<Seq<char>>, remote: Seq<Seq<char>>)
    requires
        local.to_set() == remote.to_set(),
    ensures
        planned(local, remote) == Seq::<OperationView>::empty(),
        settle(planned(local, remote), 0, None, |n: nat| None::<Seq<char>>).attempted == Seq::<
            OperationView,
        >::empty(),
        settle(planned(local, remote), 0, None, |n: nat| None::<Seq<char>>).end == Ok::<
            (),
            Seq<char>,
        >(()),
{
    assert forall|i: int| 0 <= i < local.len() implies remote.contains(#[trigger] local[i]) by {
        assert(local.contains(local[i]));
        assert(local.to_set().contains(local[i]));
        assert(remote.to_set().contains(local[i]));
    }
    assert forall|i: int| 0 <= i < remote.len() implies local.contains(#[trigger] remote[i]) by {
        assert(remote.contains(remote[i]));
        assert(remote.to_set().contains(remote[i]));
        assert(local.to_set().contains(remote[i]));
    }
    lemma_without_subset(local, remote);
    lemma_without_subset(remote, local);
    assert(planned(local, remote) =~= Seq::<OperationView>::empty());
}

/// Where every operation from `done` on goes through, each is made in turn
/// and the reconciliation ends well.
pub proof fn lemma_settle_all(
    operations: Seq<OperationView>,
    done: nat,
    results: spec_fn(nat) -> Option<Seq<char>>,
)
    requires
        done <= operations.len(),
        forall|n: nat| done <= n < operations.len() ==> #[trigger] results(n) is None,
    ensures
        settle(operations, done, None, results) == (Settled {
            applied: operations.len(),
            attempted: operations.subrange(done as int, operations.len() as int),
            end: Ok(()),
        }),
    decreases operations.len() - done,
{
    if done < operations.len() {
        assert(results(done) is None);
        lemma_settle_all(operations, done + 1, results);
        assert(seq![operations[done as int]] + operations.subrange(
            done as int + 1,
            operations.len() as int,
        ) =~= operations.subrange(done as int, operations.len() as int));
    } else {
        assert(operations.subrange(done as int, operations.len() as int) =~= Seq::<
            OperationView,
        >::empty());
    }
}

/// The first error aborts: where the operations before the one at `failed`
/// go through and that one fails, it is the last that is made, those
/// before it stay applied, and the reconciliation ends with its error.
pub proof fn lemma_first_error_aborts(
    operations: Seq<OperationView>,
    done: nat,
    failed: nat,
    reason: Seq<char>,
    results: spec_fn(nat) -> Option<Seq<char>>,
)
    requires
        done <= failed < operations.len(),
        forall|n: nat| done <= n < failed ==> #[trigger] results(n) is None,
        results(failed) == Some(reason),
    ensures
        settle(operations, done, None, results) == (Settled {
            applied: failed,
            attempted: operations.subrange(done as int, failed as int + 1),
            end: Err(reason),
        }),
    decreases failed - done,
{
    if done < failed {
        assert(results(done) is None);
        lemma_first_error_aborts(operations, done + 1, failed, reason, results);
        assert(seq![operations[done as int]] + operations.subrange(done as int + 1, failed as int + 1)
            =~= operations.subrange(done as int, failed as int + 1));
    } else {
        let next = recorded(operations, done, None, results(done));
        assert(next == (done, Some(reason)));
        assert(settle(operations, done, Some(reason), results).attempted =~= Seq::<
            OperationView,
        >::empty());
        assert(seq![operations[done as int]] + Seq::<OperationView>::empty()
            =~= operations.subrange(done as int, failed as int + 1));
    }
}

/// The first listing that a cache is given stays, whatever it is given
/// later.
pub proof fn lemma_first_listing_stays(first: Seq<Seq<char>>, later: Seq<Seq<char>>)
    ensures
        kept(kept(None, first), later) == Some(first),
{
}

} // verus!
