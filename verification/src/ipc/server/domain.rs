//! Domain tables: the names of the objects of one domain and the holders
//! bound to them.

use vstd::prelude::*;
use crate::ipc::{DomainObjectId, ObjectInfo};
use crate::ipc::server::holder::ServerHolder;
use crate::ipc::server::response::Taking;
use crate::mem::CellId;
use crate::result::ResultCode;

verus! {

/// The largest name a domain hands out by itself.
pub const MAX_DOMAIN_OBJECT_ID: DomainObjectId = 0x7FFF_FFFF;

/// Whether `id` is the smallest positive name that `ids` does not hold.
pub open spec fn is_smallest_free(ids: Set<DomainObjectId>, id: DomainObjectId) -> bool {
    &&& id >= 1
    &&& !ids.contains(id)
    &&& forall|j: DomainObjectId| 1 <= j < id ==> ids.contains(j)
}

/// Whether `ids` holds every name a domain hands out by itself.
pub open spec fn is_full(ids: Set<DomainObjectId>) -> bool {
    forall|j: DomainObjectId| 1 <= j <= MAX_DOMAIN_OBJECT_ID ==> ids.contains(j)
}

/// The names of a domain's objects and the holders bound to them.
pub struct DomainTable {
    pub table: Vec<DomainObjectId>,
    pub domains: Vec<ServerHolder>,
}

/// The names other than `id`.
pub open spec fn other_than(id: DomainObjectId) -> spec_fn(DomainObjectId) -> bool {
    |x: DomainObjectId| x != id
}

/// The holders bound to another name than `id`.
pub open spec fn bound_elsewhere(id: DomainObjectId) -> spec_fn(ServerHolder) -> bool {
    |holder: ServerHolder| holder.info.domain_object_id != id
}

/// The holders bound to `id`.
pub open spec fn bound_to(id: DomainObjectId) -> spec_fn(ServerHolder) -> bool {
    |holder: ServerHolder| holder.info.domain_object_id == id
}

/// The names bound to the holders in `domains`.
pub open spec fn bound_names(domains: Seq<ServerHolder>) -> Set<DomainObjectId> {
    Set::new(
        |id: DomainObjectId|
            exists|i: int| 0 <= i < domains.len() && (#[trigger] domains[i]).info.domain_object_id == id,
    )
}

fn contains_id(table: &Vec<DomainObjectId>, id: DomainObjectId) -> (b: bool)
    ensures
        b == table@.contains(id),
{
    let mut i: usize = 0;
    while i < table.len()
        invariant
            i <= table.len(),
            forall|j: int| 0 <= j < i ==> table@[j] != id,
        decreases table.len() - i,
    {
        if table[i] == id {
            return true;
        }
        i += 1;
    }
    false
}

impl DomainTable {
    /// The names that are taken.
    pub open spec fn ids(&self) -> Set<DomainObjectId> {
        self.table@.to_set()
    }

    /// The names that holders of this table are bound to.
    pub open spec fn bound_ids(&self) -> Set<DomainObjectId> {
        bound_names(self.domains@)
    }

    /// No name is taken twice, and every holder is bound to a taken name.
    pub open spec fn wf(&self) -> bool {
        &&& self.table@.no_duplicates()
        &&& self.bound_ids().subset_of(self.ids())
    }

    /// Every taken name has a holder: the taken names are exactly the bound ones.
    pub open spec fn all_bound(&self) -> bool {
        self.ids() == self.bound_ids()
    }

    /// A table with no name taken.
    pub fn new() -> (r: Self)
        ensures
            r.table@ == Seq::<DomainObjectId>::empty(),
            r.domains@ == Seq::<ServerHolder>::empty(),
            r.wf(),
            r.all_bound(),
    {
        let r = Self { table: Vec::new(), domains: Vec::new() };
        assert(r.ids() =~= r.bound_ids());
        r
    }

    /// Takes the smallest free positive name. Fails with `TooManyObjects`,
    /// taking nothing, exactly when every name up to the largest is taken.
    pub fn allocate_id(&mut self) -> (r: Result<DomainObjectId, ResultCode>)
        ensures
            final(self).domains == old(self).domains,
            match r {
                Ok(id) => {
                    &&& is_smallest_free(old(self).ids(), id)
                    &&& id <= MAX_DOMAIN_OBJECT_ID
                    &&& final(self).table@ == old(self).table@.push(id)
                    &&& final(self).ids() == old(self).ids().insert(id)
                },
                Err(e) => e == ResultCode::TooManyObjects && is_full(old(self).ids()) && final(self).table
                    == old(self).table,
            },
            old(self).wf() ==> final(self).wf(),
    {
        let mut current_id: DomainObjectId = 1;
        loop
            invariant
                1 <= current_id <= MAX_DOMAIN_OBJECT_ID,
                forall|j: DomainObjectId| 1 <= j < current_id ==> self.table@.contains(j),
                *self == *old(self),
            decreases MAX_DOMAIN_OBJECT_ID - current_id,
        {
            if !contains_id(&self.table, current_id) {
                self.table.push(current_id);
                proof {
                    lemma_push_ids(old(self).table@, current_id);
                }
                return Ok(current_id);
            }
            if current_id == MAX_DOMAIN_OBJECT_ID {
                return Err(ResultCode::TooManyObjects);
            }
            current_id += 1;
        }
    }

    /// Takes the name `specific_domain_object_id`. Fails with
    /// `ObjectIdAlreadyAllocated`, taking nothing, exactly when it is taken.
    pub fn allocate_specific_id(&mut self, specific_domain_object_id: DomainObjectId) -> (r: Result<
        DomainObjectId,
        ResultCode,
    >)
        ensures
            final(self).domains == old(self).domains,
            !old(self).ids().contains(specific_domain_object_id) ==> {
                &&& r == Ok::<DomainObjectId, ResultCode>(specific_domain_object_id)
                &&& final(self).table@ == old(self).table@.push(specific_domain_object_id)
                &&& final(self).ids() == old(self).ids().insert(specific_domain_object_id)
            },
            old(self).ids().contains(specific_domain_object_id) ==> {
                &&& r == Err::<DomainObjectId, ResultCode>(ResultCode::ObjectIdAlreadyAllocated)
                &&& final(self).table == old(self).table
            },
            old(self).wf() ==> final(self).wf(),
    {
        if !contains_id(&self.table, specific_domain_object_id) {
            self.table.push(specific_domain_object_id);
            proof {
                lemma_push_ids(old(self).table@, specific_domain_object_id);
            }
            return Ok(specific_domain_object_id);
        }
        Err(ResultCode::ObjectIdAlreadyAllocated)
    }

    /// Whether `at` is the first holder bound to `id`.
    pub open spec fn first_bound(&self, id: DomainObjectId, at: int) -> bool {
        &&& 0 <= at < self.domains@.len()
        &&& self.domains@[at].info.domain_object_id == id
        &&& forall|j: int| 0 <= j < at ==> (#[trigger] self.domains@[j]).info.domain_object_id != id
    }

    /// The object bound to `id`: the object of the first holder bound to
    /// it, or `DomainNotFound` where no holder is bound to `id` or the first
    /// one has no object.
    pub open spec fn found(&self, id: DomainObjectId) -> Result<CellId, ResultCode> {
        if exists|at: int| self.first_bound(id, at) {
            let at = choose|at: int| self.first_bound(id, at);
            match self.domains@[at].server_cell() {
                Some(cell) => Ok(cell),
                None => Err(ResultCode::DomainNotFound),
            }
        } else {
            Err(ResultCode::DomainNotFound)
        }
    }

    /// Finds the object bound to `id`.
    pub fn find_domain(&self, id: DomainObjectId) -> (r: Result<CellId, ResultCode>)
        ensures
            r == self.found(id),
            r is Ok ==> self.bound_ids().contains(id),
    {
        let mut i: usize = 0;
        while i < self.domains.len()
            invariant
                i <= self.domains.len(),
                forall|j: int| 0 <= j < i ==> (#[trigger] self.domains@[j]).info.domain_object_id != id,
            decreases self.domains.len() - i,
        {
            if self.domains[i].info.domain_object_id == id {
                assert(self.first_bound(id, i as int));
                assert forall|at: int| self.first_bound(id, at) implies at == i by {
                    if at < i {
                        assert(self.domains@[at].info.domain_object_id != id);
                    }
                    if i < at {
                        assert(self.domains@[i as int].info.domain_object_id != id);
                    }
                }
                return match self.domains[i].get_server_cell() {
                    Some(cell) => Ok(cell),
                    None => Err(ResultCode::DomainNotFound),
                };
            }
            i += 1;
        }
        assert forall|at: int| !self.first_bound(id, at) by {
            if 0 <= at < self.domains@.len() {
                assert(self.domains@[at].info.domain_object_id != id);
            }
        }
        Err(ResultCode::DomainNotFound)
    }

    /// Frees the name `domain_object_id` and unbinds every holder bound to
    /// it, in one step. The holders that remain keep their order; those
    /// unbound are handed out for their objects to be released.
    pub fn deallocate_domain(&mut self, domain_object_id: DomainObjectId) -> (unbound: Vec<ServerHolder>)
        ensures
            final(self).table@ == old(self).table@.filter(other_than(domain_object_id)),
            final(self).domains@ == old(self).domains@.filter(bound_elsewhere(domain_object_id)),
            unbound@ == old(self).domains@.filter(bound_to(domain_object_id)),
            final(self).ids() == old(self).ids().remove(domain_object_id),
            final(self).bound_ids() == old(self).bound_ids().remove(domain_object_id),
            old(self).wf() ==> final(self).wf(),
            old(self).all_bound() ==> final(self).all_bound(),
    {
        let ghost keep_id = other_than(domain_object_id);
        let ghost keep = bound_elsewhere(domain_object_id);
        let ghost drop = bound_to(domain_object_id);
        let mut table: Vec<DomainObjectId> = Vec::new();
        let mut i: usize = 0;
        while i < self.table.len()
            invariant
                i <= self.table.len(),
                *self == *old(self),
                keep_id == other_than(domain_object_id),
                table@ == self.table@.subrange(0, i as int).filter(keep_id),
            decreases self.table.len() - i,
        {
            proof {
                lemma_filter_step(self.table@, i as int, keep_id);
            }
            if self.table[i] != domain_object_id {
                table.push(self.table[i]);
            }
            i += 1;
        }
        assert(self.table@.subrange(0, i as int) =~= self.table@);
        let mut rest: Vec<ServerHolder> = Vec::new();
        core::mem::swap(&mut self.domains, &mut rest);
        let mut kept: Vec<ServerHolder> = Vec::new();
        let mut unbound: Vec<ServerHolder> = Vec::new();
        let ghost all = rest@;
        let ghost mut done: int = 0;
        while rest.len() > 0
            invariant
                0 <= done <= all.len(),
                all == old(self).domains@,
                keep == bound_elsewhere(domain_object_id),
                drop == bound_to(domain_object_id),
                rest@ == all.subrange(done, all.len() as int),
                kept@ == all.subrange(0, done).filter(keep),
                unbound@ == all.subrange(0, done).filter(drop),
            decreases rest.len(),
        {
            proof {
                lemma_filter_step(all, done, keep);
                lemma_filter_step(all, done, drop);
            }
            let holder = rest.remove(0);
            assert(holder == all[done]);
            assert(rest@ =~= all.subrange(done + 1, all.len() as int));
            if holder.info.domain_object_id != domain_object_id {
                kept.push(holder);
            } else {
                unbound.push(holder);
            }
            proof {
                done = done + 1;
            }
        }
        assert(all.subrange(0, done) =~= all);
        self.table = table;
        self.domains = kept;
        proof {
            lemma_filter_ids(old(self).table@, domain_object_id);
            lemma_filter_bound(old(self).domains@, domain_object_id);
            if old(self).wf() {
                lemma_filter_no_duplicates(old(self).table@, keep_id);
            }
        }
        unbound
    }

    /// Takes the smallest free name and binds `holder` to it: the holder
    /// joins the table under the name returned.
    pub fn attach(&mut self, holder: ServerHolder) -> (r: Result<DomainObjectId, ResultCode>)
        ensures
            match r {
                Ok(id) => {
                    &&& is_smallest_free(old(self).ids(), id)
                    &&& final(self).table@ == old(self).table@.push(id)
                    &&& final(self).domains@.len() == old(self).domains@.len() + 1
                    &&& final(self).domains@.subrange(0,
                        old(self).domains@.len() as int) == old(self).domains@
                    &&& final(self).domains@.last().info == ObjectInfo::domain_object(holder.info.handle, id)
                    &&& final(self).domains@.last().server == holder.server
                    &&& final(self).ids() == old(self).ids().insert(id)
                    &&& final(self).bound_ids() == old(self).bound_ids().insert(id)
                },
                Err(e) => e == ResultCode::TooManyObjects && is_full(old(self).ids()) && final(self).table
                    == old(self).table && final(self).domains@ == old(self).domains@,
            },
            old(self).wf() ==> final(self).wf(),
            old(self).all_bound() ==> final(self).all_bound(),
    {
        let id = match self.allocate_id() {
            Ok(id) => id,
            Err(e) => {
                return Err(e);
            },
        };
        let mut holder = holder;
        holder.info = ObjectInfo::from_domain_object_id(holder.info.handle, id);
        self.domains.push(holder);
        proof {
            lemma_push_bound(old(self).domains@, self.domains@.last());
            assert(self.domains@.subrange(0, old(self).domains@.len() as int) =~= old(self).domains@);
        }
        Ok(id)
    }
}

/// There is one smallest free name.
pub proof fn lemma_smallest_free_unique(ids: Set<DomainObjectId>, a: DomainObjectId, b: DomainObjectId)
    requires
        is_smallest_free(ids, a),
        is_smallest_free(ids, b),
    ensures
        a == b,
{
    if a < b {
        assert(ids.contains(a));
    }
    if b < a {
        assert(ids.contains(b));
    }
}

/// The names `1..=k`, in the order a new table takes them.
pub open spec fn first_names(k: nat) -> Seq<DomainObjectId> {
    Seq::new(k, |i: int| (i + 1) as DomainObjectId)
}

/// Allocation in order: a table that took the names `1..=k` one after the
/// other, and gave none back, takes `k + 1` next. So `k` allocations on a
/// new table yield `1..=k`.
pub proof fn lemma_allocation_in_order(k: nat, next: DomainObjectId)
    requires
        k < MAX_DOMAIN_OBJECT_ID,
        is_smallest_free(first_names(k).to_set(), next),
    ensures
        next == k + 1,
        first_names(k).push(next) == first_names(k + 1),
{
    let taken = first_names(k);
    assert forall|j: DomainObjectId| 1 <= j <= k implies taken.to_set().contains(j) by {
        assert(taken[j - 1] == j);
    }
    assert(!taken.to_set().contains((k + 1) as DomainObjectId)) by {
        if taken.contains((k + 1) as DomainObjectId) {
            let i = choose|i: int| 0 <= i < taken.len() && taken[i] == k + 1;
        }
    }
    assert(is_smallest_free(taken.to_set(), (k + 1) as DomainObjectId));
    lemma_smallest_free_unique(taken.to_set(), next, (k + 1) as DomainObjectId);
    assert(taken.push(next) =~= first_names(k + 1));
}

/// Taking a name adds it to the set of names, and keeps the names distinct
/// where it was free.
pub proof fn lemma_push_ids(table: Seq<DomainObjectId>, id: DomainObjectId)
    ensures
        table.push(id).to_set() == table.to_set().insert(id),
        table.no_duplicates() && !table.contains(id) ==> table.push(id).no_duplicates(),
{
    let after = table.push(id);
    assert forall|x: DomainObjectId| after.to_set().contains(x) == table.to_set().insert(id).contains(
        x,
    ) by {
        if after.contains(x) {
            let i = choose|i: int| 0 <= i < after.len() && after[i] == x;
            if i < table.len() {
                assert(table[i] == x);
            }
        }
        if table.contains(x) {
            let i = choose|i: int| 0 <= i < table.len() && table[i] == x;
            assert(after[i] == x);
        }
        if x == id {
            assert(after[table.len() as int] == x);
        }
    }
    assert(after.to_set() =~= table.to_set().insert(id));
}

/// Binding a holder adds its name to the bound names.
pub proof fn lemma_push_bound(domains: Seq<ServerHolder>, holder: ServerHolder)
    ensures
        bound_names(domains.push(holder)) == bound_names(domains).insert(holder.info.domain_object_id),
{
    let after = domains.push(holder);
    let id = holder.info.domain_object_id;
    assert forall|x: DomainObjectId| bound_names(after).contains(x) == bound_names(domains).insert(
        id,
    ).contains(x) by {
        if bound_names(after).contains(x) {
            let i = choose|i: int| 0 <= i < after.len() && (#[trigger] after[i]).info.domain_object_id == x;
            if i < domains.len() {
                assert(domains[i].info.domain_object_id == x);
            }
        }
        if bound_names(domains).contains(x) {
            let i = choose|i: int|
                0 <= i < domains.len() && (#[trigger] domains[i]).info.domain_object_id == x;
            assert(after[i].info.domain_object_id == x);
        }
        if x == id {
            assert(after[domains.len() as int].info.domain_object_id == x);
        }
    }
    assert(bound_names(after) =~= bound_names(domains).insert(id));
}

/// One more element under a filter: it joins what was kept exactly when
/// the filter keeps it.
pub proof fn lemma_filter_step<A>(s: Seq<A>, i: int, pred: spec_fn(A) -> bool)
    requires
        0 <= i < s.len(),
    ensures
        s.subrange(0, i + 1).filter(pred) == if pred(s[i]) {
            s.subrange(0, i).filter(pred).push(s[i])
        } else {
            s.subrange(0, i).filter(pred)
        },
{
    let longer = s.subrange(0, i + 1);
    assert(longer.drop_last() =~= s.subrange(0, i));
    assert(longer.last() == s[i]);
    reveal(Seq::filter);
}

/// Filtering keeps distinct elements distinct.
pub proof fn lemma_filter_no_duplicates<A>(s: Seq<A>, pred: spec_fn(A) -> bool)
    requires
        s.no_duplicates(),
    ensures
        s.filter(pred).no_duplicates(),
    decreases s.len(),
{
    reveal(Seq::filter);
    if s.len() > 0 {
        let rest = s.drop_last();
        lemma_filter_no_duplicates(rest, pred);
        if pred(s.last()) {
            if rest.filter(pred).contains(s.last()) {
                rest.lemma_filter_contains_rev(pred, s.last());
                let i = choose|i: int| 0 <= i < rest.len() && rest[i] == s.last();
                assert(s[i] == s[s.len() - 1]);
            }
        }
    }
}

/// The names left when `id` is filtered out are the names without `id`.
pub proof fn lemma_filter_ids(table: Seq<DomainObjectId>, id: DomainObjectId)
    ensures
        table.filter(other_than(id)).to_set() == table.to_set().remove(id),
{
    let pred = other_than(id);
    let after = table.filter(pred);
    assert forall|x: DomainObjectId| after.to_set().contains(x) == table.to_set().remove(id).contains(
        x,
    ) by {
        if after.contains(x) {
            let i = choose|i: int| 0 <= i < after.len() && after[i] == x;
            table.lemma_filter_pred(pred, i);
            table.lemma_filter_contains_rev(pred, x);
        }
        if table.contains(x) && x != id {
            let i = choose|i: int| 0 <= i < table.len() && table[i] == x;
            table.lemma_filter_contains(pred, i);
        }
    }
    assert(after.to_set() =~= table.to_set().remove(id));
}

/// The names bound after the holders of `id` are filtered out are the
/// bound names without `id`.
pub proof fn lemma_filter_bound(domains: Seq<ServerHolder>, id: DomainObjectId)
    ensures
        bound_names(domains.filter(bound_elsewhere(id))) == bound_names(domains).remove(id),
{
    let pred = bound_elsewhere(id);
    let after = domains.filter(pred);
    assert forall|x: DomainObjectId| bound_names(after).contains(x) == bound_names(domains).remove(
        id,
    ).contains(x) by {
        if bound_names(after).contains(x) {
            let i = choose|i: int| 0 <= i < after.len() && (#[trigger] after[i]).info.domain_object_id == x;
            domains.lemma_filter_pred(pred, i);
            assert(after.contains(after[i]));
            domains.lemma_filter_contains_rev(pred, after[i]);
            let j = choose|j: int| 0 <= j < domains.len() && domains[j] == after[i];
            assert(domains[j].info.domain_object_id == x);
        }
        if bound_names(domains).contains(x) && x != id {
            let i = choose|i: int|
                0 <= i < domains.len() && (#[trigger] domains[i]).info.domain_object_id == x;
            domains.lemma_filter_contains(pred, i);
            let j = choose|j: int| 0 <= j < after.len() && after[j] == domains[i];
            assert(after[j].info.domain_object_id == x);
        }
    }
    assert(bound_names(after) =~= bound_names(domains).remove(id));
}

} // verus!
