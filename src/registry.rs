//! The ordered collection of host records, keyed by alias.

use vstd::prelude::*;

use crate::error::HostError;
use crate::fields::{free_of_sep, has_no_sep, same_text};
use crate::host::{bundle_hosts, bundled, storable, views, Host, HostView, Hosts};

verus! {

/// A record that can be added: a non-empty alias, and no value that holds
/// the separator of the field lists.
pub open spec fn valid_record(h: HostView) -> bool {
    &&& h.alias.len() > 0
    &&& free_of_sep(h.alias)
    &&& free_of_sep(h.ip)
    &&& free_of_sep(h.ssh_user)
    &&& free_of_sep(h.pk_path)
    &&& free_of_sep(h.description)
}

pub open spec fn has_alias(r: Seq<HostView>, a: Seq<char>) -> bool {
    exists|i: int| 0 <= i < r.len() && r[i].alias == a
}

/// `i` is the position of the first record with alias `a`.
pub open spec fn first_match(r: Seq<HostView>, a: Seq<char>, i: int) -> bool {
    &&& 0 <= i < r.len()
    &&& r[i].alias == a
    &&& forall|j: int| 0 <= j < i ==> r[j].alias != a
}

pub open spec fn first_index(r: Seq<HostView>, a: Seq<char>) -> int {
    choose|i: int| first_match(r, a, i)
}

/// No two records share an alias.
pub open spec fn unique_aliases(r: Seq<HostView>) -> bool {
    forall|i: int, j: int| 0 <= i < j < r.len() ==> r[i].alias != r[j].alias
}

/// The first record with alias `a`, if any.
pub open spec fn found(r: Seq<HostView>, a: Seq<char>) -> Option<HostView> {
    if has_alias(r, a) {
        Some(r[first_index(r, a)])
    } else {
        None
    }
}

/// The registry after adding `h` to `r`, or the error that refuses it.
pub open spec fn added(r: Seq<HostView>, h: HostView) -> Result<Seq<HostView>, HostError> {
    if has_alias(r, h.alias) {
        Err(HostError::DuplicateAlias)
    } else if !valid_record(h) {
        Err(HostError::InvalidRecord)
    } else {
        Ok(r.push(h))
    }
}

/// The registry after removing the first record with alias `a`, or the error
/// when there is none.
pub open spec fn removed(r: Seq<HostView>, a: Seq<char>) -> Result<Seq<HostView>, HostError> {
    if has_alias(r, a) {
        Ok(r.remove(first_index(r, a)))
    } else {
        Err(HostError::NotFound)
    }
}

/// There is at most one first match, and where an alias is present it has one.
pub proof fn lemma_first_index(r: Seq<HostView>, a: Seq<char>, i: int)
    requires
        first_match(r, a, i),
    ensures
        first_index(r, a) == i,
{
    let j = first_index(r, a);
    assert(first_match(r, a, j));
    if j < i {
        assert(r[j].alias != a);
    }
    if i < j {
        assert(r[i].alias != a);
    }
}

/// After a record with a fresh alias has been added, adding it again is
/// refused as a duplicate: the registry grows by one, then stays that size.
pub proof fn lemma_add_twice(r: Seq<HostView>, h: HostView)
    requires
        !has_alias(r, h.alias),
        valid_record(h),
    ensures
        added(r, h) matches Ok(n) && n.len() == r.len() + 1 && added(n, h) == Err::<
            Seq<HostView>,
            HostError,
        >(HostError::DuplicateAlias),
{
    let n = r.push(h);
    assert(n[r.len() as int].alias == h.alias);
}

/// Adding keeps aliases unique.
pub proof fn lemma_add_keeps_unique(r: Seq<HostView>, h: HostView)
    requires
        unique_aliases(r),
    ensures
        added(r, h) matches Ok(n) ==> unique_aliases(n),
{
    if let Ok(n) = added(r, h) {
        assert forall|i: int, j: int| 0 <= i < j < n.len() implies n[i].alias != n[j].alias by {
            if j == r.len() {
                assert(r[i].alias != h.alias);
            }
        }
    }
}

/// Adding and removing keep every value storable, so that the registry is
/// read back from its stored form exactly (see `lemma_decoded_bundle`).
pub proof fn lemma_edits_keep_storable(r: Seq<HostView>, h: HostView, a: Seq<char>)
    requires
        storable(r),
    ensures
        added(r, h) matches Ok(n) ==> storable(n),
        removed(r, a) matches Ok(n) ==> storable(n),
{
    if let Ok(n) = added(r, h) {
        assert forall|i: int| 0 <= i < n.len() implies {
            &&& (#[trigger] n[i]).alias.len() > 0
            &&& free_of_sep(n[i].alias)
            &&& free_of_sep(n[i].ip)
            &&& free_of_sep(n[i].ssh_user)
            &&& free_of_sep(n[i].pk_path)
            &&& free_of_sep(n[i].description)
        } by {
            if i == r.len() {
                assert(n[i] == h);
            } else {
                assert(n[i] == r[i]);
            }
        }
    }
    if let Ok(n) = removed(r, a) {
        lemma_first_exists(r, a);
        let k = first_index(r, a);
        assert forall|i: int| 0 <= i < n.len() implies {
            &&& (#[trigger] n[i]).alias.len() > 0
            &&& free_of_sep(n[i].alias)
            &&& free_of_sep(n[i].ip)
            &&& free_of_sep(n[i].ssh_user)
            &&& free_of_sep(n[i].pk_path)
            &&& free_of_sep(n[i].description)
        } by {
            if i < k {
                assert(n[i] == r[i]);
            } else {
                assert(n[i] == r[i + 1]);
            }
        }
    }
}

/// Removing a present alias takes exactly one record away, after which the
/// alias is found no more; removing an absent one fails with `NotFound`.
pub proof fn lemma_remove_by_alias(r: Seq<HostView>, a: Seq<char>)
    requires
        unique_aliases(r),
    ensures
        has_alias(r, a) ==> (removed(r, a) matches Ok(n) && n.len() == r.len() - 1 && found(
            n,
            a,
        ) is None),
        !has_alias(r, a) ==> removed(r, a) == Err::<Seq<HostView>, HostError>(
            HostError::NotFound,
        ),
{
    if has_alias(r, a) {
        let k = choose|k: int| 0 <= k < r.len() && r[k].alias == a;
        assert(first_match(r, a, k)) by {
            assert forall|j: int| 0 <= j < k implies r[j].alias != a by {
                assert(r[j].alias != r[k].alias);
            }
        }
        lemma_first_index(r, a, k);
        let n = r.remove(k);
        assert forall|i: int| 0 <= i < n.len() implies n[i].alias != a by {
            if i < k {
                assert(n[i] == r[i]);
                assert(r[i].alias != r[k].alias);
            } else {
                assert(n[i] == r[i + 1]);
                assert(r[k].alias != r[i + 1].alias);
            }
        }
    }
}

/// A present alias has a first match.
pub proof fn lemma_first_exists(r: Seq<HostView>, a: Seq<char>)
    requires
        has_alias(r, a),
    ensures
        first_match(r, a, first_index(r, a)),
    decreases r.len(),
{
    let init = r.drop_last();
    if has_alias(init, a) {
        lemma_first_exists(init, a);
        let i = first_index(init, a);
        assert(r[i] == init[i]);
        assert forall|j: int| 0 <= j < i implies r[j].alias != a by {
            assert(init[j] == r[j]);
        }
        assert(first_match(r, a, i));
    } else {
        let last = r.len() - 1;
        assert forall|j: int| 0 <= j < last implies r[j].alias != a by {
            assert(init[j] == r[j]);
        }
        let k = choose|k: int| 0 <= k < r.len() && r[k].alias == a;
        if k < last {
            assert(init[k] == r[k]);
        }
        assert(first_match(r, a, last));
    }
}

/// The ordered records, in the order in which they were added.
pub struct Registry {
    hosts: Vec<Host>,
}

impl View for Registry {
    type V = Seq<HostView>;

    closed spec fn view(&self) -> Seq<HostView> {
        views(self.hosts@)
    }
}

impl Registry {
    /// A registry of no records.
    pub fn new() -> (r: Registry)
        ensures
            r@ == Seq::<HostView>::empty(),
    {
        let r = Registry { hosts: Vec::new() };
        assert(r@ =~= Seq::<HostView>::empty());
        r
    }

    /// The registry of the records read from the store, in their order.
    pub fn from_hosts(hosts: Vec<Host>) -> (r: Registry)
        ensures
            r@ == views(hosts@),
    {
        Registry { hosts }
    }

    pub fn len(&self) -> (r: usize)
        ensures
            r == self@.len(),
    {
        self.hosts.len()
    }

    /// The records, in insertion order.
    pub fn list(&self) -> (r: &Vec<Host>)
        ensures
            views(r@) == self@,
    {
        &self.hosts
    }

    /// The records, given up.
    pub fn into_hosts(self) -> (r: Vec<Host>)
        ensures
            views(r@) == self@,
    {
        self.hosts
    }

    /// The position of the first record with this alias.
    fn position(&self, alias: &str) -> (r: Option<usize>)
        ensures
            r matches Some(i) ==> first_match(self@, alias@, i as int),
            r is None ==> !has_alias(self@, alias@),
    {
        let mut i: usize = 0;
        while i < self.hosts.len()
            invariant
                i <= self.hosts@.len(),
                forall|j: int| 0 <= j < i ==> self@[j].alias != alias@,
            decreases self.hosts@.len() - i,
        {
            if same_text(self.hosts[i].alias.as_str(), alias) {
                return Some(i);
            }
            i = i + 1;
        }
        None
    }

    /// The first record with this alias; none where no record has it.
    pub fn find_by_alias(&self, alias: &str) -> (r: Option<&Host>)
        ensures
            r matches Some(h) ==> found(self@, alias@) == Some(h@),
            r is None ==> found(self@, alias@) is None,
    {
        match self.position(alias) {
            Some(i) => {
                proof {
                    lemma_first_index(self@, alias@, i as int);
                }
                Some(&self.hosts[i])
            },
            None => None,
        }
    }

    /// Appends the record. Refused with `DuplicateAlias` when its alias is
    /// present, and with `InvalidRecord` when it cannot be stored; a refused
    /// record leaves the registry as it was.
    pub fn add(&mut self, record: Host) -> (r: Result<(), HostError>)
        ensures
            match added(old(self)@, record@) {
                Ok(n) => r is Ok && final(self)@ == n,
                Err(e) => r == Err::<(), HostError>(e) && final(self)@ == old(self)@,
            },
    {
        if self.position(record.alias.as_str()).is_some() {
            return Err(HostError::DuplicateAlias);
        }
        if !is_valid_record(&record) {
            return Err(HostError::InvalidRecord);
        }
        let ghost prev = self.hosts@;
        self.hosts.push(record);
        assert(views(self.hosts@) =~= views(prev).push(record@));
        Ok(())
    }

    /// Removes the first record with this alias; `NotFound` where there is
    /// none, and then the registry is left as it was.
    pub fn remove_by_alias(&mut self, alias: &str) -> (r: Result<(), HostError>)
        ensures
            match removed(old(self)@, alias@) {
                Ok(n) => r is Ok && final(self)@ == n,
                Err(e) => r == Err::<(), HostError>(e) && final(self)@ == old(self)@,
            },
    {
        match self.position(alias) {
            Some(i) => {
                proof {
                    lemma_first_index(self@, alias@, i as int);
                }
                let ghost prev = self.hosts@;
                self.hosts.remove(i);
                assert(views(self.hosts@) =~= views(prev).remove(i as int));
                Ok(())
            },
            None => Err(HostError::NotFound),
        }
    }

    /// The five field lists under which the registry is stored.
    pub fn store(&self) -> (r: Hosts)
        ensures
            r@ == bundled(self@),
    {
        bundle_hosts(&self.hosts)
    }
}

/// Whether the record can be added to a registry.
pub fn is_valid_record(h: &Host) -> (r: bool)
    ensures
        r == valid_record(h@),
{
    h.alias.as_str().unicode_len() > 0 && has_no_sep(h.alias.as_str()) && has_no_sep(
        h.ip.as_str(),
    ) && has_no_sep(h.ssh_user.as_str()) && has_no_sep(h.pk_path.as_str()) && has_no_sep(
        h.description.as_str(),
    )
}

/// Whether no two of the hosts share an alias.
pub fn aliases_unique(hosts: &Vec<Host>) -> (r: bool)
    ensures
        r == unique_aliases(views(hosts@)),
{
    let ghost v = views(hosts@);
    let n = hosts.len();
    let mut j: usize = 0;
    while j < n
        invariant
            n == hosts@.len() == v.len(),
            v == views(hosts@),
            j <= n,
            forall|a: int, b: int| 0 <= a < b < j ==> v[a].alias != v[b].alias,
        decreases n - j,
    {
        let mut i: usize = 0;
        while i < j
            invariant
                n == hosts@.len() == v.len(),
                v == views(hosts@),
                i <= j < n,
                forall|a: int, b: int| 0 <= a < b < j ==> v[a].alias != v[b].alias,
                forall|a: int| 0 <= a < i ==> v[a].alias != v[j as int].alias,
            decreases j - i,
        {
            if same_text(hosts[i].alias.as_str(), hosts[j].alias.as_str()) {
                assert(v[i as int].alias == v[j as int].alias);
                return false;
            }
            i = i + 1;
        }
        j = j + 1;
    }
    true
}

} // verus!
