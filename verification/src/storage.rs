//! The secret record, the contract that a storage backend keeps, and the
//! in-memory backend.

use vstd::prelude::*;
use vstd::string::*;
use crate::codec::{json_string, quote};
use crate::error::{Failure, Never};
use crate::json::ToJson;

verus! {

/// The kind of credential that a record holds.
#[derive(Clone, Copy, Debug, PartialEq, Eq, Structural)]
pub enum SecretType {
    Password,
}

/// One credential record. `domain` is its key: a backend holds at most one
/// record per domain.
#[derive(Debug)]
pub struct Secret {
    pub kind: SecretType,
    pub domain: String,
    pub username: String,
    pub password: String,
}

/// A secret as a mathematical value.
pub ghost struct SecretView {
    pub kind: SecretType,
    pub domain: Seq<char>,
    pub username: Seq<char>,
    pub password: Seq<char>,
}

impl View for Secret {
    type V = SecretView;

    open spec fn view(&self) -> SecretView {
        SecretView {
            kind: self.kind,
            domain: self.domain@,
            username: self.username@,
            password: self.password@,
        }
    }
}

/// The JSON name of a kind of secret.
pub open spec fn kind_json(kind: SecretType) -> Seq<char> {
    match kind {
        SecretType::Password => "\"password\""@,
    }
}

/// The JSON object of a secret: its four fields, in the order `type`,
/// `domain`, `username`, `password`.
pub open spec fn secret_json(secret: SecretView) -> Seq<char> {
    "{\"type\":"@ + kind_json(secret.kind) + ",\"domain\":"@ + json_string(secret.domain)
        + ",\"username\":"@ + json_string(secret.username) + ",\"password\":"@ + json_string(
        secret.password,
    ) + "}"@
}

impl Secret {
    pub fn new(kind: SecretType, domain: String, username: String, password: String) -> (r: Self)
        ensures
            r.kind == kind,
            r.domain == domain,
            r.username == username,
            r.password == password,
    {
        Secret { kind, domain, username, password }
    }
}

impl Clone for Secret {
    fn clone(&self) -> (r: Self)
        ensures
            r == *self,
    {
        Secret {
            kind: self.kind,
            domain: self.domain.clone(),
            username: self.username.clone(),
            password: self.password.clone(),
        }
    }
}

impl PartialEq for Secret {
    fn eq(&self, other: &Self) -> (r: bool) {
        self.kind == other.kind && self.domain == other.domain && self.username == other.username
            && self.password == other.password
    }
}

impl Eq for Secret {

}

impl vstd::std_specs::cmp::PartialEqSpecImpl for Secret {
    open spec fn obeys_eq_spec() -> bool {
        true
    }

    open spec fn eq_spec(&self, other: &Self) -> bool {
        self.kind == other.kind && self.domain@ == other.domain@ && self.username@
            == other.username@ && self.password@ == other.password@
    }
}

impl ToJson for Secret {
    open spec fn json_spec(&self) -> Seq<char> {
        secret_json(self@)
    }

    fn to_json(&self) -> (r: String) {
        let mut text = String::from_str("{\"type\":");
        match self.kind {
            SecretType::Password => text.append("\"password\""),
        }
        text.append(",\"domain\":");
        text.append(quote(self.domain.as_str()).as_str());
        text.append(",\"username\":");
        text.append(quote(self.username.as_str()).as_str());
        text.append(",\"password\":");
        text.append(quote(self.password.as_str()).as_str());
        text.append("}");
        text
    }
}

/// The domains of `records`, in order.
pub open spec fn domains(records: Seq<Secret>) -> Seq<Seq<char>> {
    Seq::new(records.len(), |i: int| records[i].domain@)
}

/// `listing` holds every record of `stored` once, each under its own domain,
/// and nothing else.
pub open spec fn holds_each_once(
    listing: Seq<Secret>,
    stored: Map<Seq<char>, SecretView>,
) -> bool {
    &&& domains(listing).no_duplicates()
    &&& forall|i: int|
        0 <= i < listing.len() ==> stored.contains_key(#[trigger] domains(listing)[i])
            && stored[domains(listing)[i]] == listing[i]@
    &&& forall|d: Seq<char>| stored.contains_key(d) ==> domains(listing).contains(d)
}

/// The record stored under `domain`, if there is one.
pub open spec fn lookup(stored: Map<Seq<char>, SecretView>, domain: Seq<char>) -> Option<
    SecretView,
> {
    if stored.contains_key(domain) {
        Some(stored[domain])
    } else {
        None
    }
}

/// What a storage backend does. A backend stands for a mapping from domain
/// to record. One that is `modelled` says with `records` what that mapping
/// is, and each of its operations that returns `Ok` has read or changed the
/// mapping as stated here; of the mapping after a failed write nothing is
/// promised. One that is `dependable` never fails. A backend that claims
/// neither, as one whose records live in a database does, promises nothing
/// here, and its callers are ready for every result.
pub trait Storage {
    type Error: Failure;

    /// Whether `records` tells what the backend holds.
    open spec fn modelled(&self) -> bool {
        false
    }

    /// The records that the backend holds, by domain.
    open spec fn records(&self) -> Map<Seq<char>, SecretView> {
        Map::empty()
    }

    /// Whether no operation of this backend ever fails.
    open spec fn dependable(&self) -> bool {
        false
    }

    /// Every stored record, in no particular order.
    fn get_all(&self) -> (r: Result<Vec<Secret>, Self::Error>)
        ensures
            self.dependable() ==> r is Ok,
            self.modelled() ==> (r matches Ok(listing) ==> holds_each_once(
                listing@,
                self.records(),
            )),
    ;

    /// The record stored under `domain`, or `None` where there is none.
    fn get(&self, domain: &str) -> (r: Result<Option<Secret>, Self::Error>)
        ensures
            self.dependable() ==> r is Ok,
            self.modelled() ==> (r matches Ok(found) ==> match found {
                Some(secret) => lookup(self.records(), domain@) == Some(secret@),
                None => lookup(self.records(), domain@) is None,
            }),
    ;

    /// Stores `secret` under its own domain, in place of any record that was
    /// there.
    fn set(&mut self, secret: Secret) -> (r: Result<(), Self::Error>)
        ensures
            final(self).dependable() == old(self).dependable(),
            final(self).modelled() == old(self).modelled(),
            old(self).dependable() ==> r is Ok,
            old(self).modelled() && r is Ok ==> final(self).records() == old(
                self,
            ).records().insert(secret.domain@, secret@),
    ;

    /// Removes the record stored under `domain` and says whether there was
    /// one.
    fn delete(&mut self, domain: &str) -> (r: Result<bool, Self::Error>)
        ensures
            final(self).dependable() == old(self).dependable(),
            final(self).modelled() == old(self).modelled(),
            old(self).dependable() ==> r is Ok,
            old(self).modelled() ==> (r matches Ok(removed) ==> removed == old(
                self,
            ).records().contains_key(domain@) && final(self).records() == old(
                self,
            ).records().remove(domain@)),
    ;
}

/// `r` is a result that `get_all` may give on `storage`.
pub open spec fn admits_listing<S: Storage>(
    storage: S,
    r: Result<Vec<Secret>, S::Error>,
) -> bool {
    &&& storage.dependable() ==> r is Ok
    &&& storage.modelled() ==> (r matches Ok(listing) ==> holds_each_once(
        listing@,
        storage.records(),
    ))
}

/// `r` is a result that `get` may give on `storage` for `domain`.
pub open spec fn admits_lookup<S: Storage>(
    storage: S,
    domain: Seq<char>,
    r: Result<Option<Secret>, S::Error>,
) -> bool {
    &&& storage.dependable() ==> r is Ok
    &&& storage.modelled() ==> (r matches Ok(found) ==> match found {
        Some(secret) => lookup(storage.records(), domain) == Some(secret@),
        None => lookup(storage.records(), domain) is None,
    })
}

/// `r` is a result that `set` may give where storing `secret` takes the
/// backend from `before` to `after`.
pub open spec fn admits_store<S: Storage>(
    before: S,
    after: S,
    secret: SecretView,
    r: Result<(), S::Error>,
) -> bool {
    &&& after.dependable() == before.dependable()
    &&& after.modelled() == before.modelled()
    &&& before.dependable() ==> r is Ok
    &&& before.modelled() && r is Ok ==> after.records() == before.records().insert(
        secret.domain,
        secret,
    )
}

/// `r` is a result that `delete` may give where removing `domain` takes the
/// backend from `before` to `after`.
pub open spec fn admits_removal<S: Storage>(
    before: S,
    after: S,
    domain: Seq<char>,
    r: Result<bool, S::Error>,
) -> bool {
    &&& after.dependable() == before.dependable()
    &&& after.modelled() == before.modelled()
    &&& before.dependable() ==> r is Ok
    &&& before.modelled() ==> (r matches Ok(removed) ==> removed == before.records().contains_key(
        domain,
    ) && after.records() == before.records().remove(domain))
}

/// On a modelled backend, a record that was stored is the one that is then
/// found under its domain, equal in every field to what was stored.
pub proof fn lemma_set_then_get<S: Storage>(
    before: S,
    after: S,
    secret: SecretView,
    set: Result<(), S::Error>,
    got: Result<Option<Secret>, S::Error>,
)
    requires
        before.modelled(),
        admits_store(before, after, secret, set),
        admits_lookup(after, secret.domain, got),
        set is Ok,
        got is Ok,
    ensures
        got matches Ok(Some(found)) && found@ == secret,
{
    assert(after.records().contains_key(secret.domain));
}

/// On a modelled backend, storing a second record under a domain leaves the
/// backend as if the first had never been stored: the second is the one
/// found, and a listing holds it as its only record of that domain.
pub proof fn lemma_set_twice<S: Storage>(
    before: S,
    between: S,
    after: S,
    first: SecretView,
    second: SecretView,
    set_first: Result<(), S::Error>,
    set_second: Result<(), S::Error>,
    got: Result<Option<Secret>, S::Error>,
    listed: Result<Vec<Secret>, S::Error>,
)
    requires
        before.modelled(),
        first.domain == second.domain,
        admits_store(before, between, first, set_first),
        admits_store(between, after, second, set_second),
        admits_lookup(after, second.domain, got),
        admits_listing(after, listed),
        set_first is Ok,
        set_second is Ok,
        got is Ok,
        listed is Ok,
    ensures
        after.records() == before.records().insert(second.domain, second),
        got matches Ok(Some(found)) && found@ == second,
        domains(listed->Ok_0@).no_duplicates(),
        domains(listed->Ok_0@).contains(second.domain),
        forall|i: int|
            0 <= i < listed->Ok_0.len() && #[trigger] domains(listed->Ok_0@)[i] == second.domain
                ==> listed->Ok_0[i]@ == second,
{
    assert(after.records() =~= before.records().insert(second.domain, second));
    assert(after.records().contains_key(second.domain));
}

/// On a modelled backend, removing a domain says whether a record was stored
/// under it, and nothing is found under the domain afterwards.
pub proof fn lemma_delete_then_get<S: Storage>(
    before: S,
    after: S,
    domain: Seq<char>,
    deleted: Result<bool, S::Error>,
    got: Result<Option<Secret>, S::Error>,
)
    requires
        before.modelled(),
        admits_removal(before, after, domain, deleted),
        admits_lookup(after, domain, got),
        deleted is Ok,
        got is Ok,
    ensures
        deleted == Ok::<bool, S::Error>(before.records().contains_key(domain)),
        !before.records().contains_key(domain) ==> after.records() == before.records(),
        got == Ok::<Option<Secret>, S::Error>(None),
{
    if !before.records().contains_key(domain) {
        assert(before.records().remove(domain) =~= before.records());
    }
}

/// The mapping that a sequence of records with distinct domains stands for.
pub open spec fn records_of(records: Seq<Secret>) -> Map<Seq<char>, SecretView> {
    Map::new(
        |d: Seq<char>| domains(records).contains(d),
        |d: Seq<char>| records[domains(records).index_of(d)]@,
    )
}

/// A sequence of records with distinct domains lists its own mapping.
pub proof fn lemma_records_of_listing(records: Seq<Secret>)
    requires
        domains(records).no_duplicates(),
    ensures
        holds_each_once(records, records_of(records)),
        forall|i: int|
            0 <= i < records.len() ==> domains(records).index_of(#[trigger] domains(records)[i])
                == i,
{
    let ds = domains(records);
    assert forall|i: int| 0 <= i < records.len() implies ds.index_of(#[trigger] ds[i]) == i by {
        let j = ds.index_of(ds[i]);
        assert(ds.contains(ds[i]));
        assert(0 <= j < ds.len() && ds[j] == ds[i]);
    }
    assert forall|i: int| 0 <= i < records.len() implies records_of(records).contains_key(
        #[trigger] ds[i],
    ) && records_of(records)[ds[i]] == records[i]@ by {
        assert(ds.contains(ds[i]));
    }
}

/// Replacing a record by one of the same domain stores the new record
/// under that domain and leaves the others as they were.
proof fn lemma_replace(before: Seq<Secret>, i: int, secret: Secret)
    requires
        domains(before).no_duplicates(),
        0 <= i < before.len(),
        before[i].domain@ == secret.domain@,
    ensures
        domains(before.update(i, secret)).no_duplicates(),
        records_of(before.update(i, secret)) == records_of(before).insert(
            secret.domain@,
            secret@,
        ),
{
    let after = before.update(i, secret);
    assert(domains(after) =~= domains(before));
    lemma_records_of_listing(before);
    lemma_records_of_listing(after);
    assert(domains(before)[i] == secret.domain@);
    assert forall|d: Seq<char>| #[trigger] domains(before).contains(d) implies records_of(after)[d]
        == records_of(before).insert(secret.domain@, secret@)[d] by {
        let j = domains(before).index_of(d);
        assert(domains(before)[j] == d);
        assert(domains(after)[j] == d);
    }
    assert(records_of(after) =~= records_of(before).insert(secret.domain@, secret@));
}

/// Appending a record of a domain that was not there stores it and leaves
/// the others as they were.
proof fn lemma_append(before: Seq<Secret>, secret: Secret)
    requires
        domains(before).no_duplicates(),
        !domains(before).contains(secret.domain@),
    ensures
        domains(before.push(secret)).no_duplicates(),
        records_of(before.push(secret)) == records_of(before).insert(secret.domain@, secret@),
{
    let after = before.push(secret);
    assert(domains(after) =~= domains(before).push(secret.domain@));
    assert(domains(after).no_duplicates());
    lemma_records_of_listing(before);
    lemma_records_of_listing(after);
    assert(domains(after)[before.len() as int] == secret.domain@);
    assert forall|d: Seq<char>| #[trigger] domains(before).contains(d) implies domains(
        after,
    ).contains(d) && records_of(after)[d] == records_of(before)[d] by {
        let j = domains(before).index_of(d);
        assert(domains(before)[j] == d);
        assert(domains(after)[j] == d);
    }
    assert forall|d: Seq<char>| #[trigger] domains(after).contains(d) && d
        != secret.domain@ implies domains(before).contains(d) by {
        let j = domains(after).index_of(d);
        assert(domains(after)[j] == d);
        assert(domains(before)[j] == d);
    }
    assert(records_of(after) =~= records_of(before).insert(secret.domain@, secret@));
}

/// Taking a record out removes its domain and leaves the others as they
/// were.
proof fn lemma_remove(before: Seq<Secret>, i: int)
    requires
        domains(before).no_duplicates(),
        0 <= i < before.len(),
    ensures
        domains(before.remove(i)).no_duplicates(),
        records_of(before.remove(i)) == records_of(before).remove(before[i].domain@),
{
    let after = before.remove(i);
    let gone = before[i].domain@;
    assert(domains(after) =~= domains(before).remove(i));
    assert(domains(before)[i] == gone);
    assert(domains(after).no_duplicates());
    lemma_records_of_listing(before);
    lemma_records_of_listing(after);
    assert forall|d: Seq<char>| #[trigger] domains(before).contains(d) && d != gone implies domains(
        after,
    ).contains(d) && records_of(after)[d] == records_of(before)[d] by {
        let j = domains(before).index_of(d);
        assert(domains(before)[j] == d);
        let k = if j < i {
            j
        } else {
            j - 1
        };
        assert(domains(after)[k] == d);
    }
    assert forall|d: Seq<char>| #[trigger] domains(after).contains(d) implies domains(
        before,
    ).contains(d) && d != gone by {
        let k = domains(after).index_of(d);
        assert(domains(after)[k] == d);
        let j = if k < i {
            k
        } else {
            k + 1
        };
        assert(domains(before)[j] == d);
    }
    assert(records_of(after) =~= records_of(before).remove(gone));
}

/// The in-memory backend: the records themselves, no two with one domain.
/// Nothing survives the value, and no operation on it fails.
pub struct MemStorage {
    records: Vec<Secret>,
}

impl MemStorage {
    #[verifier::type_invariant]
    spec fn distinct(&self) -> bool {
        domains(self.records@).no_duplicates()
    }

    /// The records held, by domain.
    pub closed spec fn view(&self) -> Map<Seq<char>, SecretView> {
        records_of(self.records@)
    }

    /// An empty store.
    pub fn new() -> (r: Self)
        ensures
            r@ == Map::<Seq<char>, SecretView>::empty(),
    {
        let r = MemStorage { records: Vec::new() };
        assert(r@ =~= Map::<Seq<char>, SecretView>::empty());
        r
    }

    /// Where the record of `domain` stands, if there is one.
    fn position(&self, domain: &str) -> (r: Option<usize>)
        ensures
            match r {
                Some(i) => i < self.records.len() && self.records[i as int].domain@ == domain@,
                None => !domains(self.records@).contains(domain@),
            },
    {
        let key = String::from_str(domain);
        let mut i: usize = 0;
        while i < self.records.len()
            invariant
                i <= self.records.len(),
                key@ == domain@,
                forall|j: int| 0 <= j < i ==> self.records[j].domain@ != domain@,
            decreases self.records.len() - i,
        {
            if self.records[i].domain == key {
                return Some(i);
            }
            i += 1;
        }
        None
    }
}

impl Storage for MemStorage {
    type Error = Never;

    open spec fn records(&self) -> Map<Seq<char>, SecretView> {
        self@
    }

    open spec fn modelled(&self) -> bool {
        true
    }

    open spec fn dependable(&self) -> bool {
        true
    }

    fn get_all(&self) -> (r: Result<Vec<Secret>, Never>) {
        proof {
            use_type_invariant(self);
            lemma_records_of_listing(self.records@);
        }
        let mut listing: Vec<Secret> = Vec::new();
        let mut i: usize = 0;
        while i < self.records.len()
            invariant
                i <= self.records.len(),
                listing@ == self.records@.take(i as int),
            decreases self.records.len() - i,
        {
            listing.push(self.records[i].clone());
            assert(listing@ =~= self.records@.take(i + 1));
            i += 1;
        }
        assert(listing@ =~= self.records@);
        Ok(listing)
    }

    fn get(&self, domain: &str) -> (r: Result<Option<Secret>, Never>) {
        proof {
            use_type_invariant(self);
            lemma_records_of_listing(self.records@);
        }
        match self.position(domain) {
            Some(i) => {
                assert(domains(self.records@)[i as int] == domain@);
                Ok(Some(self.records[i].clone()))
            },
            None => Ok(None),
        }
    }

    fn set(&mut self, secret: Secret) -> (r: Result<(), Never>) {
        proof {
            use_type_invariant(&*self);
        }
        let ghost before = self.records@;
        let ghost added = secret;
        let found = self.position(secret.domain.as_str());
        let mut records: Vec<Secret> = Vec::new();
        core::mem::swap(&mut self.records, &mut records);
        match found {
            Some(i) => {
                records[i] = secret;
                proof {
                    lemma_replace(before, i as int, added);
                }
            },
            None => {
                records.push(secret);
                proof {
                    lemma_append(before, added);
                }
            },
        }
        self.records = records;
        Ok(())
    }

    fn delete(&mut self, domain: &str) -> (r: Result<bool, Never>) {
        proof {
            use_type_invariant(&*self);
        }
        let ghost before = self.records@;
        match self.position(domain) {
            Some(i) => {
                let mut records: Vec<Secret> = Vec::new();
                core::mem::swap(&mut self.records, &mut records);
                records.remove(i);
                proof {
                    lemma_remove(before, i as int);
                    assert(domains(before)[i as int] == domain@);
                }
                self.records = records;
                Ok(true)
            },
            None => {
                assert(records_of(before).remove(domain@) =~= records_of(before));
                Ok(false)
            },
        }
    }
}

} // verus!
