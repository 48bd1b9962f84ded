//! The registry's storage: the table of records, keyed by token, and the
//! table of discovery identifiers, each bound to one token.

use crate::record::{DomainRecord, RecordView};
use crate::text::opt_is;
use vstd::prelude::*;
use vstd::string::*;

verus! {

/// Why the store did not do what it was asked.
#[derive(Clone, Copy, Debug, PartialEq, Eq, Structural)]
pub enum StoreError {
    /// Nothing is stored under the key.
    NoRecord,
    /// The key is taken: a token or a discovery identifier names one entry.
    Rejected,
}

/// The records with a given public address.
pub open spec fn at_ip(ip: Seq<char>) -> spec_fn(RecordView) -> bool {
    |r: RecordView| r.public_ip == Some(ip)
}

/// The contents of a sequence of records.
pub open spec fn record_views(records: Seq<DomainRecord>) -> Seq<RecordView> {
    records.map_values(|r: DomainRecord| r@)
}

/// The mathematical content of a [`Store`]: the records in the order in
/// which they were added, and the token that each discovery identifier is
/// bound to.
#[verifier::ext_equal]
pub struct StoreView {
    pub records: Seq<RecordView>,
    pub discoveries: Map<Seq<char>, Seq<char>>,
}

impl StoreView {
    /// The store that holds nothing.
    pub open spec fn empty() -> StoreView {
        StoreView { records: Seq::empty(), discoveries: Map::empty() }
    }

    /// No token names two records.
    pub open spec fn well_formed(self) -> bool {
        forall|i: int, j: int|
            0 <= i < j < self.records.len() ==> (#[trigger] self.records[i]).token != (
            #[trigger] self.records[j]).token
    }

    /// No public name names two records.
    pub open spec fn names_unique(self) -> bool {
        forall|i: int, j: int|
            0 <= i < j < self.records.len() ==> (#[trigger] self.records[i]).remote_name != (
            #[trigger] self.records[j]).remote_name
    }

    /// Whether a record with this token is stored.
    pub open spec fn has_token(self, token: Seq<char>) -> bool {
        exists|i: int| 0 <= i < self.records.len() && (#[trigger] self.records[i]).token == token
    }

    /// Where the record with this token stands.
    pub open spec fn position(self, token: Seq<char>) -> int {
        choose|i: int| 0 <= i < self.records.len() && (#[trigger] self.records[i]).token == token
    }

    /// The record with this token.
    pub open spec fn record(self, token: Seq<char>) -> RecordView {
        self.records[self.position(token)]
    }

    /// Whether a record with this public name is stored.
    pub open spec fn has_name(self, name: Seq<char>) -> bool {
        exists|i: int|
            0 <= i < self.records.len() && (#[trigger] self.records[i]).remote_name == name
    }

    /// Whether `i` is the place of the first record with this public name.
    pub open spec fn is_first_named(self, name: Seq<char>, i: int) -> bool {
        &&& 0 <= i < self.records.len()
        &&& self.records[i].remote_name == name
        &&& forall|j: int| 0 <= j < i ==> (#[trigger] self.records[j]).remote_name != name
    }

    /// The first record with this public name.
    pub open spec fn named(self, name: Seq<char>) -> RecordView {
        self.records[choose|i: int| self.is_first_named(name, i)]
    }

    /// The records with this public address, in the store's order.
    pub open spec fn at_public_ip(self, ip: Seq<char>) -> Seq<RecordView> {
        self.records.filter(at_ip(ip))
    }

    /// This store with one more record, placed last.
    pub open spec fn insert(self, record: RecordView) -> StoreView {
        StoreView { records: self.records.push(record), ..self }
    }

    /// This store with the record of `record.token` replaced by `record`.
    pub open spec fn replace(self, record: RecordView) -> StoreView {
        StoreView { records: self.records.update(self.position(record.token), record), ..self }
    }

    /// This store without the record of `token`.
    pub open spec fn remove(self, token: Seq<char>) -> StoreView {
        if self.has_token(token) {
            StoreView { records: self.records.remove(self.position(token)), ..self }
        } else {
            self
        }
    }

    /// This store with `id` bound to `token`.
    pub open spec fn bind(self, id: Seq<char>, token: Seq<char>) -> StoreView {
        StoreView { discoveries: self.discoveries.insert(id, token), ..self }
    }

    /// This store with `id` bound to nothing.
    pub open spec fn unbind(self, id: Seq<char>) -> StoreView {
        StoreView { discoveries: self.discoveries.remove(id), ..self }
    }
}

impl StoreView {
    /// In a well-formed store a record is found where it stands.
    pub proof fn lemma_position(self, i: int)
        requires
            self.well_formed(),
            0 <= i < self.records.len(),
        ensures
            self.has_token(self.records[i].token),
            self.position(self.records[i].token) == i,
            self.record(self.records[i].token) == self.records[i],
    {
        let p = self.position(self.records[i].token);
        assert(self.records[p].token == self.records[i].token);
    }

    /// An inserted record is found under its token, and every other token
    /// leads where it led.
    pub proof fn lemma_insert(self, record: RecordView, token: Seq<char>)
        requires
            self.well_formed(),
            !self.has_token(record.token),
        ensures
            self.insert(record).well_formed(),
            self.insert(record).has_token(token) <==> token == record.token || self.has_token(
                token,
            ),
            self.insert(record).has_token(token) ==> self.insert(record).record(token) == if token
                == record.token {
                record
            } else {
                self.record(token)
            },
    {
        let after = self.insert(record);
        let last = self.records.len() as int;
        assert(after.records[last] == record);
        assert forall|i: int, j: int| 0 <= i < j < after.records.len() implies (
        #[trigger] after.records[i]).token != (#[trigger] after.records[j]).token by {
            assert(after.records[i] == self.records[i]);
            if j < last {
                assert(after.records[j] == self.records[j]);
            }
        }
        if self.has_token(token) {
            let p = self.position(token);
            assert(after.records[p] == self.records[p]);
            after.lemma_position(p);
        }
        if token == record.token {
            after.lemma_position(last);
        }
        if after.has_token(token) && token != record.token {
            let p = after.position(token);
            assert(after.records[p] == self.records[p]);
        }
    }

    /// A replaced record is found under its token, and every other token
    /// leads where it led.
    pub proof fn lemma_replace(self, record: RecordView, token: Seq<char>)
        requires
            self.well_formed(),
            self.has_token(record.token),
        ensures
            self.replace(record).well_formed(),
            self.replace(record).has_token(token) <==> self.has_token(token),
            self.has_token(token) ==> self.replace(record).record(token) == if token
                == record.token {
                record
            } else {
                self.record(token)
            },
    {
        let after = self.replace(record);
        let at = self.position(record.token);
        assert(after.records[at] == record);
        assert forall|i: int, j: int| 0 <= i < j < after.records.len() implies (
        #[trigger] after.records[i]).token != (#[trigger] after.records[j]).token by {
            assert(after.records[i].token == self.records[i].token);
            assert(after.records[j].token == self.records[j].token);
        }
        after.lemma_position(at);
        if self.has_token(token) {
            let p = self.position(token);
            assert(after.records[p].token == token);
            after.lemma_position(p);
        }
        if after.has_token(token) {
            let p = after.position(token);
            assert(self.records[p].token == token);
            self.lemma_position(p);
        }
    }

    /// A removed record is not found, and every other token leads where
    /// it led.
    pub proof fn lemma_remove(self, removed: Seq<char>, token: Seq<char>)
        requires
            self.well_formed(),
        ensures
            self.remove(removed).well_formed(),
            self.remove(removed).has_token(token) <==> token != removed && self.has_token(token),
            self.remove(removed).has_token(token) ==> self.remove(removed).record(token)
                == self.record(token),
    {
        let after = self.remove(removed);
        if self.has_token(removed) {
            let at = self.position(removed);
            assert forall|i: int| 0 <= i < after.records.len() implies #[trigger] after.records[i]
                == self.records[if i < at {
                i
            } else {
                i + 1
            }] by {}
            assert forall|i: int, j: int| 0 <= i < j < after.records.len() implies (
            #[trigger] after.records[i]).token != (#[trigger] after.records[j]).token by {
                let a = if i < at { i } else { i + 1 };
                let b = if j < at { j } else { j + 1 };
                assert(self.records[a].token != self.records[b].token);
            }
            if after.has_token(token) {
                let p = after.position(token);
                let q = if p < at { p } else { p + 1 };
                assert(self.records[q].token == token);
                self.lemma_position(q);
                self.lemma_position(at);
                after.lemma_position(p);
            }
            if token != removed && self.has_token(token) {
                let q = self.position(token);
                let p = if q < at { q } else { q - 1 };
                assert(after.records[p] == self.records[q]);
                after.lemma_position(p);
            }
        }
    }
}

/// One discovery identifier and the token it is bound to.
struct Binding {
    id: String,
    token: String,
}

/// The registry's storage, held in memory.
///
/// Tokens are the key of the records and discovery identifiers the key of
/// the bindings: the store never holds two entries under one key. A binding
/// may outlive the record of its token.
pub struct Store {
    records: Vec<DomainRecord>,
    bindings: Vec<Binding>,
}

impl View for Store {
    type V = StoreView;

    closed spec fn view(&self) -> StoreView {
        StoreView {
            records: record_views(self.records@),
            discoveries: Map::new(
                |id: Seq<char>| self.binds(id),
                |id: Seq<char>| self.bindings[self.binding_of(id)].token@,
            ),
        }
    }
}

impl Store {
    spec fn binds(&self, id: Seq<char>) -> bool {
        exists|i: int| 0 <= i < self.bindings.len() && (#[trigger] self.bindings[i]).id@ == id
    }

    spec fn binding_of(&self, id: Seq<char>) -> int {
        choose|i: int| 0 <= i < self.bindings.len() && (#[trigger] self.bindings[i]).id@ == id
    }

    /// No token names two records and no identifier two bindings.
    #[verifier::type_invariant]
    pub(crate) closed spec fn keys_distinct(&self) -> bool {
        &&& forall|i: int, j: int|
            0 <= i < j < self.records.len() ==> (#[trigger] self.records[i]).token@ != (
            #[trigger] self.records[j]).token@
        &&& forall|i: int, j: int|
            0 <= i < j < self.bindings.len() ==> (#[trigger] self.bindings[i]).id@ != (
            #[trigger] self.bindings[j]).id@
    }

    /// An empty store.
    pub fn new() -> (store: Store)
        ensures
            store@ == StoreView::empty(),
    {
        let store = Store { records: Vec::new(), bindings: Vec::new() };
        assert(store@.records =~= Seq::empty());
        assert(store@.discoveries =~= Map::empty());
        store
    }

    /// A store whose keys are distinct has a well-formed content.
    pub(crate) proof fn lemma_well_formed(&self)
        requires
            self.keys_distinct(),
        ensures
            self@.well_formed(),
    {
        assert forall|i: int, j: int| 0 <= i < j < self@.records.len() implies (
        #[trigger] self@.records[i]).token != (#[trigger] self@.records[j]).token by {
            assert(self.records[i].token@ != self.records[j].token@);
        }
    }

    /// The place of the record with this token, if there is one.
    fn find_token(&self, token: &String) -> (found: Option<usize>)
        ensures
            self@.well_formed(),
            match found {
                Some(i) => i < self.records.len() && self.records[i as int].token@ == token@
                    && self@.has_token(token@) && self@.position(token@) == i,
                None => !self@.has_token(token@),
            },
    {
        proof {
            use_type_invariant(self);
            self.lemma_well_formed();
        }
        let mut i: usize = 0;
        while i < self.records.len()
            invariant
                i <= self.records.len(),
                self@.well_formed(),
                self@.records == record_views(self.records@),
                forall|j: int| 0 <= j < i ==> (#[trigger] self@.records[j]).token != token@,
            decreases self.records.len() - i,
        {
            if self.records[i].token == *token {
                assert(self@.records[i as int].token == token@);
                return Some(i);
            }
            i += 1;
        }
        None
    }

    /// The place of the binding of this identifier, if there is one.
    fn find_binding(&self, id: &String) -> (found: Option<usize>)
        ensures
            match found {
                Some(i) => i < self.bindings.len() && self.bindings[i as int].id@ == id@
                    && self.binds(id@) && self.binding_of(id@) == i,
                None => !self.binds(id@),
            },
    {
        proof {
            use_type_invariant(self);
        }
        let mut i: usize = 0;
        while i < self.bindings.len()
            invariant
                i <= self.bindings.len(),
                self.keys_distinct(),
                forall|j: int| 0 <= j < i ==> (#[trigger] self.bindings[j]).id@ != id@,
            decreases self.bindings.len() - i,
        {
            if self.bindings[i].id == *id {
                return Some(i);
            }
            i += 1;
        }
        None
    }

    /// The record stored under `token`.
    pub fn get_record_by_token(&self, token: &str) -> (r: Result<DomainRecord, StoreError>)
        ensures
            self@.well_formed(),
            match r {
                Ok(record) => self@.has_token(token@) && record@ == self@.record(token@),
                Err(e) => e == StoreError::NoRecord && !self@.has_token(token@),
            },
    {
        let key = String::from_str(token);
        match self.find_token(&key) {
            Some(i) => Ok(self.records[i].clone()),
            None => Err(StoreError::NoRecord),
        }
    }

    /// The first record whose public name is `name`.
    pub fn get_record_by_name(&self, name: &str) -> (r: Result<DomainRecord, StoreError>)
        ensures
            self@.well_formed(),
            match r {
                Ok(record) => self@.has_name(name@) && record@ == self@.named(name@),
                Err(e) => e == StoreError::NoRecord && !self@.has_name(name@),
            },
    {
        proof {
            use_type_invariant(self);
            self.lemma_well_formed();
        }
        let key = String::from_str(name);
        let mut i: usize = 0;
        while i < self.records.len()
            invariant
                i <= self.records.len(),
                key@ == name@,
                self@.well_formed(),
                self@.records == record_views(self.records@),
                forall|j: int| 0 <= j < i ==> (#[trigger] self@.records[j]).remote_name != name@,
            decreases self.records.len() - i,
        {
            if self.records[i].remote_name == key {
                proof {
                    let first = choose|k: int| self@.is_first_named(name@, k);
                    assert(self@.is_first_named(name@, i as int));
                    assert(self@.records[first].remote_name == name@);
                    assert(first == i);
                }
                return Ok(self.records[i].clone());
            }
            i += 1;
        }
        Err(StoreError::NoRecord)
    }

    /// Every record whose public address is `public_ip`, in the store's
    /// order.
    pub fn get_records_by_public_ip(&self, public_ip: &str) -> (found: Vec<DomainRecord>)
        ensures
            self@.well_formed(),
            record_views(found@) == self@.at_public_ip(public_ip@),
    {
        proof {
            use_type_invariant(self);
            self.lemma_well_formed();
        }
        let key = String::from_str(public_ip);
        let ghost all = self@.records;
        let mut found: Vec<DomainRecord> = Vec::new();
        let mut i: usize = 0;
        assert(all.take(0) =~= Seq::empty());
        while i < self.records.len()
            invariant
                i <= self.records.len(),
                key@ == public_ip@,
                all == record_views(self.records@),
                record_views(found@) =~= all.take(i as int).filter(at_ip(public_ip@)),
            decreases self.records.len() - i,
        {
            let ghost before = found@;
            if opt_is(&self.records[i].public_ip, &key) {
                found.push(self.records[i].clone());
                assert(record_views(found@) =~= record_views(before).push(all[i as int]));
            }
            proof {
                assert(all.take(i + 1) =~= all.take(i as int).push(all[i as int]));
                all.take(i as int).lemma_filter_push(all[i as int], at_ip(public_ip@));
            }
            i += 1;
        }
        assert(all.take(i as int) =~= all);
        found
    }

    /// Stores a new record, after those already stored. A record whose
    /// token is taken is rejected and the store stays as it was.
    pub fn add_record(&mut self, record: DomainRecord) -> (r: Result<(), StoreError>)
        ensures
            final(self)@.well_formed(),
            match r {
                Ok(()) => !old(self)@.has_token(record@.token) && final(self)@ == old(self)@.insert(
                    record@,
                ),
                Err(e) => e == StoreError::Rejected && old(self)@.has_token(record@.token)
                    && final(self)@ == old(self)@,
            },
    {
        match self.find_token(&record.token) {
            Some(_) => Err(StoreError::Rejected),
            None => {
                proof {
                    use_type_invariant(&*self);
                }
                let ghost before = self.records@;
                let mut records: Vec<DomainRecord> = Vec::new();
                std::mem::swap(&mut records, &mut self.records);
                records.push(record);
                proof {
                    assert forall|i: int| 0 <= i < before.len() implies (
                    #[trigger] records[i]).token@ != record.token@ by {
                        assert(old(self)@.records[i].token == before[i].token@);
                    }
                }
                self.records = records;
                proof {
                    assert(record_views(self.records@) =~= record_views(before).push(record@));
                    assert(self@.discoveries =~= old(self)@.discoveries);
                    self.lemma_well_formed();
                }
                Ok(())
            },
        }
    }

    /// Replaces the record stored under `record.token` by `record`, whole.
    pub fn update_record(&mut self, record: DomainRecord) -> (r: Result<(), StoreError>)
        ensures
            final(self)@.well_formed(),
            match r {
                Ok(()) => old(self)@.has_token(record@.token) && final(self)@ == old(
                    self,
                )@.replace(record@),
                Err(e) => e == StoreError::NoRecord && !old(self)@.has_token(record@.token)
                    && final(self)@ == old(self)@,
            },
    {
        match self.find_token(&record.token) {
            Some(i) => {
                proof {
                    use_type_invariant(&*self);
                }
                let ghost before = self.records@;
                let mut records: Vec<DomainRecord> = Vec::new();
                std::mem::swap(&mut records, &mut self.records);
                records.set(i, record);
                self.records = records;
                proof {
                    assert(record_views(self.records@) =~= record_views(before).update(
                        i as int,
                        record@,
                    ));
                    assert(self@.discoveries =~= old(self)@.discoveries);
                    self.lemma_well_formed();
                }
                Ok(())
            },
            None => Err(StoreError::NoRecord),
        }
    }

    /// Deletes the record stored under `token` and says how many records
    /// were deleted.
    pub fn delete_record_by_token(&mut self, token: &str) -> (deleted: usize)
        ensures
            final(self)@.well_formed(),
            final(self)@ == old(self)@.remove(token@),
            deleted == if old(self)@.has_token(token@) { 1usize } else { 0usize },
    {
        let key = String::from_str(token);
        match self.find_token(&key) {
            Some(i) => {
                proof {
                    use_type_invariant(&*self);
                }
                let ghost before = self.records@;
                let mut records: Vec<DomainRecord> = Vec::new();
                std::mem::swap(&mut records, &mut self.records);
                records.remove(i);
                self.records = records;
                proof {
                    assert(record_views(self.records@) =~= record_views(before).remove(i as int));
                    assert(self@.discoveries =~= old(self)@.discoveries);
                    self.lemma_well_formed();
                }
                1
            },
            None => 0,
        }
    }

    proof fn lemma_binding(&self, i: int)
        requires
            self.keys_distinct(),
            0 <= i < self.bindings.len(),
        ensures
            self.binds(self.bindings[i].id@),
            self.binding_of(self.bindings[i].id@) == i,
            self@.discoveries.dom().contains(self.bindings[i].id@),
            self@.discoveries[self.bindings[i].id@] == self.bindings[i].token@,
    {
    }

    /// Binds the discovery identifier `id` to `token`. An identifier that
    /// is bound already is rejected and the store stays as it was.
    pub fn add_discovery(&mut self, token: &str, id: &str) -> (r: Result<(), StoreError>)
        ensures
            final(self)@.well_formed(),
            match r {
                Ok(()) => !old(self)@.discoveries.dom().contains(id@) && final(self)@ == old(
                    self,
                )@.bind(id@, token@),
                Err(e) => e == StoreError::Rejected && old(self)@.discoveries.dom().contains(id@)
                    && final(self)@ == old(self)@,
            },
    {
        proof {
            use_type_invariant(&*self);
            self.lemma_well_formed();
        }
        let binding = Binding { id: String::from_str(id), token: String::from_str(token) };
        match self.find_binding(&binding.id) {
            Some(_) => Err(StoreError::Rejected),
            None => {
                let mut bindings: Vec<Binding> = Vec::new();
                std::mem::swap(&mut bindings, &mut self.bindings);
                bindings.push(binding);
                self.bindings = bindings;
                proof {
                    self.lemma_well_formed();
                    let last = self.bindings.len() - 1;
                    assert forall|k: Seq<char>|
                        self@.discoveries.dom().contains(k) <==> old(self)@.discoveries.insert(
                            id@,
                            token@,
                        ).dom().contains(k) by {
                        if old(self).binds(k) {
                            let i = old(self).binding_of(k);
                            assert(self.bindings[i].id@ == k);
                        }
                        if k == id@ {
                            assert(self.bindings[last].id@ == k);
                        }
                    }
                    assert forall|k: Seq<char>| self@.discoveries.dom().contains(k) implies (
                    #[trigger] self@.discoveries[k]) == old(self)@.discoveries.insert(
                        id@,
                        token@,
                    )[k] by {
                        let i = self.binding_of(k);
                        self.lemma_binding(i);
                        if i < last {
                            old(self).lemma_binding(i);
                        }
                    }
                    assert(self@.discoveries =~= old(self)@.discoveries.insert(id@, token@));
                }
                Ok(())
            },
        }
    }

    /// Unbinds the discovery identifier `id` and says how many bindings
    /// were deleted.
    pub fn delete_discovery(&mut self, id: &str) -> (deleted: usize)
        ensures
            final(self)@.well_formed(),
            final(self)@ == old(self)@.unbind(id@),
            deleted == if old(self)@.discoveries.dom().contains(id@) { 1usize } else { 0usize },
    {
        proof {
            use_type_invariant(&*self);
            self.lemma_well_formed();
        }
        let key = String::from_str(id);
        match self.find_binding(&key) {
            Some(at) => {
                let mut bindings: Vec<Binding> = Vec::new();
                std::mem::swap(&mut bindings, &mut self.bindings);
                bindings.remove(at);
                self.bindings = bindings;
                proof {
                    self.lemma_well_formed();
                    assert forall|k: Seq<char>|
                        self@.discoveries.dom().contains(k) <==> old(self)@.discoveries.remove(
                            id@,
                        ).dom().contains(k) by {
                        if old(self).binds(k) && k != id@ {
                            let i = old(self).binding_of(k);
                            if i < at {
                                assert(self.bindings[i].id@ == k);
                            } else {
                                assert(self.bindings[i - 1].id@ == k);
                            }
                        }
                        if self.binds(k) {
                            let i = self.binding_of(k);
                            if i < at {
                                assert(old(self).bindings[i].id@ == k);
                            } else {
                                assert(old(self).bindings[i + 1].id@ == k);
                            }
                        }
                    }
                    assert forall|k: Seq<char>| self@.discoveries.dom().contains(k) implies (
                    #[trigger] self@.discoveries[k]) == old(self)@.discoveries.remove(id@)[k] by {
                        let i = self.binding_of(k);
                        self.lemma_binding(i);
                        if i < at {
                            old(self).lemma_binding(i);
                        } else {
                            old(self).lemma_binding(i + 1);
                        }
                    }
                    assert(self@.discoveries =~= old(self)@.discoveries.remove(id@));
                }
                1
            },
            None => {
                assert(self@.discoveries =~= old(self)@.discoveries.remove(id@));
                0
            },
        }
    }

    /// The token that the discovery identifier `id` is bound to.
    pub fn get_token_for_discovery(&self, id: &str) -> (r: Result<String, StoreError>)
        ensures
            self@.well_formed(),
            match r {
                Ok(token) => self@.discoveries.dom().contains(id@) && token@
                    == self@.discoveries[id@],
                Err(e) => e == StoreError::NoRecord && !self@.discoveries.dom().contains(id@),
            },
    {
        proof {
            use_type_invariant(self);
            self.lemma_well_formed();
        }
        let key = String::from_str(id);
        match self.find_binding(&key) {
            Some(i) => Ok(self.bindings[i].token.clone()),
            None => Err(StoreError::NoRecord),
        }
    }
}

} // verus!
