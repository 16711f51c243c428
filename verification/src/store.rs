//! The persisted key-value store.
//!
//! The store is the mapping from keys to stored bytes, and the rules by which
//! it changes. Reading and writing the backing resource is the caller's part:
//! the caller hands over what the resource held when it was opened, and
//! writes back what `entries` gives after each change. A value is stored
//! obfuscated and is decoded and checked when it is read.

use crate::codec::{
    decode, decode_inverts_encode, decoded, decrypt_data, encode, encoded, encrypt_data,
    SerializedValue,
};
use crate::json::{is_json, json_flag, read_json_flag};
use vstd::prelude::*;
use vstd::string::StringSliceAdditionalSpecFns;

verus! {

/// The reserved key under which the schema record lives.
pub const SCHEMA_KEY: &'static str = "system";

/// The member of the schema record that says whether the store was
/// initialised.
pub const SCHEMA_FLAG: &'static str = "initialized";

/// The schema record that initialisation writes.
pub const DEFAULT_SCHEMA_RECORD: &'static str =
    "{\"version\":\"1.0.0\",\"initialized\":true,\"darkTheme\":true,\"hideHeaderBar\":true,\"expandSideBar\":false}";

/// Why the store could not answer.
#[derive(Clone, Copy, Debug, PartialEq, Eq, Structural)]
pub enum StoreError {
    /// The backing resource could not be opened or created.
    Unavailable,
    /// The bytes stored under the key do not decode to a value.
    Corrupt,
}

/// What initialisation did.
#[derive(Clone, Copy, Debug, PartialEq, Eq, Structural)]
pub enum InitOutcome {
    /// The schema record was there and said so: nothing was written.
    AlreadyInitialized,
    /// The default schema record was written under the reserved key.
    WroteDefault,
}

/// One key of the store with the obfuscated bytes stored under it.
#[derive(Clone, Debug, PartialEq, Eq)]
pub struct StoreEntry {
    pub key: String,
    pub stored: Vec<u8>,
}

impl StoreEntry {
    /// The entry that holds `value` under `key`: the value is stored
    /// obfuscated, and decoding what is stored gives it back.
    pub fn seal(key: &str, value: &SerializedValue) -> (entry: StoreEntry)
        ensures
            entry.key@ == key@,
            entry.stored@ == encoded(value@),
            decoded(entry.stored@) == value@,
    {
        StoreEntry { key: key.to_owned(), stored: encrypt_data(value) }
    }

    /// The value that the entry holds, or `Corrupt` where the stored bytes do
    /// not decode to one.
    pub fn unseal(&self) -> (value: Result<SerializedValue, StoreError>)
        ensures
            match value {
                Ok(v) => v@ == decoded(self.stored@) && is_json(decoded(self.stored@)),
                Err(e) => e == StoreError::Corrupt && !is_json(decoded(self.stored@)),
            },
    {
        match decrypt_data(self.stored.as_slice()) {
            Ok(v) => Ok(v),
            Err(_) => Err(StoreError::Corrupt),
        }
    }
}

/// The bytes of the default schema record.
pub open spec fn default_record() -> Seq<u8> {
    DEFAULT_SCHEMA_RECORD.spec_bytes()
}

/// Whether the schema record `record` says that the store was initialised: it
/// is the default record itself, or a JSON object whose member `initialized`
/// is `true`.
pub open spec fn reads_initialized(record: Seq<u8>) -> bool {
    record == default_record() || json_flag(record, SCHEMA_FLAG@) == Some(true)
}

/// Whether the mapping `stored` holds a schema record that says that the store
/// was initialised.
pub open spec fn schema_ready(stored: Map<Seq<char>, Seq<u8>>) -> bool {
    stored.contains_key(SCHEMA_KEY@) && reads_initialized(decoded(stored[SCHEMA_KEY@]))
}

/// The mapping after initialisation: untouched where the schema is ready, and
/// with the default record under the reserved key where it is not.
pub open spec fn after_init(stored: Map<Seq<char>, Seq<u8>>) -> Map<Seq<char>, Seq<u8>> {
    if schema_ready(stored) {
        stored
    } else {
        stored.insert(SCHEMA_KEY@, encoded(default_record()))
    }
}

/// The mapping after `value` was set under `key`.
pub open spec fn after_set(stored: Map<Seq<char>, Seq<u8>>, key: Seq<char>, value: Seq<u8>) -> Map<
    Seq<char>,
    Seq<u8>,
> {
    stored.insert(key, encoded(value))
}

/// The mapping after `key` was deleted.
pub open spec fn after_delete(stored: Map<Seq<char>, Seq<u8>>, key: Seq<char>) -> Map<
    Seq<char>,
    Seq<u8>,
> {
    stored.remove(key)
}

/// What reading `key` gives: nothing for a key that is not there, the decoded
/// bytes where they are a value, and `Corrupt` where they are not.
pub open spec fn read_at(stored: Map<Seq<char>, Seq<u8>>, key: Seq<char>) -> Result<
    Option<Seq<u8>>,
    StoreError,
> {
    if !stored.contains_key(key) {
        Ok(None)
    } else if is_json(decoded(stored[key])) {
        Ok(Some(decoded(stored[key])))
    } else {
        Err(StoreError::Corrupt)
    }
}

/// The mapping that a run of entries stands for. Of two entries with one key
/// the later counts.
pub open spec fn loaded_from(entries: Seq<StoreEntry>) -> Map<Seq<char>, Seq<u8>>
    decreases entries.len(),
{
    if entries.len() == 0 {
        Map::empty()
    } else {
        loaded_from(entries.drop_last()).insert(entries.last().key@, entries.last().stored@)
    }
}

/// Whether entry `i` of `entries` is the one for `key`.
pub open spec fn holds_key(entries: Seq<StoreEntry>, key: Seq<char>, i: int) -> bool {
    0 <= i < entries.len() && entries[i].key@ == key
}

/// Whether no two of `entries` have one key.
pub open spec fn distinct_keys(entries: Seq<StoreEntry>) -> bool {
    forall|i: int, j: int| 0 <= i < j < entries.len() ==> entries[i].key@ != entries[j].key@
}

/// The mapping that entries with distinct keys stand for.
pub open spec fn mapping_of(entries: Seq<StoreEntry>) -> Map<Seq<char>, Seq<u8>> {
    Map::new(
        |key: Seq<char>| exists|i: int| holds_key(entries, key, i),
        |key: Seq<char>| entries[choose|i: int| holds_key(entries, key, i)].stored@,
    )
}

proof fn mapping_has_entry(entries: Seq<StoreEntry>, i: int)
    requires
        distinct_keys(entries),
        0 <= i < entries.len(),
    ensures
        mapping_of(entries).contains_key(entries[i].key@),
        mapping_of(entries)[entries[i].key@] == entries[i].stored@,
{
    let key = entries[i].key@;
    assert(holds_key(entries, key, i));
    let chosen = choose|j: int| holds_key(entries, key, j);
    assert(holds_key(entries, key, chosen));
    assert(chosen == i);
}

proof fn mapping_after_push(entries: Seq<StoreEntry>, entry: StoreEntry)
    requires
        distinct_keys(entries),
        forall|i: int| !holds_key(entries, entry.key@, i),
    ensures
        distinct_keys(entries.push(entry)),
        mapping_of(entries.push(entry)) == mapping_of(entries).insert(entry.key@, entry.stored@),
{
    let longer = entries.push(entry);
    assert forall|i: int, j: int| 0 <= i < j < longer.len() implies longer[i].key@
        != longer[j].key@ by {
        if j == entries.len() {
            assert(!holds_key(entries, entry.key@, i));
        }
    }
    let target = mapping_of(entries).insert(entry.key@, entry.stored@);
    assert forall|key: Seq<char>| mapping_of(longer).contains_key(key) <==> target.contains_key(
        key,
    ) by {
        if mapping_of(longer).contains_key(key) {
            let i = choose|i: int| holds_key(longer, key, i);
            if i < entries.len() {
                assert(holds_key(entries, key, i));
            }
        }
        if target.contains_key(key) {
            if key == entry.key@ {
                assert(holds_key(longer, key, entries.len() as int));
            } else {
                let i = choose|i: int| holds_key(entries, key, i);
                assert(holds_key(longer, key, i));
            }
        }
    }
    assert forall|key: Seq<char>| mapping_of(longer).contains_key(key) implies mapping_of(
        longer,
    )[key] == target[key] by {
        let i = choose|i: int| holds_key(longer, key, i);
        mapping_has_entry(longer, i);
        if i < entries.len() {
            mapping_has_entry(entries, i);
        }
    }
    assert(mapping_of(longer) =~= target);
}

proof fn mapping_after_update(entries: Seq<StoreEntry>, at: int, entry: StoreEntry)
    requires
        distinct_keys(entries),
        holds_key(entries, entry.key@, at),
    ensures
        distinct_keys(entries.update(at, entry)),
        mapping_of(entries.update(at, entry)) == mapping_of(entries).insert(
            entry.key@,
            entry.stored@,
        ),
{
    let changed = entries.update(at, entry);
    assert forall|i: int, j: int| 0 <= i < j < changed.len() implies changed[i].key@
        != changed[j].key@ by {
        assert(changed[i].key@ == entries[i].key@);
        assert(changed[j].key@ == entries[j].key@);
    }
    let target = mapping_of(entries).insert(entry.key@, entry.stored@);
    assert forall|key: Seq<char>| mapping_of(changed).contains_key(key) <==> target.contains_key(
        key,
    ) by {
        if mapping_of(changed).contains_key(key) {
            let i = choose|i: int| holds_key(changed, key, i);
            assert(holds_key(entries, key, i));
        }
        if target.contains_key(key) {
            if key == entry.key@ {
                assert(holds_key(changed, key, at));
            } else {
                let i = choose|i: int| holds_key(entries, key, i);
                assert(holds_key(changed, key, i));
            }
        }
    }
    assert forall|key: Seq<char>| mapping_of(changed).contains_key(key) implies mapping_of(
        changed,
    )[key] == target[key] by {
        let i = choose|i: int| holds_key(changed, key, i);
        mapping_has_entry(changed, i);
        if i != at {
            mapping_has_entry(entries, i);
        }
    }
    assert(mapping_of(changed) =~= target);
}

proof fn mapping_after_remove(entries: Seq<StoreEntry>, at: int)
    requires
        distinct_keys(entries),
        0 <= at < entries.len(),
    ensures
        distinct_keys(entries.remove(at)),
        mapping_of(entries.remove(at)) == mapping_of(entries).remove(entries[at].key@),
{
    let shorter = entries.remove(at);
    let gone = entries[at].key@;
    assert forall|i: int| 0 <= i < shorter.len() implies shorter[i] == entries[if i < at {
        i
    } else {
        i + 1
    }] by {}
    assert forall|i: int, j: int| 0 <= i < j < shorter.len() implies shorter[i].key@
        != shorter[j].key@ by {
        let from_i = if i < at { i } else { i + 1 };
        let from_j = if j < at { j } else { j + 1 };
        assert(shorter[i] == entries[from_i]);
        assert(shorter[j] == entries[from_j]);
    }
    let target = mapping_of(entries).remove(gone);
    assert forall|key: Seq<char>| mapping_of(shorter).contains_key(key) <==> target.contains_key(
        key,
    ) by {
        if mapping_of(shorter).contains_key(key) {
            let i = choose|i: int| holds_key(shorter, key, i);
            let from = if i < at { i } else { i + 1 };
            assert(shorter[i] == entries[from]);
            assert(holds_key(entries, key, from));
        }
        if target.contains_key(key) {
            let i = choose|i: int| holds_key(entries, key, i);
            assert(i != at);
            let to = if i < at { i } else { i - 1 };
            assert(shorter[to] == entries[i]);
            assert(holds_key(shorter, key, to));
        }
    }
    assert forall|key: Seq<char>| mapping_of(shorter).contains_key(key) implies mapping_of(
        shorter,
    )[key] == target[key] by {
        let i = choose|i: int| holds_key(shorter, key, i);
        let from = if i < at { i } else { i + 1 };
        assert(shorter[i] == entries[from]);
        mapping_has_entry(shorter, i);
        mapping_has_entry(entries, from);
    }
    assert(mapping_of(shorter) =~= target);
}

/// Whether two runs of bytes are the same.
fn same_bytes(left: &[u8], right: &[u8]) -> (same: bool)
    ensures
        same == (left@ == right@),
{
    if left.len() != right.len() {
        return false;
    }
    let mut i: usize = 0;
    while i < left.len()
        invariant
            left@.len() == right@.len(),
            i <= left.len(),
            forall|j: int| 0 <= j < i ==> left@[j] == right@[j],
        decreases left.len() - i,
    {
        if left[i] != right[i] {
            return false;
        }
        i += 1;
    }
    assert(left@ =~= right@);
    true
}

/// Decides whether the schema record `record` says that the store was
/// initialised.
pub fn says_initialized(record: &[u8]) -> (ready: bool)
    ensures
        ready == reads_initialized(record@),
{
    if same_bytes(record, DEFAULT_SCHEMA_RECORD.as_bytes()) {
        true
    } else {
        match read_json_flag(record, SCHEMA_FLAG) {
            Some(flag) => flag,
            None => false,
        }
    }
}

/// The store: the mapping from keys to stored bytes, whether its backing
/// resource was found, and whether it was initialised.
pub struct PersistentStore {
    found: bool,
    opened: bool,
    entries: Vec<StoreEntry>,
}

impl View for PersistentStore {
    type V = Map<Seq<char>, Seq<u8>>;

    /// The stored bytes under each key.
    closed spec fn view(&self) -> Map<Seq<char>, Seq<u8>> {
        mapping_of(self.entries@)
    }
}

impl PersistentStore {
    /// What holds of every store: no key occurs twice, and only a store whose
    /// backing resource was found is open.
    pub closed spec fn wf(&self) -> bool {
        &&& distinct_keys(self.entries@)
        &&& self.opened ==> self.found
    }

    /// Whether the backing resource was there to be opened.
    pub closed spec fn resource_found(&self) -> bool {
        self.found
    }

    /// Whether the store was initialised, so that it may be written to.
    pub closed spec fn initialised(&self) -> bool {
        self.opened
    }

    /// Whether the backing resource was there to be opened.
    #[verifier::when_used_as_spec(resource_found)]
    pub fn is_available(&self) -> (available: bool)
        ensures
            available == self.resource_found(),
    {
        self.found
    }

    /// Whether the store was initialised, so that it may be written to.
    #[verifier::when_used_as_spec(initialised)]
    pub fn is_open(&self) -> (open: bool)
        ensures
            open == self.initialised(),
    {
        self.opened
    }

    /// A store over what the backing resource held when it was opened, or over
    /// nothing where it could not be opened (`None`). The store is not open
    /// yet: `init` opens it.
    pub fn new(resource: Option<Vec<StoreEntry>>) -> (store: PersistentStore)
        ensures
            store.wf(),
            !store.is_open(),
            store.is_available() == resource.is_some(),
            store@ == match resource {
                Some(entries) => loaded_from(entries@),
                None => Map::empty(),
            },
    {
        let mut store = PersistentStore { found: resource.is_some(), opened: false, entries: Vec::new() };
        assert(store@ =~= Map::empty());
        match resource {
            Some(entries) => {
                let ghost all = entries@;
                assert(all.take(0) =~= Seq::<StoreEntry>::empty());
                for entry in iter: entries
                    invariant
                        iter.seq() == all,
                        store.wf(),
                        !store.opened,
                        store.found,
                        store@ == loaded_from(all.take(iter.index() as int)),
                {
                    proof {
                        let upto = all.take(iter.index() + 1);
                        assert(upto.drop_last() == all.take(iter.index() as int));
                        assert(upto.last() == entry);
                    }
                    store.put(entry);
                }
                assert(all.take(all.len() as int) == all);
            },
            None => {},
        }
        store
    }

    /// Where the entry for `key` is, if there is one.
    fn position(&self, key: &str) -> (at: Option<usize>)
        requires
            self.wf(),
        ensures
            match at {
                Some(i) => holds_key(self.entries@, key@, i as int),
                None => forall|i: int| !holds_key(self.entries@, key@, i),
            },
    {
        let wanted = key.to_owned();
        let mut i: usize = 0;
        while i < self.entries.len()
            invariant
                i <= self.entries.len(),
                wanted@ == key@,
                forall|j: int| 0 <= j < i ==> !holds_key(self.entries@, key@, j),
            decreases self.entries.len() - i,
        {
            if self.entries[i].key == wanted {
                return Some(i);
            }
            i += 1;
        }
        None
    }

    /// Puts `entry` in the place of the entry with its key, or at the end.
    fn put(&mut self, entry: StoreEntry)
        requires
            old(self).wf(),
        ensures
            final(self).wf(),
            final(self)@ == old(self)@.insert(entry.key@, entry.stored@),
            final(self).found == old(self).found,
            final(self).opened == old(self).opened,
    {
        match self.position(entry.key.as_str()) {
            Some(i) => {
                proof {
                    mapping_after_update(self.entries@, i as int, entry);
                }
                self.entries.set(i, entry);
            },
            None => {
                proof {
                    mapping_after_push(self.entries@, entry);
                }
                self.entries.push(entry);
            },
        }
    }

    /// The entries to write to the backing resource: one for each key, with
    /// the bytes stored under it.
    pub fn entries(&self) -> (entries: &Vec<StoreEntry>)
        requires
            self.wf(),
        ensures
            distinct_keys(entries@),
            mapping_of(entries@) == self@,
    {
        &self.entries
    }

    /// Initialises the store. Without a backing resource this fails with
    /// `Unavailable` and changes nothing. Otherwise the store is open
    /// afterwards; where the schema record is there and says that the store
    /// was initialised, nothing is written, and where it is not, the default
    /// record is written under the reserved key. No other key is touched.
    pub fn init(&mut self) -> (outcome: Result<InitOutcome, StoreError>)
        requires
            old(self).wf(),
        ensures
            final(self).wf(),
            final(self).is_available() == old(self).is_available(),
            final(self)@ == if old(self).is_available() {
                after_init(old(self)@)
            } else {
                old(self)@
            },
            final(self).is_open() == (old(self).is_open() || old(self).is_available()),
            outcome == if !old(self).is_available() {
                Err::<InitOutcome, StoreError>(StoreError::Unavailable)
            } else if schema_ready(old(self)@) {
                Ok(InitOutcome::AlreadyInitialized)
            } else {
                Ok(InitOutcome::WroteDefault)
            },
    {
        if !self.found {
            return Err(StoreError::Unavailable);
        }
        self.opened = true;
        let ready = match self.position(SCHEMA_KEY) {
            Some(i) => {
                proof {
                    mapping_has_entry(self.entries@, i as int);
                }
                let record = decode(self.entries[i].stored.as_slice());
                says_initialized(record.as_slice())
            },
            None => false,
        };
        if ready {
            Ok(InitOutcome::AlreadyInitialized)
        } else {
            let stored = encode(DEFAULT_SCHEMA_RECORD.as_bytes());
            self.put(StoreEntry { key: SCHEMA_KEY.to_owned(), stored });
            Ok(InitOutcome::WroteDefault)
        }
    }

    /// Reads the value under `key`: `None` for a key that was never set or was
    /// deleted, the decoded value where the stored bytes are one, and
    /// `Corrupt` where they are not. A corrupt key leaves the others readable.
    pub fn get(&self, key: &str) -> (found: Result<Option<SerializedValue>, StoreError>)
        requires
            self.wf(),
        ensures
            match found {
                Ok(Some(value)) => read_at(self@, key@) == Ok::<Option<Seq<u8>>, StoreError>(
                    Some(value@),
                ),
                Ok(None) => read_at(self@, key@) == Ok::<Option<Seq<u8>>, StoreError>(None),
                Err(e) => read_at(self@, key@) == Err::<Option<Seq<u8>>, StoreError>(e),
            },
    {
        match self.position(key) {
            Some(i) => {
                proof {
                    mapping_has_entry(self.entries@, i as int);
                }
                match self.entries[i].unseal() {
                    Ok(value) => Ok(Some(value)),
                    Err(e) => Err(e),
                }
            },
            None => Ok(None),
        }
    }

    /// Sets `value` under `key`, in the place of any value that was there.
    /// The store must be open.
    pub fn set(&mut self, key: &str, value: &SerializedValue)
        requires
            old(self).wf(),
            old(self).is_open(),
        ensures
            final(self).wf(),
            final(self).is_open(),
            final(self).is_available(),
            final(self)@ == after_set(old(self)@, key@, value@),
    {
        self.put(StoreEntry::seal(key, value));
    }

    /// Deletes `key` and says whether there was anything to delete. The store
    /// must be open.
    pub fn delete(&mut self, key: &str) -> (removed: bool)
        requires
            old(self).wf(),
            old(self).is_open(),
        ensures
            final(self).wf(),
            final(self).is_open(),
            final(self).is_available(),
            final(self)@ == after_delete(old(self)@, key@),
            removed == old(self)@.contains_key(key@),
    {
        match self.position(key) {
            Some(i) => {
                proof {
                    mapping_has_entry(self.entries@, i as int);
                    mapping_after_remove(self.entries@, i as int);
                }
                self.entries.remove(i);
                true
            },
            None => {
                assert(self@.remove(key@) =~= self@);
                false
            },
        }
    }
}

/// Initialising makes the schema ready, and initialising again changes
/// nothing: neither the schema record nor any other key.
pub proof fn init_is_idempotent(stored: Map<Seq<char>, Seq<u8>>)
    ensures
        schema_ready(after_init(stored)),
        after_init(after_init(stored)) == after_init(stored),
{
    decode_inverts_encode(default_record());
}

/// Initialising touches no key but the reserved one, and not even that one
/// where the schema is ready.
pub proof fn init_keeps_what_was_set(stored: Map<Seq<char>, Seq<u8>>, key: Seq<char>)
    requires
        key != SCHEMA_KEY@ || schema_ready(stored),
    ensures
        after_init(stored).contains_key(key) == stored.contains_key(key),
        after_init(stored)[key] == stored[key],
        read_at(after_init(stored), key) == read_at(stored, key),
{
}

/// Of two values set under one key the later is the one that is read.
pub proof fn last_write_wins(
    stored: Map<Seq<char>, Seq<u8>>,
    key: Seq<char>,
    first: Seq<u8>,
    second: Seq<u8>,
)
    ensures
        after_set(after_set(stored, key, first), key, second) == after_set(stored, key, second),
        is_json(second) ==> read_at(after_set(after_set(stored, key, first), key, second), key)
            == Ok::<Option<Seq<u8>>, StoreError>(Some(second)),
        !is_json(second) ==> read_at(after_set(after_set(stored, key, first), key, second), key)
            == Err::<Option<Seq<u8>>, StoreError>(StoreError::Corrupt),
{
    decode_inverts_encode(second);
    assert(after_set(after_set(stored, key, first), key, second) =~= after_set(
        stored,
        key,
        second,
    ));
}

/// A key that was deleted reads as absent, and deleting it again deletes
/// nothing.
pub proof fn deleted_key_is_absent(stored: Map<Seq<char>, Seq<u8>>, key: Seq<char>)
    ensures
        read_at(after_delete(stored, key), key) == Ok::<Option<Seq<u8>>, StoreError>(None),
        !after_delete(stored, key).contains_key(key),
{
}

/// Setting or deleting one key leaves what is read under every other key as
/// it was.
pub proof fn other_keys_are_untouched(
    stored: Map<Seq<char>, Seq<u8>>,
    key: Seq<char>,
    value: Seq<u8>,
    other: Seq<char>,
)
    requires
        other != key,
    ensures
        read_at(after_set(stored, key, value), other) == read_at(stored, other),
        read_at(after_delete(stored, key), other) == read_at(stored, other),
{
}

/// Values set under two different keys are both there afterwards, in
/// whichever order they were set: no write is lost to another.
pub proof fn writes_to_different_keys_all_persist(
    stored: Map<Seq<char>, Seq<u8>>,
    left: Seq<char>,
    left_value: Seq<u8>,
    right: Seq<char>,
    right_value: Seq<u8>,
)
    requires
        left != right,
    ensures
        after_set(after_set(stored, left, left_value), right, right_value) == after_set(
            after_set(stored, right, right_value),
            left,
            left_value,
        ),
        decoded(after_set(after_set(stored, left, left_value), right, right_value)[left])
            == left_value,
        decoded(after_set(after_set(stored, left, left_value), right, right_value)[right])
            == right_value,
{
    decode_inverts_encode(left_value);
    decode_inverts_encode(right_value);
    assert(after_set(after_set(stored, left, left_value), right, right_value) =~= after_set(
        after_set(stored, right, right_value),
        left,
        left_value,
    ));
}

} // verus!
