//! Types of the core module.

use vstd::prelude::*;
use crate::cbor::{
    entries_view, from_entries, into_entries, into_text, into_unsigned, reversed, Decode,
    DecodeError, Encode, Item, ItemView,
};
use crate::keymanager::PublicKey;
use crate::text::str_eq;
use crate::types::address::Address;
use crate::types::transaction::Transaction;

verus! {

/// Key in the versions map used for the global state version.
pub const VERSION_GLOBAL_KEY: &'static str = "";

/// The recorded version of one module.
#[derive(Debug)]
pub struct ModuleVersion {
    pub name: String,
    pub version: u32,
}

/// Per-module metadata.
#[derive(Debug)]
pub struct Metadata {
    /// The state version of each module that has state, each name once.
    pub versions: Vec<ModuleVersion>,
}

/// The CBOR form of the entries of the versions map.
pub open spec fn version_entries(versions: Seq<ModuleVersion>) -> Seq<(ItemView, ItemView)> {
    Seq::new(
        versions.len(),
        |i: int| (ItemView::TextString(versions[i].name@), ItemView::Unsigned(versions[i].version as u64)),
    )
}

/// No name stands twice among the records.
pub open spec fn has_distinct_names(versions: Seq<ModuleVersion>) -> bool {
    forall|i: int, j: int|
        0 <= i < j < versions.len() ==> (#[trigger] versions[i]).name@ != (
        #[trigger] versions[j]).name@
}

/// The record that stands at `at` and no later record has the name: it
/// is the one that is found for the name.
pub proof fn lemma_recorded_at(versions: Seq<ModuleVersion>, name: Seq<char>, at: int)
    requires
        0 <= at < versions.len(),
        versions[at].name@ == name,
        forall|j: int| at < j < versions.len() ==> (#[trigger] versions[j]).name@ != name,
    ensures
        Metadata::recorded(versions, name) == Some(versions[at].version),
    decreases versions.len(),
{
    if at < versions.len() - 1 {
        lemma_recorded_at(versions.drop_last(), name, at);
    }
}

/// No record has the name: none is found for it.
pub proof fn lemma_recorded_none(versions: Seq<ModuleVersion>, name: Seq<char>)
    ensures
        Metadata::recorded(versions, name) is None <==> forall|j: int|
            0 <= j < versions.len() ==> (#[trigger] versions[j]).name@ != name,
    decreases versions.len(),
{
    if versions.len() > 0 {
        lemma_recorded_none(versions.drop_last(), name);
        if versions.last().name@ != name {
            if Metadata::recorded(versions, name) is None {
                assert forall|j: int| 0 <= j < versions.len() implies (
                #[trigger] versions[j]).name@ != name by {
                    if j < versions.len() - 1 {
                        assert(versions.drop_last()[j].name@ != name);
                    }
                }
            } else {
                let j = choose|j: int|
                    0 <= j < versions.len() - 1 && (#[trigger] versions.drop_last()[j]).name@
                        == name;
                assert(versions[j].name@ == name);
            }
        } else {
            assert(versions[versions.len() - 1].name@ == name);
        }
    }
}

/// Records that differ in one place only, where both have the same
/// name, give the same version for every other name.
pub proof fn lemma_recorded_elsewhere(
    before: Seq<ModuleVersion>,
    after: Seq<ModuleVersion>,
    at: int,
    other: Seq<char>,
)
    requires
        0 <= at < before.len(),
        after.len() == before.len(),
        after[at].name@ == before[at].name@,
        before[at].name@ != other,
        forall|k: int| 0 <= k < before.len() && k != at ==> (#[trigger] after[k]) == before[k],
    ensures
        Metadata::recorded(after, other) == Metadata::recorded(before, other),
    decreases before.len(),
{
    let n = before.len() - 1;
    if at == n {
        assert(after.drop_last() =~= before.drop_last()) by {
            assert forall|k: int| 0 <= k < n implies after.drop_last()[k] == before.drop_last()[k] by {
                assert(after[k] == before[k]);
            }
        }
    } else {
        assert(after[n] == before[n]);
        assert forall|k: int| 0 <= k < n && k != at implies (#[trigger] after.drop_last()[k])
            == before.drop_last()[k] by {
            assert(after[k] == before[k]);
        }
        lemma_recorded_elsewhere(before.drop_last(), after.drop_last(), at, other);
    }
}

impl Metadata {
    /// The records are a map: no name is recorded twice.
    pub open spec fn is_well_formed(&self) -> bool {
        has_distinct_names(self.versions@)
    }

    /// How recording a version changes the records: where the name is
    /// recorded, the record that is found for it is replaced where it
    /// stands; where it is not, the record is added at the end.
    pub open spec fn is_recorded_in(
        before: Seq<ModuleVersion>,
        name: Seq<char>,
        version: u32,
        after: Seq<ModuleVersion>,
    ) -> bool {
        if Self::recorded(before, name) is Some {
            exists|at: int|
                0 <= at < before.len() && (#[trigger] before[at]).name@ == name && (forall|j: int|
                    at < j < before.len() ==> (#[trigger] before[j]).name@ != name) && after.len()
                    == before.len() && after[at].name@ == name && after[at].version == version
                    && forall|k: int|
                    0 <= k < before.len() && k != at ==> (#[trigger] after[k]) == before[k]
        } else {
            &&& after.len() == before.len() + 1
            &&& after.drop_last() == before
            &&& after.last().name@ == name
            &&& after.last().version == version
        }
    }

    /// The recorded version of a module, `None` where none is recorded.
    pub open spec fn recorded(versions: Seq<ModuleVersion>, name: Seq<char>) -> Option<u32>
        decreases versions.len(),
    {
        if versions.len() == 0 {
            None
        } else if versions.last().name@ == name {
            Some(versions.last().version)
        } else {
            Self::recorded(versions.drop_last(), name)
        }
    }

    /// The metadata of a runtime without state.
    pub fn new() -> (meta: Metadata)
        ensures
            meta.versions@.len() == 0,
            meta.is_well_formed(),
    {
        Metadata { versions: Vec::new() }
    }

    /// The recorded version of a module, `None` where none is recorded.
    pub fn get(&self, name: &str) -> (version: Option<u32>)
        ensures
            version == Self::recorded(self.versions@, name@),
    {
        let mut i: usize = self.versions.len();
        assert(self.versions@.subrange(0, i as int) =~= self.versions@);
        while i > 0
            invariant
                i <= self.versions.len(),
                Self::recorded(self.versions@, name@) == Self::recorded(
                    self.versions@.subrange(0, i as int),
                    name@,
                ),
            decreases i,
        {
            let ghost head = self.versions@.subrange(0, i as int);
            i -= 1;
            assert(head.drop_last() =~= self.versions@.subrange(0, i as int));
            if str_eq(self.versions[i].name.as_str(), name) {
                return Some(self.versions[i].version);
            }
        }
        None
    }

    /// Records the version of a module: in the place of the record of
    /// the same name, or at the end where there is none.
    pub fn insert(&mut self, name: String, version: u32)
        ensures
            Self::is_recorded_in(old(self).versions@, name@, version, final(self).versions@),
            Self::recorded(final(self).versions@, name@) == Some(version),
            forall|other: Seq<char>|
                other != name@ ==> Self::recorded(final(self).versions@, other)
                    == Self::recorded(old(self).versions@, other),
            old(self).is_well_formed() ==> final(self).is_well_formed(),
    {
        let ghost before = self.versions@;
        let mut i: usize = self.versions.len();
        while i > 0
            invariant
                i <= self.versions.len(),
                self.versions@ == before,
                before == old(self).versions@,
                forall|j: int| i <= j < before.len() ==> (#[trigger] before[j]).name@ != name@,
            decreases i,
        {
            i -= 1;
            if str_eq(self.versions[i].name.as_str(), name.as_str()) {
                self.versions.set(i, ModuleVersion { name, version });
                proof {
                    let after = self.versions@;
                    let at = i as int;
                    lemma_recorded_at(before, name@, at);
                    lemma_recorded_at(after, name@, at);
                    assert forall|other: Seq<char>| other != name@ implies Self::recorded(
                        after,
                        other,
                    ) == Self::recorded(before, other) by {
                        lemma_recorded_elsewhere(before, after, at, other);
                    }
                    assert(before[at].name@ == name@);
                    if has_distinct_names(before) {
                        assert forall|a: int, b: int| 0 <= a < b < after.len() implies (
                        #[trigger] after[a]).name@ != (#[trigger] after[b]).name@ by {
                            assert(before[a].name@ != before[b].name@);
                        }
                    }
                }
                return ;
            }
        }
        proof {
            lemma_recorded_none(before, name@);
        }
        self.versions.push(ModuleVersion { name, version });
        proof {
            let after = self.versions@;
            assert(after.drop_last() =~= before);
            if has_distinct_names(before) {
                assert forall|a: int, b: int| 0 <= a < b < after.len() implies (
                #[trigger] after[a]).name@ != (#[trigger] after[b]).name@ by {
                    if b < before.len() {
                        assert(before[a].name@ != before[b].name@);
                    } else {
                        assert(before[a].name@ != name@);
                    }
                }
            }
        }
    }
}

impl Encode for Metadata {
    open spec fn encoded(&self) -> ItemView {
        ItemView::Mapping(version_entries(self.versions@))
    }

    fn into_cbor_value(self) -> (item: Item) {
        let ghost all = self.versions@;
        let mut rest = reversed(self.versions);
        let mut entries: Vec<(Item, Item)> = Vec::new();
        while rest.len() > 0
            invariant
                rest@.len() + entries@.len() == all.len(),
                rest@ == all.reverse().subrange(0, rest@.len() as int),
                forall|j: int|
                    0 <= j < entries@.len() ==> (#[trigger] entries@[j].0@, entries@[j].1@)
                        == version_entries(all)[j],
            decreases rest.len(),
        {
            let record = rest.pop().unwrap();
            entries.push((Item::TextString(record.name), Item::Unsigned(record.version as u64)));
        }
        let item = from_entries(entries);
        assert(item@->Mapping_0 =~= version_entries(all));
        item
    }
}

impl Decode for Metadata {
    fn try_from_cbor_value(item: Item) -> (r: Result<Self, DecodeError>) {
        let given = match into_entries(item) {
            Some(entries) => entries,
            None => {
                return Err(DecodeError::UnexpectedType);
            },
        };
        let ghost all = given@;
        let mut rest = reversed(given);
        let mut versions: Vec<ModuleVersion> = Vec::new();
        while rest.len() > 0
            invariant
                item@ == ItemView::Mapping(entries_view(all)),
                rest@.len() + versions@.len() == all.len(),
                rest@ == all.reverse().subrange(0, rest@.len() as int),
                forall|j: int|
                    0 <= j < versions@.len() ==> (
                        ItemView::TextString((#[trigger] versions@[j]).name@),
                        ItemView::Unsigned(versions@[j].version as u64),
                    ) == (all[j].0@, all[j].1@),
            decreases rest.len(),
        {
            let ghost at = versions@.len() as int;
            let (key, value) = rest.pop().unwrap();
            assert((key, value) == all[at]);
            assert forall|meta: Self| meta.encoded() == item@ implies at < meta.versions@.len()
                && ItemView::TextString(meta.versions@[at].name@) == key@ && ItemView::Unsigned(
                meta.versions@[at].version as u64,
            ) == value@ by {
                assert(version_entries(meta.versions@) == entries_view(all));
                assert(version_entries(meta.versions@).len() == all.len());
                assert(version_entries(meta.versions@)[at] == entries_view(all)[at]);
            }
            let name = match into_text(key) {
                Some(name) => name,
                None => {
                    return Err(DecodeError::UnexpectedType);
                },
            };
            let version = match into_unsigned(value) {
                Some(n) => n,
                None => {
                    return Err(DecodeError::UnexpectedType);
                },
            };
            if version > u32::MAX as u64 {
                return Err(DecodeError::UnexpectedIntegerSize);
            }
            versions.push(ModuleVersion { name, version: version as u32 });
        }
        let meta = Metadata { versions };
        assert(version_entries(meta.versions@) =~= entries_view(all));
        Ok(meta)
    }
}

/// The address of the caller in a gas estimate.
#[derive(Clone, Copy, Debug)]
pub enum CallerAddress {
    Address(Address),
    EthAddress([u8; 20]),
}

/// Arguments for the EstimateGas query.
#[derive(Debug)]
pub struct EstimateGasQuery {
    /// The address of the caller for which to do estimation. If not
    /// specified the authentication information from the passed
    /// transaction is used.
    pub caller: Option<CallerAddress>,
    /// The unsigned transaction to estimate.
    pub tx: Transaction,
}

/// A public key with the key manager's signature over it.
#[derive(Debug)]
pub struct SignedPublicKey {
    pub key: PublicKey,
    pub checksum: Vec<u8>,
    pub signature: Vec<u8>,
}

/// Response to the call data public key query.
#[derive(Debug)]
pub struct CallDataPublicKeyQueryResponse {
    /// Public key used for deriving the shared secret for encrypting call
    /// data.
    pub public_key: SignedPublicKey,
}

} // verus!
