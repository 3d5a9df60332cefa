use std::collections::BTreeMap;
use vstd::prelude::*;
use vstd::string::StringSliceAdditionalSpecFns;

verus! {

/// A stored user: login digest, password digest and access level.
pub type Record = (Seq<char>, Seq<char>, Seq<char>);

/// An entry as the credentials file holds it: login digest, then the password
/// digest with the access level.
pub type Entry = (String, (String, String));

pub const DESERIALIZE_ERROR: &'static str = "Failed deserializing credentials data: ";

pub const SERIALIZE_ERROR: &'static str = "Failed serializing credentials data: ";

pub open spec fn record_of(e: Entry) -> Record {
    (e.0@, e.1.0@, e.1.1@)
}

pub open spec fn records_of(v: Seq<Entry>) -> Seq<Record> {
    v.map_values(|e: Entry| record_of(e))
}

/// No two records share a login digest.
pub open spec fn keys_distinct(r: Seq<Record>) -> bool {
    forall|i: int, j: int| 0 <= i < j < r.len() ==> r[i].0 != r[j].0
}

/// Whether some record has the login digest `key`.
pub open spec fn has_key(r: Seq<Record>, key: Seq<char>) -> bool {
    exists|i: int| 0 <= i < r.len() && r[i].0 == key
}

/// The records of a JSON object mapping login digests to [password digest, level].
pub uninterp spec fn json_records(text: Seq<char>) -> Seq<Record>;

/// Whether a text is a JSON object mapping each key to a pair of strings.
pub uninterp spec fn json_accepts(text: Seq<char>) -> bool;

/// The JSON object text of a list of records.
pub uninterp spec fn records_json(records: Seq<Record>) -> Seq<char>;

/// Relies on serde_json::from_str, reading a JSON object of login digest to
/// [password digest, access level] into a BTreeMap, whose keys are distinct.
#[verifier::external_body]
fn parse_json_records(text: &str) -> (r: Result<Vec<Entry>, String>)
    ensures
        r is Ok <==> json_accepts(text@),
        r matches Ok(v) ==> records_of(v@) == json_records(text@) && keys_distinct(
            records_of(v@),
        ),
{
    match serde_json::from_str::<BTreeMap<String, (String, String)>>(text) {
        Ok(m) => Ok(m.into_iter().collect()),
        Err(e) => Err(format!("{:?}", e)),
    }
}

/// Relies on serde_json::to_string, writing the entries as one JSON object keyed
/// by login digest; with string keys and pairs of strings as values, written
/// into memory, it does not fail.
#[verifier::external_body]
fn records_to_json(entries: &Vec<Entry>) -> (r: Result<String, String>)
    requires
        keys_distinct(records_of(entries@)),
    ensures
        r is Ok,
        r matches Ok(s) ==> s@ == records_json(records_of(entries@)),
{
    let map: BTreeMap<&String, &(String, String)> = entries.iter().map(|e| (&e.0, &e.1)).collect();
    serde_json::to_string(&map).map_err(|e| format!("{:?}", e))
}

fn prefixed(prefix: &str, detail: &str) -> (r: String)
    ensures
        r@ == prefix@ + detail@,
{
    let mut s = String::new();
    s.append(prefix);
    s.append(detail);
    s
}

/// The stored users, one record per login digest.
pub struct Credentials {
    entries: Vec<Entry>,
}

impl View for Credentials {
    type V = Seq<Record>;

    closed spec fn view(&self) -> Seq<Record> {
        records_of(self.entries@)
    }
}

impl Credentials {
    /// Login digests are distinct; it holds of every value that `new`,
    /// `from_json` and `insert` hand out.
    pub closed spec fn wf(&self) -> bool {
        keys_distinct(self@)
    }

    pub fn new() -> (c: Self)
        ensures
            c.wf(),
            c@ == Seq::<Record>::empty(),
    {
        let c = Credentials { entries: Vec::new() };
        assert(c@ =~= Seq::<Record>::empty());
        c
    }

    /// Reads the contents of the credentials file: no users when it is empty,
    /// else the records of its JSON object.
    pub fn from_json(contents: &str) -> (r: Result<Self, String>)
        ensures
            contents.spec_bytes().len() == 0 ==> (r matches Ok(c) && c@ == Seq::<Record>::empty()),
            contents.spec_bytes().len() != 0 ==> (r is Ok <==> json_accepts(contents@)),
            contents.spec_bytes().len() != 0 ==> (r matches Ok(c) ==> c@ == json_records(
                contents@,
            )),
            r matches Ok(c) ==> c.wf(),
            r matches Err(e) ==> DESERIALIZE_ERROR@.is_prefix_of(e@),
    {
        if contents.as_bytes().len() == 0 {
            return Ok(Self::new());
        }
        match parse_json_records(contents) {
            Ok(entries) => Ok(Credentials { entries }),
            Err(e) => {
                let msg = prefixed(DESERIALIZE_ERROR, e.as_str());
                assert(DESERIALIZE_ERROR@.is_prefix_of(msg@)) by {
                    assert(msg@.subrange(0, DESERIALIZE_ERROR@.len() as int) =~= DESERIALIZE_ERROR@);
                }
                Err(msg)
            },
        }
    }

    /// The JSON object text of the records.
    pub fn to_json(&self) -> (r: Result<String, String>)
        requires
            self.wf(),
        ensures
            r is Ok,
            r matches Ok(s) ==> s@ == records_json(self@),
            r matches Err(e) ==> SERIALIZE_ERROR@.is_prefix_of(e@),
    {
        match records_to_json(&self.entries) {
            Ok(s) => Ok(s),
            Err(e) => {
                let msg = prefixed(SERIALIZE_ERROR, e.as_str());
                assert(SERIALIZE_ERROR@.is_prefix_of(msg@)) by {
                    assert(msg@.subrange(0, SERIALIZE_ERROR@.len() as int) =~= SERIALIZE_ERROR@);
                }
                Err(msg)
            },
        }
    }

    /// Stores `value` under `key` and reports whether `key` was there before; an
    /// earlier value under the key is replaced.
    pub fn insert(&mut self, key: String, value: (String, String)) -> (existed: bool)
        requires
            old(self).wf(),
        ensures
            final(self).wf(),
            existed == has_key(old(self)@, key@),
            !existed ==> final(self)@ == old(self)@.push((key@, value.0@, value.1@)),
            existed ==> final(self)@.len() == old(self)@.len() && forall|i: int|
                0 <= i < old(self)@.len() ==> #[trigger] final(self)@[i] == (if old(self)@[i].0
                    == key@ {
                    (key@, value.0@, value.1@)
                } else {
                    old(self)@[i]
                }),
    {
        let ghost before = self@;
        let ghost rec = (key@, value.0@, value.1@);
        let mut i: usize = 0;
        while i < self.entries.len()
            invariant
                i <= self.entries@.len(),
                self@ == before,
                keys_distinct(before),
                forall|j: int| 0 <= j < i ==> before[j].0 != key@,
                before == old(self)@,
                rec == (key@, value.0@, value.1@),
            decreases self.entries@.len() - i,
        {
            if self.entries[i].0 == key {
                let ghost k = i as int;
                let ghost old_entries = self.entries@;
                assert(before[k] == record_of(old_entries[k]));
                self.entries.set(i, (key, value));
                assert(self.entries@ == old_entries.update(k, self.entries@[k]));
                assert(self@ =~= before.update(k, rec));
                assert forall|j: int| 0 <= j < before.len() implies #[trigger] self@[j] == (if before[j].0
                    == key@ {
                    rec
                } else {
                    before[j]
                }) by {
                    if j != k {
                        assert(before[j].0 != before[k].0);
                    }
                }
                assert(keys_distinct(self@)) by {
                    assert forall|a: int, b: int| 0 <= a < b < self@.len() implies self@[a].0
                        != self@[b].0 by {
                        assert(self@[a].0 == before[a].0);
                        assert(self@[b].0 == before[b].0);
                    }
                }
                return true;
            }
            i = i + 1;
        }
        self.entries.push((key, value));
        assert(self@ =~= before.push((key@, value.0@, value.1@)));
        false
    }
}

} // verus!
