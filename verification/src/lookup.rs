//! Optional lookup tables that name element types and fields.
//!
//! Payloads carry only type UUIDs and field-name CRC-32s; a hash dump maps
//! them back to readable names.  Without one, a read still works and names
//! stay empty.
use vstd::prelude::*;

use crate::az_uuid::AzUuid;

verus! {

/// Type names by AZ type UUID and field names by CRC-32, each key held once.
#[derive(Debug)]
pub struct LumberyardHashes {
    uuids: Vec<(AzUuid, String)>,
    crcs: Vec<(u32, String)>,
}

/// No key occurs twice.
pub open spec fn spec_unique_uuid_keys(s: Seq<(AzUuid, String)>) -> bool {
    forall|i: int, j: int| 0 <= i < j < s.len() ==> s[i].0 != s[j].0
}

/// No key occurs twice.
pub open spec fn spec_unique_crc_keys(s: Seq<(u32, String)>) -> bool {
    forall|i: int, j: int| 0 <= i < j < s.len() ==> s[i].0 != s[j].0
}

/// The name bound to `id`.
pub open spec fn spec_uuid_name(s: Seq<(AzUuid, String)>, id: AzUuid) -> Option<Seq<char>> {
    if exists|i: int| 0 <= i < s.len() && s[i].0 == id {
        Some(s[choose|i: int| 0 <= i < s.len() && s[i].0 == id].1@)
    } else {
        None
    }
}

/// The name bound to `crc`.
pub open spec fn spec_crc_name(s: Seq<(u32, String)>, crc: u32) -> Option<Seq<char>> {
    if exists|i: int| 0 <= i < s.len() && s[i].0 == crc {
        Some(s[choose|i: int| 0 <= i < s.len() && s[i].0 == crc].1@)
    } else {
        None
    }
}

fn uuid_index(s: &Vec<(AzUuid, String)>, id: AzUuid) -> (r: Option<usize>)
    requires
        spec_unique_uuid_keys(s@),
    ensures
        r matches Some(i) ==> i < s@.len() && s@[i as int].0 == id && spec_uuid_name(s@, id) == Some(
            s@[i as int].1@,
        ),
        r is None ==> spec_uuid_name(s@, id) is None,
{
    let mut i: usize = 0;
    while i < s.len()
        invariant
            i <= s@.len(),
            forall|j: int| 0 <= j < i ==> s@[j].0 != id,
            spec_unique_uuid_keys(s@),
        decreases s.len() - i,
    {
        if s[i].0.bits == id.bits {
            proof {
                assert(s@[i as int].0 == id);
                let c = choose|j: int| 0 <= j < s@.len() && s@[j].0 == id;
                if c != i {
                    if c < i {
                        assert(s@[c].0 != s@[i as int].0);
                    } else {
                        assert(s@[i as int].0 != s@[c].0);
                    }
                }
            }
            return Some(i);
        }
        i = i + 1;
    }
    None
}

fn crc_index(s: &Vec<(u32, String)>, crc: u32) -> (r: Option<usize>)
    requires
        spec_unique_crc_keys(s@),
    ensures
        r matches Some(i) ==> i < s@.len() && s@[i as int].0 == crc && spec_crc_name(s@, crc) == Some(
            s@[i as int].1@,
        ),
        r is None ==> spec_crc_name(s@, crc) is None,
{
    let mut i: usize = 0;
    while i < s.len()
        invariant
            i <= s@.len(),
            forall|j: int| 0 <= j < i ==> s@[j].0 != crc,
            spec_unique_crc_keys(s@),
        decreases s.len() - i,
    {
        if s[i].0 == crc {
            proof {
                assert(s@[i as int].0 == crc);
                let c = choose|j: int| 0 <= j < s@.len() && s@[j].0 == crc;
                if c != i {
                    if c < i {
                        assert(s@[c].0 != s@[i as int].0);
                    } else {
                        assert(s@[i as int].0 != s@[c].0);
                    }
                }
            }
            return Some(i);
        }
        i = i + 1;
    }
    None
}

impl LumberyardHashes {
    #[verifier::type_invariant]
    spec fn unique_keys(self) -> bool {
        spec_unique_uuid_keys(self.uuids@) && spec_unique_crc_keys(self.crcs@)
    }

    /// The type name bound to `id`.
    pub closed spec fn spec_type_name(self, id: AzUuid) -> Option<Seq<char>> {
        spec_uuid_name(self.uuids@, id)
    }

    /// The field name bound to `crc`.
    pub closed spec fn spec_field_name(self, crc: u32) -> Option<Seq<char>> {
        spec_crc_name(self.crcs@, crc)
    }

    /// Number of type names.
    pub closed spec fn spec_uuid_count(self) -> nat {
        self.uuids@.len()
    }

    /// Number of field names.
    pub closed spec fn spec_crc_count(self) -> nat {
        self.crcs@.len()
    }

    /// An empty table.
    pub fn new() -> (r: Self)
        ensures
            forall|id: AzUuid| r.spec_type_name(id) is None,
            forall|crc: u32| r.spec_field_name(crc) is None,
            r.spec_uuid_count() == 0 && r.spec_crc_count() == 0,
    {
        LumberyardHashes { uuids: Vec::new(), crcs: Vec::new() }
    }

    /// Insert or replace one type name; returns the name it replaced.
    pub fn insert_type_name(&mut self, uuid: AzUuid, name: &str) -> (r: Option<String>)
        ensures
            final(self).spec_type_name(uuid) == Some(name@),
            forall|id: AzUuid| id != uuid ==> final(self).spec_type_name(id) == old(self).spec_type_name(id),
            forall|crc: u32| final(self).spec_field_name(crc) == old(self).spec_field_name(crc),
            match r {
                Some(previous) => old(self).spec_type_name(uuid) == Some(previous@),
                None => old(self).spec_type_name(uuid) is None,
            },
    {
        proof {
            use_type_invariant(&*self);
        }
        let ghost before = self.uuids@;
        match uuid_index(&self.uuids, uuid) {
            Some(i) => {
                let mut uuids: Vec<(AzUuid, String)> = Vec::new();
                std::mem::swap(&mut uuids, &mut self.uuids);
                let (_, previous) = uuids.remove(i);
                uuids.insert(i, (uuid, name.to_owned()));
                proof {
                    assert(uuids@ =~= before.update(i as int, uuids@[i as int]));
                    assert forall|id: AzUuid| id != uuid implies spec_uuid_name(uuids@, id) == spec_uuid_name(
                        before,
                        id,
                    ) by {
                        if exists|j: int| 0 <= j < before.len() && before[j].0 == id {
                            let j = choose|j: int| 0 <= j < before.len() && before[j].0 == id;
                            assert(uuids@[j].0 == id);
                        }
                        if exists|j: int| 0 <= j < uuids@.len() && uuids@[j].0 == id {
                            let j = choose|j: int| 0 <= j < uuids@.len() && uuids@[j].0 == id;
                            assert(before[j].0 == id);
                        }
                    }
                    assert(uuids@[i as int].0 == uuid);
                    assert(spec_unique_uuid_keys(uuids@)) by {
                        assert forall|a: int, b: int| 0 <= a < b < uuids@.len() implies uuids@[a].0 != uuids@[b].0 by {
                            assert(uuids@[a].0 == before[a].0 && uuids@[b].0 == before[b].0);
                        }
                    }
                }
                self.uuids = uuids;
                Some(previous)
            },
            None => {
                let mut uuids: Vec<(AzUuid, String)> = Vec::new();
                std::mem::swap(&mut uuids, &mut self.uuids);
                uuids.push((uuid, name.to_owned()));
                proof {
                    assert forall|id: AzUuid| id != uuid implies spec_uuid_name(uuids@, id) == spec_uuid_name(
                        before,
                        id,
                    ) by {
                        if exists|j: int| 0 <= j < uuids@.len() && uuids@[j].0 == id {
                            let j = choose|j: int| 0 <= j < uuids@.len() && uuids@[j].0 == id;
                            assert(j < before.len());
                            assert(before[j].0 == id);
                        }
                        if exists|j: int| 0 <= j < before.len() && before[j].0 == id {
                            let j = choose|j: int| 0 <= j < before.len() && before[j].0 == id;
                            assert(uuids@[j].0 == id);
                        }
                    }
                    assert(uuids@[before.len() as int].0 == uuid);
                    assert(spec_unique_uuid_keys(uuids@)) by {
                        assert forall|a: int, b: int| 0 <= a < b < uuids@.len() implies uuids@[a].0 != uuids@[b].0 by {
                            if b < before.len() {
                                assert(uuids@[a] == before[a] && uuids@[b] == before[b]);
                            } else {
                                assert(uuids@[a] == before[a]);
                            }
                        }
                    }
                }
                self.uuids = uuids;
                None
            },
        }
    }

    /// Add fallback type names without replacing names already present.
    pub fn extend_type_names(&mut self, type_names: &[(AzUuid, &str)])
        ensures
            forall|id: AzUuid| old(self).spec_type_name(id) is Some ==> final(self).spec_type_name(id)
                == old(self).spec_type_name(id),
            forall|id: AzUuid| old(self).spec_type_name(id) is None ==> final(self).spec_type_name(id) == spec_first_name(
                type_names@,
                id,
            ),
            forall|crc: u32| final(self).spec_field_name(crc) == old(self).spec_field_name(crc),
    {
        let mut k: usize = 0;
        while k < type_names.len()
            invariant
                k <= type_names@.len(),
                forall|id: AzUuid| old(self).spec_type_name(id) is Some ==> self.spec_type_name(id) == old(
                    self,
                ).spec_type_name(id),
                forall|id: AzUuid| old(self).spec_type_name(id) is None ==> self.spec_type_name(id) == spec_first_name(
                    type_names@.subrange(0, k as int),
                    id,
                ),
                forall|crc: u32| self.spec_field_name(crc) == old(self).spec_field_name(crc),
            decreases type_names.len() - k,
        {
            let (uuid, name) = type_names[k];
            proof {
                lemma_first_name_extend(type_names@, k as int);
            }
            if self.type_name_is_absent(uuid) {
                self.insert_type_name(uuid, name);
            }
            k = k + 1;
        }
        assert(type_names@.subrange(0, type_names@.len() as int) =~= type_names@);
    }

    fn type_name_is_absent(&self, uuid: AzUuid) -> (r: bool)
        ensures
            r == (self.spec_type_name(uuid) is None),
    {
        proof {
            use_type_invariant(self);
        }
        uuid_index(&self.uuids, uuid).is_none()
    }

    /// Insert or replace one field name keyed by its CRC.
    fn insert_field_name(&mut self, crc: u32, name: &str)
        ensures
            final(self).spec_field_name(crc) == Some(name@),
            forall|c: u32| c != crc ==> final(self).spec_field_name(c) == old(self).spec_field_name(c),
            forall|id: AzUuid| final(self).spec_type_name(id) == old(self).spec_type_name(id),
    {
        proof {
            use_type_invariant(&*self);
        }
        let ghost before = self.crcs@;
        match crc_index(&self.crcs, crc) {
            Some(i) => {
                let mut crcs: Vec<(u32, String)> = Vec::new();
                std::mem::swap(&mut crcs, &mut self.crcs);
                crcs.remove(i);
                crcs.insert(i, (crc, name.to_owned()));
                proof {
                    assert(crcs@ =~= before.update(i as int, crcs@[i as int]));
                    assert forall|c: u32| c != crc implies spec_crc_name(crcs@, c) == spec_crc_name(before, c) by {
                        if exists|j: int| 0 <= j < before.len() && before[j].0 == c {
                            let j = choose|j: int| 0 <= j < before.len() && before[j].0 == c;
                            assert(crcs@[j].0 == c);
                        }
                        if exists|j: int| 0 <= j < crcs@.len() && crcs@[j].0 == c {
                            let j = choose|j: int| 0 <= j < crcs@.len() && crcs@[j].0 == c;
                            assert(before[j].0 == c);
                        }
                    }
                    assert(crcs@[i as int].0 == crc);
                    assert(spec_unique_crc_keys(crcs@)) by {
                        assert forall|a: int, b: int| 0 <= a < b < crcs@.len() implies crcs@[a].0 != crcs@[b].0 by {
                            assert(crcs@[a].0 == before[a].0 && crcs@[b].0 == before[b].0);
                        }
                    }
                }
                self.crcs = crcs;
            },
            None => {
                let mut crcs: Vec<(u32, String)> = Vec::new();
                std::mem::swap(&mut crcs, &mut self.crcs);
                crcs.push((crc, name.to_owned()));
                proof {
                    assert forall|c: u32| c != crc implies spec_crc_name(crcs@, c) == spec_crc_name(before, c) by {
                        if exists|j: int| 0 <= j < crcs@.len() && crcs@[j].0 == c {
                            let j = choose|j: int| 0 <= j < crcs@.len() && crcs@[j].0 == c;
                            assert(j < before.len());
                            assert(before[j].0 == c);
                        }
                        if exists|j: int| 0 <= j < before.len() && before[j].0 == c {
                            let j = choose|j: int| 0 <= j < before.len() && before[j].0 == c;
                            assert(crcs@[j].0 == c);
                        }
                    }
                    assert(crcs@[before.len() as int].0 == crc);
                    assert(spec_unique_crc_keys(crcs@)) by {
                        assert forall|a: int, b: int| 0 <= a < b < crcs@.len() implies crcs@[a].0 != crcs@[b].0 by {
                            if b < before.len() {
                                assert(crcs@[a] == before[a] && crcs@[b] == before[b]);
                            } else {
                                assert(crcs@[a] == before[a]);
                            }
                        }
                    }
                }
                self.crcs = crcs;
            },
        }
    }

    /// Add fallback field names (keyed by the CRC of each name) without
    /// replacing names already present.
    pub fn extend_field_names(&mut self, field_names: &[&str])
        ensures
            forall|crc: u32| old(self).spec_field_name(crc) is Some ==> final(self).spec_field_name(crc) == old(
                self,
            ).spec_field_name(crc),
            forall|crc: u32| old(self).spec_field_name(crc) is None ==> final(self).spec_field_name(crc)
                == spec_first_field_name(field_names@, crc),
            forall|id: AzUuid| final(self).spec_type_name(id) == old(self).spec_type_name(id),
    {
        let mut k: usize = 0;
        while k < field_names.len()
            invariant
                k <= field_names@.len(),
                forall|crc: u32| old(self).spec_field_name(crc) is Some ==> self.spec_field_name(crc) == old(
                    self,
                ).spec_field_name(crc),
                forall|crc: u32| old(self).spec_field_name(crc) is None ==> self.spec_field_name(crc)
                    == spec_first_field_name(field_names@.subrange(0, k as int), crc),
                forall|id: AzUuid| self.spec_type_name(id) == old(self).spec_type_name(id),
            decreases field_names.len() - k,
        {
            let name = field_names[k];
            let crc = crate::crc::field_name_crc(name);
            proof {
                lemma_first_field_name_extend(field_names@, k as int);
            }
            if self.field_name_is_absent(crc) {
                self.insert_field_name(crc, name);
            }
            k = k + 1;
        }
        assert(field_names@.subrange(0, field_names@.len() as int) =~= field_names@);
    }

    fn field_name_is_absent(&self, crc: u32) -> (r: bool)
        ensures
            r == (self.spec_field_name(crc) is None),
    {
        proof {
            use_type_invariant(self);
        }
        crc_index(&self.crcs, crc).is_none()
    }

    pub fn uuid_count(&self) -> (r: usize)
        ensures
            r == self.spec_uuid_count(),
    {
        self.uuids.len()
    }

    pub fn crc_count(&self) -> (r: usize)
        ensures
            r == self.spec_crc_count(),
    {
        self.crcs.len()
    }

    /// The type name bound to `uuid`.
    pub fn name_for_type(&self, uuid: &AzUuid) -> (r: Option<&String>)
        ensures
            match r {
                Some(n) => self.spec_type_name(*uuid) == Some(n@),
                None => self.spec_type_name(*uuid) is None,
            },
    {
        proof {
            use_type_invariant(self);
        }
        match uuid_index(&self.uuids, *uuid) {
            Some(i) => Some(&self.uuids[i].1),
            None => None,
        }
    }

    /// The field name bound to `crc`.
    pub fn field_name(&self, crc: u32) -> (r: Option<&String>)
        ensures
            match r {
                Some(n) => self.spec_field_name(crc) == Some(n@),
                None => self.spec_field_name(crc) is None,
            },
    {
        proof {
            use_type_invariant(self);
        }
        match crc_index(&self.crcs, crc) {
            Some(i) => Some(&self.crcs[i].1),
            None => None,
        }
    }
}

/// The first name `pairs` gives `id`.
pub open spec fn spec_first_name(pairs: Seq<(AzUuid, &str)>, id: AzUuid) -> Option<Seq<char>>
    decreases pairs.len(),
{
    if pairs.len() == 0 {
        None
    } else {
        match spec_first_name(pairs.drop_last(), id) {
            Some(n) => Some(n),
            None => if pairs.last().0 == id {
                Some(pairs.last().1@)
            } else {
                None
            },
        }
    }
}

/// The first name in `names` whose CRC is `crc`.
pub open spec fn spec_first_field_name(names: Seq<&str>, crc: u32) -> Option<Seq<char>>
    decreases names.len(),
{
    if names.len() == 0 {
        None
    } else {
        match spec_first_field_name(names.drop_last(), crc) {
            Some(n) => Some(n),
            None => if crate::crc::spec_field_name_crc(names.last()@) == crc {
                Some(names.last()@)
            } else {
                None
            },
        }
    }
}

proof fn lemma_first_name_extend(pairs: Seq<(AzUuid, &str)>, k: int)
    requires
        0 <= k < pairs.len(),
    ensures
        pairs.subrange(0, k + 1).drop_last() == pairs.subrange(0, k),
        pairs.subrange(0, k + 1).last() == pairs[k],
{
    assert(pairs.subrange(0, k + 1).drop_last() =~= pairs.subrange(0, k));
}

proof fn lemma_first_field_name_extend(names: Seq<&str>, k: int)
    requires
        0 <= k < names.len(),
    ensures
        names.subrange(0, k + 1).drop_last() == names.subrange(0, k),
        names.subrange(0, k + 1).last() == names[k],
{
    assert(names.subrange(0, k + 1).drop_last() =~= names.subrange(0, k));
}

impl Default for LumberyardHashes {
    fn default() -> (r: Self)
        ensures
            forall|id: AzUuid| r.spec_type_name(id) is None,
            forall|crc: u32| r.spec_field_name(crc) is None,
    {
        LumberyardHashes::new()
    }
}

} // verus!
