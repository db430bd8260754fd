//! The upload store: per-session, per-name, append-only byte storage
//! for uploaded binaries.
//!
//! Repeated uploads under one `(session_id, name)` key concatenate in
//! arrival order; they never overwrite. This is the daemon's model of
//! the durable store; the surrounding process mirrors each append into
//! the file `upload_file_name(session_id, name)`.

use crate::bytes::bytes_eq;
use crate::chunk::concat_all;
use vstd::prelude::*;

verus! {

/// One uploaded binary: the bytes stored so far under a session and name.
pub struct UploadEntry {
    pub session_id: u64,
    pub name: Vec<u8>,
    pub content: Vec<u8>,
}

/// Whether an entry stores the binary `name` of session `id`.
pub open spec fn entry_matches(e: UploadEntry, id: u64, name: Seq<u8>) -> bool {
    e.session_id == id && e.name@ == name
}

/// The content stored under a key: that of the first matching entry.
pub open spec fn spec_lookup(es: Seq<UploadEntry>, id: u64, name: Seq<u8>) -> Option<Seq<u8>>
    decreases es.len(),
{
    if es.len() == 0 {
        None
    } else if entry_matches(es[0], id, name) {
        Some(es[0].content@)
    } else {
        spec_lookup(es.drop_first(), id, name)
    }
}

/// A key whose first match sits at `idx` stores that entry's content.
proof fn lemma_lookup_at(es: Seq<UploadEntry>, idx: int, id: u64, name: Seq<u8>)
    requires
        0 <= idx < es.len(),
        entry_matches(es[idx], id, name),
        forall|j: int| 0 <= j < idx ==> !entry_matches(#[trigger] es[j], id, name),
    ensures
        spec_lookup(es, id, name) == Some(es[idx].content@),
    decreases idx,
{
    if idx > 0 {
        let rest = es.drop_first();
        assert forall|j: int| 0 <= j < idx - 1 implies !entry_matches(
            #[trigger] rest[j],
            id,
            name,
        ) by {
            assert(rest[j] == es[j + 1]);
        }
        lemma_lookup_at(rest, idx - 1, id, name);
    }
}

/// A key no entry matches stores nothing.
proof fn lemma_lookup_none(es: Seq<UploadEntry>, id: u64, name: Seq<u8>)
    requires
        forall|j: int| 0 <= j < es.len() ==> !entry_matches(#[trigger] es[j], id, name),
    ensures
        spec_lookup(es, id, name) is None,
    decreases es.len(),
{
    if es.len() > 0 {
        let rest = es.drop_first();
        assert forall|j: int| 0 <= j < rest.len() implies !entry_matches(
            #[trigger] rest[j],
            id,
            name,
        ) by {
            assert(rest[j] == es[j + 1]);
        }
        lemma_lookup_none(rest, id, name);
    }
}

/// Two entry sequences that match a key at the same positions, with the
/// same content wherever they match it, store the same bytes under it.
proof fn lemma_lookup_same_matches(
    es1: Seq<UploadEntry>,
    es2: Seq<UploadEntry>,
    id: u64,
    name: Seq<u8>,
)
    requires
        es1.len() == es2.len(),
        forall|k: int|
            0 <= k < es1.len() ==> entry_matches(#[trigger] es1[k], id, name) == entry_matches(
                #[trigger] es2[k],
                id,
                name,
            ),
        forall|k: int|
            0 <= k < es1.len() && entry_matches(#[trigger] es1[k], id, name) ==> es1[k].content@
                == es2[k].content@,
    ensures
        spec_lookup(es1, id, name) == spec_lookup(es2, id, name),
    decreases es1.len(),
{
    if es1.len() > 0 && !entry_matches(es1[0], id, name) {
        let r1 = es1.drop_first();
        let r2 = es2.drop_first();
        assert forall|k: int| 0 <= k < r1.len() implies entry_matches(
            #[trigger] r1[k],
            id,
            name,
        ) == entry_matches(#[trigger] r2[k], id, name) && (entry_matches(r1[k], id, name)
            ==> r1[k].content@ == r2[k].content@) by {
            assert(r1[k] == es1[k + 1]);
            assert(r2[k] == es2[k + 1]);
        }
        lemma_lookup_same_matches(r1, r2, id, name);
    }
}

/// Appending an entry leaves every key already stored unchanged and
/// stores the new entry's content under its key where that key was
/// absent.
proof fn lemma_lookup_push(es: Seq<UploadEntry>, e: UploadEntry, id: u64, name: Seq<u8>)
    ensures
        spec_lookup(es.push(e), id, name) == (if spec_lookup(es, id, name) is Some {
            spec_lookup(es, id, name)
        } else if entry_matches(e, id, name) {
            Some(e.content@)
        } else {
            None
        }),
    decreases es.len(),
{
    reveal_with_fuel(spec_lookup, 3);
    let p = es.push(e);
    if es.len() == 0 {
        assert(p[0] == e);
        assert(p.drop_first() =~= Seq::<UploadEntry>::empty());
    } else {
        assert(p[0] == es[0]);
        assert(p.drop_first() =~= es.drop_first().push(e));
        lemma_lookup_push(es.drop_first(), e, id, name);
    }
}

/// Append-only storage for uploaded binaries, keyed by session id and
/// binary name.
pub struct UploadStore {
    entries: Vec<UploadEntry>,
}

impl UploadStore {
    /// The bytes stored under a key, or `None` where nothing was ever
    /// uploaded for it.
    pub closed spec fn stored(&self, id: u64, name: Seq<u8>) -> Option<Seq<u8>> {
        spec_lookup(self.entries@, id, name)
    }

    /// An empty store.
    pub fn new() -> (s: Self)
        ensures
            forall|id: u64, name: Seq<u8>| #[trigger] s.stored(id, name) is None,
    {
        let s = UploadStore { entries: Vec::new() };
        proof {
            assert forall|id: u64, name: Seq<u8>| #[trigger] s.stored(id, name) is None by {
                lemma_lookup_none(s.entries@, id, name);
            }
        }
        s
    }

    /// The index of the first entry matching a key, if any.
    fn find_index(&self, session_id: u64, name: &Vec<u8>) -> (r: Option<usize>)
        ensures
            match r {
                Some(i) => i < self.entries@.len() && entry_matches(
                    self.entries@[i as int],
                    session_id,
                    name@,
                ) && forall|j: int|
                    0 <= j < i ==> !entry_matches(#[trigger] self.entries@[j], session_id, name@),
                None => forall|j: int|
                    0 <= j < self.entries@.len() ==> !entry_matches(
                        #[trigger] self.entries@[j],
                        session_id,
                        name@,
                    ),
            },
    {
        let mut i: usize = 0;
        while i < self.entries.len()
            invariant
                i <= self.entries@.len(),
                forall|j: int|
                    0 <= j < i ==> !entry_matches(#[trigger] self.entries@[j], session_id, name@),
            decreases self.entries@.len() - i,
        {
            if self.entries[i].session_id == session_id && bytes_eq(&self.entries[i].name, name) {
                return Some(i);
            }
            i += 1;
        }
        None
    }

    /// Appends a chunk to the binary stored under `(session_id, name)`,
    /// starting it from empty on first upload. Every other key keeps
    /// its bytes: append never overwrites.
    pub fn append(&mut self, session_id: u64, name: &Vec<u8>, chunk: &Vec<u8>)
        ensures
            final(self).stored(session_id, name@) == Some(
                (match old(self).stored(session_id, name@) {
                    Some(prior) => prior,
                    None => Seq::<u8>::empty(),
                }) + chunk@,
            ),
            forall|id2: u64, n2: Seq<u8>|
                !(id2 == session_id && n2 == name@) ==> #[trigger] final(self).stored(id2, n2)
                    == old(self).stored(id2, n2),
    {
        let ghost es0 = self.entries@;
        match self.find_index(session_id, name) {
            Some(i) => {
                proof {
                    lemma_lookup_at(es0, i as int, session_id, name@);
                }
                let mut j: usize = 0;
                while j < chunk.len()
                    invariant
                        j <= chunk@.len(),
                        i < self.entries@.len(),
                        self.entries@.len() == es0.len(),
                        forall|k: int|
                            0 <= k < es0.len() && k != i ==> #[trigger] self.entries@[k] == es0[k],
                        self.entries@[i as int].session_id == es0[i as int].session_id,
                        self.entries@[i as int].name@ == es0[i as int].name@,
                        self.entries@[i as int].content@ == es0[i as int].content@ + chunk@.take(
                            j as int,
                        ),
                    decreases chunk@.len() - j,
                {
                    let b = chunk[j];
                    self.entries[i].content.push(b);
                    proof {
                        assert(es0[i as int].content@ + chunk@.take(j + 1) =~= es0[
                            i as int].content@ + chunk@.take(j as int) + seq![b]);
                    }
                    j += 1;
                }
                proof {
                    assert(chunk@.take(chunk@.len() as int) =~= chunk@);
                    let es1 = self.entries@;
                    assert(entry_matches(es1[i as int], session_id, name@));
                    assert forall|k: int| 0 <= k < i implies !entry_matches(
                        #[trigger] es1[k],
                        session_id,
                        name@,
                    ) by {
                        assert(es1[k] == es0[k]);
                    }
                    lemma_lookup_at(es1, i as int, session_id, name@);
                    assert forall|id2: u64, n2: Seq<u8>|
                        !(id2 == session_id && n2 == name@) implies #[trigger] spec_lookup(
                        es1,
                        id2,
                        n2,
                    ) == spec_lookup(es0, id2, n2) by {
                        assert forall|k: int| 0 <= k < es0.len() implies entry_matches(
                            #[trigger] es0[k],
                            id2,
                            n2,
                        ) == entry_matches(#[trigger] es1[k], id2, n2) && (entry_matches(
                            es0[k],
                            id2,
                            n2,
                        ) ==> es0[k].content@ == es1[k].content@) by {
                            if k != i {
                                assert(es1[k] == es0[k]);
                            }
                        }
                        lemma_lookup_same_matches(es0, es1, id2, n2);
                    }
                }
            },
            None => {
                proof {
                    lemma_lookup_none(es0, session_id, name@);
                }
                let mut content: Vec<u8> = Vec::new();
                let mut j: usize = 0;
                while j < chunk.len()
                    invariant
                        j <= chunk@.len(),
                        content@ == chunk@.take(j as int),
                    decreases chunk@.len() - j,
                {
                    content.push(chunk[j]);
                    proof {
                        assert(chunk@.take(j + 1) =~= chunk@.take(j as int).push(chunk@[j as int]));
                    }
                    j += 1;
                }
                proof {
                    assert(chunk@.take(chunk@.len() as int) =~= chunk@);
                }
                let mut name_copy: Vec<u8> = Vec::new();
                let mut k: usize = 0;
                while k < name.len()
                    invariant
                        k <= name@.len(),
                        name_copy@ == name@.take(k as int),
                    decreases name@.len() - k,
                {
                    name_copy.push(name[k]);
                    proof {
                        assert(name@.take(k + 1) =~= name@.take(k as int).push(name@[k as int]));
                    }
                    k += 1;
                }
                proof {
                    assert(name@.take(name@.len() as int) =~= name@);
                }
                let e = UploadEntry { session_id, name: name_copy, content };
                self.entries.push(e);
                proof {
                    assert(Seq::<u8>::empty() + chunk@ =~= chunk@);
                    lemma_lookup_push(es0, e, session_id, name@);
                    assert forall|id2: u64, n2: Seq<u8>|
                        !(id2 == session_id && n2 == name@) implies #[trigger] spec_lookup(
                        self.entries@,
                        id2,
                        n2,
                    ) == spec_lookup(es0, id2, n2) by {
                        lemma_lookup_push(es0, e, id2, n2);
                        if spec_lookup(es0, id2, n2) is None && entry_matches(e, id2, n2) {
                            assert(id2 == session_id && n2 == name@);
                        }
                    }
                }
            },
        }
    }

    /// The bytes stored under a key.
    pub fn get(&self, session_id: u64, name: &Vec<u8>) -> (r: Option<&Vec<u8>>)
        ensures
            match r {
                Some(c) => self.stored(session_id, name@) == Some(c@),
                None => self.stored(session_id, name@) is None,
            },
    {
        match self.find_index(session_id, name) {
            Some(i) => {
                proof {
                    lemma_lookup_at(self.entries@, i as int, session_id, name@);
                }
                Some(&self.entries[i].content)
            },
            None => {
                proof {
                    lemma_lookup_none(self.entries@, session_id, name@);
                }
                None
            },
        }
    }
}

/// The content stored under one key after a run of appends of `chunks`
/// on top of `prior`.
pub open spec fn content_after_appends(prior: Seq<u8>, chunks: Seq<Seq<u8>>) -> Seq<u8>
    decreases chunks.len(),
{
    if chunks.len() == 0 {
        prior
    } else {
        content_after_appends(prior, chunks.drop_last()) + chunks.last()
    }
}

/// Append semantics: however many valid upload messages arrive for one
/// session and name, the stored content is the prior content followed
/// by the chunks concatenated in arrival order.
pub proof fn lemma_appends_concatenate(prior: Seq<u8>, chunks: Seq<Seq<u8>>)
    ensures
        content_after_appends(prior, chunks) =~= prior + concat_all(chunks),
    decreases chunks.len(),
{
    if chunks.len() > 0 {
        lemma_appends_concatenate(prior, chunks.drop_last());
    }
}

} // verus!
