//! Session-id allocation and the durable upload file-name scheme.
//!
//! Uploaded binaries persist under file names `"{session_id}_{name}"`.
//! At startup the daemon scans those names, takes the numeric prefix
//! before the first underscore of each, and seeds its id counter
//! strictly above every prefix it saw (and no lower than the reserved
//! initial id), so an identifier handed out after a restart never
//! collides with an earlier session's. A malformed entry name (no
//! delimiter, empty or non-numeric prefix, or a prefix too large for
//! an id) is fatal to startup, as the daemon could not otherwise
//! guarantee recovery of the counter; so is a prefix at the top of the
//! id space, above which no fresh id exists.

use vstd::arithmetic::div_mod::lemma_div_is_strictly_smaller;
use vstd::arithmetic::div_mod::lemma_fundamental_div_mod;
use vstd::prelude::*;

verus! {

/// Lowest session id ever handed out, reserving the values below it
/// for externally meaningful small identifiers.
pub const INITIAL_SESSION_ID: u64 = 67;

pub const UNDERSCORE: u8 = 95;

pub open spec fn is_digit(b: u8) -> bool {
    48 <= b && b <= 57
}

pub open spec fn all_digits(s: Seq<u8>) -> bool {
    forall|i: int| 0 <= i < s.len() ==> is_digit(#[trigger] s[i])
}

/// The number a run of decimal digit bytes denotes.
pub open spec fn dec_value(s: Seq<u8>) -> int
    decreases s.len(),
{
    if s.len() == 0 {
        0
    } else {
        dec_value(s.drop_last()) * 10 + (s.last() - 48)
    }
}

/// The decimal digit bytes of a number, most significant first.
pub open spec fn dec_digits(n: nat) -> Seq<u8>
    decreases n,
{
    if n < 10 {
        seq![(n + 48) as u8]
    } else {
        dec_digits(n / 10).push(((n % 10) + 48) as u8)
    }
}

/// `k` marks the first underscore of `s`.
pub open spec fn is_prefix_split(s: Seq<u8>, k: int) -> bool {
    &&& 0 <= k < s.len()
    &&& s[k] == UNDERSCORE
    &&& forall|j: int| 0 <= j < k ==> s[j] != UNDERSCORE
}

/// An upload file name the startup scan accepts: it has a delimiter, a
/// non-empty all-digit prefix, and the prefix fits in an id.
pub open spec fn valid_upload_file_name(s: Seq<u8>) -> bool {
    exists|k: int|
        is_prefix_split(s, k) && 1 <= k && all_digits(s.take(k))
            && dec_value(s.take(k)) <= u64::MAX
}

/// The position of the first underscore of `s`, where one exists.
pub open spec fn spec_delim_idx(s: Seq<u8>) -> int {
    choose|k: int| is_prefix_split(s, k)
}

/// The session id a persisted upload file name records.
pub open spec fn spec_prefix_id(s: Seq<u8>) -> int {
    dec_value(s.take(spec_delim_idx(s)))
}

/// The first underscore of a byte sequence is unique.
pub proof fn lemma_split_unique(s: Seq<u8>, k: int)
    requires
        is_prefix_split(s, k),
    ensures
        spec_delim_idx(s) == k,
{
    let c = spec_delim_idx(s);
    assert(is_prefix_split(s, c));
    if c < k {
        assert(s[c] != UNDERSCORE);
    }
    if c > k {
        assert(s[k] != UNDERSCORE);
    }
}

/// Introduction form of `valid_upload_file_name`: a witness split
/// yields validity and pins the recorded id.
pub proof fn lemma_valid_intro(s: Seq<u8>, k: int)
    requires
        is_prefix_split(s, k),
        1 <= k,
        all_digits(s.take(k)),
        dec_value(s.take(k)) <= u64::MAX,
    ensures
        valid_upload_file_name(s),
        spec_prefix_id(s) == dec_value(s.take(k)),
{
    assert(valid_upload_file_name(s));
    lemma_split_unique(s, k);
}

/// Elimination form of `valid_upload_file_name`: a valid name splits at
/// `spec_delim_idx` with an all-digit prefix that fits in an id.
pub proof fn lemma_valid_parts(s: Seq<u8>)
    requires
        valid_upload_file_name(s),
    ensures
        is_prefix_split(s, spec_delim_idx(s)),
        1 <= spec_delim_idx(s) < s.len(),
        all_digits(s.take(spec_delim_idx(s))),
        dec_value(s.take(spec_delim_idx(s))) <= u64::MAX,
        spec_prefix_id(s) == dec_value(s.take(spec_delim_idx(s))),
{
    let kw = choose|k: int|
        is_prefix_split(s, k) && 1 <= k && all_digits(s.take(k)) && dec_value(s.take(k))
            <= u64::MAX;
    assert(is_prefix_split(s, kw));
    lemma_split_unique(s, kw);
}

pub proof fn lemma_dec_value_nonneg(s: Seq<u8>)
    requires
        all_digits(s),
    ensures
        dec_value(s) >= 0,
    decreases s.len(),
{
    if s.len() > 0 {
        let dl = s.drop_last();
        assert forall|i: int| 0 <= i < dl.len() implies is_digit(#[trigger] dl[i]) by {
            assert(is_digit(s[i]));
        }
        lemma_dec_value_nonneg(dl);
        assert(is_digit(s[s.len() - 1]));
    }
}

/// A run of digits denotes at least as much as any of its prefixes.
pub proof fn lemma_dec_value_prefix_le(s: Seq<u8>, j: int)
    requires
        all_digits(s),
        0 <= j <= s.len(),
    ensures
        dec_value(s.take(j)) <= dec_value(s),
    decreases s.len(),
{
    if j == s.len() {
        assert(s.take(j) =~= s);
    } else {
        let dl = s.drop_last();
        assert forall|i: int| 0 <= i < dl.len() implies is_digit(#[trigger] dl[i]) by {
            assert(is_digit(s[i]));
        }
        lemma_dec_value_prefix_le(dl, j);
        lemma_dec_value_nonneg(dl);
        assert(s.take(j) =~= dl.take(j));
        assert(is_digit(s[s.len() - 1]));
    }
}

/// The digits of `n` are digits, start non-empty, hold no underscore,
/// and denote `n` again.
pub proof fn lemma_dec_digits_props(n: nat)
    ensures
        dec_digits(n).len() >= 1,
        all_digits(dec_digits(n)),
        dec_value(dec_digits(n)) == n,
    decreases n,
{
    if n < 10 {
        let d = dec_digits(n);
        assert(d == seq![(n + 48) as u8]);
        assert(d.len() == 1);
        assert(d.last() == (n + 48) as u8);
        assert(d.drop_last().len() == 0);
        assert(dec_value(d.drop_last()) == 0);
        assert(dec_value(d) == dec_value(d.drop_last()) * 10 + (d.last() - 48));
    } else {
        lemma_div_is_strictly_smaller(n as int, 10);
        lemma_dec_digits_props(n / 10);
        lemma_fundamental_div_mod(n as int, 10);
        let prior = dec_digits(n / 10);
        let dig = (((n % 10) + 48) as u8);
        assert(dec_digits(n) == prior.push(dig));
        assert(dec_digits(n).drop_last() =~= prior);
        assert(dec_digits(n).last() == dig);
        assert(dec_value(dec_digits(n)) == dec_value(prior) * 10 + (dig - 48));
        assert forall|i: int| 0 <= i < dec_digits(n).len()
            implies is_digit(#[trigger] dec_digits(n)[i]) by {
            if i < prior.len() {
                assert(is_digit(prior[i]));
            }
        }
    }
}

/// Appends the decimal digits of `n` to `out`.
pub fn push_decimal_digits(n: u64, out: &mut Vec<u8>)
    ensures
        final(out)@ == old(out)@ + dec_digits(n as nat),
    decreases n,
{
    if n < 10 {
        out.push((n as u8) + 48);
        assert(old(out)@.push((n + 48) as u8) =~= old(out)@ + dec_digits(n as nat));
    } else {
        proof {
            lemma_div_is_strictly_smaller(n as int, 10);
        }
        push_decimal_digits(n / 10, out);
        out.push(((n % 10) as u8) + 48);
        assert(old(out)@ + dec_digits((n / 10) as nat) + seq![(((n % 10) + 48) as u8)]
            =~= old(out)@ + dec_digits(n as nat));
    }
}

/// The durable file name of an upload: `"{session_id}_{binary_name}"`.
pub open spec fn spec_upload_file_name(session_id: u64, name: Seq<u8>) -> Seq<u8> {
    dec_digits(session_id as nat) + seq![UNDERSCORE] + name
}

/// Builds the durable file name of an upload.
pub fn upload_file_name(session_id: u64, name: &Vec<u8>) -> (r: Vec<u8>)
    ensures
        r@ == spec_upload_file_name(session_id, name@),
{
    let mut out: Vec<u8> = Vec::new();
    push_decimal_digits(session_id, &mut out);
    out.push(UNDERSCORE);
    let mut i: usize = 0;
    while i < name.len()
        invariant
            i <= name.len(),
            out@ == dec_digits(session_id as nat) + seq![UNDERSCORE] + name@.take(i as int),
        decreases name.len() - i,
    {
        out.push(name[i]);
        proof {
            assert(name@.take(i + 1) =~= name@.take(i as int).push(name@[i as int]));
            assert(dec_digits(session_id as nat) + seq![UNDERSCORE] + name@.take(i + 1)
                =~= (dec_digits(session_id as nat) + seq![UNDERSCORE]
                    + name@.take(i as int)).push(name@[i as int]));
        }
        i += 1;
    }
    proof {
        assert(name@.take(name@.len() as int) =~= name@);
        assert(dec_digits(session_id as nat) + seq![UNDERSCORE] =~= dec_digits(
            session_id as nat,
        ) + seq![UNDERSCORE] + name@.take(0));
    }
    out
}

/// A file name the daemon itself wrote parses back to the very session
/// id it was written for, whatever the binary name holds.
pub proof fn lemma_file_name_round_trip(session_id: u64, name: Seq<u8>)
    ensures
        valid_upload_file_name(spec_upload_file_name(session_id, name)),
        spec_prefix_id(spec_upload_file_name(session_id, name)) == session_id,
{
    lemma_dec_digits_props(session_id as nat);
    let digits = dec_digits(session_id as nat);
    let s = spec_upload_file_name(session_id, name);
    let k = digits.len() as int;
    assert forall|j: int| 0 <= j < k implies s[j] != UNDERSCORE by {
        assert(s[j] == digits[j]);
        assert(is_digit(digits[j]));
    }
    assert(s[k] == UNDERSCORE);
    assert(is_prefix_split(s, k));
    assert(s.take(k) =~= digits);
    lemma_split_unique(s, k);
}

/// Parses the numeric prefix before the first underscore of a persisted
/// upload file name; `None` on every malformed name.
pub fn parse_id_prefix(name: &Vec<u8>) -> (r: Option<u64>)
    ensures
        match r {
            Some(id) => valid_upload_file_name(name@) && id as int == spec_prefix_id(name@),
            None => !valid_upload_file_name(name@),
        },
{
    let mut i: usize = 0;
    let mut acc: u64 = 0;
    while i < name.len()
        invariant
            i <= name@.len(),
            forall|j: int| 0 <= j < i ==> #[trigger] name@[j] != UNDERSCORE && is_digit(name@[j]),
            acc as int == dec_value(name@.take(i as int)),
        decreases name@.len() - i,
    {
        let b = name[i];
        assert(b == name@[i as int]);
        if b == UNDERSCORE {
            if i == 0 {
                proof {
                    if valid_upload_file_name(name@) {
                        lemma_valid_parts(name@);
                        assert(name@[0] != UNDERSCORE);
                    }
                }
                return None;
            }
            proof {
                assert(is_prefix_split(name@, i as int));
                assert forall|j: int| 0 <= j < name@.take(i as int).len()
                    implies is_digit(#[trigger] name@.take(i as int)[j]) by {
                    assert(name@.take(i as int)[j] == name@[j]);
                }
                lemma_valid_intro(name@, i as int);
            }
            return Some(acc);
        }
        proof {
            if valid_upload_file_name(name@) {
                lemma_valid_parts(name@);
                let kw = spec_delim_idx(name@);
                if kw < i {
                    assert(name@[kw] != UNDERSCORE);
                    assert(false);
                }
                if kw == i {
                    assert(name@[kw] == UNDERSCORE);
                    assert(false);
                }
                assert(kw > i);
            }
        }
        if b < 48 || b > 57 {
            proof {
                if valid_upload_file_name(name@) {
                    lemma_valid_parts(name@);
                    let kw = spec_delim_idx(name@);
                    assert(name@.take(kw)[i as int] == name@[i as int]);
                    assert(is_digit(name@.take(kw)[i as int]));
                    assert(false);
                }
            }
            return None;
        }
        let d: u8 = b - 48;
        if acc > (u64::MAX - d as u64) / 10 {
            proof {
                lemma_fundamental_div_mod((u64::MAX - d) as int, 10);
                assert(acc * 10 + d > u64::MAX);
                if valid_upload_file_name(name@) {
                    lemma_valid_parts(name@);
                    let kw = spec_delim_idx(name@);
                    assert(name@.take(i + 1) =~= name@.take(i as int).push(b));
                    assert(name@.take(i + 1).drop_last() =~= name@.take(i as int));
                    assert(name@.take(i + 1).last() == b);
                    assert(dec_value(name@.take(i + 1)) == acc * 10 + (b - 48));
                    assert(name@.take(kw).take(i + 1) =~= name@.take(i + 1));
                    lemma_dec_value_prefix_le(name@.take(kw), i + 1);
                    assert(false);
                }
            }
            return None;
        }
        acc = acc * 10 + d as u64;
        proof {
            assert(name@.take(i + 1) =~= name@.take(i as int).push(b));
            assert(name@.take(i + 1).drop_last() =~= name@.take(i as int));
            assert(name@.take(i + 1).last() == b);
        }
        i += 1;
    }
    proof {
        if valid_upload_file_name(name@) {
            lemma_valid_parts(name@);
            let kw = spec_delim_idx(name@);
            assert(name@[kw] != UNDERSCORE);
            assert(false);
        }
    }
    None
}

pub open spec fn all_names_valid(names: Seq<Seq<u8>>) -> bool {
    forall|i: int| 0 <= i < names.len() ==> valid_upload_file_name(#[trigger] names[i])
}

/// The largest session id recorded among persisted upload file names,
/// or zero where there are none.
pub open spec fn spec_max_prefix(names: Seq<Seq<u8>>) -> int
    decreases names.len(),
{
    if names.len() == 0 {
        0
    } else {
        let rest = spec_max_prefix(names.drop_last());
        let lastv = spec_prefix_id(names.last());
        if lastv > rest {
            lastv
        } else {
            rest
        }
    }
}

/// The value the id counter is seeded with at startup: one above the
/// largest persisted prefix, and no lower than the reserved initial
/// id, so the first allocation already exceeds every prefix.
pub open spec fn spec_seed(names: Seq<Seq<u8>>) -> int {
    if spec_max_prefix(names) + 1 > INITIAL_SESSION_ID as int {
        spec_max_prefix(names) + 1
    } else {
        INITIAL_SESSION_ID as int
    }
}

pub proof fn lemma_max_prefix_dominates(names: Seq<Seq<u8>>, k: int)
    requires
        0 <= k < names.len(),
    ensures
        spec_prefix_id(names[k]) <= spec_max_prefix(names),
    decreases names.len(),
{
    if k < names.len() - 1 {
        lemma_max_prefix_dominates(names.drop_last(), k);
        assert(names.drop_last()[k] == names[k]);
    }
}

/// The seed, and so the first id allocated after a restart, is
/// strictly greater than every session id recorded on disk: a fresh
/// session never collides with an earlier one.
pub proof fn lemma_seed_exceeds_prefixes(names: Seq<Seq<u8>>, k: int)
    requires
        0 <= k < names.len(),
    ensures
        spec_prefix_id(names[k]) < spec_seed(names),
{
    lemma_max_prefix_dominates(names, k);
}

/// Why the daemon could not be brought up.
#[derive(Clone, Copy, Debug, PartialEq, Eq, Structural)]
pub enum StartupError {
    /// A persisted upload file name has no delimiter, an empty or
    /// non-numeric id prefix, or a prefix too large for a session id.
    MalformedEntryName,
    /// A persisted prefix sits at the top of the id space: no fresh
    /// id strictly above it exists, so recovery cannot proceed.
    IdSpaceExhausted,
}

/// The daemon's per-process state: the session-id counter and the
/// directory uploaded binaries persist under.
pub struct FlasherdService {
    next_session_id: u64,
    binaries_dir: Vec<u8>,
    allocated: Ghost<Seq<u64>>,
}

impl FlasherdService {
    /// The next session id the allocator will hand out.
    pub closed spec fn next_id(&self) -> u64 {
        self.next_session_id
    }

    /// The directory uploaded binaries persist under, as path bytes.
    pub closed spec fn dir(&self) -> Seq<u8> {
        self.binaries_dir@
    }

    /// Every session id handed out so far, in allocation order.
    pub closed spec fn allocated_ids(&self) -> Seq<u64> {
        self.allocated@
    }

    /// The allocator's invariant: ids already handed out are strictly
    /// increasing and all lie below the counter, so no allocation can
    /// ever repeat one.
    pub open spec fn ids_wf(&self) -> bool {
        &&& forall|i: int, j: int|
            0 <= i < j < self.allocated_ids().len() ==> self.allocated_ids()[i]
                < self.allocated_ids()[j]
        &&& forall|i: int|
            0 <= i < self.allocated_ids().len() ==> #[trigger] self.allocated_ids()[i]
                < self.next_id()
    }

    /// Builds the service from the entry names found in the upload
    /// directory, seeding the id counter at `max(INITIAL_SESSION_ID,
    /// largest persisted prefix + 1)`: strictly above every recorded
    /// session id. Any malformed entry name is fatal, and so is a
    /// prefix at the top of the id space, which leaves no id above it.
    pub fn new(binaries_dir: Vec<u8>, entry_names: &Vec<Vec<u8>>) -> (r: Result<
        FlasherdService,
        StartupError,
    >)
        ensures
            match r {
                Ok(s) => {
                    &&& all_names_valid(entry_names@.map_values(|v: Vec<u8>| v@))
                    &&& spec_max_prefix(entry_names@.map_values(|v: Vec<u8>| v@)) < u64::MAX
                    &&& s.next_id() as int == spec_seed(entry_names@.map_values(|v: Vec<u8>| v@))
                    &&& s.dir() == binaries_dir@
                    &&& s.allocated_ids() =~= Seq::<u64>::empty()
                    &&& s.ids_wf()
                },
                Err(StartupError::MalformedEntryName) => !all_names_valid(
                    entry_names@.map_values(|v: Vec<u8>| v@),
                ),
                Err(StartupError::IdSpaceExhausted) => {
                    &&& all_names_valid(entry_names@.map_values(|v: Vec<u8>| v@))
                    &&& spec_max_prefix(entry_names@.map_values(|v: Vec<u8>| v@)) == u64::MAX
                },
            },
    {
        let ghost ns = entry_names@.map_values(|v: Vec<u8>| v@);
        let mut max_seen: u64 = 0;
        let mut i: usize = 0;
        while i < entry_names.len()
            invariant
                i <= entry_names@.len(),
                ns == entry_names@.map_values(|v: Vec<u8>| v@),
                forall|j: int| 0 <= j < i ==> valid_upload_file_name(#[trigger] ns[j]),
                max_seen as int == spec_max_prefix(ns.take(i as int)),
            decreases entry_names@.len() - i,
        {
            let parsed = parse_id_prefix(&entry_names[i]);
            proof {
                assert(ns[i as int] == entry_names@[i as int]@);
            }
            match parsed {
                None => {
                    return Err(StartupError::MalformedEntryName);
                },
                Some(id) => {
                    if id > max_seen {
                        max_seen = id;
                    }
                    proof {
                        assert(ns.take(i + 1).drop_last() =~= ns.take(i as int));
                        assert(ns.take(i + 1).last() == ns[i as int]);
                    }
                },
            }
            i += 1;
        }
        proof {
            assert(ns.take(ns.len() as int) =~= ns);
        }
        if max_seen == u64::MAX {
            return Err(StartupError::IdSpaceExhausted);
        }
        let next = if INITIAL_SESSION_ID > max_seen + 1 {
            INITIAL_SESSION_ID
        } else {
            max_seen + 1
        };
        Ok(FlasherdService { next_session_id: next, binaries_dir, allocated: Ghost(Seq::empty()) })
    }

    /// Hands out the next session id and advances the counter; ids are
    /// unique for the daemon's lifetime.
    pub fn allocate_session_id(&mut self) -> (id: u64)
        requires
            old(self).next_id() < u64::MAX,
            old(self).ids_wf(),
        ensures
            id == old(self).next_id(),
            final(self).next_id() == old(self).next_id() + 1,
            final(self).dir() == old(self).dir(),
            final(self).allocated_ids() == old(self).allocated_ids().push(id),
            final(self).ids_wf(),
    {
        let id = self.next_session_id;
        self.next_session_id = self.next_session_id + 1;
        proof {
            self.allocated@ = self.allocated@.push(id);
        }
        id
    }

    /// Session identifiers allocated within one daemon lifetime are
    /// strictly increasing, so none is ever handed out twice.
    pub proof fn lemma_session_ids_strictly_increase(&self, i: int, j: int)
        requires
            self.ids_wf(),
            0 <= i < j < self.allocated_ids().len(),
        ensures
            self.allocated_ids()[i] < self.allocated_ids()[j],
    {
    }

    /// The id the next allocation would hand out, so a caller can
    /// refuse new sessions once the counter is exhausted.
    pub fn peek_next_id(&self) -> (r: u64)
        ensures
            r == self.next_id(),
    {
        self.next_session_id
    }

    /// The upload directory, for resolving binary references.
    pub fn binaries_dir(&self) -> (d: &Vec<u8>)
        ensures
            d@ == self.dir(),
    {
        &self.binaries_dir
    }
}

} // verus!
