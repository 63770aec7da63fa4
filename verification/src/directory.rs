use vstd::prelude::*;
use vstd::string::*;
use crate::address::Address;
use crate::address::full_address_chars;
use crate::address::full_address_kana_chars;
use crate::error::JPostError;
use crate::raw::{RawEntry, RawRecord, parse_record, parse_record_spec};
use crate::text::{
    contains_chars, is_ascii_digit_char, starts_with_chars, str_contains, str_equal,
    str_starts_with,
};

verus! {

// ---------------------------------------------------------------------------
// Query-time validation of postal-code strings
// ---------------------------------------------------------------------------
/// The exact-lookup gate: exactly 7 characters, all ASCII digits.
pub open spec fn valid_code_chars(s: Seq<char>) -> bool {
    s.len() == 7 && (forall|i: int| 0 <= i < s.len() ==> is_ascii_digit_char(#[trigger] s[i]))
}

/// The prefix-lookup gate: 3 to 7 characters, all ASCII digits.
pub open spec fn valid_prefix_chars(s: Seq<char>) -> bool {
    3 <= s.len() <= 7 && (forall|i: int| 0 <= i < s.len() ==> is_ascii_digit_char(#[trigger] s[i]))
}

/// Every character of `code` is an ASCII digit.
fn digits_only(code: &str) -> (r: bool)
    ensures
        r == (forall|i: int| 0 <= i < code@.len() ==> is_ascii_digit_char(#[trigger] code@[i])),
{
    let n: usize = code.unicode_len();
    let mut i: usize = 0;
    while i < n
        invariant
            n == code@.len(),
            i <= n,
            forall|j: int| 0 <= j < i ==> is_ascii_digit_char(#[trigger] code@[j]),
        decreases n - i,
    {
        let c = code.get_char(i);
        let u: u32 = c as u32;
        if u < 48 || u > 57 {
            proof {
                assert(!is_ascii_digit_char(code@[i as int]));
            }
            return false;
        }
        i = i + 1;
    }
    true
}

/// The 7-digit predicate shared by `lookup_address` and `valid_postal_code`.
fn is_valid_postal_code(code: &str) -> (r: bool)
    ensures
        r == valid_code_chars(code@),
{
    let n: usize = code.unicode_len();
    if n != 7 {
        return false;
    }
    digits_only(code)
}

/// The 3-to-7-digit predicate gating `lookup_addresses`.
fn is_valid_postal_code_prefix(code: &str) -> (r: bool)
    ensures
        r == valid_prefix_chars(code@),
{
    let n: usize = code.unicode_len();
    if n < 3 || n > 7 {
        return false;
    }
    digits_only(code)
}

/// The 7-digit format test as a standalone utility: the same
/// `valid_code_chars` predicate that gates `lookup_address`.
pub fn valid_postal_code(code: &str) -> (r: bool)
    ensures
        r == valid_code_chars(code@),
{
    is_valid_postal_code(code)
}

// ---------------------------------------------------------------------------
// The directory and its mathematical model
// ---------------------------------------------------------------------------
/// The records stored under `key`, scanning entries front to back.
pub open spec fn find_records(entries: Seq<(Seq<char>, Seq<Address>)>, key: Seq<char>) -> Option<
    Seq<Address>,
>
    decreases entries.len(),
{
    if entries.len() == 0 {
        None
    } else if entries[0].0 == key {
        Some(entries[0].1)
    } else {
        find_records(entries.drop_first(), key)
    }
}

/// No two entries share a key.
pub open spec fn distinct_entry_keys(entries: Seq<(Seq<char>, Seq<Address>)>) -> bool {
    forall|i: int, j: int|
        #![trigger entries[i], entries[j]]
        0 <= i < j < entries.len() ==> entries[i].0 != entries[j].0
}

/// Every entry stores at least one record.
pub open spec fn entries_nonempty(entries: Seq<(Seq<char>, Seq<Address>)>) -> bool {
    forall|i: int| 0 <= i < entries.len() ==> (#[trigger] entries[i]).1.len() > 0
}

/// The immutable address directory: a validated, deduplicated mapping from
/// postcode key to the ordered records stored under it. Built once from a raw
/// dataset; queries never change it.
pub struct AddressDirectory {
    entries: Vec<(String, Vec<Address>)>,
}

impl View for AddressDirectory {
    type V = Seq<(Seq<char>, Seq<Address>)>;

    closed spec fn view(&self) -> Seq<(Seq<char>, Seq<Address>)> {
        self.entries@.map_values(|e: (String, Vec<Address>)| (e.0@, e.1@))
    }
}

impl AddressDirectory {
    /// Keys are unique and no entry is empty: what building establishes.
    pub open spec fn wf(self) -> bool {
        distinct_entry_keys(self@) && entries_nonempty(self@)
    }

    /// The records stored under `key`, if any.
    pub open spec fn spec_lookup(self, key: Seq<char>) -> Option<Seq<Address>> {
        find_records(self@, key)
    }
}

// ---------------------------------------------------------------------------
// Building the directory from a raw dataset
// ---------------------------------------------------------------------------
/// The addresses that survive parsing a list of raw records, in list order.
pub open spec fn parsed_records(rs: Seq<RawRecord>) -> Seq<Address>
    decreases rs.len(),
{
    if rs.len() == 0 {
        Seq::empty()
    } else {
        let rest = parsed_records(rs.drop_last());
        match parse_record_spec(rs.last()) {
            Some(a) => rest.push(a),
            None => rest,
        }
    }
}

/// What one raw entry contributes: a single parsed record, the non-empty list
/// of parsed records, or nothing when the entry is dropped.
pub open spec fn entry_records(e: RawEntry) -> Option<Seq<Address>> {
    match e {
        RawEntry::One(r) => match parse_record_spec(r) {
            Some(a) => Some(seq![a]),
            None => None,
        },
        RawEntry::Many(rs) => {
            let p = parsed_records(rs@);
            if p.len() > 0 {
                Some(p)
            } else {
                None
            }
        },
        RawEntry::Other => None,
    }
}

/// The directory contents built from a raw dataset, in dataset order, keeping
/// exactly the entries that contribute records.
pub open spec fn built_entries(input: Seq<(String, RawEntry)>) -> Seq<(Seq<char>, Seq<Address>)>
    decreases input.len(),
{
    if input.len() == 0 {
        Seq::empty()
    } else {
        let rest = built_entries(input.drop_last());
        match entry_records(input.last().1) {
            Some(recs) => rest.push((input.last().0@, recs)),
            None => rest,
        }
    }
}

/// No two dataset entries share a key (a mapping's keys are unique).
pub open spec fn distinct_keys(input: Seq<(String, RawEntry)>) -> bool {
    forall|i: int, j: int|
        #![trigger input[i], input[j]]
        0 <= i < j < input.len() ==> input[i].0@ != input[j].0@
}

/// `k` is the key of some dataset entry.
pub open spec fn key_from_input(input: Seq<(String, RawEntry)>, k: Seq<char>) -> bool {
    exists|t: int| 0 <= t < input.len() && (#[trigger] input[t]).0@ == k
}

/// A kept entry always contributes at least one record.
proof fn lemma_entry_records_nonempty(e: RawEntry)
    ensures
        entry_records(e) is Some ==> (entry_records(e)->0).len() > 0,
{
}

/// Building from a dataset with unique keys yields unique, non-empty entries,
/// every key taken from the dataset.
proof fn lemma_built_wf(input: Seq<(String, RawEntry)>)
    requires
        distinct_keys(input),
    ensures
        distinct_entry_keys(built_entries(input)),
        entries_nonempty(built_entries(input)),
        forall|p: int|
            0 <= p < built_entries(input).len() ==> key_from_input(
                input,
                (#[trigger] built_entries(input)[p]).0,
            ),
    decreases input.len(),
{
    if input.len() == 0 {
    } else {
        let dl = input.drop_last();
        assert(distinct_keys(dl));
        lemma_built_wf(dl);
        let b = built_entries(input);
        let bd = built_entries(dl);
        assert forall|p: int| 0 <= p < bd.len() implies key_from_input(input, bd[p].0) by {
            let t = choose|t: int| 0 <= t < dl.len() && (#[trigger] dl[t]).0@ == bd[p].0;
            assert(input[t].0@ == bd[p].0);
        }
        match entry_records(input.last().1) {
            None => {
                assert(b == bd);
            },
            Some(recs) => {
                assert(b == bd.push((input.last().0@, recs)));
                lemma_entry_records_nonempty(input.last().1);
                assert forall|p: int, q: int|
                    0 <= p < q < b.len() implies (#[trigger] b[p]).0 != (#[trigger] b[q]).0 by {
                    if q < b.len() - 1 {
                        assert(b[p] == bd[p] && b[q] == bd[q]);
                    } else {
                        assert(b[p] == bd[p]);
                        let t = choose|t: int|
                            0 <= t < dl.len() && (#[trigger] dl[t]).0@ == bd[p].0;
                        assert(input[t].0@ == bd[p].0);
                        assert(input[t].0@ != input[input.len() - 1].0@);
                    }
                }
                assert(entries_nonempty(b));
            },
        }
    }
}

/// Parses each raw record of a list, keeping the survivors in order.
fn collect_parsed(rs: &Vec<RawRecord>) -> (out: Vec<Address>)
    ensures
        out@ == parsed_records(rs@),
{
    let mut out: Vec<Address> = Vec::new();
    let mut j: usize = 0;
    while j < rs.len()
        invariant
            j <= rs@.len(),
            out@ == parsed_records(rs@.take(j as int)),
        decreases rs@.len() - j,
    {
        match parse_record(&rs[j]) {
            Some(a) => out.push(a),
            None => {},
        }
        proof {
            assert(rs@.take(j + 1).drop_last() =~= rs@.take(j as int));
            assert(rs@.take(j + 1).last() == rs@[j as int]);
        }
        j = j + 1;
    }
    proof {
        assert(rs@.take(rs@.len() as int) =~= rs@);
    }
    out
}

impl AddressDirectory {
    /// Builds the directory from the raw dataset: a list value keeps its
    /// successfully parsed elements (if any survive), a single object is
    /// normalized to a one-element list, and every other shape — and every
    /// malformed record — is silently dropped.
    pub fn build(dataset: Vec<(String, RawEntry)>) -> (dir: AddressDirectory)
        requires
            distinct_keys(dataset@),
        ensures
            dir@ == built_entries(dataset@),
            dir.wf(),
    {
        let ghost orig = dataset@;
        let mut rest = dataset;
        let mut entries: Vec<(String, Vec<Address>)> = Vec::new();
        let ghost mut i: int = 0;
        while rest.len() > 0
            invariant
                0 <= i <= orig.len(),
                rest@ == orig.skip(i),
                entries@.map_values(|e: (String, Vec<Address>)| (e.0@, e.1@)) == built_entries(
                    orig.take(i),
                ),
                distinct_keys(orig),
            decreases rest@.len(),
        {
            let kv = rest.remove(0);
            proof {
                assert(kv == orig.skip(i)[0]);
                assert(orig.skip(i)[0] == orig[i]);
                assert(rest@ =~= orig.skip(i + 1));
                assert(orig.take(i + 1).drop_last() =~= orig.take(i));
                assert(orig.take(i + 1).last() == orig[i]);
            }
            let ghost old_view = entries@.map_values(|e: (String, Vec<Address>)| (e.0@, e.1@));
            let (key, entry) = kv;
            match entry {
                RawEntry::One(r) => {
                    match parse_record(&r) {
                        Some(a) => {
                            let mut recs: Vec<Address> = Vec::new();
                            recs.push(a);
                            proof {
                                assert(recs@ =~= seq![a]);
                            }
                            entries.push((key, recs));
                            proof {
                                assert(entries@.map_values(
                                    |e: (String, Vec<Address>)| (e.0@, e.1@),
                                ) =~= old_view.push((orig[i].0@, seq![a])));
                            }
                        },
                        None => {},
                    }
                },
                RawEntry::Many(rs) => {
                    let recs = collect_parsed(&rs);
                    if recs.len() > 0 {
                        entries.push((key, recs));
                        proof {
                            assert(entries@.map_values(
                                |e: (String, Vec<Address>)| (e.0@, e.1@),
                            ) =~= old_view.push((orig[i].0@, parsed_records(rs@))));
                        }
                    }
                },
                RawEntry::Other => {},
            }
            proof {
                i = i + 1;
            }
        }
        proof {
            assert(orig.skip(i).len() == 0);
            assert(i == orig.len());
            assert(orig.take(i) =~= orig);
            lemma_built_wf(orig);
        }
        AddressDirectory { entries }
    }
}

// ---------------------------------------------------------------------------
// Queries
// ---------------------------------------------------------------------------
/// An owned copy of a record list; results never borrow the directory.
fn clone_addresses(v: &Vec<Address>) -> (out: Vec<Address>)
    ensures
        out@ == v@,
{
    let mut out: Vec<Address> = Vec::new();
    let mut j: usize = 0;
    while j < v.len()
        invariant
            j <= v@.len(),
            out@ == v@.take(j as int),
        decreases v@.len() - j,
    {
        out.push(v[j].clone());
        proof {
            assert(out@ =~= v@.take(j + 1));
        }
        j = j + 1;
    }
    proof {
        assert(v@.take(v@.len() as int) =~= v@);
    }
    out
}

/// Exact lookup. A string that is not exactly 7 ASCII digits is rejected as
/// `InvalidFormat`; a well-formed code with no entry yields `NotFound`; a
/// present key yields a copy of its records, in stored order.
pub fn lookup_address(dir: &AddressDirectory, postal_code: &str) -> (res: Result<
    Vec<Address>,
    JPostError,
>)
    ensures
        !valid_code_chars(postal_code@) ==> res == Err::<Vec<Address>, JPostError>(
            JPostError::InvalidFormat,
        ),
        valid_code_chars(postal_code@) ==> match find_records(dir@, postal_code@) {
            Some(recs) => res matches Ok(v) && v@ == recs,
            None => res == Err::<Vec<Address>, JPostError>(JPostError::NotFound),
        },
{
    if !is_valid_postal_code(postal_code) {
        return Err(JPostError::InvalidFormat);
    }
    let n: usize = dir.entries.len();
    let mut i: usize = 0;
    proof {
        assert(dir@.skip(0) =~= dir@);
    }
    while i < n
        invariant
            valid_code_chars(postal_code@),
            n == dir@.len(),
            i <= n,
            find_records(dir@, postal_code@) == find_records(dir@.skip(i as int), postal_code@),
        decreases n - i,
    {
        proof {
            assert(dir@.skip(i as int)[0] == dir@[i as int]);
            assert(dir@[i as int] == (dir.entries@[i as int].0@, dir.entries@[i as int].1@));
        }
        if str_equal(dir.entries[i].0.as_str(), postal_code) {
            proof {
                assert(valid_code_chars(postal_code@));
                assert(find_records(dir@.skip(i as int), postal_code@) == Some(dir@[i as int].1));
            }
            let copied = clone_addresses(&dir.entries[i].1);
            proof {
                assert(copied@ == dir@[i as int].1);
            }
            return Ok(copied);
        }
        proof {
            assert(dir@.skip(i as int).drop_first() =~= dir@.skip(i + 1));
        }
        i = i + 1;
    }
    Err(JPostError::NotFound)
}

/// The records under keys beginning with `p`, in entry order, each key's own
/// record order preserved.
pub open spec fn prefix_results(entries: Seq<(Seq<char>, Seq<Address>)>, p: Seq<char>) -> Seq<
    Address,
>
    decreases entries.len(),
{
    if entries.len() == 0 {
        Seq::empty()
    } else {
        let rest = prefix_results(entries.drop_last(), p);
        if starts_with_chars(entries.last().0, p) {
            rest + entries.last().1
        } else {
            rest
        }
    }
}

/// Prefix lookup. A string of fewer than 3 or more than 7 characters, or with
/// a non-digit, is rejected as `InvalidFormat`; a well-formed prefix matching
/// no records yields `NotFound`; otherwise every record under a key starting
/// with the prefix is returned.
pub fn lookup_addresses(dir: &AddressDirectory, postal_code: &str) -> (res: Result<
    Vec<Address>,
    JPostError,
>)
    ensures
        !valid_prefix_chars(postal_code@) ==> res == Err::<Vec<Address>, JPostError>(
            JPostError::InvalidFormat,
        ),
        valid_prefix_chars(postal_code@) ==> {
            let matches = prefix_results(dir@, postal_code@);
            if matches.len() == 0 {
                res == Err::<Vec<Address>, JPostError>(JPostError::NotFound)
            } else {
                res matches Ok(v) && v@ == matches
            }
        },
{
    if !is_valid_postal_code_prefix(postal_code) {
        return Err(JPostError::InvalidFormat);
    }
    let n: usize = dir.entries.len();
    let mut out: Vec<Address> = Vec::new();
    let mut i: usize = 0;
    while i < n
        invariant
            valid_prefix_chars(postal_code@),
            n == dir@.len(),
            i <= n,
            out@ == prefix_results(dir@.take(i as int), postal_code@),
        decreases n - i,
    {
        proof {
            assert(dir@.take(i + 1).drop_last() =~= dir@.take(i as int));
            assert(dir@.take(i + 1).last() == dir@[i as int]);
        }
        if str_starts_with(dir.entries[i].0.as_str(), postal_code) {
            let mut copied = clone_addresses(&dir.entries[i].1);
            out.append(&mut copied);
        }
        i = i + 1;
    }
    proof {
        assert(dir@.take(n as int) =~= dir@);
    }
    if out.len() == 0 {
        Err(JPostError::NotFound)
    } else {
        Ok(out)
    }
}

/// A record matches a query when the query occurs in the full address or in
/// its kana reading.
pub open spec fn addr_matches(a: Address, q: Seq<char>) -> bool {
    contains_chars(full_address_chars(a), q) || contains_chars(full_address_kana_chars(a), q)
}

/// The records of `recs` matching `q`, in order.
pub open spec fn matching_records(recs: Seq<Address>, q: Seq<char>) -> Seq<Address>
    decreases recs.len(),
{
    if recs.len() == 0 {
        Seq::empty()
    } else {
        let rest = matching_records(recs.drop_last(), q);
        if addr_matches(recs.last(), q) {
            rest.push(recs.last())
        } else {
            rest
        }
    }
}

/// All matching records of the whole directory, entry by entry.
pub open spec fn search_results(entries: Seq<(Seq<char>, Seq<Address>)>, q: Seq<char>) -> Seq<
    Address,
>
    decreases entries.len(),
{
    if entries.len() == 0 {
        Seq::empty()
    } else {
        search_results(entries.drop_last(), q) + matching_records(entries.last().1, q)
    }
}

/// Every record of the directory, entry by entry, record order preserved.
pub open spec fn all_records(entries: Seq<(Seq<char>, Seq<Address>)>) -> Seq<Address>
    decreases entries.len(),
{
    if entries.len() == 0 {
        Seq::empty()
    } else {
        all_records(entries.drop_last()) + entries.last().1
    }
}

/// Substring search over every record. Any query is accepted — the empty
/// query matches every record — and the result is exactly the records whose
/// full address or kana reading contains the query.
pub fn search_by_address(dir: &AddressDirectory, query: &str) -> (res: Vec<Address>)
    ensures
        res@ == search_results(dir@, query@),
{
    let n: usize = dir.entries.len();
    let mut out: Vec<Address> = Vec::new();
    let mut i: usize = 0;
    while i < n
        invariant
            n == dir@.len(),
            i <= n,
            out@ == search_results(dir@.take(i as int), query@),
        decreases n - i,
    {
        proof {
            assert(dir@.take(i + 1).drop_last() =~= dir@.take(i as int));
            assert(dir@.take(i + 1).last() == dir@[i as int]);
        }
        let recs = &dir.entries[i].1;
        let m: usize = recs.len();
        let mut j: usize = 0;
        while j < m
            invariant
                n == dir@.len(),
                i < n,
                m == dir@[i as int].1.len(),
                recs == &dir.entries@[i as int].1,
                recs@ == dir@[i as int].1,
                j <= m,
                out@ == search_results(dir@.take(i as int), query@) + matching_records(
                    recs@.take(j as int),
                    query@,
                ),
            decreases m - j,
        {
            proof {
                assert(recs@.take(j + 1).drop_last() =~= recs@.take(j as int));
                assert(recs@.take(j + 1).last() == recs@[j as int]);
            }
            let a = &recs[j];
            let fa = a.full_address();
            let fk = a.full_address_kana();
            if str_contains(fa.as_str(), query) || str_contains(fk.as_str(), query) {
                out.push(a.clone());
            }
            j = j + 1;
        }
        proof {
            assert(recs@.take(m as int) =~= recs@);
        }
        i = i + 1;
    }
    proof {
        assert(dir@.take(n as int) =~= dir@);
    }
    out
}

// ---------------------------------------------------------------------------
// Laws
// ---------------------------------------------------------------------------
/// Every record stored under a key carries that key as its `postcode`: the
/// assumed property of the source dataset, not enforced at load time.
pub open spec fn keys_consistent(entries: Seq<(Seq<char>, Seq<Address>)>) -> bool {
    forall|i: int, j: int|
        0 <= i < entries.len() && 0 <= j < entries[i].1.len() ==> (#[trigger] entries[i].1[j]).postcode@
            == entries[i].0
}

/// A found key-record pair is one of the entries.
proof fn lemma_find_records_is_entry(
    entries: Seq<(Seq<char>, Seq<Address>)>,
    key: Seq<char>,
    recs: Seq<Address>,
)
    requires
        find_records(entries, key) == Some(recs),
    ensures
        exists|i: int| 0 <= i < entries.len() && (#[trigger] entries[i]) == (key, recs),
    decreases entries.len(),
{
    if entries.len() == 0 {
    } else if entries[0].0 == key {
        assert(entries[0] == (key, recs));
    } else {
        let dl = entries.drop_first();
        lemma_find_records_is_entry(dl, key, recs);
        let i = choose|i: int| 0 <= i < dl.len() && (#[trigger] dl[i]) == (key, recs);
        assert(entries[i + 1] == (key, recs));
    }
}

/// Law: a 7-digit code found in a well-formed, key-consistent directory
/// yields a non-empty record list, and every record of it carries the
/// queried code as its `postcode`.
pub proof fn lemma_lookup_records_carry_code(
    dir: AddressDirectory,
    code: Seq<char>,
    recs: Seq<Address>,
)
    requires
        dir.wf(),
        keys_consistent(dir@),
        valid_code_chars(code),
        dir.spec_lookup(code) == Some(recs),
    ensures
        recs.len() > 0,
        forall|j: int| 0 <= j < recs.len() ==> (#[trigger] recs[j]).postcode@ == code,
{
    lemma_find_records_is_entry(dir@, code, recs);
    let i = choose|i: int| 0 <= i < dir@.len() && (#[trigger] dir@[i]) == (code, recs);
    assert((#[trigger] dir@[i]).1.len() > 0);
    assert forall|j: int| 0 <= j < recs.len() implies (#[trigger] recs[j]).postcode@ == code by {
        assert(dir@[i].1[j].postcode@ == dir@[i].0);
    }
}

/// Key consistency carries over to a directory shortened by one entry.
proof fn lemma_keys_consistent_drop_last(entries: Seq<(Seq<char>, Seq<Address>)>)
    requires
        keys_consistent(entries),
        entries.len() > 0,
    ensures
        keys_consistent(entries.drop_last()),
{
    let dl = entries.drop_last();
    assert forall|i: int, j: int|
        0 <= i < dl.len() && 0 <= j < dl[i].1.len() implies (#[trigger] dl[i].1[j]).postcode@
        == dl[i].0 by {
        assert(dl[i] == entries[i]);
        assert(entries[i].1[j].postcode@ == entries[i].0);
    }
}

/// One matching key with records makes the prefix result non-empty.
proof fn lemma_prefix_results_nonempty(
    entries: Seq<(Seq<char>, Seq<Address>)>,
    p: Seq<char>,
    i: int,
)
    requires
        0 <= i < entries.len(),
        starts_with_chars(entries[i].0, p),
        entries[i].1.len() > 0,
    ensures
        prefix_results(entries, p).len() > 0,
    decreases entries.len(),
{
    if i == entries.len() - 1 {
        assert(entries.last() == entries[i]);
    } else {
        let dl = entries.drop_last();
        assert(dl[i] == entries[i]);
        lemma_prefix_results_nonempty(dl, p, i);
    }
}

/// Under key consistency, every prefix-result record's postcode starts with
/// the prefix.
proof fn lemma_prefix_results_sound(entries: Seq<(Seq<char>, Seq<Address>)>, p: Seq<char>)
    requires
        keys_consistent(entries),
    ensures
        forall|j: int|
            0 <= j < prefix_results(entries, p).len() ==> starts_with_chars(
                (#[trigger] prefix_results(entries, p)[j]).postcode@,
                p,
            ),
    decreases entries.len(),
{
    if entries.len() == 0 {
    } else {
        let dl = entries.drop_last();
        lemma_keys_consistent_drop_last(entries);
        lemma_prefix_results_sound(dl, p);
        let r = prefix_results(entries, p);
        let rd = prefix_results(dl, p);
        assert forall|j: int|
            0 <= j < r.len() implies starts_with_chars((#[trigger] r[j]).postcode@, p) by {
            if starts_with_chars(entries.last().0, p) {
                if j < rd.len() {
                    assert(r[j] == rd[j]);
                } else {
                    let t = j - rd.len();
                    assert(r[j] == entries.last().1[t]);
                    assert(entries[entries.len() - 1].1[t].postcode@ == entries[entries.len()
                        - 1].0);
                }
            } else {
                assert(r[j] == rd[j]);
            }
        }
    }
}

/// Law: a valid prefix with at least one matching key in a well-formed,
/// key-consistent directory yields a non-empty result, and every result
/// record's postcode starts with the prefix.
pub proof fn lemma_prefix_lookup_matches(dir: AddressDirectory, p: Seq<char>)
    requires
        dir.wf(),
        keys_consistent(dir@),
        valid_prefix_chars(p),
        exists|i: int| 0 <= i < dir@.len() && starts_with_chars((#[trigger] dir@[i]).0, p),
    ensures
        prefix_results(dir@, p).len() > 0,
        forall|j: int|
            0 <= j < prefix_results(dir@, p).len() ==> starts_with_chars(
                (#[trigger] prefix_results(dir@, p)[j]).postcode@,
                p,
            ),
{
    let i = choose|i: int| 0 <= i < dir@.len() && starts_with_chars((#[trigger] dir@[i]).0, p);
    assert((#[trigger] dir@[i]).1.len() > 0);
    lemma_prefix_results_nonempty(dir@, p, i);
    lemma_prefix_results_sound(dir@, p);
}

/// Every record kept by the per-list filter matches the query.
proof fn lemma_matching_records_match(recs: Seq<Address>, q: Seq<char>)
    ensures
        forall|j: int|
            0 <= j < matching_records(recs, q).len() ==> addr_matches(
                #[trigger] matching_records(recs, q)[j],
                q,
            ),
    decreases recs.len(),
{
    if recs.len() == 0 {
    } else {
        lemma_matching_records_match(recs.drop_last(), q);
        let r = matching_records(recs, q);
        let rd = matching_records(recs.drop_last(), q);
        assert forall|j: int| 0 <= j < r.len() implies addr_matches(#[trigger] r[j], q) by {
            if addr_matches(recs.last(), q) && j == rd.len() {
                assert(r[j] == recs.last());
            } else {
                assert(r[j] == rd[j]);
            }
        }
    }
}

/// Law: substring search never fails, and each result record satisfies the
/// containment predicate against the full address or its kana reading.
pub proof fn lemma_search_results_match(dir: AddressDirectory, q: Seq<char>)
    ensures
        forall|j: int|
            0 <= j < search_results(dir@, q).len() ==> addr_matches(
                #[trigger] search_results(dir@, q)[j],
                q,
            ),
{
    lemma_search_entries_match(dir@, q);
}

/// Induction over the entries for the search-soundness law.
proof fn lemma_search_entries_match(entries: Seq<(Seq<char>, Seq<Address>)>, q: Seq<char>)
    ensures
        forall|j: int|
            0 <= j < search_results(entries, q).len() ==> addr_matches(
                #[trigger] search_results(entries, q)[j],
                q,
            ),
    decreases entries.len(),
{
    if entries.len() == 0 {
    } else {
        let dl = entries.drop_last();
        lemma_search_entries_match(dl, q);
        lemma_matching_records_match(entries.last().1, q);
        let r = search_results(entries, q);
        let rd = search_results(dl, q);
        let m = matching_records(entries.last().1, q);
        assert forall|j: int| 0 <= j < r.len() implies addr_matches(#[trigger] r[j], q) by {
            if j < rd.len() {
                assert(r[j] == rd[j]);
            } else {
                assert(r[j] == m[j - rd.len()]);
            }
        }
    }
}

/// The empty query matches every record.
proof fn lemma_matching_records_empty_query(recs: Seq<Address>, q: Seq<char>)
    requires
        q.len() == 0,
    ensures
        matching_records(recs, q) == recs,
    decreases recs.len(),
{
    if recs.len() == 0 {
        assert(matching_records(recs, q) =~= recs);
    } else {
        lemma_matching_records_empty_query(recs.drop_last(), q);
        let a = recs.last();
        assert(contains_chars(crate::address::full_address_chars(a), q)) by {
            assert(crate::address::full_address_chars(a).subrange(0, 0 + q.len() as int) =~= q);
        }
        assert(matching_records(recs, q) == recs.drop_last().push(a));
        assert(recs.drop_last().push(a) =~= recs);
    }
}

/// Law: the empty query returns every record in the directory.
pub proof fn lemma_search_empty_query(dir: AddressDirectory, q: Seq<char>)
    requires
        q.len() == 0,
    ensures
        search_results(dir@, q) == all_records(dir@),
{
    lemma_search_entries_empty_query(dir@, q);
}

/// Induction over the entries for the empty-query law.
proof fn lemma_search_entries_empty_query(entries: Seq<(Seq<char>, Seq<Address>)>, q: Seq<char>)
    requires
        q.len() == 0,
    ensures
        search_results(entries, q) == all_records(entries),
    decreases entries.len(),
{
    if entries.len() == 0 {
    } else {
        lemma_search_entries_empty_query(entries.drop_last(), q);
        lemma_matching_records_empty_query(entries.last().1, q);
    }
}

} // verus!
