//! The result cache: merging a fresh discovery into cached results, and
//! the flat delimited-record format in which the cache is kept.

use crate::decimal::{
    decimal, decimal_value, format_decimal, lemma_decimal_round_trip, parse_decimal,
};
use crate::mutants::{
    distinct_identities, has_identity, identities, Identity, Mutant, MutantStatus, MutantView,
};
use crate::text::to_chars;
use vstd::prelude::*;

verus! {

/// A record as the sequence of its fields.
pub type Record = Seq<Seq<char>>;

/// The text that the CSV writer gives for one record, with its
/// terminator; `None` where it gives none.
pub uninterp spec fn csv_line(fields: Seq<Seq<char>>) -> Option<Seq<char>>;

/// The records that the CSV reader finds in a text, the first line
/// included; `None` where it reports an error.
pub uninterp spec fn csv_records(text: Seq<char>) -> Option<Seq<Seq<Seq<char>>>>;

/// The error type of the CSV library.
#[verifier::external_type_specification]
#[verifier::external_body]
pub struct ExCsvError(csv::Error);

/// `csv::Writer::write_record` on a fresh writer over a byte vector, then
/// `Writer::into_inner`: the text of one record. The contract only names
/// the result; it is `None` where the writer or the conversion of its
/// bytes to text reports an error.
#[verifier::external_body]
fn csv_write_record(fields: &Vec<String>) -> (r: Option<String>)
    ensures
        r.deep_view() == csv_line(fields.deep_view()),
{
    let mut writer = csv::Writer::from_writer(Vec::new());
    if writer.write_record(fields).is_err() {
        return None;
    }
    match writer.into_inner() {
        Ok(bytes) => String::from_utf8(bytes).ok(),
        Err(_) => None,
    }
}

/// `csv::Reader::records` on a reader over the bytes of `text` that takes
/// the first line as a record too: all records, each as its fields. The
/// contract only names the result, and says that an error of the reader
/// is the case in which there is none.
#[verifier::external_body]
fn csv_read_records(text: &str) -> (r: Result<Vec<Vec<String>>, csv::Error>)
    ensures
        match r {
            Ok(rows) => csv_records(text@) == Some(rows.deep_view()),
            Err(_) => csv_records(text@) is None,
        },
{
    let mut reader = csv::ReaderBuilder::new().has_headers(false).from_reader(text.as_bytes());
    let mut rows: Vec<Vec<String>> = Vec::new();
    for record in reader.records() {
        rows.push(record?.iter().map(String::from).collect());
    }
    Ok(rows)
}

/// Why the cache could not be read or written.
#[derive(Debug, Copy, Clone, PartialEq, Eq, Structural)]
pub enum CacheError {
    /// The cached text is no cache: it cannot be parsed, its first record
    /// is not the header, or a record does not describe a mutant.
    Corrupt,
    /// A record could not be put into text.
    Unwritable,
}

/// The cache after the first `k` discovered mutants are merged into it:
/// the cached entries as they are, followed by each discovered mutant
/// whose identity was not there yet, as not run.
pub open spec fn merged(discovered: Seq<MutantView>, cached: Seq<MutantView>, k: int) -> Seq<
    MutantView,
>
    decreases k,
{
    if k <= 0 {
        cached
    } else {
        let prior = merged(discovered, cached, k - 1);
        if has_identity(prior, discovered[k - 1].identity()) {
            prior
        } else {
            prior.push(discovered[k - 1].with_status(MutantStatus::NotRun))
        }
    }
}

/// The merge of all of `discovered` into `cached`.
pub open spec fn merge_all(discovered: Seq<MutantView>, cached: Seq<MutantView>) -> Seq<
    MutantView,
> {
    merged(discovered, cached, discovered.len() as int)
}

/// A merge keeps the cache in front, entry for entry, and what it adds
/// are discovered mutants, not run, whose identities the cache lacked.
pub proof fn lemma_merge_keeps_cache(discovered: Seq<MutantView>, cached: Seq<MutantView>, k: int)
    requires
        k <= discovered.len(),
    ensures
        merged(discovered, cached, k).len() >= cached.len(),
        merged(discovered, cached, k).subrange(0, cached.len() as int) == cached,
        forall|i: int|
            cached.len() <= i < merged(discovered, cached, k).len() ==> {
                let m = #[trigger] merged(discovered, cached, k)[i];
                &&& m.status == MutantStatus::NotRun
                &&& !has_identity(cached, m.identity())
                &&& has_identity(discovered, m.identity())
            },
    decreases k,
{
    if k > 0 {
        lemma_merge_keeps_cache(discovered, cached, k - 1);
        let prior = merged(discovered, cached, k - 1);
        let here = merged(discovered, cached, k);
        let d = discovered[k - 1];
        if !has_identity(prior, d.identity()) {
            assert forall|i: int| cached.len() <= i < here.len() implies {
                let m = #[trigger] here[i];
                &&& m.status == MutantStatus::NotRun
                &&& !has_identity(cached, m.identity())
                &&& has_identity(discovered, m.identity())
            } by {
                if i >= prior.len() && has_identity(cached, d.identity()) {
                    let c = choose|c: int|
                        0 <= c < cached.len() && #[trigger] cached[c].identity() == d.identity();
                    assert(prior[c].identity() == d.identity());
                }
            }
        }
    }
}

/// The identities of a merge are those of the cache and those merged in.
pub proof fn lemma_merge_identities(
    discovered: Seq<MutantView>,
    cached: Seq<MutantView>,
    k: int,
    id: Identity,
)
    requires
        0 <= k <= discovered.len(),
    ensures
        has_identity(merged(discovered, cached, k), id) <==> has_identity(cached, id)
            || has_identity(discovered.subrange(0, k), id),
    decreases k,
{
    if k > 0 {
        lemma_merge_identities(discovered, cached, k - 1, id);
        let prior = merged(discovered, cached, k - 1);
        let here = merged(discovered, cached, k);
        let d = discovered[k - 1];
        let front = discovered.subrange(0, k - 1);
        let upto = discovered.subrange(0, k);
        // an identity of the first k discovered is one of the first k - 1 or that of d
        if has_identity(upto, id) {
            let i = choose|i: int| 0 <= i < upto.len() && #[trigger] upto[i].identity() == id;
            if i < k - 1 {
                assert(front[i].identity() == id);
            }
        }
        if has_identity(front, id) {
            let i = choose|i: int| 0 <= i < front.len() && #[trigger] front[i].identity() == id;
            assert(upto[i].identity() == id);
        }
        assert(upto[k - 1].identity() == d.identity());
        // where d is appended, the merge holds what it held before and d
        if !has_identity(prior, d.identity()) {
            assert(here[prior.len() as int].identity() == d.identity());
            if has_identity(prior, id) {
                let i = choose|i: int|
                    0 <= i < prior.len() && #[trigger] prior[i].identity() == id;
                assert(here[i].identity() == id);
            }
            if has_identity(here, id) {
                let i = choose|i: int| 0 <= i < here.len() && #[trigger] here[i].identity() == id;
                if i < prior.len() {
                    assert(prior[i].identity() == id);
                }
            }
        }
    }
}

/// A merge into a cache without duplicates is without duplicates.
pub proof fn lemma_merge_distinct(discovered: Seq<MutantView>, cached: Seq<MutantView>, k: int)
    requires
        k <= discovered.len(),
        distinct_identities(cached),
    ensures
        distinct_identities(merged(discovered, cached, k)),
    decreases k,
{
    if k > 0 {
        lemma_merge_distinct(discovered, cached, k - 1);
    }
}

/// Merging mutants whose identities are all there already changes
/// nothing.
pub proof fn lemma_merge_known(discovered: Seq<MutantView>, cached: Seq<MutantView>, k: int)
    requires
        k <= discovered.len(),
        forall|i: int| 0 <= i < k ==> has_identity(cached, #[trigger] discovered[i].identity()),
    ensures
        merged(discovered, cached, k) == cached,
    decreases k,
{
    if k > 0 {
        lemma_merge_known(discovered, cached, k - 1);
    }
}

/// A list without duplicate identities has as many identities as entries.
pub proof fn lemma_identity_count(mutants: Seq<MutantView>)
    requires
        distinct_identities(mutants),
    ensures
        identities(mutants).finite(),
        identities(mutants).len() == mutants.len(),
    decreases mutants.len(),
{
    if mutants.len() == 0 {
        assert(identities(mutants) =~= Set::<Identity>::empty());
    } else {
        let front = mutants.drop_last();
        let last = mutants.last();
        lemma_identity_count(front);
        assert(!identities(front).contains(last.identity())) by {
            if identities(front).contains(last.identity()) {
                let i = choose|i: int|
                    0 <= i < front.len() && front[i].identity() == last.identity();
                assert(mutants[i].identity() == mutants[mutants.len() - 1].identity());
            }
        }
        assert(identities(mutants) =~= identities(front).insert(last.identity())) by {
            assert forall|id: Identity|
                identities(mutants).contains(id) <==> identities(front).insert(
                    last.identity(),
                ).contains(id) by {
                if identities(mutants).contains(id) {
                    let i = choose|i: int| 0 <= i < mutants.len() && mutants[i].identity() == id;
                    if i < front.len() {
                        assert(front[i].identity() == id);
                    }
                }
                if identities(front).contains(id) {
                    let i = choose|i: int| 0 <= i < front.len() && front[i].identity() == id;
                    assert(mutants[i].identity() == id);
                }
            }
        }
    }
}

/// The merge is a stable union keyed by identity. The cached entries stay
/// in front, in their order and with their statuses; behind them come the
/// discovered mutants that the cache lacked, as not run. The identities
/// of the result are those of the cache and of the discovery together,
/// and for a cache without duplicates the result has none and holds as
/// many entries as there are identities in the two.
pub proof fn lemma_merge_is_union(discovered: Seq<MutantView>, cached: Seq<MutantView>)
    requires
        distinct_identities(cached),
    ensures
        merge_all(discovered, cached).subrange(0, cached.len() as int) == cached,
        identities(merge_all(discovered, cached)) == identities(cached).union(
            identities(discovered),
        ),
        distinct_identities(merge_all(discovered, cached)),
        identities(cached).union(identities(discovered)).finite(),
        merge_all(discovered, cached).len() == identities(cached).union(
            identities(discovered),
        ).len(),
{
    let all = merge_all(discovered, cached);
    let n = discovered.len() as int;
    lemma_merge_keeps_cache(discovered, cached, n);
    lemma_merge_distinct(discovered, cached, n);
    assert(discovered.subrange(0, n) =~= discovered);
    assert forall|id: Identity|
        identities(all).contains(id) <==> identities(cached).union(
            identities(discovered),
        ).contains(id) by {
        lemma_merge_identities(discovered, cached, n, id);
    }
    lemma_identity_count(all);
}

/// Merging the same discovery a second time changes nothing.
pub proof fn lemma_merge_idempotent(discovered: Seq<MutantView>, cached: Seq<MutantView>)
    ensures
        merge_all(discovered, merge_all(discovered, cached)) == merge_all(discovered, cached),
{
    let once = merge_all(discovered, cached);
    let n = discovered.len() as int;
    assert forall|i: int| 0 <= i < n implies has_identity(
        once,
        #[trigger] discovered[i].identity(),
    ) by {
        lemma_merge_identities(discovered, cached, n, discovered[i].identity());
        assert(discovered.subrange(0, n)[i].identity() == discovered[i].identity());
    }
    lemma_merge_known(discovered, once, n);
}

/// Whether two texts are the same.
pub fn same_text(a: &str, b: &str) -> (r: bool)
    ensures
        r == (a@ == b@),
{
    let left = to_chars(a);
    let right = to_chars(b);
    if left.len() != right.len() {
        return false;
    }
    let mut k: usize = 0;
    while k < left.len()
        invariant
            k <= left.len(),
            left.len() == right.len(),
            left@ == a@,
            right@ == b@,
            forall|j: int| 0 <= j < k ==> left@[j] == right@[j],
        decreases left.len() - k,
    {
        if left[k] != right[k] {
            return false;
        }
        k += 1;
    }
    assert(left@ =~= right@);
    true
}

/// Whether two mutants have the same identity.
pub fn same_identity(a: &Mutant, b: &Mutant) -> (r: bool)
    ensures
        r == (a@.identity() == b@.identity()),
{
    a.line_number == b.line_number && same_text(a.file_path.as_str(), b.file_path.as_str())
        && same_text(a.before.as_str(), b.before.as_str()) && same_text(
        a.after.as_str(),
        b.after.as_str(),
    )
}

fn holds_identity(mutants: &Vec<Mutant>, wanted: &Mutant) -> (r: bool)
    ensures
        r == has_identity(mutants.deep_view(), wanted@.identity()),
{
    let mut k: usize = 0;
    while k < mutants.len()
        invariant
            k <= mutants.len(),
            forall|j: int|
                0 <= j < k ==> (#[trigger] mutants.deep_view()[j]).identity()
                    != wanted@.identity(),
        decreases mutants.len() - k,
    {
        assert(mutants.deep_view()[k as int] == mutants@[k as int]@);
        if same_identity(&mutants[k], wanted) {
            return true;
        }
        k += 1;
    }
    false
}

/// The cached results with a fresh discovery merged in: every cached
/// entry is kept as it is, status included, also where it was not
/// discovered again; each discovered mutant whose identity is new is
/// appended as not run.
pub fn merge(discovered: &Vec<Mutant>, cached: &Vec<Mutant>) -> (all: Vec<Mutant>)
    ensures
        all.deep_view() == merge_all(discovered.deep_view(), cached.deep_view()),
{
    let mut all: Vec<Mutant> = Vec::new();
    let mut c: usize = 0;
    while c < cached.len()
        invariant
            c <= cached.len(),
            all.deep_view() == cached.deep_view().subrange(0, c as int),
        decreases cached.len() - c,
    {
        let ghost prior = all.deep_view();
        let entry = cached[c].clone();
        all.push(entry);
        assert(all.deep_view() =~= prior.push(cached@[c as int]@));
        c += 1;
    }
    let mut k: usize = 0;
    while k < discovered.len()
        invariant
            k <= discovered.len(),
            all.deep_view() == merged(discovered.deep_view(), cached.deep_view(), k as int),
        decreases discovered.len() - k,
    {
        if !holds_identity(&all, &discovered[k]) {
            let mut entry = discovered[k].clone();
            entry.status = MutantStatus::NotRun;
            all.push(entry);
        }
        k += 1;
    }
    all
}

/// The first record of a cache: the names of the fields.
pub open spec fn header() -> Record {
    seq!["file_path"@, "line_number"@, "before"@, "after"@, "status"@]
}

/// The name under which a status is kept.
pub open spec fn status_name(status: MutantStatus) -> Seq<char> {
    match status {
        MutantStatus::NotRun => "NotRun"@,
        MutantStatus::Caught => "Caught"@,
        MutantStatus::Missed => "Missed"@,
    }
}

/// The status that a name stands for.
pub open spec fn status_of(name: Seq<char>) -> Option<MutantStatus> {
    if name == "NotRun"@ {
        Some(MutantStatus::NotRun)
    } else if name == "Caught"@ {
        Some(MutantStatus::Caught)
    } else if name == "Missed"@ {
        Some(MutantStatus::Missed)
    } else {
        None
    }
}

/// The record of a mutant: path, line number, trigger, replacement and
/// status. The captured line is not kept.
pub open spec fn record_of(m: MutantView) -> Record {
    seq![m.file_path, decimal(m.line_number), m.before, m.after, status_name(m.status)]
}

/// The mutant that a record describes: five fields, the second a numeral
/// that fits the machine word, the fifth the name of a status.
pub open spec fn mutant_of(fields: Record) -> Option<MutantView> {
    if fields.len() == 5 && decimal_value(fields[1]) is Some && decimal_value(fields[1])->0
        <= usize::MAX && status_of(fields[4]) is Some {
        Some(
            MutantView {
                file_path: fields[0],
                line_number: decimal_value(fields[1])->0,
                before: fields[2],
                after: fields[3],
                original_line: None,
                status: status_of(fields[4])->0,
            },
        )
    } else {
        None
    }
}

/// The records of a cache that holds `mutants`: none for no mutants, else
/// the header and one record for each mutant, in order.
pub open spec fn cache_records(mutants: Seq<MutantView>) -> Seq<Record> {
    if mutants.len() == 0 {
        Seq::empty()
    } else {
        seq![header()] + Seq::new(mutants.len(), |i: int| record_of(mutants[i]))
    }
}

/// The text of the first `k` records, one after the other; `None` where
/// one of them has no text.
pub open spec fn records_text(records: Seq<Record>, k: int) -> Option<Seq<char>>
    decreases k,
{
    if k <= 0 {
        Some(Seq::empty())
    } else {
        match (records_text(records, k - 1), csv_line(records[k - 1])) {
            (Some(front), Some(line)) => Some(front + line),
            _ => None,
        }
    }
}

/// Whether every record after the first describes a mutant.
pub open spec fn all_describe_mutants(rows: Seq<Record>) -> bool {
    forall|i: int| 1 <= i < rows.len() ==> mutant_of(#[trigger] rows[i]) is Some
}

/// The mutants that the records of a cache describe: none for no record;
/// else the first record is the header and each further one describes a
/// mutant.
pub open spec fn mutants_of(rows: Seq<Record>) -> Option<Seq<MutantView>> {
    if rows.len() == 0 {
        Some(Seq::empty())
    } else if rows[0] == header() && all_describe_mutants(rows) {
        Some(Seq::new((rows.len() - 1) as nat, |i: int| mutant_of(rows[i + 1])->0))
    } else {
        None
    }
}

/// The view of the result of reading a cache.
pub open spec fn read_view(r: Result<Vec<Mutant>, CacheError>) -> Result<
    Seq<MutantView>,
    CacheError,
> {
    match r {
        Ok(mutants) => Ok(mutants.deep_view()),
        Err(e) => Err(e),
    }
}

/// The view of the result of writing a cache.
pub open spec fn write_view(r: Result<String, CacheError>) -> Result<Seq<char>, CacheError> {
    match r {
        Ok(text) => Ok(text@),
        Err(e) => Err(e),
    }
}

/// A record that was made of a mutant describes that mutant, without its
/// captured line.
pub proof fn lemma_record_round_trip(m: MutantView)
    requires
        m.line_number <= usize::MAX,
    ensures
        mutant_of(record_of(m)) == Some(MutantView { original_line: None, ..m }),
{
    lemma_decimal_round_trip(m.line_number);
    reveal_strlit("NotRun");
    reveal_strlit("Caught");
    reveal_strlit("Missed");
    assert("NotRun"@[0] != "Caught"@[0]);
    assert("NotRun"@[0] != "Missed"@[0]);
    assert("Caught"@[0] != "Missed"@[0]);
}

fn status_text(status: MutantStatus) -> (r: &'static str)
    ensures
        r@ == status_name(status),
{
    match status {
        MutantStatus::NotRun => "NotRun",
        MutantStatus::Caught => "Caught",
        MutantStatus::Missed => "Missed",
    }
}

fn parse_status(name: &str) -> (r: Option<MutantStatus>)
    ensures
        r == status_of(name@),
{
    if same_text(name, "NotRun") {
        Some(MutantStatus::NotRun)
    } else if same_text(name, "Caught") {
        Some(MutantStatus::Caught)
    } else if same_text(name, "Missed") {
        Some(MutantStatus::Missed)
    } else {
        None
    }
}

fn header_fields() -> (r: Vec<String>)
    ensures
        r.deep_view() == header(),
{
    let mut r: Vec<String> = Vec::new();
    r.push(String::from_str("file_path"));
    r.push(String::from_str("line_number"));
    r.push(String::from_str("before"));
    r.push(String::from_str("after"));
    r.push(String::from_str("status"));
    r
}

fn is_header(fields: &Vec<String>) -> (r: bool)
    ensures
        r == (fields.deep_view() == header()),
{
    if fields.len() != 5 {
        return false;
    }
    let r = same_text(fields[0].as_str(), "file_path") && same_text(
        fields[1].as_str(),
        "line_number",
    ) && same_text(fields[2].as_str(), "before") && same_text(fields[3].as_str(), "after")
        && same_text(fields[4].as_str(), "status");
    if r {
        assert(fields.deep_view() =~= header());
    }
    r
}

/// The record of a mutant.
pub fn mutant_record(m: &Mutant) -> (r: Vec<String>)
    ensures
        r.deep_view() == record_of(m@),
{
    let mut r: Vec<String> = Vec::new();
    r.push(m.file_path.clone());
    r.push(format_decimal(m.line_number));
    r.push(m.before.clone());
    r.push(m.after.clone());
    r.push(String::from_str(status_text(m.status)));
    r
}

/// The mutant that a record describes, if it describes one.
pub fn record_mutant(fields: &Vec<String>) -> (r: Option<Mutant>)
    ensures
        r.deep_view() == mutant_of(fields.deep_view()),
{
    if fields.len() != 5 {
        return None;
    }
    match (parse_decimal(fields[1].as_str()), parse_status(fields[4].as_str())) {
        (Some(line_number), Some(status)) => Some(
            Mutant {
                file_path: fields[0].clone(),
                line_number,
                before: fields[2].clone(),
                after: fields[3].clone(),
                original_line: None,
                status,
            },
        ),
        _ => None,
    }
}

/// The text of `records`, one after the other, as the CSV writer gives
/// it for each.
pub fn encode_records(records: &Vec<Vec<String>>) -> (r: Result<String, CacheError>)
    ensures
        write_view(r) == match records_text(records.deep_view(), records.len() as int) {
            Some(text) => Ok::<Seq<char>, CacheError>(text),
            None => Err(CacheError::Unwritable),
        },
{
    let mut text = String::new();
    let mut k: usize = 0;
    while k < records.len()
        invariant
            k <= records.len(),
            records_text(records.deep_view(), k as int) == Some(text@),
        decreases records.len() - k,
    {
        match csv_write_record(&records[k]) {
            Some(line) => {
                text.append(line.as_str());
            },
            None => {
                proof {
                    lemma_records_text_fails(records.deep_view(), k + 1, records.len() as int);
                }
                return Err(CacheError::Unwritable);
            },
        }
        k += 1;
    }
    Ok(text)
}

/// Where the first `k` records have no text, no longer run has one.
pub proof fn lemma_records_text_fails(records: Seq<Record>, k: int, n: int)
    requires
        k <= n,
        records_text(records, k) is None,
    ensures
        records_text(records, n) is None,
    decreases n - k,
{
    if k < n {
        lemma_records_text_fails(records, k, n - 1);
    }
}

/// The text of a cache that holds `mutants`: empty for no mutants, else a
/// header record and one record for each mutant, in order.
pub fn write_csv_cache(mutants: &[Mutant]) -> (r: Result<String, CacheError>)
    ensures
        write_view(r) == match records_text(
            cache_records(mutants.deep_view()),
            cache_records(mutants.deep_view()).len() as int,
        ) {
            Some(text) => Ok::<Seq<char>, CacheError>(text),
            None => Err(CacheError::Unwritable),
        },
{
    let mut records: Vec<Vec<String>> = Vec::new();
    if mutants.len() > 0 {
        records.push(header_fields());
        let mut k: usize = 0;
        while k < mutants.len()
            invariant
                k <= mutants.len(),
                records.deep_view() == seq![header()] + Seq::new(
                    k as nat,
                    |i: int| record_of(mutants.deep_view()[i]),
                ),
            decreases mutants.len() - k,
        {
            let ghost prior = records.deep_view();
            let record = mutant_record(&mutants[k]);
            records.push(record);
            assert(records.deep_view() =~= prior.push(record.deep_view()));
            k += 1;
        }
    }
    encode_records(&records)
}

/// The mutants that the records of a cache describe.
pub fn mutants_from_records(rows: &Vec<Vec<String>>) -> (r: Result<Vec<Mutant>, CacheError>)
    ensures
        read_view(r) == match mutants_of(rows.deep_view()) {
            Some(mutants) => Ok::<Seq<MutantView>, CacheError>(mutants),
            None => Err(CacheError::Corrupt),
        },
{
    let mut mutants: Vec<Mutant> = Vec::new();
    if rows.len() == 0 {
        assert(mutants.deep_view() =~= Seq::<MutantView>::empty());
        return Ok(mutants);
    }
    if !is_header(&rows[0]) {
        return Err(CacheError::Corrupt);
    }
    let ghost records = rows.deep_view();
    let mut k: usize = 1;
    while k < rows.len()
        invariant
            1 <= k <= rows.len(),
            records == rows.deep_view(),
            forall|i: int| 1 <= i < k ==> mutant_of(#[trigger] records[i]) is Some,
            mutants.deep_view() == Seq::new((k - 1) as nat, |i: int| mutant_of(records[i + 1])->0),
        decreases rows.len() - k,
    {
        let ghost prior = mutants.deep_view();
        assert(records[k as int] == rows@[k as int].deep_view());
        match record_mutant(&rows[k]) {
            Some(m) => {
                mutants.push(m);
                assert(mutants.deep_view() =~= prior.push(m@));
            },
            None => {
                return Err(CacheError::Corrupt);
            },
        }
        k += 1;
    }
    Ok(mutants)
}

/// The mutants of a cache with the text `text`. A text that the CSV
/// reader refuses, or whose records are not those of a cache, is
/// corrupt.
pub fn read_csv_cache(text: &str) -> (r: Result<Vec<Mutant>, CacheError>)
    ensures
        read_view(r) == match csv_records(text@) {
            Some(rows) => match mutants_of(rows) {
                Some(mutants) => Ok::<Seq<MutantView>, CacheError>(mutants),
                None => Err(CacheError::Corrupt),
            },
            None => Err(CacheError::Corrupt),
        },
{
    match csv_read_records(text) {
        Ok(rows) => mutants_from_records(&rows),
        Err(_) => Err(CacheError::Corrupt),
    }
}

} // verus!
