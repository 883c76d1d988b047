//! The records that a measured invocation prints, one to a line: either a
//! marked record of the compiler shim, or a record of the counter tool.

use crate::numeral::{is_real, is_real_literal};
use crate::stats::{SelfProfile, StatNumber, StatValue, Stats};
use crate::text::{
    chars_eq, chars_of, concat3, contains, contains_chars, ends_with, lines, skip_chars, split,
    split_chars, split_lines, starts_with, string_from, text_of, texts, trim, trim_chars, views,
};
use vstd::prelude::*;

verus! {

/// The platform the measurement ran on. It decides which counter tool wrote
/// the lines that carry no marker.
#[derive(Clone, Copy, Debug, PartialEq, Eq, Structural)]
pub enum Platform {
    /// The counter tool prints one record per counter, fields parted by
    /// semicolons.
    Unix,
    /// The counters come in a binary file; lines without a marker mean
    /// nothing.
    Windows,
}

/// One line of output, by what it holds.
#[derive(Clone, Debug, PartialEq, Eq)]
pub enum StatRecord {
    /// The summary of the compiler's self-instrumentation, as JSON.
    SelfProfileOutput(String),
    /// The directory of the raw self-instrumentation files.
    SelfProfileDir(String),
    /// What the names of the raw self-instrumentation files have in common.
    SelfProfilePrefix(String),
    /// The single file that holds the raw self-instrumentation data.
    SelfProfileFile(String),
    /// A binary file of hardware counters.
    CountersFile(String),
    /// The wall-clock time, as a numeral.
    WallTime(String),
    /// A record of the counter tool: the count, the counter's name, and the
    /// share of the run during which the counter was active.
    Counter { count: String, name: String, share: String },
    /// A line that holds no record.
    Ignored,
}

/// What a `StatRecord` stands for in contracts.
pub enum StatLine {
    SelfProfileOutput(Seq<char>),
    SelfProfileDir(Seq<char>),
    SelfProfilePrefix(Seq<char>),
    SelfProfileFile(Seq<char>),
    CountersFile(Seq<char>),
    WallTime(Seq<char>),
    Counter { count: Seq<char>, name: Seq<char>, share: Seq<char> },
    Ignored,
}

impl View for StatRecord {
    type V = StatLine;

    open spec fn view(&self) -> StatLine {
        match self {
            StatRecord::SelfProfileOutput(s) => StatLine::SelfProfileOutput(s@),
            StatRecord::SelfProfileDir(s) => StatLine::SelfProfileDir(s@),
            StatRecord::SelfProfilePrefix(s) => StatLine::SelfProfilePrefix(s@),
            StatRecord::SelfProfileFile(s) => StatLine::SelfProfileFile(s@),
            StatRecord::CountersFile(s) => StatLine::CountersFile(s@),
            StatRecord::WallTime(s) => StatLine::WallTime(s@),
            StatRecord::Counter { count, name, share } => StatLine::Counter {
                count: count@,
                name: name@,
                share: share@,
            },
            StatRecord::Ignored => StatLine::Ignored,
        }
    }
}

/// The record of the counter tool on a line: the first, third and fifth of
/// the fields between semicolons, each without the white space around it. A
/// line with fewer than five fields holds none, and neither does one whose
/// counter is not supported or has no count.
pub open spec fn counter_record(line: Seq<char>) -> StatLine {
    let parts = split(line, ';');
    if parts.len() < 5 {
        StatLine::Ignored
    } else if trim(parts[0]) == "<not supported>"@ || trim(parts[0]).len() == 0 {
        StatLine::Ignored
    } else {
        StatLine::Counter { count: trim(parts[0]), name: trim(parts[2]), share: trim(parts[4]) }
    }
}

/// What a line holds. A marker at the start of the line decides; what
/// follows the marker is the record's content, taken as it stands. A line
/// without a marker is a record of the counter tool where there is one.
pub open spec fn classify(line: Seq<char>, platform: Platform) -> StatLine {
    if "!self-profile-output:"@.is_prefix_of(line) {
        StatLine::SelfProfileOutput(line.skip("!self-profile-output:"@.len() as int))
    } else if "!self-profile-dir:"@.is_prefix_of(line) {
        StatLine::SelfProfileDir(line.skip("!self-profile-dir:"@.len() as int))
    } else if "!self-profile-prefix:"@.is_prefix_of(line) {
        StatLine::SelfProfilePrefix(line.skip("!self-profile-prefix:"@.len() as int))
    } else if "!self-profile-file:"@.is_prefix_of(line) {
        StatLine::SelfProfileFile(line.skip("!self-profile-file:"@.len() as int))
    } else if "!counters-file:"@.is_prefix_of(line) {
        StatLine::CountersFile(line.skip("!counters-file:"@.len() as int))
    } else if "!wall-time:"@.is_prefix_of(line) {
        StatLine::WallTime(line.skip("!wall-time:"@.len() as int))
    } else if platform == Platform::Windows {
        StatLine::Ignored
    } else {
        counter_record(line)
    }
}

/// What follows `marker` at the start of `line`, if the line starts with it.
fn after_marker<'a>(line: &'a [char], marker: &str) -> (r: Option<&'a [char]>)
    ensures
        match r {
            Some(rest) => marker@.is_prefix_of(line@) && rest@ == line@.skip(marker@.len() as int),
            None => !marker@.is_prefix_of(line@),
        },
{
    let m = chars_of(marker);
    if starts_with(line, m.as_slice()) {
        Some(skip_chars(line, m.len()))
    } else {
        None
    }
}

fn counter_record_of(line: &[char]) -> (r: StatRecord)
    ensures
        r@ == counter_record(line@),
{
    let parts = split_chars(line, ';');
    proof {
        assert(views(parts@).len() == parts@.len());
    }
    if parts.len() < 5 {
        return StatRecord::Ignored;
    }
    proof {
        assert(views(parts@)[0] == parts@[0]@);
        assert(views(parts@)[2] == parts@[2]@);
        assert(views(parts@)[4] == parts@[4]@);
    }
    let cnt = trim_chars(parts[0]);
    let name = trim_chars(parts[2]);
    let pct = trim_chars(parts[4]);
    let unsupported = chars_of("<not supported>");
    if chars_eq(cnt, unsupported.as_slice()) || cnt.len() == 0 {
        return StatRecord::Ignored;
    }
    StatRecord::Counter {
        count: string_from(cnt),
        name: string_from(name),
        share: string_from(pct),
    }
}

/// The record that a line holds.
pub fn classify_line(line: &[char], platform: Platform) -> (r: StatRecord)
    ensures
        r@ == classify(line@, platform),
{
    if let Some(rest) = after_marker(line, "!self-profile-output:") {
        return StatRecord::SelfProfileOutput(string_from(rest));
    }
    if let Some(rest) = after_marker(line, "!self-profile-dir:") {
        return StatRecord::SelfProfileDir(string_from(rest));
    }
    if let Some(rest) = after_marker(line, "!self-profile-prefix:") {
        return StatRecord::SelfProfilePrefix(string_from(rest));
    }
    if let Some(rest) = after_marker(line, "!self-profile-file:") {
        return StatRecord::SelfProfileFile(string_from(rest));
    }
    if let Some(rest) = after_marker(line, "!counters-file:") {
        return StatRecord::CountersFile(string_from(rest));
    }
    if let Some(rest) = after_marker(line, "!wall-time:") {
        return StatRecord::WallTime(string_from(rest));
    }
    if platform == Platform::Windows {
        return StatRecord::Ignored;
    }
    counter_record_of(line)
}

/// The records of each line of a text.
pub open spec fn records_of(text: Seq<char>, platform: Platform) -> Seq<StatLine> {
    lines(text).map_values(|l: Seq<char>| classify(l, platform))
}

/// The views of a list of records.
pub open spec fn record_views(records: Seq<StatRecord>) -> Seq<StatLine> {
    records.map_values(|r: StatRecord| r@)
}

/// Reads the output of an invocation into records, one for each line.
pub fn parse_stat_lines(stdout: &str, platform: Platform) -> (r: Vec<StatRecord>)
    ensures
        record_views(r@) == records_of(stdout@, platform),
{
    let text = chars_of(stdout);
    let ls = split_lines(text.as_slice());
    let mut out: Vec<StatRecord> = Vec::new();
    let mut i: usize = 0;
    proof {
        assert(views(ls@).len() == ls@.len());
    }
    while i < ls.len()
        invariant
            i <= ls@.len(),
            views(ls@) == lines(stdout@),
            out@.len() == i,
            forall|j: int| 0 <= j < i ==> (#[trigger] out@[j])@ == classify(ls@[j]@, platform),
        decreases ls@.len() - i,
    {
        let rec = classify_line(ls[i], platform);
        out.push(rec);
        i += 1;
    }
    proof {
        assert forall|j: int| 0 <= j < out@.len() implies record_views(out@)[j] == records_of(
            stdout@,
            platform,
        )[j] by {
            assert(views(ls@)[j] == ls@[j]@);
        }
        assert(record_views(out@) =~= records_of(stdout@, platform));
    }
    out
}

/// The hardware counters decoded from a counter file.
#[derive(Clone, Debug, PartialEq, Eq)]
pub struct Counters {
    pub total_cycles: u64,
    pub instructions_retired: u64,
    pub cpu_clock: StatValue,
}

/// What the records of an invocation refer to, fetched by the caller.
#[derive(Clone, Debug)]
pub struct StatSources {
    /// The decoded summary of each `SelfProfileOutput` record, in the order
    /// of the records; `None` where the payload could not be decoded.
    pub profiles: Vec<Option<SelfProfile>>,
    /// The decoded counters of each `CountersFile` record, in the order of
    /// the records; `None` where the file could not be decoded. A clock that
    /// is given as a numeral has to have the syntax of a real number.
    pub counters: Vec<Option<Counters>>,
    /// The names of the files in the directory of raw self-instrumentation
    /// files; `None` where the directory could not be read.
    pub artifacts: Option<Vec<String>>,
}

/// Why the output of an invocation gave no statistics.
#[derive(Clone, Debug, PartialEq, Eq)]
pub enum DeserializeStatError {
    /// No line held a statistic. The measurement tool may have lost a race;
    /// another attempt may succeed.
    NoOutput,
    /// The text is no number.
    ParseError(String),
    /// The counter file of this path could not be decoded, or what was
    /// decoded of it gives a clock that is no number.
    XperfError(String),
    /// The counter was active for only a part of the run, so its count means
    /// nothing.
    InactiveCounter { name: String, share: String },
    /// The self-instrumentation summary could not be decoded.
    ProfileError(String),
    /// The raw self-instrumentation files are not as announced: the
    /// directory of this name could not be read, or the file of this name
    /// lacks the announced prefix.
    ArtifactError(String),
}

/// What a `DeserializeStatError` stands for in contracts.
pub enum StatError {
    NoOutput,
    ParseError(Seq<char>),
    XperfError(Seq<char>),
    InactiveCounter { name: Seq<char>, share: Seq<char> },
    ProfileError(Seq<char>),
    ArtifactError(Seq<char>),
}

impl View for DeserializeStatError {
    type V = StatError;

    open spec fn view(&self) -> StatError {
        match self {
            DeserializeStatError::NoOutput => StatError::NoOutput,
            DeserializeStatError::ParseError(s) => StatError::ParseError(s@),
            DeserializeStatError::XperfError(s) => StatError::XperfError(s@),
            DeserializeStatError::InactiveCounter { name, share } => StatError::InactiveCounter {
                name: name@,
                share: share@,
            },
            DeserializeStatError::ProfileError(s) => StatError::ProfileError(s@),
            DeserializeStatError::ArtifactError(s) => StatError::ArtifactError(s@),
        }
    }
}

impl DeserializeStatError {
    /// Whether another attempt may succeed: only where nothing was printed.
    pub fn is_transient(&self) -> (r: bool)
        ensures
            r == (self@ == StatError::NoOutput),
    {
        match self {
            DeserializeStatError::NoOutput => true,
            _ => false,
        }
    }
}

/// The files that hold the raw self-instrumentation data of an invocation.
#[derive(Clone, Debug, PartialEq, Eq)]
pub enum SelfProfileFiles {
    /// Three files in one directory, each given by its name there where the
    /// directory holds it.
    Seven {
        dir: String,
        string_data: Option<String>,
        string_index: Option<String>,
        events: Option<String>,
    },
    /// One file.
    Eight { file: String },
}

/// What a `SelfProfileFiles` stands for in contracts.
pub enum ArtifactFiles {
    Seven {
        dir: Seq<char>,
        string_data: Option<Seq<char>>,
        string_index: Option<Seq<char>>,
        events: Option<Seq<char>>,
    },
    Eight { file: Seq<char> },
}

impl View for SelfProfileFiles {
    type V = ArtifactFiles;

    open spec fn view(&self) -> ArtifactFiles {
        match self {
            SelfProfileFiles::Seven { dir, string_data, string_index, events } => {
                ArtifactFiles::Seven {
                    dir: dir@,
                    string_data: text_of(*string_data),
                    string_index: text_of(*string_index),
                    events: text_of(*events),
                }
            },
            SelfProfileFiles::Eight { file } => ArtifactFiles::Eight { file: file@ },
        }
    }
}

/// The payloads of the summary records, in order.
pub open spec fn payloads_of(rs: Seq<StatLine>) -> Seq<Seq<char>>
    decreases rs.len(),
{
    if rs.len() == 0 {
        Seq::empty()
    } else {
        match rs.last() {
            StatLine::SelfProfileOutput(p) => payloads_of(rs.drop_last()).push(p),
            _ => payloads_of(rs.drop_last()),
        }
    }
}

/// The paths of the counter-file records, in order.
pub open spec fn counter_files_of(rs: Seq<StatLine>) -> Seq<Seq<char>>
    decreases rs.len(),
{
    if rs.len() == 0 {
        Seq::empty()
    } else {
        match rs.last() {
            StatLine::CountersFile(p) => counter_files_of(rs.drop_last()).push(p),
            _ => counter_files_of(rs.drop_last()),
        }
    }
}

/// The directory that the last directory record names.
pub open spec fn last_dir(rs: Seq<StatLine>) -> Option<Seq<char>>
    decreases rs.len(),
{
    if rs.len() == 0 {
        None
    } else {
        match rs.last() {
            StatLine::SelfProfileDir(d) => Some(d),
            _ => last_dir(rs.drop_last()),
        }
    }
}

/// The prefix that the last prefix record names.
pub open spec fn last_prefix(rs: Seq<StatLine>) -> Option<Seq<char>>
    decreases rs.len(),
{
    if rs.len() == 0 {
        None
    } else {
        match rs.last() {
            StatLine::SelfProfilePrefix(p) => Some(p),
            _ => last_prefix(rs.drop_last()),
        }
    }
}

/// The file that the last single-file record names.
pub open spec fn last_file(rs: Seq<StatLine>) -> Option<Seq<char>>
    decreases rs.len(),
{
    if rs.len() == 0 {
        None
    } else {
        match rs.last() {
            StatLine::SelfProfileFile(f) => Some(f),
            _ => last_file(rs.drop_last()),
        }
    }
}

/// The directory whose files the caller has to list: the announced one,
/// where a prefix was announced too.
pub open spec fn artifact_dir_of(rs: Seq<StatLine>) -> Option<Seq<char>> {
    if last_prefix(rs).is_some() {
        last_dir(rs)
    } else {
        None
    }
}

/// What the caller has to fetch before the records can be read into
/// statistics.
#[derive(Clone, Debug, PartialEq, Eq)]
pub struct SourceRequests {
    /// The JSON payloads to decode.
    pub payloads: Vec<String>,
    /// The counter files to decode.
    pub counter_files: Vec<String>,
    /// The directory to list.
    pub artifact_dir: Option<String>,
}

/// What the records refer to: every summary payload and every counter file,
/// in the order of the records, and the directory of raw files.
pub fn source_requests(records: &Vec<StatRecord>) -> (r: SourceRequests)
    ensures
        texts(r.payloads@) == payloads_of(record_views(records@)),
        texts(r.counter_files@) == counter_files_of(record_views(records@)),
        text_of(r.artifact_dir) == artifact_dir_of(record_views(records@)),
{
    let ghost rs = record_views(records@);
    let mut payloads: Vec<String> = Vec::new();
    let mut counter_files: Vec<String> = Vec::new();
    let mut dir: Option<String> = None;
    let mut has_prefix: bool = false;
    let mut i: usize = 0;
    proof {
        assert(rs.take(0) == Seq::<StatLine>::empty());
        assert(texts(payloads@) =~= payloads_of(rs.take(0)));
        assert(texts(counter_files@) =~= counter_files_of(rs.take(0)));
    }
    while i < records.len()
        invariant
            i <= records@.len(),
            rs == record_views(records@),
            texts(payloads@) == payloads_of(rs.take(i as int)),
            texts(counter_files@) == counter_files_of(rs.take(i as int)),
            text_of(dir) == last_dir(rs.take(i as int)),
            has_prefix == last_prefix(rs.take(i as int)).is_some(),
        decreases records@.len() - i,
    {
        proof {
            assert(rs.take(i + 1).drop_last() == rs.take(i as int));
            assert(rs.take(i + 1).last() == records@[i as int]@);
        }
        let ghost p0 = payloads@;
        let ghost c0 = counter_files@;
        match &records[i] {
            StatRecord::SelfProfileOutput(p) => {
                payloads.push(p.clone());
                proof {
                    assert(texts(payloads@) =~= texts(p0).push(p@));
                }
            },
            StatRecord::CountersFile(p) => {
                counter_files.push(p.clone());
                proof {
                    assert(texts(counter_files@) =~= texts(c0).push(p@));
                }
            },
            StatRecord::SelfProfileDir(d) => {
                dir = Some(d.clone());
            },
            StatRecord::SelfProfilePrefix(_) => {
                has_prefix = true;
            },
            _ => {},
        }
        i += 1;
    }
    proof {
        assert(rs.take(i as int) == rs);
    }
    SourceRequests {
        payloads,
        counter_files,
        artifact_dir: if has_prefix {
            dir
        } else {
            None
        },
    }
}

/// The three raw files found so far: string data, string index, events.
pub type Found = (Option<Seq<char>>, Option<Seq<char>>, Option<Seq<char>>);

/// The raw self-instrumentation files among the names of a directory. A name
/// is taken for the file of its ending; where several names have an ending,
/// the last one counts. Each name that is taken must hold the announced
/// prefix: the first that does not is an error.
pub open spec fn found_in(names: Seq<Seq<char>>, prefix: Seq<char>) -> Result<Found, StatError>
    decreases names.len(),
{
    if names.len() == 0 {
        Ok((None, None, None))
    } else {
        match found_in(names.drop_last(), prefix) {
            Err(e) => Err(e),
            Ok(f) => {
                let n = names.last();
                if ".events"@.is_suffix_of(n) {
                    if contains(n, prefix) {
                        Ok((f.0, f.1, Some(n)))
                    } else {
                        Err(StatError::ArtifactError(n))
                    }
                } else if ".string_data"@.is_suffix_of(n) {
                    if contains(n, prefix) {
                        Ok((Some(n), f.1, f.2))
                    } else {
                        Err(StatError::ArtifactError(n))
                    }
                } else if ".string_index"@.is_suffix_of(n) {
                    if contains(n, prefix) {
                        Ok((f.0, Some(n), f.2))
                    } else {
                        Err(StatError::ArtifactError(n))
                    }
                } else {
                    Ok(f)
                }
            },
        }
    }
}

/// The names of a directory that may not have been read.
pub open spec fn listing_of(artifacts: Option<Vec<String>>) -> Option<Seq<Seq<char>>> {
    match artifacts {
        Some(v) => Some(texts(v@)),
        None => None,
    }
}

/// The raw self-instrumentation files that the records announce. A
/// directory together with a prefix announces three files, which are looked
/// up in the listing of the directory; failing that, a single-file record
/// announces one file.
pub open spec fn artifact_files(rs: Seq<StatLine>, listing: Option<Seq<Seq<char>>>) -> Result<
    Option<ArtifactFiles>,
    StatError,
> {
    if last_prefix(rs).is_some() && last_dir(rs).is_some() {
        match listing {
            None => Err(StatError::ArtifactError(last_dir(rs).unwrap())),
            Some(names) => match found_in(names, last_prefix(rs).unwrap()) {
                Err(e) => Err(e),
                Ok(f) => Ok(
                    Some(
                        ArtifactFiles::Seven {
                            dir: last_dir(rs).unwrap(),
                            string_data: f.0,
                            string_index: f.1,
                            events: f.2,
                        },
                    ),
                ),
            },
        }
    } else if last_file(rs).is_some() {
        Ok(Some(ArtifactFiles::Eight { file: last_file(rs).unwrap() }))
    } else {
        Ok(None)
    }
}

/// Looks up the three raw files among the names of their directory.
pub fn find_artifacts(dir: &String, prefix: &String, names: &Vec<String>) -> (r: Result<
    SelfProfileFiles,
    DeserializeStatError,
>)
    ensures
        match r {
            Ok(files) => found_in(texts(names@), prefix@) matches Ok(f) && files@
                == (ArtifactFiles::Seven {
                dir: dir@,
                string_data: f.0,
                string_index: f.1,
                events: f.2,
            }),
            Err(e) => found_in(texts(names@), prefix@) == Err::<Found, StatError>(e@),
        },
{
    let events_end = chars_of(".events");
    let data_end = chars_of(".string_data");
    let index_end = chars_of(".string_index");
    let pre = chars_of(prefix.as_str());
    let mut string_data: Option<String> = None;
    let mut string_index: Option<String> = None;
    let mut events: Option<String> = None;
    let ghost ns = texts(names@);
    let mut i: usize = 0;
    proof {
        assert(ns.take(0) == Seq::<Seq<char>>::empty());
    }
    while i < names.len()
        invariant
            i <= names@.len(),
            ns == texts(names@),
            events_end@ == ".events"@,
            data_end@ == ".string_data"@,
            index_end@ == ".string_index"@,
            pre@ == prefix@,
            found_in(ns.take(i as int), prefix@) == Ok::<Found, StatError>(
                (text_of(string_data), text_of(string_index), text_of(events)),
            ),
        decreases names@.len() - i,
    {
        proof {
            assert(ns.take(i + 1).drop_last() == ns.take(i as int));
            assert(ns.take(i + 1).last() == names@[i as int]@);
        }
        let name = chars_of(names[i].as_str());
        let is_events = ends_with(name.as_slice(), events_end.as_slice());
        let is_data = ends_with(name.as_slice(), data_end.as_slice());
        let is_index = ends_with(name.as_slice(), index_end.as_slice());
        if is_events || is_data || is_index {
            if !contains_chars(name.as_slice(), pre.as_slice()) {
                proof {
                    lemma_found_in_error(ns, prefix@, i + 1);
                }
                return Err(DeserializeStatError::ArtifactError(names[i].clone()));
            }
            if is_events {
                events = Some(names[i].clone());
            } else if is_data {
                string_data = Some(names[i].clone());
            } else {
                string_index = Some(names[i].clone());
            }
        }
        i += 1;
    }
    proof {
        assert(ns.take(i as int) == ns);
    }
    Ok(SelfProfileFiles::Seven { dir: dir.clone(), string_data, string_index, events })
}

/// An error among the first names of a directory is the error of the whole.
proof fn lemma_found_in_error(names: Seq<Seq<char>>, prefix: Seq<char>, k: int)
    requires
        0 <= k <= names.len(),
        found_in(names.take(k), prefix).is_err(),
    ensures
        found_in(names, prefix) == found_in(names.take(k), prefix),
    decreases names.len() - k,
{
    if k < names.len() {
        assert(names.take(k + 1).drop_last() == names.take(k));
        lemma_found_in_error(names, prefix, k + 1);
    } else {
        assert(names.take(k) == names);
    }
}

/// What is wrong with record number `n`, if anything. A summary or a counter
/// file must have been decoded, and the clock of a counter file must be a
/// number; a wall time must be a number; a counter must
/// have been active for the whole run, which its share says by beginning
/// with `100.`, and its count must be a number.
pub open spec fn record_error(rs: Seq<StatLine>, n: int, src: StatSources) -> Option<StatError> {
    match rs[n] {
        StatLine::SelfProfileOutput(p) => {
            let k = payloads_of(rs.take(n)).len() as int;
            if k < src.profiles@.len() && src.profiles@[k].is_some() {
                None
            } else {
                Some(StatError::ProfileError(p))
            }
        },
        StatLine::CountersFile(p) => {
            let k = counter_files_of(rs.take(n)).len() as int;
            if k < src.counters@.len() && src.counters@[k].is_some() && is_number(
                src.counters@[k].unwrap().cpu_clock@,
            ) {
                None
            } else {
                Some(StatError::XperfError(p))
            }
        },
        StatLine::WallTime(t) => {
            if is_real_literal(t) {
                None
            } else {
                Some(StatError::ParseError(t))
            }
        },
        StatLine::Counter { count, name, share } => {
            if !"100."@.is_prefix_of(share) {
                Some(StatError::InactiveCounter { name, share })
            } else if !is_real_literal(count) {
                Some(StatError::ParseError(count))
            } else {
                None
            }
        },
        _ => None,
    }
}

/// The first thing wrong among the first `n` records.
pub open spec fn first_error(rs: Seq<StatLine>, n: int, src: StatSources) -> Option<StatError>
    decreases n,
{
    if n <= 0 {
        None
    } else {
        match first_error(rs, n - 1, src) {
            Some(e) => Some(e),
            None => record_error(rs, n - 1, src),
        }
    }
}

/// The statistics that the records give, each record setting its statistic
/// in turn: a wall time sets `wall-time`, a counter the statistic of its
/// name, a counter file the cycles, the instructions and the clock.
pub open spec fn stats_of(rs: Seq<StatLine>, src: StatSources) -> Map<Seq<char>, StatNumber>
    decreases rs.len(),
{
    if rs.len() == 0 {
        Map::empty()
    } else {
        let m = stats_of(rs.drop_last(), src);
        match rs.last() {
            StatLine::WallTime(t) => m.insert("wall-time"@, StatNumber::Numeral(t)),
            StatLine::Counter { count, name, share } => m.insert(name, StatNumber::Numeral(count)),
            StatLine::CountersFile(_) => {
                let c = src.counters@[counter_files_of(rs.drop_last()).len() as int].unwrap();
                m.insert("cycles"@, StatNumber::Integer(c.total_cycles)).insert(
                    "instructions:u"@,
                    StatNumber::Integer(c.instructions_retired),
                ).insert("cpu-clock"@, c.cpu_clock@)
            },
            _ => m,
        }
    }
}

/// The summary of the last summary record.
pub open spec fn profile_of(rs: Seq<StatLine>, src: StatSources) -> Option<SelfProfile> {
    let n = payloads_of(rs).len() as int;
    if 0 < n <= src.profiles@.len() {
        src.profiles@[n - 1]
    } else {
        None
    }
}

/// What the records of an invocation amount to.
pub struct Collected {
    pub stats: Map<Seq<char>, StatNumber>,
    pub profile: Option<SelfProfile>,
    pub files: Option<ArtifactFiles>,
}

/// What reading the records gives: the first thing wrong with a record;
/// failing that, what is wrong with the raw files; failing that, the
/// statistics with the summary and the raw files, unless there is no
/// statistic at all.
pub open spec fn outcome(rs: Seq<StatLine>, src: StatSources) -> Result<Collected, StatError> {
    match first_error(rs, rs.len() as int, src) {
        Some(e) => Err(e),
        None => match artifact_files(rs, listing_of(src.artifacts)) {
            Err(e) => Err(e),
            Ok(files) => {
                if stats_of(rs, src) == Map::<Seq<char>, StatNumber>::empty() {
                    Err(StatError::NoOutput)
                } else {
                    Ok(Collected { stats: stats_of(rs, src), profile: profile_of(rs, src), files })
                }
            },
        },
    }
}

/// The view of raw files that may be missing.
pub open spec fn files_of(f: Option<SelfProfileFiles>) -> Option<ArtifactFiles> {
    match f {
        Some(f) => Some(f@),
        None => None,
    }
}

/// Once something is wrong, it stays the first thing wrong.
proof fn lemma_first_error_stays(rs: Seq<StatLine>, k: int, n: int, src: StatSources)
    requires
        0 <= k <= n,
        first_error(rs, k, src).is_some(),
    ensures
        first_error(rs, n, src) == first_error(rs, k, src),
    decreases n - k,
{
    if k < n {
        lemma_first_error_stays(rs, k, n - 1, src);
    }
}

/// Reads the records of an invocation into statistics.
pub fn collect_stats(records: &Vec<StatRecord>, sources: StatSources) -> (r: Result<
    (Stats, Option<SelfProfile>, Option<SelfProfileFiles>),
    DeserializeStatError,
>)
    ensures
        match r {
            Ok((stats, profile, files)) => outcome(record_views(records@), sources) == Ok::<
                Collected,
                StatError,
            >(Collected { stats: stats@, profile, files: files_of(files) }),
            Err(e) => outcome(record_views(records@), sources) == Err::<Collected, StatError>(e@),
        },
{
    let ghost rs = record_views(records@);
    let ghost src = sources;
    let StatSources { profiles, counters, artifacts } = sources;
    let mut profiles = profiles;
    let active = chars_of("100.");
    let mut stats = Stats::new();
    let mut kp: usize = 0;
    let mut kc: usize = 0;
    let mut dir: Option<&String> = None;
    let mut prefix: Option<&String> = None;
    let mut file: Option<&String> = None;
    let mut i: usize = 0;
    proof {
        assert(rs.take(0) == Seq::<StatLine>::empty());
    }
    while i < records.len()
        invariant
            i <= records@.len(),
            rs == record_views(records@),
            src == sources,
            src.profiles == profiles,
            src.counters == counters,
            active@ == "100."@,
            first_error(rs, i as int, src).is_none(),
            stats@ == stats_of(rs.take(i as int), src),
            kp == payloads_of(rs.take(i as int)).len(),
            kc == counter_files_of(rs.take(i as int)).len(),
            kp <= profiles@.len(),
            kc <= counters@.len(),
            (match dir {
                Some(d) => Some(d@),
                None => None,
            }) == last_dir(rs.take(i as int)),
            (match prefix {
                Some(d) => Some(d@),
                None => None,
            }) == last_prefix(rs.take(i as int)),
            (match file {
                Some(d) => Some(d@),
                None => None,
            }) == last_file(rs.take(i as int)),
        decreases records@.len() - i,
    {
        proof {
            assert(rs.take(i + 1).drop_last() == rs.take(i as int));
            assert(rs.take(i + 1).last() == records@[i as int]@);
            assert(rs[i as int] == records@[i as int]@);
        }
        let mut failed: Option<DeserializeStatError> = None;
        match &records[i] {
            StatRecord::SelfProfileOutput(p) => {
                if kp < profiles.len() && profiles[kp].is_some() {
                    kp += 1;
                } else {
                    failed = Some(DeserializeStatError::ProfileError(p.clone()));
                }
            },
            StatRecord::SelfProfileDir(d) => {
                dir = Some(d);
            },
            StatRecord::SelfProfilePrefix(p) => {
                prefix = Some(p);
            },
            StatRecord::SelfProfileFile(f) => {
                file = Some(f);
            },
            StatRecord::CountersFile(p) => {
                let decoded: Option<&Counters> = if kc < counters.len() {
                    match &counters[kc] {
                        Some(c) => {
                            if value_is_number(&c.cpu_clock) {
                                Some(c)
                            } else {
                                None
                            }
                        },
                        None => None,
                    }
                } else {
                    None
                };
                match decoded {
                    Some(c) => {
                        stats.insert("cycles".to_owned(), StatValue::Integer(c.total_cycles));
                        stats.insert(
                            "instructions:u".to_owned(),
                            StatValue::Integer(c.instructions_retired),
                        );
                        stats.insert("cpu-clock".to_owned(), c.cpu_clock.clone_value());
                        kc += 1;
                    },
                    None => {
                        failed = Some(DeserializeStatError::XperfError(p.clone()));
                    },
                }
            },
            StatRecord::WallTime(t) => {
                let text = chars_of(t.as_str());
                if is_real(text.as_slice()) {
                    stats.insert("wall-time".to_owned(), StatValue::Numeral(t.clone()));
                } else {
                    failed = Some(DeserializeStatError::ParseError(t.clone()));
                }
            },
            StatRecord::Counter { count, name, share } => {
                let pct = chars_of(share.as_str());
                let cnt = chars_of(count.as_str());
                if !starts_with(pct.as_slice(), active.as_slice()) {
                    failed =
                    Some(
                        DeserializeStatError::InactiveCounter {
                            name: name.clone(),
                            share: share.clone(),
                        },
                    );
                } else if !is_real(cnt.as_slice()) {
                    failed = Some(DeserializeStatError::ParseError(count.clone()));
                } else {
                    stats.insert(name.clone(), StatValue::Numeral(count.clone()));
                }
            },
            StatRecord::Ignored => {},
        }
        match failed {
            Some(e) => {
                proof {
                    assert(record_error(rs, i as int, src) == Some(e@));
                    assert(first_error(rs, i + 1, src) == Some(e@));
                    lemma_first_error_stays(rs, i + 1, rs.len() as int, src);
                }
                return Err(e);
            },
            None => {},
        }
        i += 1;
    }
    proof {
        assert(rs.take(i as int) == rs);
    }
    let files: Option<SelfProfileFiles> = match (prefix, dir) {
        (Some(p), Some(d)) => {
            match &artifacts {
                None => {
                    return Err(DeserializeStatError::ArtifactError(d.clone()));
                },
                Some(names) => {
                    match find_artifacts(d, p, names) {
                        Ok(f) => Some(f),
                        Err(e) => {
                            return Err(e);
                        },
                    }
                },
            }
        },
        _ => {
            match file {
                Some(f) => Some(SelfProfileFiles::Eight { file: f.clone() }),
                None => None,
            }
        },
    };
    if stats.is_empty() {
        return Err(DeserializeStatError::NoOutput);
    }
    profiles.truncate(kp);
    let profile: Option<SelfProfile> = match profiles.pop() {
        Some(p) => p,
        None => None,
    };
    Ok((stats, profile, files))
}

/// Reads the output of an invocation into statistics: each line into a
/// record, and the records into statistics.
pub fn process_stat_output(stdout: &str, platform: Platform, sources: StatSources) -> (r: Result<
    (Stats, Option<SelfProfile>, Option<SelfProfileFiles>),
    DeserializeStatError,
>)
    ensures
        match r {
            Ok((stats, profile, files)) => outcome(records_of(stdout@, platform), sources) == Ok::<
                Collected,
                StatError,
            >(Collected { stats: stats@, profile, files: files_of(files) }),
            Err(e) => outcome(records_of(stdout@, platform), sources) == Err::<
                Collected,
                StatError,
            >(e@),
        },
{
    let records = parse_stat_lines(stdout, platform);
    collect_stats(&records, sources)
}

/// Whether no record of the list holds anything.
pub open spec fn nothing_recognised(rs: Seq<StatLine>) -> bool {
    forall|i: int| 0 <= i < rs.len() ==> #[trigger] rs[i] is Ignored
}

proof fn lemma_ignored_records(rs: Seq<StatLine>, src: StatSources)
    requires
        nothing_recognised(rs),
    ensures
        first_error(rs, rs.len() as int, src).is_none(),
        stats_of(rs, src) == Map::<Seq<char>, StatNumber>::empty(),
        last_dir(rs).is_none(),
        last_prefix(rs).is_none(),
        last_file(rs).is_none(),
    decreases rs.len(),
{
    if rs.len() > 0 {
        let d = rs.drop_last();
        assert(nothing_recognised(d)) by {
            assert forall|i: int| 0 <= i < d.len() implies #[trigger] d[i] is Ignored by {
                assert(rs[i] is Ignored);
            }
        }
        lemma_ignored_records(d, src);
        assert(rs.last() == rs[rs.len() - 1]);
        assert(rs[rs.len() - 1] is Ignored);
        lemma_first_error_prefix(rs, d, d.len() as int, src);
    }
}

/// The first thing wrong among the first records of a list does not depend
/// on the records after them.
proof fn lemma_first_error_prefix(rs: Seq<StatLine>, d: Seq<StatLine>, n: int, src: StatSources)
    requires
        0 <= n <= d.len() <= rs.len(),
        forall|i: int| 0 <= i < d.len() ==> d[i] == rs[i],
    ensures
        first_error(rs, n, src) == first_error(d, n, src),
    decreases n,
{
    if n > 0 {
        lemma_first_error_prefix(rs, d, n - 1, src);
        assert(rs.take(n - 1) == d.take(n - 1));
        assert(rs[n - 1] == d[n - 1]);
    }
}

/// Output in which no line holds a record gives the error that is worth
/// another attempt, and no other.
pub proof fn lemma_nothing_recognised_is_no_output(rs: Seq<StatLine>, src: StatSources)
    requires
        nothing_recognised(rs),
    ensures
        outcome(rs, src) == Err::<Collected, StatError>(StatError::NoOutput),
{
    lemma_ignored_records(rs, src);
}

impl DeserializeStatError {
    /// The error in words.
    pub open spec fn spec_message(self) -> Seq<char> {
        match self {
            DeserializeStatError::NoOutput => "could not deserialize empty output to stats"@,
            DeserializeStatError::ParseError(t) => "could not parse `"@ + t@ + "` as a float"@,
            DeserializeStatError::XperfError(p) => "could not process xperf data in `"@ + p@
                + "`"@,
            DeserializeStatError::InactiveCounter { name, share } => "measurement of `"@ + name@
                + "` only active for "@ + share@ + "% of the time"@,
            DeserializeStatError::ProfileError(p) => "could not read the self-profile summary `"@
                + p@ + "`"@,
            DeserializeStatError::ArtifactError(n) => "unexpected self-profile artifact `"@ + n@
                + "`"@,
        }
    }

    pub fn message(&self) -> (r: String)
        ensures
            r@ == self.spec_message(),
    {
        match self {
            DeserializeStatError::NoOutput => "could not deserialize empty output to stats".to_owned(),
            DeserializeStatError::ParseError(t) => concat3(
                "could not parse `",
                t.as_str(),
                "` as a float",
            ),
            DeserializeStatError::XperfError(p) => concat3(
                "could not process xperf data in `",
                p.as_str(),
                "`",
            ),
            DeserializeStatError::InactiveCounter { name, share } => {
                let head = concat3("measurement of `", name.as_str(), "` only active for ");
                concat3(head.as_str(), share.as_str(), "% of the time")
            },
            DeserializeStatError::ProfileError(p) => concat3(
                "could not read the self-profile summary `",
                p.as_str(),
                "`",
            ),
            DeserializeStatError::ArtifactError(n) => concat3(
                "unexpected self-profile artifact `",
                n.as_str(),
                "`",
            ),
        }
    }
}

/// Whether the value of a statistic denotes a number: a count does, and a
/// numeral does if it has the syntax of a real number.
pub open spec fn is_number(v: StatNumber) -> bool {
    match v {
        StatNumber::Integer(_) => true,
        StatNumber::Numeral(t) => is_real_literal(t),
    }
}

/// Whether the value of a statistic denotes a number.
pub fn value_is_number(value: &StatValue) -> (r: bool)
    ensures
        r == is_number(value@),
{
    match value {
        StatValue::Integer(_) => true,
        StatValue::Numeral(text) => {
            let cs = chars_of(text.as_str());
            is_real(cs.as_slice())
        },
    }
}

/// Every statistic that is read from records without fault denotes a
/// number.
pub proof fn lemma_stats_are_numbers(rs: Seq<StatLine>, src: StatSources, name: Seq<char>)
    requires
        first_error(rs, rs.len() as int, src).is_none(),
        stats_of(rs, src).contains_key(name),
    ensures
        is_number(stats_of(rs, src)[name]),
    decreases rs.len(),
{
    if rs.len() > 0 {
        let d = rs.drop_last();
        let n = d.len() as int;
        lemma_first_error_prefix(rs, d, n, src);
        assert(first_error(d, n, src).is_none());
        assert(record_error(rs, n, src).is_none());
        assert(rs.take(n) == d);
        assert(rs[n] == rs.last());
        if stats_of(d, src).contains_key(name) {
            lemma_stats_are_numbers(d, src, name);
        }
        match rs.last() {
            StatLine::CountersFile(_) => {
                let k = counter_files_of(d).len() as int;
                assert(src.counters@[k].is_some());
            },
            _ => {},
        }
    }
}

/// The statistic that a record gives by itself: a wall time gives
/// `wall-time`, a counter the statistic of its name.
pub open spec fn statistic_of(record: StatLine) -> Option<(Seq<char>, StatNumber)> {
    match record {
        StatLine::WallTime(t) => Some(("wall-time"@, StatNumber::Numeral(t))),
        StatLine::Counter { count, name, share } => Some((name, StatNumber::Numeral(count))),
        _ => None,
    }
}

/// Whether the record at position `k` is the only one of the list that
/// holds anything.
pub open spec fn only_record(rs: Seq<StatLine>, k: int) -> bool {
    forall|i: int| 0 <= i < rs.len() && i != k ==> #[trigger] rs[i] is Ignored
}

proof fn lemma_only_record(rs: Seq<StatLine>, src: StatSources, k: int)
    requires
        0 <= k,
        only_record(rs, k),
        k < rs.len() ==> statistic_of(rs[k]).is_some(),
    ensures
        first_error(rs, rs.len() as int, src) == if k < rs.len() {
            record_error(rs, k, src)
        } else {
            None
        },
        stats_of(rs, src) == if k < rs.len() {
            Map::<Seq<char>, StatNumber>::empty().insert(
                statistic_of(rs[k]).unwrap().0,
                statistic_of(rs[k]).unwrap().1,
            )
        } else {
            Map::<Seq<char>, StatNumber>::empty()
        },
        payloads_of(rs).len() == 0,
        last_dir(rs).is_none(),
        last_prefix(rs).is_none(),
        last_file(rs).is_none(),
    decreases rs.len(),
{
    if rs.len() > 0 {
        let d = rs.drop_last();
        let n = d.len() as int;
        assert(only_record(d, k)) by {
            assert forall|i: int| 0 <= i < d.len() && i != k implies #[trigger] d[i] is Ignored by {
                assert(rs[i] is Ignored);
            }
        }
        if k < d.len() {
            assert(d[k] == rs[k]);
        }
        lemma_only_record(d, src, k);
        lemma_first_error_prefix(rs, d, n, src);
        assert(rs.last() == rs[n]);
        if k < n {
            assert(rs[n] is Ignored);
            assert(record_error(rs, k, src) == record_error(d, k, src));
        } else if k > n {
            assert(rs[n] is Ignored);
        }
    }
}

/// Output in which one line holds a wall time or a counter, and no other
/// line holds anything, gives that one statistic and nothing else: no
/// summary of the self-instrumentation and no raw files. If the record is
/// faulty, its fault is the error: a counter that was not active for the
/// whole run gives no statistic.
pub proof fn lemma_single_statistic(rs: Seq<StatLine>, src: StatSources, k: int)
    requires
        0 <= k < rs.len(),
        only_record(rs, k),
        statistic_of(rs[k]).is_some(),
    ensures
        outcome(rs, src) == match record_error(rs, k, src) {
            Some(e) => Err::<Collected, StatError>(e),
            None => Ok::<Collected, StatError>(
                Collected {
                    stats: Map::<Seq<char>, StatNumber>::empty().insert(
                        statistic_of(rs[k]).unwrap().0,
                        statistic_of(rs[k]).unwrap().1,
                    ),
                    profile: None,
                    files: None,
                },
            ),
        },
        match rs[k] {
            StatLine::Counter { count, name, share } => !"100."@.is_prefix_of(share) ==> outcome(
                rs,
                src,
            ) == Err::<Collected, StatError>(StatError::InactiveCounter { name, share }),
            _ => true,
        },
{
    lemma_only_record(rs, src, k);
    let one = Map::<Seq<char>, StatNumber>::empty().insert(
        statistic_of(rs[k]).unwrap().0,
        statistic_of(rs[k]).unwrap().1,
    );
    assert(one.contains_key(statistic_of(rs[k]).unwrap().0));
    assert(one != Map::<Seq<char>, StatNumber>::empty());
}

} // verus!
