//! Turning directory entries into listing lines. Each successfully
//! read entry yields exactly one rendered line; each entry whose
//! metadata could not be fetched yields exactly one reported error and
//! no line — never both, never neither — and one bad entry never stops
//! the rest of the listing.

use vstd::prelude::*;
use vstd::string::StringExecFns;

use crate::classify::DecoratedName;
use crate::classify::FileKind;
use crate::classify::decorated_text;
use crate::classify::display_class;
use crate::classify::format_name;
use crate::perms::format_permissions;
use crate::perms::perm_seq;
use crate::timefmt::MAX_RENDERABLE_SECS;
use crate::timefmt::TimeParts;
use crate::timefmt::format_datetime;
use crate::timefmt::placeholder_time;
use crate::timefmt::spec_time_string;

verus! {

/// The metadata snapshot of one directory entry: permission mode bits,
/// the file-type discriminant, and the modification time as non-leap
/// seconds since the unix epoch — `None` when the time was unavailable.
#[derive(Clone, Copy)]
pub struct Metadata {
    pub mode: u32,
    pub kind: FileKind,
    pub modified: Option<i64>,
}

/// One step of directory enumeration: either an entry whose name and
/// metadata were read, or a failure with its reported cause.
pub enum EntryRecord {
    Found { name: String, meta: Metadata },
    Unreadable { message: String },
}

/// The rendered output record for one entry: the permission string,
/// the timestamp string, and the decorated name.
pub struct FormattedLine {
    pub permissions: String,
    pub timestamp: String,
    pub name: DecoratedName,
}

/// What one enumeration step produces: a rendered line, or an error
/// report — exactly one of the two.
pub enum RenderOutcome {
    Line(FormattedLine),
    Report(String),
}

/// What a rendered timestamp field may read: fifteen characters that
/// are either the placeholder or a valid broken-down time, the
/// placeholder whenever the time was absent, and a real rendering
/// whenever the timestamp was present and within the renderable range.
pub open spec fn timestamp_ok(ts: Seq<char>, modified: Option<i64>) -> bool {
    &&& ts.len() == 15
    &&& (modified is None ==> ts == placeholder_time())
    &&& (ts == placeholder_time() || (exists|t: TimeParts|
        t.valid() && ts == #[trigger] spec_time_string(t)))
    &&& ((modified matches Some(secs) && 0 <= secs <= MAX_RENDERABLE_SECS) ==> (exists|
        t: TimeParts,
    |
        t.valid() && ts == #[trigger] spec_time_string(t)))
}

/// A line renders an entry faithfully: permissions decode the mode,
/// the timestamp obeys `timestamp_ok`, and the name is decorated and
/// classed by the entry's kind.
pub open spec fn line_matches(line: FormattedLine, name: Seq<char>, meta: Metadata) -> bool {
    &&& line.permissions@ == perm_seq(meta.mode)
    &&& timestamp_ok(line.timestamp@, meta.modified)
    &&& line.name.text@ == decorated_text(name, meta.kind)
    &&& line.name.class == display_class(name, meta.kind)
}

/// `line_matches`, phrased over a successfully read record.
pub open spec fn line_matches_record(line: FormattedLine, rec: EntryRecord) -> bool {
    match rec {
        EntryRecord::Found { name, meta } => line_matches(line, name@, meta),
        EntryRecord::Unreadable { .. } => false,
    }
}

/// An outcome is right for a record: a found record yields a faithful
/// line and nothing else, an unreadable record yields a report carrying
/// its cause and nothing else.
pub open spec fn outcome_ok(rec: EntryRecord, out: RenderOutcome) -> bool {
    match out {
        RenderOutcome::Line(l) => rec is Found && line_matches_record(l, rec),
        RenderOutcome::Report(m) => match rec {
            EntryRecord::Unreadable { message } => m@ == message@,
            EntryRecord::Found { .. } => false,
        },
    }
}

/// Render one entry into its output record.
pub fn render_entry(name: &str, meta: &Metadata) -> (line: FormattedLine)
    ensures
        line_matches(line, name@, *meta),
{
    FormattedLine {
        permissions: format_permissions(meta.mode),
        timestamp: format_datetime(meta.modified),
        name: format_name(name, meta.kind),
    }
}

/// Process one enumeration step: render a found entry, pass the cause
/// of an unreadable one through for reporting.
pub fn process_record(rec: &EntryRecord) -> (out: RenderOutcome)
    ensures
        outcome_ok(*rec, out),
{
    match rec {
        EntryRecord::Found { name, meta } => RenderOutcome::Line(render_entry(name.as_str(), meta)),
        EntryRecord::Unreadable { message } => RenderOutcome::Report(message.clone()),
    }
}

/// How many records of a sequence were successfully read.
pub open spec fn count_found(s: Seq<EntryRecord>) -> int
    decreases s.len(),
{
    if s.len() == 0 {
        0
    } else {
        count_found(s.drop_last()) + (if s.last() is Found {
            1int
        } else {
            0int
        })
    }
}

/// How many records of a sequence failed to be read.
pub open spec fn count_unreadable(s: Seq<EntryRecord>) -> int
    decreases s.len(),
{
    if s.len() == 0 {
        0
    } else {
        count_unreadable(s.drop_last()) + (if s.last() is Unreadable {
            1int
        } else {
            0int
        })
    }
}

/// The successfully read records, in order.
pub open spec fn found_entries(s: Seq<EntryRecord>) -> Seq<EntryRecord>
    decreases s.len(),
{
    if s.len() == 0 {
        Seq::empty()
    } else if s.last() is Found {
        found_entries(s.drop_last()).push(s.last())
    } else {
        found_entries(s.drop_last())
    }
}

/// The causes of the failed records, in order.
pub open spec fn error_messages(s: Seq<EntryRecord>) -> Seq<Seq<char>>
    decreases s.len(),
{
    if s.len() == 0 {
        Seq::empty()
    } else {
        match s.last() {
            EntryRecord::Unreadable { message } => error_messages(s.drop_last()).push(message@),
            EntryRecord::Found { .. } => error_messages(s.drop_last()),
        }
    }
}

/// The filtered sequences are as long as the counts say.
pub proof fn lemma_partition_lens(s: Seq<EntryRecord>)
    ensures
        found_entries(s).len() == count_found(s),
        error_messages(s).len() == count_unreadable(s),
    decreases s.len(),
{
    if s.len() > 0 {
        lemma_partition_lens(s.drop_last());
    }
}

/// Every record is counted exactly once: as found or as unreadable.
pub proof fn lemma_counts_partition(s: Seq<EntryRecord>)
    ensures
        count_found(s) + count_unreadable(s) == s.len(),
        0 <= count_found(s) <= s.len(),
        0 <= count_unreadable(s) <= s.len(),
    decreases s.len(),
{
    if s.len() > 0 {
        lemma_counts_partition(s.drop_last());
    }
}

/// A listing over records of which exactly one was unreadable renders
/// a line for every record but that one, and reports exactly one error.
pub proof fn lemma_one_unreadable(s: Seq<EntryRecord>)
    requires
        count_unreadable(s) == 1,
    ensures
        count_found(s) == s.len() - 1,
{
    lemma_counts_partition(s);
}

/// Render a whole sequence of enumeration steps: one line per found
/// record, in order and each faithful to its record, and one reported
/// cause per unreadable record, in order.
pub fn render_listing(records: &Vec<EntryRecord>) -> (out: (Vec<FormattedLine>, Vec<String>))
    ensures
        out.0@.len() == count_found(records@),
        out.1@.len() == count_unreadable(records@),
        out.0@.len() + out.1@.len() == records@.len(),
        forall|j: int|
            0 <= j < out.0@.len() ==> line_matches_record(
                out.0@[j],
                found_entries(records@)[j],
            ),
        forall|j: int| 0 <= j < out.1@.len() ==> out.1@[j]@ == error_messages(records@)[j],
{
    let mut lines: Vec<FormattedLine> = Vec::new();
    let mut errors: Vec<String> = Vec::new();
    let mut i: usize = 0;
    while i < records.len()
        invariant
            0 <= i <= records@.len(),
            lines@.len() == count_found(records@.take(i as int)),
            errors@.len() == count_unreadable(records@.take(i as int)),
            lines@.len() + errors@.len() == i,
            forall|j: int|
                0 <= j < lines@.len() ==> line_matches_record(
                    lines@[j],
                    found_entries(records@.take(i as int))[j],
                ),
            forall|j: int|
                0 <= j < errors@.len() ==> errors@[j]@ == error_messages(
                    records@.take(i as int),
                )[j],
        decreases records@.len() - i,
    {
        proof {
            assert(records@.take(i as int + 1).drop_last() =~= records@.take(i as int));
            assert(records@.take(i as int + 1).last() == records@[i as int]);
            lemma_partition_lens(records@.take(i as int));
            lemma_partition_lens(records@.take(i as int + 1));
        }
        match process_record(&records[i]) {
            RenderOutcome::Line(l) => lines.push(l),
            RenderOutcome::Report(m) => errors.push(m),
        }
        i = i + 1;
    }
    proof {
        assert(records@.take(records@.len() as int) =~= records@);
    }
    (lines, errors)
}

/// Render the header line of a listing: the target path's permission
/// string, then the path itself.
pub fn format_header(mode: u32, path: &str) -> (r: String)
    ensures
        r@ == perm_seq(mode) + " - "@ + path@,
{
    let mut s = format_permissions(mode);
    s.append(" - ");
    s.append(path);
    proof {
        assert(s@ =~= perm_seq(mode) + " - "@ + path@);
    }
    s
}

/// The text of one listing line: permissions, timestamp and decorated
/// name, joined by `" - "`.
pub open spec fn spec_line_text(line: FormattedLine) -> Seq<char> {
    line.permissions@ + " - "@ + line.timestamp@ + " - "@ + line.name.text@
}

/// Join a rendered line's three fields into the printable text.
pub fn line_text(line: &FormattedLine) -> (r: String)
    ensures
        r@ == spec_line_text(*line),
{
    let mut s = line.permissions.clone();
    s.append(" - ");
    s.append(line.timestamp.as_str());
    s.append(" - ");
    s.append(line.name.text.as_str());
    proof {
        assert(s@ =~= spec_line_text(*line));
    }
    s
}

} // verus!
