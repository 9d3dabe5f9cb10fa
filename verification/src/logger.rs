//! The decisions of the game logger: which log files are old enough to delete, how a
//! log file is named, and the numbering of the entries of a run's log.  Opening,
//! writing and deleting files, and reading the clock, are the caller's part.
use crate::json_text::{
    contains_text, decimal, ends_in, json_string, lemma_ends_in_append, lemma_occurs_extend, lemma_occurs_span,
    occurs_at, push_decimal, push_json_string, starts_with,
};
use vstd::prelude::*;

verus! {

/// Days a log file is kept.
pub const DEFAULT_RETENTION_DAYS: u64 = 7;

/// Seconds in a day.
pub const SECONDS_PER_DAY: u64 = 86400;

/// Whether a directory entry is a run log (a file with extension `jsonl`) older than
/// `max_age_days` days.  `age` is the time since its last change as whole seconds and
/// nanoseconds, `None` when it could not be determined.
pub open spec fn is_expired_log_spec(
    is_file: bool,
    extension: Option<Seq<char>>,
    age: Option<(u64, u32)>,
    max_age_days: u64,
) -> bool {
    &&& is_file
    &&& extension == Some("jsonl"@)
    &&& match age {
        Some((secs, nanos)) => secs > max_age_days * SECONDS_PER_DAY || (secs == max_age_days
            * SECONDS_PER_DAY && nanos > 0),
        None => false,
    }
}

/// A run log is deleted exactly when its age, counted in nanoseconds, is more than the
/// retention period: a log exactly as old as the period is kept.  Nothing else is ever
/// deleted: not a directory, not a file with another extension, not a file whose age is
/// unknown.
pub proof fn logs_expire_after_retention(
    is_file: bool,
    extension: Option<Seq<char>>,
    secs: u64,
    nanos: u32,
    max_age_days: u64,
)
    requires
        nanos < 1_000_000_000,
    ensures
        is_expired_log_spec(true, Some("jsonl"@), Some((secs, nanos)), max_age_days) <==> secs * 1_000_000_000
            + nanos > max_age_days * 86400 * 1_000_000_000,
        is_expired_log_spec(is_file, extension, Some((secs, nanos)), max_age_days) ==> is_file && extension
            == Some("jsonl"@),
        !is_expired_log_spec(is_file, extension, None, max_age_days),
{
    let limit = max_age_days * 86400;
    assert(secs > limit ==> secs * 1_000_000_000 + nanos > limit * 1_000_000_000) by (nonlinear_arith);
    assert(secs < limit ==> secs * 1_000_000_000 + nanos < limit * 1_000_000_000) by (nonlinear_arith)
        requires
            nanos < 1_000_000_000,
    ;
    assert(secs == limit ==> secs * 1_000_000_000 + nanos - limit * 1_000_000_000 == nanos) by (nonlinear_arith);
    assert(max_age_days * 86400 * 1_000_000_000 == limit * 1_000_000_000) by (nonlinear_arith)
        requires
            limit == max_age_days * 86400,
    ;
}

/// Whether a directory entry is a run log older than `max_age_days` days: see
/// [`is_expired_log_spec`].
pub fn is_expired_log(is_file: bool, extension: Option<&str>, age: Option<(u64, u32)>, max_age_days: u64) -> (r:
    bool)
    requires
        max_age_days * SECONDS_PER_DAY <= u64::MAX,
    ensures
        r == is_expired_log_spec(
            is_file,
            match extension {
                Some(e) => Some(e@),
                None => None,
            },
            age,
            max_age_days,
        ),
{
    if !is_file {
        return false;
    }
    let is_jsonl = match extension {
        Some(e) => e.to_owned() == "jsonl".to_owned(),
        None => false,
    };
    if !is_jsonl {
        return false;
    }
    let max_age = max_age_days * SECONDS_PER_DAY;
    match age {
        Some((secs, nanos)) => secs > max_age || (secs == max_age && nanos > 0),
        None => false,
    }
}

/// `seed` with every slash and backslash replaced by an underscore.
pub open spec fn sanitize_seed(seed: Seq<char>) -> Seq<char> {
    seed.map_values(|c: char| if c == '/' || c == '\\' { '_' } else { c })
}

/// The name of a run's log file: `<timestamp>_<character>_<seed>.jsonl`, the seed
/// sanitized.
pub open spec fn log_file_name_spec(timestamp: Seq<char>, character: Seq<char>, seed: Seq<char>) -> Seq<
    char,
> {
    timestamp + "_"@ + character + "_"@ + sanitize_seed(seed) + ".jsonl"@
}

/// A sanitized seed has the length of the seed and holds no slash or backslash, so the
/// log file name cannot reach into another directory through it.
pub proof fn sanitized_seed_has_no_separator(seed: Seq<char>)
    ensures
        sanitize_seed(seed).len() == seed.len(),
        forall|i: int|
            0 <= i < seed.len() ==> #[trigger] sanitize_seed(seed)[i] != '/' && sanitize_seed(seed)[i]
                != '\\',
        forall|i: int|
            0 <= i < seed.len() && seed[i] != '/' && seed[i] != '\\' ==> #[trigger] sanitize_seed(seed)[i]
                == seed[i],
{
}

/// The log file name holds, in order, the timestamp, an underscore, the character, an
/// underscore, the seed with each slash or backslash turned into an underscore and every
/// other character kept, and the extension `.jsonl`.
pub proof fn log_file_name_parts(timestamp: Seq<char>, character: Seq<char>, seed: Seq<char>)
    ensures
        ({
            let name = log_file_name_spec(timestamp, character, seed);
            let at = timestamp.len() + character.len() + 2;
            &&& name.len() == at + seed.len() + 6
            &&& starts_with(name, timestamp + seq!['_'] + character + seq!['_'])
            &&& ends_in(name, ".jsonl"@)
            &&& forall|i: int|
                0 <= i < seed.len() ==> #[trigger] name[at + i] == if seed[i] == '/' || seed[i] == '\\' {
                    '_'
                } else {
                    seed[i]
                }
        }),
{
    reveal_strlit("_");
    reveal_strlit(".jsonl");
    let name = log_file_name_spec(timestamp, character, seed);
    let head = timestamp + seq!['_'] + character + seq!['_'];
    assert("_"@ =~= seq!['_']);
    assert(name =~= head + sanitize_seed(seed) + ".jsonl"@);
    assert(name.subrange(0, head.len() as int) =~= head);
    assert(name.subrange(name.len() - 6, name.len() as int) =~= ".jsonl"@);
    assert forall|i: int| 0 <= i < seed.len() implies #[trigger] name[head.len() + i] == if seed[i] == '/'
        || seed[i] == '\\' {
        '_'
    } else {
        seed[i]
    } by {
        assert(name[head.len() + i] == sanitize_seed(seed)[i]);
    }
}

proof fn lemma_sanitize_append(a: Seq<char>, b: Seq<char>)
    ensures
        sanitize_seed(a + b) == sanitize_seed(a) + sanitize_seed(b),
{
    assert(sanitize_seed(a + b) =~= sanitize_seed(a) + sanitize_seed(b));
}

fn push_sanitized(out: &mut String, seed: &str)
    ensures
        final(out)@ == old(out)@ + sanitize_seed(seed@),
{
    let chars = seed.unicode_len();
    let ghost s = seed@;
    let ghost base = out@;
    let mut start: usize = 0;
    let mut i: usize = 0;
    proof {
        assert(s.subrange(0, 0) =~= Seq::<char>::empty());
        assert(sanitize_seed(Seq::<char>::empty()) =~= Seq::<char>::empty());
    }
    while i < chars
        invariant
            chars == s.len(),
            seed@ == s,
            start <= i <= chars,
            out@ == base + sanitize_seed(s.subrange(0, start as int)),
            forall|j: int| start <= j < i ==> s[j] != '/' && s[j] != '\\',
        decreases chars - i,
    {
        let c = seed.get_char(i);
        if c == '/' || c == '\\' {
            let piece = seed.substring_char(start, i);
            out.append(piece);
            out.append("_");
            proof {
                reveal_strlit("_");
                let seg = s.subrange(start as int, i as int);
                assert(sanitize_seed(seg) =~= seg);
                assert(sanitize_seed(seq![c]) =~= "_"@);
                assert(s.subrange(0, i + 1) =~= s.subrange(0, start as int) + seg + seq![c]);
                lemma_sanitize_append(s.subrange(0, start as int), seg);
                lemma_sanitize_append(s.subrange(0, start as int) + seg, seq![c]);
            }
            start = i + 1;
        }
        i += 1;
    }
    let piece = seed.substring_char(start, chars);
    out.append(piece);
    proof {
        let seg = s.subrange(start as int, chars as int);
        assert(sanitize_seed(seg) =~= seg);
        assert(s =~= s.subrange(0, start as int) + seg);
        lemma_sanitize_append(s.subrange(0, start as int), seg);
    }
}

/// The name of a run's log file: see [`log_file_name_spec`].
pub fn log_file_name(timestamp: &str, character: &str, seed: &str) -> (r: String)
    ensures
        r@ == log_file_name_spec(timestamp@, character@, seed@),
{
    let mut name = timestamp.to_owned();
    name.append("_");
    name.append(character);
    name.append("_");
    push_sanitized(&mut name, seed);
    name.append(".jsonl");
    name
}

/// What an entry of a run's log records.
#[derive(Debug, Clone, Copy, PartialEq, Eq, Structural)]
pub enum EntryKind {
    /// A game state received.
    State,
    /// An action sent.
    Action,
}

/// An entry to append to a run's log: its step number and its kind.
#[derive(Debug, Clone, Copy, PartialEq, Eq, Structural)]
pub struct LogEntry {
    pub step: usize,
    pub kind: EntryKind,
}

/// The name of an entry's kind in a log line.
pub open spec fn entry_kind_name(kind: EntryKind) -> Seq<char> {
    match kind {
        EntryKind::State => "state"@,
        EntryKind::Action => "action"@,
    }
}

/// The line of a run's log for `entry`, logged at time `timestamp`, whose content has the
/// JSON text `data`: a JSON object with the members `data`, `step`, `ts` and `type`, in
/// that order.
pub open spec fn entry_line_spec(entry: LogEntry, timestamp: Seq<char>, data: Seq<char>) -> Seq<char> {
    "{\"data\":"@ + data + ",\"step\":"@ + decimal(entry.step as nat) + ",\"ts\":"@ + json_string(timestamp)
        + ",\"type\":"@ + json_string(entry_kind_name(entry.kind)) + "}"@
}

/// A log line is a JSON object that starts with the logged content as its `data` member,
/// carries the entry's step number in decimal as `step` and the time as the JSON string
/// `ts`, and ends by naming the entry's kind: `"type":"state"` for a state and
/// `"type":"action"` for an action.
pub proof fn log_line_members(entry: LogEntry, timestamp: Seq<char>, data: Seq<char>)
    ensures
        ({
            let t = entry_line_spec(entry, timestamp, data);
            &&& starts_with(t, "{\"data\":"@ + data)
            &&& contains_text(t, "\"step\":"@ + decimal(entry.step as nat))
            &&& contains_text(t, "\"ts\":"@ + json_string(timestamp))
            &&& entry.kind == EntryKind::State ==> ends_in(t, "\"type\":\"state\"}"@)
            &&& entry.kind == EntryKind::Action ==> ends_in(t, "\"type\":\"action\"}"@)
        }),
{
    let t = entry_line_spec(entry, timestamp, data);
    let l_data = "{\"data\":"@;
    let l_step = ",\"step\":"@;
    let l_ts = ",\"ts\":"@;
    let l_type = ",\"type\":"@;
    let close = "}"@;
    let k_step = "\"step\":"@;
    let k_ts = "\"ts\":"@;
    let dec = decimal(entry.step as nat);
    let jts = json_string(timestamp);
    let jk = json_string(entry_kind_name(entry.kind));
    let s1 = l_data + data;
    let s2 = s1 + l_step;
    let s3 = s2 + dec;
    let s4 = s3 + l_ts;
    let s5 = s4 + jts;
    let s6 = s5 + l_type;
    let s7 = s6 + jk;
    assert(t == s7 + close);
    // The content.
    assert(occurs_at(s1, 0, s1)) by {
        assert(s1.subrange(0, s1.len() as int) =~= s1);
    }
    lemma_occurs_extend(s1, l_step, 0, s1);
    lemma_occurs_extend(s2, dec, 0, s1);
    lemma_occurs_extend(s3, l_ts, 0, s1);
    lemma_occurs_extend(s4, jts, 0, s1);
    lemma_occurs_extend(s5, l_type, 0, s1);
    lemma_occurs_extend(s6, jk, 0, s1);
    lemma_occurs_extend(s7, close, 0, s1);
    // The step number.
    assert(ends_in(l_step, k_step)) by {
        reveal_strlit(",\"step\":");
        reveal_strlit("\"step\":");
        assert(l_step.subrange(l_step.len() - k_step.len(), l_step.len() as int) =~= k_step);
    }
    lemma_ends_in_append(s1, l_step, k_step);
    lemma_occurs_span(s2, k_step, dec);
    let i = s2.len() - k_step.len();
    lemma_occurs_extend(s3, l_ts, i, k_step + dec);
    lemma_occurs_extend(s4, jts, i, k_step + dec);
    lemma_occurs_extend(s5, l_type, i, k_step + dec);
    lemma_occurs_extend(s6, jk, i, k_step + dec);
    lemma_occurs_extend(s7, close, i, k_step + dec);
    // The time.
    assert(ends_in(l_ts, k_ts)) by {
        reveal_strlit(",\"ts\":");
        reveal_strlit("\"ts\":");
        assert(l_ts.subrange(l_ts.len() - k_ts.len(), l_ts.len() as int) =~= k_ts);
    }
    lemma_ends_in_append(s3, l_ts, k_ts);
    lemma_occurs_span(s4, k_ts, jts);
    let j = s4.len() - k_ts.len();
    lemma_occurs_extend(s5, l_type, j, k_ts + jts);
    lemma_occurs_extend(s6, jk, j, k_ts + jts);
    lemma_occurs_extend(s7, close, j, k_ts + jts);
    // The kind.
    let tail = l_type + jk + close;
    assert(t =~= s5 + tail);
    assert(ends_in(t, tail)) by {
        assert(t.subrange(t.len() - tail.len(), t.len() as int) =~= tail);
    }
    assert(tail.subrange(1, tail.len() as int) =~= "\"type\":"@ + jk + close) by {
        reveal_strlit(",\"type\":");
        reveal_strlit("\"type\":");
    }
    let word = tail.subrange(1, tail.len() as int);
    assert(ends_in(t, word)) by {
        assert(t.subrange(t.len() - word.len(), t.len() as int) =~= tail.subrange(1, tail.len() as int));
    }
    if entry.kind == EntryKind::State {
        assert(word =~= "\"type\":\"state\"}"@) by {
            reveal_strlit("state");
            reveal_strlit("\"type\":");
            reveal_strlit("}");
            reveal_strlit("\"type\":\"state\"}");
            reveal_with_fuel(crate::json_text::escaped, 6);
            assert(crate::json_text::escaped("state"@) =~= "state"@);
        }
    } else {
        assert(word =~= "\"type\":\"action\"}"@) by {
            reveal_strlit("action");
            reveal_strlit("\"type\":");
            reveal_strlit("}");
            reveal_strlit("\"type\":\"action\"}");
            reveal_with_fuel(crate::json_text::escaped, 7);
            assert(crate::json_text::escaped("action"@) =~= "action"@);
        }
    }
}

/// The line of a run's log for `entry` (without its line break): see
/// [`entry_line_spec`].  `data_json` is the JSON text of the state or action logged and
/// is written as it is.
pub fn entry_line(entry: LogEntry, timestamp: &str, data_json: &str) -> (r: String)
    ensures
        r@ == entry_line_spec(entry, timestamp@, data_json@),
{
    let mut line = "{\"data\":".to_owned();
    line.append(data_json);
    line.append(",\"step\":");
    push_decimal(&mut line, entry.step as u64);
    line.append(",\"ts\":");
    push_json_string(&mut line, timestamp);
    line.append(",\"type\":");
    match entry.kind {
        EntryKind::State => {
            push_json_string(&mut line, "state");
            proof { reveal_strlit("state"); }
        },
        EntryKind::Action => {
            push_json_string(&mut line, "action");
            proof { reveal_strlit("action"); }
        },
    }
    line.append("}");
    line
}

/// The step count after an entry of kind `kind` is logged, when it was `steps`: a state
/// counts one more, an action leaves the count as it is.
pub open spec fn step_after(steps: nat, kind: EntryKind) -> nat {
    match kind {
        EntryKind::State => steps + 1,
        EntryKind::Action => steps,
    }
}

/// The step count after entries of the kinds `kinds` are logged in order, when it was
/// `steps`: `step_after` applied once per entry.
pub open spec fn steps_after(steps: nat, kinds: Seq<EntryKind>) -> nat
    decreases kinds.len(),
{
    if kinds.len() == 0 {
        steps
    } else {
        step_after(steps_after(steps, kinds.drop_last()), kinds.last())
    }
}

/// The step numbers carried by the entries logged, in order, for the kinds `kinds`, when
/// the count starts at `steps`: each entry carries the count after it is logged.
pub open spec fn entry_steps(steps: nat, kinds: Seq<EntryKind>) -> Seq<nat> {
    Seq::new(kinds.len(), |i: int| steps_after(steps, kinds.take(i + 1)))
}

/// How many of `kinds` are states.
pub open spec fn state_count(kinds: Seq<EntryKind>) -> nat
    decreases kinds.len(),
{
    if kinds.len() == 0 {
        0
    } else {
        state_count(kinds.drop_last()) + (if kinds.last() == EntryKind::State {
            1nat
        } else {
            0nat
        })
    }
}

proof fn lemma_steps_after_counts_states(kinds: Seq<EntryKind>)
    ensures
        steps_after(0, kinds) == state_count(kinds),
    decreases kinds.len(),
{
    if kinds.len() > 0 {
        lemma_steps_after_counts_states(kinds.drop_last());
    }
}

/// Numbering of a run's log: starting from a fresh logger (step count 0), the entries
/// logged for any sequence of states and actions carry, in order, the number of states
/// logged so far: the k-th state is numbered k, and an action carries the number of the
/// latest state before it (0 if none).
pub proof fn entries_are_numbered_by_states(kinds: Seq<EntryKind>)
    ensures
        entry_steps(0, kinds).len() == kinds.len(),
        steps_after(0, kinds) == state_count(kinds),
        forall|i: int|
            0 <= i < kinds.len() ==> #[trigger] entry_steps(0, kinds)[i] == state_count(kinds.take(i + 1)),
        forall|i: int|
            0 <= i < kinds.len() && kinds[i] == EntryKind::State ==> #[trigger] entry_steps(0, kinds)[i]
                == state_count(kinds.take(i)) + 1,
        forall|i: int|
            0 <= i < kinds.len() && kinds[i] == EntryKind::Action ==> #[trigger] entry_steps(0, kinds)[i]
                == state_count(kinds.take(i)),
{
    lemma_steps_after_counts_states(kinds);
    assert forall|i: int| 0 <= i < kinds.len() implies #[trigger] entry_steps(0, kinds)[i]
        == state_count(kinds.take(i + 1)) && state_count(kinds.take(i + 1)) == state_count(kinds.take(i))
        + (if kinds[i] == EntryKind::State {
        1nat
    } else {
        0nat
    }) by {
        lemma_steps_after_counts_states(kinds.take(i + 1));
        assert(kinds.take(i + 1).drop_last() =~= kinds.take(i));
    }
}

/// The bookkeeping of a run's log: whether it is written, the number of states logged
/// so far, and the file it goes to.
#[derive(Debug)]
pub struct GameLogger {
    enabled: bool,
    step: usize,
    path: Option<String>,
}

impl GameLogger {
    /// Whether entries are written.
    pub closed spec fn is_enabled(&self) -> bool {
        self.enabled
    }

    /// Number of states logged so far.
    pub closed spec fn steps(&self) -> nat {
        self.step as nat
    }

    /// The log file, if one was chosen.
    pub closed spec fn log_path(&self) -> Option<Seq<char>> {
        match self.path {
            Some(p) => Some(p@),
            None => None,
        }
    }

    /// A logger for a run: `path` is the file chosen for the log (`None` when logging is
    /// off) and `file_opened` tells whether it could be opened for appending.  Entries
    /// are written only when both hold.
    pub fn new(path: Option<String>, file_opened: bool) -> (r: Self)
        ensures
            r.is_enabled() == (path is Some && file_opened),
            r.steps() == 0,
            r.log_path() == match path {
                Some(p) => Some(p@),
                None => None::<Seq<char>>,
            },
    {
        let enabled = path.is_some() && file_opened;
        GameLogger { enabled, step: 0, path }
    }

    /// Number of states logged so far.
    pub fn step(&self) -> (r: usize)
        ensures
            r == self.steps(),
    {
        self.step
    }

    /// Whether entries are written.
    pub fn enabled(&self) -> (r: bool)
        ensures
            r == self.is_enabled(),
    {
        self.enabled
    }

    /// The next entry for a game state received: the step count goes up by one and the
    /// entry carries the new count.  `None`, and no change, when logging is off.
    pub fn log_state(&mut self) -> (r: Option<LogEntry>)
        requires
            old(self).is_enabled() ==> old(self).steps() < usize::MAX,
        ensures
            final(self).is_enabled() == old(self).is_enabled(),
            final(self).log_path() == old(self).log_path(),
            old(self).is_enabled() ==> final(self).steps() == step_after(old(self).steps(), EntryKind::State)
                && r == Some(LogEntry { step: final(self).steps() as usize, kind: EntryKind::State }),
            !old(self).is_enabled() ==> final(self).steps() == old(self).steps() && r is None,
    {
        if !self.enabled {
            return None;
        }
        self.step = self.step + 1;
        Some(LogEntry { step: self.step, kind: EntryKind::State })
    }

    /// The next entry for an action sent: it carries the current step count, which does
    /// not change.  `None` when logging is off.
    pub fn log_action(&mut self) -> (r: Option<LogEntry>)
        ensures
            final(self).is_enabled() == old(self).is_enabled(),
            final(self).log_path() == old(self).log_path(),
            final(self).steps() == old(self).steps(),
            old(self).is_enabled() ==> final(self).steps() == step_after(old(self).steps(), EntryKind::Action)
                && r == Some(LogEntry { step: final(self).steps() as usize, kind: EntryKind::Action }),
            !old(self).is_enabled() ==> r is None,
    {
        if !self.enabled {
            return None;
        }
        Some(LogEntry { step: self.step, kind: EntryKind::Action })
    }

    /// The log file, if one was chosen.
    pub fn path(&self) -> (r: Option<&str>)
        ensures
            match r {
                Some(p) => self.log_path() == Some(p@),
                None => self.log_path() is None,
            },
    {
        match &self.path {
            Some(p) => Some(p.as_str()),
            None => None,
        }
    }
}

} // verus!
