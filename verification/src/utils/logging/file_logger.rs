use crate::utils::logging::level::{Level, Logger};
use crate::utils::time::{format_timestamp, push_digits, spec_digits, spec_timestamp};
use vstd::prelude::*;
use vstd::string::StringExecFns;

verus! {

pub struct FileLoggerOptions {
    /// The directory of the log files.
    pub directory: &'static str,
    /// The name of the current log file, without its extension.
    pub filename: &'static str,
    /// The size in bytes from which the current log file is put aside.
    pub max_size: u64,
    /// The number of log files that are kept.
    pub max_files: usize,
}

impl FileLoggerOptions {
    /// Options for a log `filename` in the directory `logs/`, put aside at
    /// five mebibytes, with ten files kept.
    pub fn new(filename: &'static str) -> (options: Self)
        ensures
            options.directory@ == "logs/"@,
            options.filename == filename,
            options.max_size == 5 * 1024 * 1024,
            options.max_files == 10,
    {
        Self { directory: "logs/", filename, max_size: 5 * 1024 * 1024, max_files: 10 }
    }
}

/// The bytes of `text`.
pub open spec fn spec_bytes_of(text: String) -> Seq<u8> {
    vstd::utf8::encode_utf8(text@)
}

/// Whether `a` comes before `b` in the order of a dictionary: at the first
/// place where they differ `a` has the lesser byte, or `a` ends there and
/// `b` goes on.
pub open spec fn spec_comes_before(a: Seq<u8>, b: Seq<u8>) -> bool
    decreases a.len(),
{
    if b.len() == 0 {
        false
    } else if a.len() == 0 {
        true
    } else if a[0] != b[0] {
        a[0] < b[0]
    } else {
        spec_comes_before(a.drop_first(), b.drop_first())
    }
}

/// Where two texts agree up to a place, their order is the order of what
/// follows that place.
proof fn lemma_comes_before_skip(a: Seq<u8>, b: Seq<u8>, agreed: int)
    requires
        0 <= agreed <= a.len(),
        agreed <= b.len(),
        forall|k: int| 0 <= k < agreed ==> a[k] == b[k],
    ensures
        spec_comes_before(a, b) == spec_comes_before(a.skip(agreed), b.skip(agreed)),
    decreases agreed,
{
    if agreed == 0 {
        assert(a.skip(0) =~= a);
        assert(b.skip(0) =~= b);
    } else {
        assert(a[0] == b[0]);
        lemma_comes_before_skip(a.drop_first(), b.drop_first(), agreed - 1);
        assert(a.drop_first().skip(agreed - 1) =~= a.skip(agreed));
        assert(b.drop_first().skip(agreed - 1) =~= b.skip(agreed));
    }
}

/// No text comes before itself.
proof fn lemma_never_before_itself(a: Seq<u8>)
    ensures
        !spec_comes_before(a, a),
    decreases a.len(),
{
    if a.len() > 0 {
        lemma_never_before_itself(a.drop_first());
    }
}

/// Of two texts that differ one comes before the other.
proof fn lemma_comes_before_total(a: Seq<u8>, b: Seq<u8>)
    ensures
        a == b || spec_comes_before(a, b) || spec_comes_before(b, a),
    decreases a.len(),
{
    if a.len() > 0 && b.len() > 0 && a[0] == b[0] {
        lemma_comes_before_total(a.drop_first(), b.drop_first());
        if a.drop_first() == b.drop_first() {
            assert(a =~= seq![a[0]] + a.drop_first());
            assert(b =~= seq![b[0]] + b.drop_first());
        }
    } else if a.len() == 0 && b.len() == 0 {
        assert(a =~= b);
    }
}

/// What comes before a text comes before what that text comes before.
proof fn lemma_comes_before_transitive(a: Seq<u8>, b: Seq<u8>, c: Seq<u8>)
    requires
        spec_comes_before(a, b),
        spec_comes_before(b, c),
    ensures
        spec_comes_before(a, c),
    decreases a.len(),
{
    if a.len() > 0 && b.len() > 0 && c.len() > 0 && a[0] == b[0] && b[0] == c[0] {
        lemma_comes_before_transitive(a.drop_first(), b.drop_first(), c.drop_first());
    }
}

/// Whether `a` comes before `b` in the order of a dictionary.
fn comes_before(a: &[u8], b: &[u8]) -> (before: bool)
    ensures
        before == spec_comes_before(a@, b@),
{
    let mut i: usize = 0;
    while i < a.len() && i < b.len()
        invariant
            i <= a.len(),
            i <= b.len(),
            forall|k: int| 0 <= k < i ==> a@[k] == b@[k],
        decreases a.len() - i,
    {
        if a[i] != b[i] {
            proof {
                lemma_comes_before_skip(a@, b@, i as int);
            }
            return a[i] < b[i];
        }
        i = i + 1;
    }
    proof {
        lemma_comes_before_skip(a@, b@, i as int);
    }
    i < b.len()
}

/// The rules of a log that is written to files which are put aside as
/// they fill up.
pub struct FileLogger {
    pub level: Level,
    pub options: FileLoggerOptions,
}

impl FileLogger {
    pub fn new(level: Level, options: FileLoggerOptions) -> (logger: Self)
        ensures
            logger.level == level,
            logger.options == options,
    {
        Self { level, options }
    }

    /// The name of the current log file: the name of the log and the
    /// extension `.log`.
    pub fn log_file_name(&self) -> (name: String)
        ensures
            name@ == self.options.filename@ + ".log"@,
    {
        let mut name = String::from_str(self.options.filename);
        name.append(".log");
        name
    }

    /// A record as it is written to the file: the time since the program
    /// started, the level, the message, and the end of the line.
    pub fn format_record(&self, secs: u64, millis: u32, level: Level, message: &str) -> (line:
        String)
        ensures
            line@ == spec_timestamp(secs, millis) + " "@ + level.spec_name() + ": "@ + message@
                + "\n"@,
    {
        let mut line = format_timestamp(secs, millis);
        line.append(" ");
        line.append(level.as_str());
        line.append(": ");
        line.append(message);
        line.append("\n");
        line
    }

    /// The name under which a log file is put aside at `millis`
    /// milliseconds since the epoch: that number and the extension `.log`.
    pub fn rotated_file_name(millis: u128) -> (name: String)
        ensures
            name@ == spec_digits(millis as nat) + ".log"@,
    {
        let mut name = String::new();
        push_digits(&mut name, millis);
        name.append(".log");
        assert(name@ =~= spec_digits(millis as nat) + ".log"@);
        name
    }

    /// Which of the log files with the names `stems` is the oldest: the
    /// one whose name comes first in the order of a dictionary, and of
    /// several with that name the first. The files that were put aside are
    /// named by their time, so that the first name is the oldest file.
    pub fn oldest(stems: &Vec<String>) -> (found: Option<usize>)
        ensures
            match found {
                Some(i) => {
                    &&& i < stems.len()
                    &&& forall|j: int|
                        0 <= j < stems.len() ==> !spec_comes_before(
                            spec_bytes_of(#[trigger] stems[j]),
                            spec_bytes_of(stems[i as int]),
                        )
                    &&& forall|j: int|
                        0 <= j < i ==> spec_comes_before(
                            spec_bytes_of(stems[i as int]),
                            spec_bytes_of(#[trigger] stems[j]),
                        )
                },
                None => stems.len() == 0,
            },
    {
        if stems.len() == 0 {
            return None;
        }
        let mut best: usize = 0;
        let mut i: usize = 1;
        proof {
            lemma_never_before_itself(spec_bytes_of(stems[0]));
        }
        while i < stems.len()
            invariant
                1 <= i <= stems.len(),
                best < i,
                forall|j: int|
                    0 <= j < i ==> !spec_comes_before(
                        spec_bytes_of(#[trigger] stems[j]),
                        spec_bytes_of(stems[best as int]),
                    ),
                forall|j: int|
                    0 <= j < best ==> spec_comes_before(
                        spec_bytes_of(stems[best as int]),
                        spec_bytes_of(#[trigger] stems[j]),
                    ),
            decreases stems.len() - i,
        {
            if comes_before(stems[i].as_str().as_bytes(), stems[best].as_str().as_bytes()) {
                proof {
                    let new = spec_bytes_of(stems[i as int]);
                    let old_best = spec_bytes_of(stems[best as int]);
                    lemma_never_before_itself(new);
                    assert forall|j: int| 0 <= j < i + 1 implies !spec_comes_before(
                        spec_bytes_of(#[trigger] stems[j]),
                        new,
                    ) by {
                        if j < i {
                            let other = spec_bytes_of(stems[j]);
                            if spec_comes_before(other, new) {
                                lemma_comes_before_transitive(other, new, old_best);
                            }
                        }
                    }
                    assert forall|j: int| 0 <= j < i implies spec_comes_before(
                        new,
                        spec_bytes_of(#[trigger] stems[j]),
                    ) by {
                        let other = spec_bytes_of(stems[j]);
                        lemma_comes_before_total(other, old_best);
                        if other == old_best {
                        } else {
                            lemma_comes_before_transitive(new, old_best, other);
                        }
                    }
                }
                best = i;
            }
            i = i + 1;
        }
        Some(best)
    }

    /// Whether a log file of `size` bytes is to be put aside.
    pub fn should_rotate(&self, size: u64) -> (rotate: bool)
        ensures
            rotate == (size >= self.options.max_size),
    {
        size >= self.options.max_size
    }

    /// Whether the directory holds more files than are kept, so that the
    /// oldest is to be removed. A directory whose files could not be
    /// counted, `None`, is left alone.
    pub fn exceeds_max_files(&self, count: Option<usize>) -> (exceeds: bool)
        ensures
            exceeds == match count {
                Some(n) => n > self.options.max_files,
                None => false,
            },
    {
        match count {
            Some(n) => n > self.options.max_files,
            None => false,
        }
    }
}

impl Logger for FileLogger {
    /// A record is written where it is at least as grave as the level of
    /// the logger.
    open spec fn spec_enabled(&self, level: Level) -> bool {
        level.spec_rank() <= self.level.spec_rank()
    }

    fn enabled(&self, level: Level) -> (enabled: bool) {
        level.rank() <= self.level.rank()
    }
}

} // verus!
