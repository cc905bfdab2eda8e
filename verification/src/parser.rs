//! The extraction pipeline: discovered files are decoded, split into
//! lines, matched against the configured regex, and each match becomes an
//! event unless the message filter drops it. Events accumulate in
//! discovery order, then line order within a file, then match order
//! within a line.

use vstd::prelude::*;

use crate::compression::{decompress_model, Decompressor};
use crate::config::{filter_model, pattern_has_required_groups, regex_valid, timestamp_model,
    ConfigView, ParserConfig};
use crate::error::ParseError;
use crate::event::{event_views, level_model, Event, EventView};
use crate::text::line_views;

verus! {

/// The text captured by the three required named groups in one regex
/// match; a group that did not participate captures nothing.
pub struct EventCapture {
    pub timestamp: Option<String>,
    pub loglevel: Option<String>,
    pub message: Option<String>,
}

pub struct CaptureView {
    pub timestamp: Option<Seq<char>>,
    pub loglevel: Option<Seq<char>>,
    pub message: Option<Seq<char>>,
}

impl View for EventCapture {
    type V = CaptureView;

    open spec fn view(&self) -> CaptureView {
        CaptureView {
            timestamp: match self.timestamp {
                Option::Some(ref s) => Option::Some(s@),
                Option::None => Option::None,
            },
            loglevel: match self.loglevel {
                Option::Some(ref s) => Option::Some(s@),
                Option::None => Option::None,
            },
            message: match self.message {
                Option::Some(ref s) => Option::Some(s@),
                Option::None => Option::None,
            },
        }
    }
}

/// The views of a sequence of captures.
pub open spec fn capture_views(v: Seq<EventCapture>) -> Seq<CaptureView> {
    v.map_values(|c: EventCapture| c@)
}

/// The named captures of every non-overlapping match of the pattern in a
/// line, in match order; a function of the two strings alone.
pub uninterp spec fn regex_matches(pattern: Seq<char>, line: Seq<char>) -> Seq<CaptureView>;

/// Relies on regex::Regex::captures_iter and Captures::name: for each
/// non-overlapping match of `pattern` in `line`, in order, the text
/// captured by the groups named timestamp, loglevel and message.
#[verifier::external_body]
fn regex_find_matches(pattern: &str, line: &str) -> (r: Vec<EventCapture>)
    requires
        regex_valid(pattern@),
    ensures
        capture_views(r@) == regex_matches(pattern@, line@),
{
    let re = regex::Regex::new(pattern).unwrap();
    let mut out = Vec::new();
    for caps in re.captures_iter(line) {
        out.push(EventCapture {
            timestamp: caps.name("timestamp").map(|m| m.as_str().to_string()),
            loglevel: caps.name("loglevel").map(|m| m.as_str().to_string()),
            message: caps.name("message").map(|m| m.as_str().to_string()),
        });
    }
    out
}

/// What one match yields: nothing when the filter drops it, an event
/// otherwise, or a typed error when a required capture is missing or its
/// timestamp text cannot be interpreted. The filter is consulted first,
/// so a dropped match never reports a timestamp error.
pub open spec fn capture_event_model(cfg: ConfigView, cap: CaptureView) -> Result<
    Option<EventView>,
    ParseError,
> {
    match cap.message {
        Option::None => Result::Err(ParseError::MissingCapture),
        Option::Some(msg) => if filter_model(cfg.event_filter, msg) {
            Result::Ok(Option::None)
        } else {
            match cap.timestamp {
                Option::None => Result::Err(ParseError::MissingCapture),
                Option::Some(ts) => match timestamp_model(cfg.timestamp_format, ts) {
                    Option::None => Result::Err(ParseError::InvalidTimestamp),
                    Option::Some(t) => match cap.loglevel {
                        Option::None => Result::Err(ParseError::MissingCapture),
                        Option::Some(lv) => Result::Ok(
                            Option::Some(
                                EventView { timestamp: t, message: msg, level: level_model(lv) },
                            ),
                        ),
                    },
                },
            }
        },
    }
}

fn capture_event(config: &ParserConfig, cap: &EventCapture) -> (r: Result<
    Option<Event>,
    ParseError,
>)
    ensures
        (match capture_event_model(config@, cap@) {
            Result::Ok(Option::Some(ev)) => r matches Ok(Some(e)) && e@ == ev,
            Result::Ok(Option::None) => r matches Ok(None),
            Result::Err(pe) => r matches Err(e2) && e2 == pe,
        }),
{
    match &cap.message {
        None => Err(ParseError::MissingCapture),
        Some(msg) => {
            if config.filter_event(msg.as_str()) {
                return Ok(None);
            }
            match &cap.timestamp {
                None => Err(ParseError::MissingCapture),
                Some(ts) => match config.read_timestamp(ts.as_str()) {
                    Err(e) => Err(e),
                    Ok(t) => match &cap.loglevel {
                        None => Err(ParseError::MissingCapture),
                        Some(lv) => Ok(Some(Event::new(t, msg.as_str(), lv.as_str()))),
                    },
                },
            }
        },
    }
}

/// The events of a sequence of captures, in order, stopping at the first
/// error.
pub open spec fn captures_events_model(cfg: ConfigView, caps: Seq<CaptureView>) -> Result<
    Seq<EventView>,
    ParseError,
>
    decreases caps.len(),
{
    if caps.len() == 0 {
        Result::Ok(Seq::empty())
    } else {
        match captures_events_model(cfg, caps.drop_last()) {
            Result::Err(e) => Result::Err(e),
            Result::Ok(evs) => match capture_event_model(cfg, caps.last()) {
                Result::Err(e) => Result::Err(e),
                Result::Ok(Option::None) => Result::Ok(evs),
                Result::Ok(Option::Some(ev)) => Result::Ok(evs.push(ev)),
            },
        }
    }
}

/// The events of one line of text: every non-overlapping match, filtered
/// and interpreted.
pub open spec fn line_events_model(cfg: ConfigView, line: Seq<char>) -> Result<
    Seq<EventView>,
    ParseError,
> {
    captures_events_model(cfg, regex_matches(cfg.message_pattern, line))
}

proof fn lemma_captures_model_err_extends(cfg: ConfigView, caps: Seq<CaptureView>, k: int)
    requires
        0 <= k <= caps.len(),
        captures_events_model(cfg, caps.take(k)) is Err,
    ensures
        captures_events_model(cfg, caps) == captures_events_model(cfg, caps.take(k)),
    decreases caps.len() - k,
{
    if k == caps.len() {
        assert(caps.take(k) =~= caps);
    } else {
        assert(caps.take(k + 1).drop_last() =~= caps.take(k));
        lemma_captures_model_err_extends(cfg, caps, k + 1);
    }
}

fn process_line(config: &ParserConfig, line: &str) -> (r: Result<Vec<Event>, ParseError>)
    requires
        regex_valid(config@.message_pattern),
    ensures
        (match line_events_model(config@, line@) {
            Result::Ok(evs) => r matches Ok(v) && event_views(v@) == evs,
            Result::Err(e) => r matches Err(e2) && e2 == e,
        }),
{
    let caps = regex_find_matches(config.message_pattern.as_str(), line);
    let ghost cviews = capture_views(caps@);
    let mut out: Vec<Event> = Vec::new();
    let mut i: usize = 0;
    proof {
        assert(cviews.take(0) =~= Seq::<CaptureView>::empty());
        assert(event_views(out@) =~= Seq::<EventView>::empty());
    }
    while i < caps.len()
        invariant
            0 <= i <= caps@.len(),
            cviews == regex_matches(config@.message_pattern, line@),
            cviews == capture_views(caps@),
            cviews.len() == caps@.len(),
            captures_events_model(config@, cviews.take(i as int)) == Result::Ok::<
                _,
                ParseError,
            >(event_views(out@)),
        decreases caps@.len() - i,
    {
        proof {
            assert(cviews[i as int] == caps@[i as int]@);
            assert(cviews.take(i + 1).drop_last() =~= cviews.take(i as int));
            assert(cviews.take(i + 1).last() == cviews[i as int]);
        }
        match capture_event(config, &caps[i]) {
            Err(e) => {
                proof {
                    lemma_captures_model_err_extends(config@, cviews, i + 1);
                }
                return Err(e);
            },
            Ok(None) => {},
            Ok(Some(ev)) => {
                proof {
                    assert(out@.push(ev).map_values(|e: Event| e@) =~= event_views(out@).push(
                        ev@,
                    ));
                }
                out.push(ev);
            },
        }
        i += 1;
    }
    proof {
        assert(cviews.take(caps@.len() as int) =~= cviews);
    }
    Ok(out)
}

/// The events of a sequence of lines, concatenated in line order,
/// stopping at the first error.
pub open spec fn lines_events_model(cfg: ConfigView, lines: Seq<Seq<char>>) -> Result<
    Seq<EventView>,
    ParseError,
>
    decreases lines.len(),
{
    if lines.len() == 0 {
        Result::Ok(Seq::empty())
    } else {
        match lines_events_model(cfg, lines.drop_last()) {
            Result::Err(e) => Result::Err(e),
            Result::Ok(evs) => match line_events_model(cfg, lines.last()) {
                Result::Err(e) => Result::Err(e),
                Result::Ok(more) => Result::Ok(evs + more),
            },
        }
    }
}

proof fn lemma_lines_model_err_extends(cfg: ConfigView, lines: Seq<Seq<char>>, k: int)
    requires
        0 <= k <= lines.len(),
        lines_events_model(cfg, lines.take(k)) is Err,
    ensures
        lines_events_model(cfg, lines) == lines_events_model(cfg, lines.take(k)),
    decreases lines.len() - k,
{
    if k == lines.len() {
        assert(lines.take(k) =~= lines);
    } else {
        assert(lines.take(k + 1).drop_last() =~= lines.take(k));
        lemma_lines_model_err_extends(cfg, lines, k + 1);
    }
}

/// The events of one file's raw bytes: decode, split into lines, extract.
pub open spec fn file_events_model(cfg: ConfigView, raw: Seq<u8>) -> Result<
    Seq<EventView>,
    ParseError,
> {
    match decompress_model(cfg.compression, raw) {
        Result::Err(e) => Result::Err(e),
        Result::Ok(lines) => lines_events_model(cfg, lines),
    }
}

fn process_file(config: &ParserConfig, data: &Vec<u8>) -> (r: Result<Vec<Event>, ParseError>)
    requires
        regex_valid(config@.message_pattern),
    ensures
        (match file_events_model(config@, data@) {
            Result::Ok(evs) => r matches Ok(v) && event_views(v@) == evs,
            Result::Err(e) => r matches Err(e2) && e2 == e,
        }),
{
    let decompressor = Decompressor::new(&config.compression);
    let lines = match decompressor.decompress(data) {
        Ok(l) => l,
        Err(e) => {
            return Err(e);
        },
    };
    let ghost lviews = line_views(lines@);
    let mut out: Vec<Event> = Vec::new();
    let mut i: usize = 0;
    proof {
        assert(lviews.take(0) =~= Seq::<Seq<char>>::empty());
        assert(event_views(out@) =~= Seq::<EventView>::empty());
    }
    while i < lines.len()
        invariant
            0 <= i <= lines@.len(),
            regex_valid(config@.message_pattern),
            decompress_model(config@.compression, data@) == Result::Ok::<_, ParseError>(lviews),
            lviews == line_views(lines@),
            lviews.len() == lines@.len(),
            lines_events_model(config@, lviews.take(i as int)) == Result::Ok::<
                _,
                ParseError,
            >(event_views(out@)),
        decreases lines@.len() - i,
    {
        proof {
            assert(lviews[i as int] == lines@[i as int]@);
            assert(lviews.take(i + 1).drop_last() =~= lviews.take(i as int));
            assert(lviews.take(i + 1).last() == lviews[i as int]);
        }
        match process_line(config, lines[i].as_str()) {
            Err(e) => {
                proof {
                    lemma_lines_model_err_extends(config@, lviews, i + 1);
                }
                return Err(e);
            },
            Ok(mut evs) => {
                proof {
                    assert(event_views(out@ + evs@) =~= event_views(out@) + event_views(evs@));
                }
                out.append(&mut evs);
            },
        }
        i += 1;
    }
    proof {
        assert(lviews.take(lines@.len() as int) =~= lviews);
    }
    Ok(out)
}

/// A candidate log file: its path, whether it is a directory (directories
/// are skipped with a warning), and its raw bytes.
pub struct FileEntry {
    pub path: String,
    pub is_dir: bool,
    pub data: Vec<u8>,
}

pub struct FileEntryView {
    pub path: Seq<char>,
    pub is_dir: bool,
    pub data: Seq<u8>,
}

impl View for FileEntry {
    type V = FileEntryView;

    open spec fn view(&self) -> FileEntryView {
        FileEntryView { path: self.path@, is_dir: self.is_dir, data: self.data@ }
    }
}

impl FileEntry {
    pub fn new(path: String, is_dir: bool, data: Vec<u8>) -> (r: FileEntry)
        ensures
            r@ == (FileEntryView { path: path@, is_dir, data: data@ }),
    {
        FileEntry { path, is_dir, data }
    }
}

/// The views of a sequence of file entries.
pub open spec fn file_views(v: Seq<FileEntry>) -> Seq<FileEntryView> {
    v.map_values(|f: FileEntry| f@)
}

/// How many entries of a listing are directories; each is skipped with a
/// warning during a parse run.
pub open spec fn dir_count(files: Seq<FileEntryView>) -> nat
    decreases files.len(),
{
    if files.len() == 0 {
        0
    } else {
        dir_count(files.drop_last()) + (if files.last().is_dir {
            1nat
        } else {
            0nat
        })
    }
}

/// The events of a sequence of files in discovery order; directories are
/// skipped and contribute nothing.
pub open spec fn files_events_model(cfg: ConfigView, files: Seq<FileEntryView>) -> Result<
    Seq<EventView>,
    ParseError,
>
    decreases files.len(),
{
    if files.len() == 0 {
        Result::Ok(Seq::empty())
    } else {
        match files_events_model(cfg, files.drop_last()) {
            Result::Err(e) => Result::Err(e),
            Result::Ok(evs) => if files.last().is_dir {
                Result::Ok(evs)
            } else {
                match file_events_model(cfg, files.last().data) {
                    Result::Err(e) => Result::Err(e),
                    Result::Ok(more) => Result::Ok(evs + more),
                }
            },
        }
    }
}

proof fn lemma_files_model_err_extends(cfg: ConfigView, files: Seq<FileEntryView>, k: int)
    requires
        0 <= k <= files.len(),
        files_events_model(cfg, files.take(k)) is Err,
    ensures
        files_events_model(cfg, files) == files_events_model(cfg, files.take(k)),
    decreases files.len() - k,
{
    if k == files.len() {
        assert(files.take(k) =~= files);
    } else {
        assert(files.take(k + 1).drop_last() =~= files.take(k));
        lemma_files_model_err_extends(cfg, files, k + 1);
    }
}

/// What a whole parse run yields: the pattern must hold the three required
/// named groups and compile as a regex before any file is examined; then
/// the files' events, in order.
pub open spec fn parse_model(cfg: ConfigView, files: Seq<FileEntryView>) -> Result<
    Seq<EventView>,
    ParseError,
> {
    if !pattern_has_required_groups(cfg.message_pattern) {
        Result::Err(ParseError::MissingCaptureGroups)
    } else if !regex_valid(cfg.message_pattern) {
        Result::Err(ParseError::InvalidRegex)
    } else {
        files_events_model(cfg, files)
    }
}

/// The glob expansion input: the root with at most one trailing separator
/// stripped, then a separator, then the logfile pattern.
pub open spec fn glob_pattern_model(root: Seq<char>, pat: Seq<char>) -> Seq<char> {
    let stripped = if root.len() > 0 && root.last() == '/' {
        root.drop_last()
    } else {
        root
    };
    stripped + "/"@ + pat
}

/// Builds the pattern handed to glob expansion from the root path and the
/// configured logfile pattern.
pub fn build_glob_pattern(root: &str, pat: &str) -> (r: String)
    ensures
        r@ == glob_pattern_model(root@, pat@),
{
    let n = root.unicode_len();
    let mut s: String;
    if n > 0 && root.get_char(n - 1) == '/' {
        s = String::from_str(root.substring_char(0, n - 1));
        proof {
            assert(root@.subrange(0, n - 1) =~= root@.drop_last());
        }
    } else {
        s = String::from_str(root);
    }
    s.append("/");
    s.append(pat);
    s
}

/// Relies on std::path::Path::exists; the answer depends on the file
/// system, so nothing is promised of it.
#[verifier::external_body]
fn path_exists(p: &str) -> bool {
    std::path::Path::new(p).exists()
}

/// Relies on glob::glob: expands the pattern against the file system and
/// converts each match to its path text and whether it is a directory,
/// with no bytes read. Returns None when the pattern is not a valid glob;
/// the listing itself depends on the file system, so nothing is promised
/// of it.
#[verifier::external_body]
fn glob_entries(pattern: &str) -> (r: Option<Vec<FileEntry>>) {
    let paths = glob::glob(pattern).ok()?;
    let mut out = Vec::new();
    for entry in paths.filter_map(Result::ok) {
        let path = entry.to_string_lossy().into_owned();
        out.push(FileEntry { is_dir: entry.is_dir(), path, data: Vec::new() });
    }
    Some(out)
}

/// Accumulates events extracted from discovered log files under a root
/// path, against an immutable configuration; warnings collect the
/// non-fatal observations of a run.
pub struct LogParser {
    events: Vec<Event>,
    config: ParserConfig,
    root: String,
    warnings: Vec<String>,
}

pub struct ParserView {
    pub events: Seq<EventView>,
    pub config: ConfigView,
    pub root: Seq<char>,
    pub warnings: Seq<Seq<char>>,
}

impl View for LogParser {
    type V = ParserView;

    closed spec fn view(&self) -> ParserView {
        ParserView {
            events: event_views(self.events@),
            config: self.config@,
            root: self.root@,
            warnings: line_views(self.warnings@),
        }
    }
}

/// A restartable cursor over a parser's accumulated events; advancing it
/// never consumes or mutates the underlying sequence.
pub struct EventIterator<'a> {
    pub events: &'a Vec<Event>,
    pub index: usize,
}

impl<'a> EventIterator<'a> {
    /// The next event in insertion order, or None past the end.
    pub fn next(&mut self) -> (r: Option<&'a Event>)
        ensures
            final(self).events == old(self).events,
            old(self).index < old(self).events@.len() ==> (final(self).index == old(self).index
                + 1 && (r matches Some(e) && e@ == old(self).events@[old(self).index as int]@)),
            old(self).index >= old(self).events@.len() ==> (r is None && final(self).index == old(
                self,
            ).index),
    {
        let evs: &'a Vec<Event> = self.events;
        if self.index < evs.len() {
            let res = Some(&evs[self.index]);
            self.index = self.index + 1;
            res
        } else {
            None
        }
    }
}

/// Decompression capability: turns one file's raw bytes into text lines.
pub trait Decompress {
    fn decompress_file(&self, data: &Vec<u8>) -> Result<Vec<String>, ParseError>;
}

impl Decompress for LogParser {
    fn decompress_file(&self, data: &Vec<u8>) -> Result<Vec<String>, ParseError> {
        Decompressor::new(&self.config.compression).decompress(data)
    }
}

impl LogParser {
    /// A parser over `file_path` with the configuration moved in; no
    /// events yet.
    pub fn new(file_path: &str, config: ParserConfig) -> (r: LogParser)
        ensures
            r@.events.len() == 0,
            r@.config == config@,
            r@.root == file_path@,
            r@.warnings.len() == 0,
    {
        let r = LogParser {
            events: Vec::new(),
            config,
            root: String::from_str(file_path),
            warnings: Vec::new(),
        };
        proof {
            assert(event_views(r.events@) =~= Seq::<EventView>::empty());
            assert(line_views(r.warnings@) =~= Seq::<Seq<char>>::empty());
        }
        r
    }

    /// How many events have accumulated.
    pub fn event_count(&self) -> (r: usize)
        ensures
            r == self@.events.len(),
    {
        self.events.len()
    }

    /// How many warnings have accumulated.
    pub fn warning_count(&self) -> (r: usize)
        ensures
            r == self@.warnings.len(),
    {
        self.warnings.len()
    }

    /// A fresh cursor over the accumulated events.
    pub fn iter(&self) -> (r: EventIterator<'_>)
        ensures
            event_views(r.events@) == self@.events,
            r.index == 0,
    {
        EventIterator { events: &self.events, index: 0 }
    }

    /// The discovery outcome, from the answers the file system gave: a
    /// missing root yields an empty listing plus a warning and no error; a
    /// listing that could not be built is a typed glob error; otherwise
    /// the listing stands as reported.
    pub fn discover_given(&mut self, root_exists: bool, listing: Option<Vec<FileEntry>>) -> (r:
        Result<Vec<FileEntry>, ParseError>)
        ensures
            final(self)@.config == old(self)@.config,
            final(self)@.events == old(self)@.events,
            final(self)@.root == old(self)@.root,
            old(self)@.warnings.is_prefix_of(final(self)@.warnings),
            !root_exists ==> (r matches Ok(v) && v@.len() == 0 && final(self)@.warnings.len()
                == old(self)@.warnings.len() + 1),
            root_exists && listing is None ==> (r matches Err(e) && e
                == ParseError::InvalidGlobPattern && final(self)@.warnings
                == old(self)@.warnings),
            root_exists ==> (listing matches Some(v) ==> (r matches Ok(v2) && v2@ == v@
                && final(self)@.warnings == old(self)@.warnings)),
    {
        if !root_exists {
            let mut w = String::from_str("provided path does not exist: ");
            w.append(self.root.as_str());
            proof {
                assert(self.warnings@.push(w).map_values(|s: String| s@) =~= line_views(
                    self.warnings@,
                ).push(w@));
                assert(line_views(self.warnings@).push(w@).take(
                    line_views(self.warnings@).len() as int,
                ) =~= line_views(self.warnings@));
            }
            self.warnings.push(w);
            return Ok(Vec::new());
        }
        match listing {
            None => Err(ParseError::InvalidGlobPattern),
            Some(v) => Ok(v),
        }
    }

    /// Expands the configured logfile pattern under the root and lists the
    /// candidate files, without reading any bytes; a missing root is an
    /// empty listing plus a warning, never an error.
    pub fn get_files(&mut self) -> (r: Result<Vec<FileEntry>, ParseError>)
        ensures
            final(self)@.config == old(self)@.config,
            final(self)@.events == old(self)@.events,
            final(self)@.root == old(self)@.root,
            old(self)@.warnings.is_prefix_of(final(self)@.warnings),
    {
        let root_exists = path_exists(self.root.as_str());
        let listing = if root_exists {
            let pattern = build_glob_pattern(
                self.root.as_str(),
                self.config.logfile_pattern.as_str(),
            );
            glob_entries(pattern.as_str())
        } else {
            None
        };
        self.discover_given(root_exists, listing)
    }

    /// Runs the extraction pipeline over the given files: validates the
    /// message pattern before anything else, then decodes, splits and
    /// matches each non-directory file, appending the events in file
    /// order, line order, match order. On any error the event sequence is
    /// left exactly as it was.
    pub fn parse(&mut self, files: &Vec<FileEntry>) -> (r: Result<(), ParseError>)
        ensures
            final(self)@.config == old(self)@.config,
            final(self)@.root == old(self)@.root,
            old(self)@.warnings.is_prefix_of(final(self)@.warnings),
            !pattern_has_required_groups(old(self)@.config.message_pattern)
                ==> final(self)@.warnings == old(self)@.warnings,
            !regex_valid(old(self)@.config.message_pattern)
                ==> final(self)@.warnings == old(self)@.warnings,
            (match parse_model(old(self)@.config, file_views(files@)) {
                Result::Ok(evs) => r matches Ok(u) && final(self)@.events == old(self)@.events
                    + evs && final(self)@.warnings.len() == old(self)@.warnings.len()
                    + dir_count(file_views(files@)),
                Result::Err(e) => r matches Err(e2) && e2 == e && final(self)@.events == old(
                    self,
                )@.events,
            }),
    {
        proof {
            assert(old(self)@.warnings.is_prefix_of(old(self)@.warnings)) by {
                assert(old(self)@.warnings.take(old(self)@.warnings.len() as int) =~= old(
                    self,
                )@.warnings);
            }
        }
        if !self.config.check_message_pattern() {
            return Err(ParseError::MissingCaptureGroups);
        }
        if self.config.compile_message_pattern().is_err() {
            return Err(ParseError::InvalidRegex);
        }
        let ghost fviews = file_views(files@);
        let ghost prev = old(self)@;
        let mut collected: Vec<Event> = Vec::new();
        let mut i: usize = 0;
        proof {
            assert(fviews.take(0) =~= Seq::<FileEntryView>::empty());
            assert(event_views(collected@) =~= Seq::<EventView>::empty());
        }
        while i < files.len()
            invariant
                0 <= i <= files@.len(),
                fviews == file_views(files@),
                fviews.len() == files@.len(),
                prev == old(self)@,
                self@.config == prev.config,
                self@.root == prev.root,
                self@.events == prev.events,
                pattern_has_required_groups(self@.config.message_pattern),
                regex_valid(self@.config.message_pattern),
                prev.warnings.is_prefix_of(self@.warnings),
                self@.warnings.len() == prev.warnings.len() + dir_count(fviews.take(i as int)),
                files_events_model(self@.config, fviews.take(i as int)) == Result::Ok::<
                    _,
                    ParseError,
                >(event_views(collected@)),
            decreases files@.len() - i,
        {
            proof {
                assert(fviews[i as int] == files@[i as int]@);
                assert(fviews.take(i + 1).drop_last() =~= fviews.take(i as int));
                assert(fviews.take(i + 1).last() == fviews[i as int]);
            }
            let entry = &files[i];
            if entry.is_dir {
                let mut w = String::from_str("skipping directory: ");
                w.append(entry.path.as_str());
                proof {
                    assert(self.warnings@.push(w).map_values(|s: String| s@) =~= line_views(
                        self.warnings@,
                    ).push(w@));
                    assert(line_views(self.warnings@).push(w@).take(prev.warnings.len() as int)
                        =~= line_views(self.warnings@).take(prev.warnings.len() as int));
                }
                self.warnings.push(w);
            } else {
                match process_file(&self.config, &entry.data) {
                    Err(e) => {
                        proof {
                            lemma_files_model_err_extends(self@.config, fviews, i + 1);
                        }
                        return Err(e);
                    },
                    Ok(mut evs) => {
                        proof {
                            assert(event_views(collected@ + evs@) =~= event_views(collected@)
                                + event_views(evs@));
                        }
                        collected.append(&mut evs);
                    },
                }
            }
            i += 1;
        }
        proof {
            assert(fviews.take(files@.len() as int) =~= fviews);
            assert(event_views(self.events@ + collected@) =~= event_views(self.events@)
                + event_views(collected@));
        }
        self.events.append(&mut collected);
        Ok(())
    }
}

/// A message pattern without the three required named groups is rejected
/// before any file is examined, with an invalid-input error and no events.
pub proof fn lemma_missing_groups_rejected(cfg: ConfigView, files: Seq<FileEntryView>)
    requires
        !pattern_has_required_groups(cfg.message_pattern),
    ensures
        parse_model(cfg, files) == Result::Err::<Seq<EventView>, ParseError>(
            ParseError::MissingCaptureGroups,
        ),
{
}

/// A match whose message contains the configured non-empty filter
/// produces no event and no error.
pub proof fn lemma_filtered_match_drops_event(cfg: ConfigView, cap: CaptureView)
    requires
        cap.message matches Option::Some(m) && filter_model(cfg.event_filter, m),
    ensures
        capture_event_model(cfg, cap) == Result::Ok::<Option<EventView>, ParseError>(
            Option::None,
        ),
{
}

/// A match whose message does not contain the filter yields an event
/// carrying that message verbatim, whenever its captures are present and
/// its timestamp text is interpretable.
pub proof fn lemma_unfiltered_match_keeps_event(cfg: ConfigView, cap: CaptureView)
    requires
        cap.message is Some,
        !filter_model(cfg.event_filter, cap.message.unwrap()),
        cap.timestamp is Some,
        timestamp_model(cfg.timestamp_format, cap.timestamp.unwrap()) is Some,
        cap.loglevel is Some,
    ensures
        capture_event_model(cfg, cap) matches Result::Ok(Option::Some(ev)) && ev.message
            == cap.message.unwrap() && ev.timestamp == timestamp_model(
            cfg.timestamp_format,
            cap.timestamp.unwrap(),
        ).unwrap() && ev.level == level_model(cap.loglevel.unwrap()),
{
}

} // verus!
