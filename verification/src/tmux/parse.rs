//! Parsing of the `list-sessions`, `list-windows` and `list-clients` output that
//! the snapshot formats request: one record per line, fields separated by the
//! ASCII unit separator.
use vstd::prelude::*;

use crate::domain::state::ClientName;
use crate::text::{
    contains_char, lines_of, lines_spec, parse_u32 as text_parse_u32, parse_u64 as text_parse_u64,
    parse_unsigned, push_char, push_str, split_on, split_spec, str_eq, string_views, to_owned_string,
};

verus! {

pub const FIELD_SEPARATOR: char = '\u{1f}';

#[derive(Debug, Clone, PartialEq, Eq)]
pub struct SessionRecord {
    pub id: String,
    pub name: String,
    pub attached_count: u32,
    pub active_window_id: Option<String>,
}

#[derive(Debug, Clone, PartialEq, Eq)]
pub struct WindowRecord {
    pub session_id: String,
    pub session_name: String,
    pub id: String,
    pub index: u32,
    pub name: String,
    pub active: bool,
    pub flags: WindowFlags,
}

#[derive(Debug, Clone, PartialEq, Eq)]
pub struct ClientRecord {
    pub name: ClientName,
    pub session_id: String,
    pub current_window_id: Option<String>,
    pub activity: u64,
    pub tty: String,
}

/// The raw tmux window flags and the alert indicators they carry.
#[derive(Debug, Clone, Default, PartialEq, Eq)]
pub struct WindowFlags {
    pub raw: String,
    pub has_activity: bool,
    pub has_bell: bool,
    pub has_silence: bool,
}

impl WindowFlags {
    /// The flags text with its indicators: `#` activity, `!` bell, `~` silence.
    pub fn from_raw(raw: String) -> (f: Self)
        ensures
            f.raw == raw,
            f.has_activity == raw@.contains('#'),
            f.has_bell == raw@.contains('!'),
            f.has_silence == raw@.contains('~'),
    {
        let has_activity = contains_char(raw.as_str(), '#');
        let has_bell = contains_char(raw.as_str(), '!');
        let has_silence = contains_char(raw.as_str(), '~');
        WindowFlags { raw, has_activity, has_bell, has_silence }
    }

    /// Whether any alert indicator is set.
    pub fn has_alert(&self) -> (b: bool)
        ensures
            b == (self.has_activity || self.has_bell || self.has_silence),
    {
        self.has_activity || self.has_bell || self.has_silence
    }
}

#[derive(Debug, Clone, PartialEq, Eq)]
pub enum ParseError {
    WrongFieldCount { record: &'static str, expected: usize, actual: usize, line: String },
    InvalidInteger { field: &'static str, value: String },
    InvalidBoolean { field: &'static str, value: String },
    MissingField { field: &'static str },
}

/// A parse error with its texts as character sequences.
pub enum ParseErrorView {
    WrongFieldCount { record: Seq<char>, expected: nat, actual: nat, line: Seq<char> },
    InvalidInteger { field: Seq<char>, value: Seq<char> },
    InvalidBoolean { field: Seq<char>, value: Seq<char> },
    MissingField { field: Seq<char> },
}

impl View for ParseError {
    type V = ParseErrorView;

    open spec fn view(&self) -> ParseErrorView {
        match self {
            ParseError::WrongFieldCount { record, expected, actual, line } => ParseErrorView::WrongFieldCount {
                record: record@,
                expected: *expected as nat,
                actual: *actual as nat,
                line: line@,
            },
            ParseError::InvalidInteger { field, value } => ParseErrorView::InvalidInteger { field: field@, value: value@ },
            ParseError::InvalidBoolean { field, value } => ParseErrorView::InvalidBoolean { field: field@, value: value@ },
            ParseError::MissingField { field } => ParseErrorView::MissingField { field: field@ },
        }
    }
}

/// An optional text as an optional character sequence.
pub open spec fn opt_view(o: Option<String>) -> Option<Seq<char>> {
    match o {
        Some(s) => Some(s@),
        None => None,
    }
}

/// An empty field stands for no id.
pub open spec fn optional_id_spec(v: Seq<char>) -> Option<Seq<char>> {
    if v.len() == 0 {
        None
    } else {
        Some(v)
    }
}

pub struct SessionRecordView {
    pub id: Seq<char>,
    pub name: Seq<char>,
    pub attached_count: u32,
    pub active_window_id: Option<Seq<char>>,
}

impl View for SessionRecord {
    type V = SessionRecordView;

    open spec fn view(&self) -> SessionRecordView {
        SessionRecordView {
            id: self.id@,
            name: self.name@,
            attached_count: self.attached_count,
            active_window_id: opt_view(self.active_window_id),
        }
    }
}

pub struct WindowRecordView {
    pub session_id: Seq<char>,
    pub session_name: Seq<char>,
    pub id: Seq<char>,
    pub index: u32,
    pub name: Seq<char>,
    pub active: bool,
    pub flags: Seq<char>,
    pub has_activity: bool,
    pub has_bell: bool,
    pub has_silence: bool,
}

impl View for WindowRecord {
    type V = WindowRecordView;

    open spec fn view(&self) -> WindowRecordView {
        WindowRecordView {
            session_id: self.session_id@,
            session_name: self.session_name@,
            id: self.id@,
            index: self.index,
            name: self.name@,
            active: self.active,
            flags: self.flags.raw@,
            has_activity: self.flags.has_activity,
            has_bell: self.flags.has_bell,
            has_silence: self.flags.has_silence,
        }
    }
}

pub struct ClientRecordView {
    pub name: Seq<char>,
    pub session_id: Seq<char>,
    pub current_window_id: Option<Seq<char>>,
    pub activity: u64,
    pub tty: Seq<char>,
}

impl View for ClientRecord {
    type V = ClientRecordView;

    open spec fn view(&self) -> ClientRecordView {
        ClientRecordView {
            name: self.name.0@,
            session_id: self.session_id@,
            current_window_id: opt_view(self.current_window_id),
            activity: self.activity,
            tty: self.tty@,
        }
    }
}

/// The value of a `0`/`1` boolean field.
pub open spec fn bool_spec(v: Seq<char>) -> Option<bool> {
    if v == seq!['0'] {
        Some(false)
    } else if v == seq!['1'] {
        Some(true)
    } else {
        None
    }
}

/// The session record that a line describes, or the first error in it.
pub open spec fn session_line_spec(line: Seq<char>) -> Result<SessionRecordView, ParseErrorView> {
    let f = split_spec(line, FIELD_SEPARATOR);
    if f.len() != 4 {
        Err(ParseErrorView::WrongFieldCount { record: "session"@, expected: 4, actual: f.len(), line })
    } else if f[0].len() == 0 {
        Err(ParseErrorView::MissingField { field: "session_id"@ })
    } else {
        match parse_unsigned(f[2], u32::MAX as nat) {
            None => Err(ParseErrorView::InvalidInteger { field: "session_attached"@, value: f[2] }),
            Some(n) => Ok(
                SessionRecordView { id: f[0], name: f[1], attached_count: n as u32, active_window_id: optional_id_spec(f[3]) },
            ),
        }
    }
}

/// The window record that a line describes, or the first error in it.
pub open spec fn window_line_spec(line: Seq<char>) -> Result<WindowRecordView, ParseErrorView> {
    let f = split_spec(line, FIELD_SEPARATOR);
    if f.len() != 7 {
        Err(ParseErrorView::WrongFieldCount { record: "window"@, expected: 7, actual: f.len(), line })
    } else if f[0].len() == 0 {
        Err(ParseErrorView::MissingField { field: "session_id"@ })
    } else if f[2].len() == 0 {
        Err(ParseErrorView::MissingField { field: "window_id"@ })
    } else {
        match parse_unsigned(f[3], u32::MAX as nat) {
            None => Err(ParseErrorView::InvalidInteger { field: "window_index"@, value: f[3] }),
            Some(n) => match bool_spec(f[5]) {
                None => Err(ParseErrorView::InvalidBoolean { field: "window_active"@, value: f[5] }),
                Some(active) => Ok(
                    WindowRecordView {
                        session_id: f[0],
                        session_name: f[1],
                        id: f[2],
                        index: n as u32,
                        name: f[4],
                        active,
                        flags: f[6],
                        has_activity: f[6].contains('#'),
                        has_bell: f[6].contains('!'),
                        has_silence: f[6].contains('~'),
                    },
                ),
            },
        }
    }
}

/// The client record that a line describes, or the first error in it.
pub open spec fn client_line_spec(line: Seq<char>) -> Result<ClientRecordView, ParseErrorView> {
    let f = split_spec(line, FIELD_SEPARATOR);
    if f.len() != 5 {
        Err(ParseErrorView::WrongFieldCount { record: "client"@, expected: 5, actual: f.len(), line })
    } else if f[0].len() == 0 {
        Err(ParseErrorView::MissingField { field: "client_name"@ })
    } else if f[1].len() == 0 {
        Err(ParseErrorView::MissingField { field: "client_session"@ })
    } else {
        match parse_unsigned(f[3], u64::MAX as nat) {
            None => Err(ParseErrorView::InvalidInteger { field: "client_activity"@, value: f[3] }),
            Some(n) => Ok(
                ClientRecordView {
                    name: f[0],
                    session_id: f[1],
                    current_window_id: optional_id_spec(f[2]),
                    activity: n as u64,
                    tty: f[4],
                },
            ),
        }
    }
}

/// The records of the first `n` lines, skipping empty lines, or the error of the
/// first line that fails.
pub open spec fn sessions_spec(lines: Seq<Seq<char>>, n: nat) -> Result<Seq<SessionRecordView>, ParseErrorView>
    decreases n,
{
    if n == 0 {
        Ok(Seq::empty())
    } else {
        match sessions_spec(lines, (n - 1) as nat) {
            Err(e) => Err(e),
            Ok(prev) => if lines[n - 1].len() == 0 {
                Ok(prev)
            } else {
                match session_line_spec(lines[n - 1]) {
                    Err(e) => Err(e),
                    Ok(r) => Ok(prev.push(r)),
                }
            },
        }
    }
}

/// As [`sessions_spec`], for window records.
pub open spec fn windows_spec(lines: Seq<Seq<char>>, n: nat) -> Result<Seq<WindowRecordView>, ParseErrorView>
    decreases n,
{
    if n == 0 {
        Ok(Seq::empty())
    } else {
        match windows_spec(lines, (n - 1) as nat) {
            Err(e) => Err(e),
            Ok(prev) => if lines[n - 1].len() == 0 {
                Ok(prev)
            } else {
                match window_line_spec(lines[n - 1]) {
                    Err(e) => Err(e),
                    Ok(r) => Ok(prev.push(r)),
                }
            },
        }
    }
}

/// As [`sessions_spec`], for client records.
pub open spec fn clients_spec(lines: Seq<Seq<char>>, n: nat) -> Result<Seq<ClientRecordView>, ParseErrorView>
    decreases n,
{
    if n == 0 {
        Ok(Seq::empty())
    } else {
        match clients_spec(lines, (n - 1) as nat) {
            Err(e) => Err(e),
            Ok(prev) => if lines[n - 1].len() == 0 {
                Ok(prev)
            } else {
                match client_line_spec(lines[n - 1]) {
                    Err(e) => Err(e),
                    Ok(r) => Ok(prev.push(r)),
                }
            },
        }
    }
}

/// The fields of a record line (`str::split` at the unit separator).
pub fn split_fields(line: &str) -> (fields: Vec<String>)
    ensures
        string_views(fields@) == split_spec(line@, FIELD_SEPARATOR),
{
    split_on(line, FIELD_SEPARATOR)
}

/// The texts joined with the unit separator between them.
pub open spec fn joined(fields: Seq<Seq<char>>) -> Seq<char>
    decreases fields.len(),
{
    if fields.len() == 0 {
        Seq::empty()
    } else if fields.len() == 1 {
        fields[0]
    } else {
        joined(fields.drop_last()).push(FIELD_SEPARATOR) + fields.last()
    }
}

fn join_with_separator(fields: &[&str]) -> (s: String)
    ensures
        s@ == joined(fields@.map_values(|f: &str| f@)),
{
    let mut s = String::new();
    let mut i: usize = 0;
    let ghost views = fields@.map_values(|f: &str| f@);
    while i < fields.len()
        invariant
            i <= fields@.len(),
            views == fields@.map_values(|f: &str| f@),
            s@ == joined(views.take(i as int)),
        decreases fields@.len() - i,
    {
        assert(views.take(i + 1).drop_last() =~= views.take(i as int));
        assert(views.take(i + 1).last() == fields@[i as int]@);
        if i > 0 {
            push_char(&mut s, FIELD_SEPARATOR);
        }
        push_str(&mut s, fields[i]);
        i = i + 1;
    }
    assert(views.take(fields@.len() as int) =~= views);
    s
}

/// The `list-sessions` format: id, name, attached count, active window id.
pub fn session_format() -> (s: String)
    ensures
        s@ == joined(seq!["#{session_id}"@, "#{session_name}"@, "#{session_attached}"@, "#{window_id}"@]),
{
    let fields = ["#{session_id}", "#{session_name}", "#{session_attached}", "#{window_id}"];
    assert(fields@.map_values(|f: &str| f@) =~= seq!["#{session_id}"@, "#{session_name}"@, "#{session_attached}"@, "#{window_id}"@]);
    join_with_separator(&fields)
}

/// The `list-windows` format: session id and name, window id, index, name,
/// active flag and flags.
pub fn window_format() -> (s: String)
    ensures
        s@ == joined(
            seq![
                "#{session_id}"@,
                "#{session_name}"@,
                "#{window_id}"@,
                "#{window_index}"@,
                "#{window_name}"@,
                "#{window_active}"@,
                "#{window_flags}"@,
            ],
        ),
{
    let fields = [
        "#{session_id}",
        "#{session_name}",
        "#{window_id}",
        "#{window_index}",
        "#{window_name}",
        "#{window_active}",
        "#{window_flags}",
    ];
    assert(fields@.map_values(|f: &str| f@) =~= seq![
        "#{session_id}"@,
        "#{session_name}"@,
        "#{window_id}"@,
        "#{window_index}"@,
        "#{window_name}"@,
        "#{window_active}"@,
        "#{window_flags}"@,
    ]);
    join_with_separator(&fields)
}

/// The `list-clients` format: name, session id, window id, activity, tty.
pub fn client_format() -> (s: String)
    ensures
        s@ == joined(
            seq!["#{client_name}"@, "#{session_id}"@, "#{window_id}"@, "#{client_activity}"@, "#{client_tty}"@],
        ),
{
    let fields = ["#{client_name}", "#{session_id}", "#{window_id}", "#{client_activity}", "#{client_tty}"];
    assert(fields@.map_values(|f: &str| f@) =~= seq![
        "#{client_name}"@,
        "#{session_id}"@,
        "#{window_id}"@,
        "#{client_activity}"@,
        "#{client_tty}"@,
    ]);
    join_with_separator(&fields)
}

fn required(field: &'static str, value: &String) -> (r: Result<String, ParseError>)
    ensures
        match r {
            Ok(v) => value@.len() > 0 && v@ == value@,
            Err(e) => value@.len() == 0 && e@ == (ParseErrorView::MissingField { field: field@ }),
        },
{
    if value.unicode_len() == 0 {
        return Err(ParseError::MissingField { field });
    }
    Ok(value.clone())
}

fn optional_id(value: &String) -> (r: Option<String>)
    ensures
        opt_view(r) == optional_id_spec(value@),
{
    if value.unicode_len() == 0 {
        None
    } else {
        Some(value.clone())
    }
}

pub(crate) fn parse_u32(field: &'static str, value: &String) -> (r: Result<u32, ParseError>)
    ensures
        match r {
            Ok(v) => parse_unsigned(value@, u32::MAX as nat) == Some(v as nat),
            Err(e) => parse_unsigned(value@, u32::MAX as nat).is_none() && e@ == (ParseErrorView::InvalidInteger {
                field: field@,
                value: value@,
            }),
        },
{
    match text_parse_u32(value.as_str()) {
        Some(v) => Ok(v),
        None => Err(ParseError::InvalidInteger { field, value: value.clone() }),
    }
}

fn parse_u64(field: &'static str, value: &String) -> (r: Result<u64, ParseError>)
    ensures
        match r {
            Ok(v) => parse_unsigned(value@, u64::MAX as nat) == Some(v as nat),
            Err(e) => parse_unsigned(value@, u64::MAX as nat).is_none() && e@ == (ParseErrorView::InvalidInteger {
                field: field@,
                value: value@,
            }),
        },
{
    match text_parse_u64(value.as_str()) {
        Some(v) => Ok(v),
        None => Err(ParseError::InvalidInteger { field, value: value.clone() }),
    }
}

pub(crate) fn parse_bool(field: &'static str, value: &String) -> (r: Result<bool, ParseError>)
    ensures
        match r {
            Ok(b) => bool_spec(value@) == Some(b),
            Err(e) => bool_spec(value@).is_none() && e@ == (ParseErrorView::InvalidBoolean { field: field@, value: value@ }),
        },
{
    let zero = "0";
    let one = "1";
    proof {
        reveal_strlit("0");
        reveal_strlit("1");
        assert(zero@ =~= seq!['0']);
        assert(one@ =~= seq!['1']);
    }
    if str_eq(value.as_str(), zero) {
        Ok(false)
    } else if str_eq(value.as_str(), one) {
        Ok(true)
    } else {
        Err(ParseError::InvalidBoolean { field, value: value.clone() })
    }
}

fn parse_session_line(line: &str) -> (r: Result<SessionRecord, ParseError>)
    ensures
        match r {
            Ok(rec) => session_line_spec(line@) == Ok::<SessionRecordView, ParseErrorView>(rec@),
            Err(e) => session_line_spec(line@) == Err::<SessionRecordView, ParseErrorView>(e@),
        },
{
    let fields = split_fields(line);
    let ghost f = split_spec(line@, FIELD_SEPARATOR);
    if fields.len() != 4 {
        return Err(ParseError::WrongFieldCount {
            record: "session",
            expected: 4,
            actual: fields.len(),
            line: to_owned_string(line),
        });
    }
    assert(fields@[0]@ == f[0] && fields@[1]@ == f[1] && fields@[2]@ == f[2] && fields@[3]@ == f[3]);
    let id = match required("session_id", &fields[0]) {
        Ok(v) => v,
        Err(e) => return Err(e),
    };
    let attached_count = match parse_u32("session_attached", &fields[2]) {
        Ok(v) => v,
        Err(e) => return Err(e),
    };
    Ok(SessionRecord {
        id,
        name: fields[1].clone(),
        attached_count,
        active_window_id: optional_id(&fields[3]),
    })
}

fn parse_window_line(line: &str) -> (r: Result<WindowRecord, ParseError>)
    ensures
        match r {
            Ok(rec) => window_line_spec(line@) == Ok::<WindowRecordView, ParseErrorView>(rec@),
            Err(e) => window_line_spec(line@) == Err::<WindowRecordView, ParseErrorView>(e@),
        },
{
    let fields = split_fields(line);
    let ghost f = split_spec(line@, FIELD_SEPARATOR);
    if fields.len() != 7 {
        return Err(ParseError::WrongFieldCount {
            record: "window",
            expected: 7,
            actual: fields.len(),
            line: to_owned_string(line),
        });
    }
    assert(fields@[0]@ == f[0] && fields@[1]@ == f[1] && fields@[2]@ == f[2] && fields@[3]@ == f[3]);
    assert(fields@[4]@ == f[4] && fields@[5]@ == f[5] && fields@[6]@ == f[6]);
    let session_id = match required("session_id", &fields[0]) {
        Ok(v) => v,
        Err(e) => return Err(e),
    };
    let id = match required("window_id", &fields[2]) {
        Ok(v) => v,
        Err(e) => return Err(e),
    };
    let index = match parse_u32("window_index", &fields[3]) {
        Ok(v) => v,
        Err(e) => return Err(e),
    };
    let active = match parse_bool("window_active", &fields[5]) {
        Ok(v) => v,
        Err(e) => return Err(e),
    };
    Ok(WindowRecord {
        session_id,
        session_name: fields[1].clone(),
        id,
        index,
        name: fields[4].clone(),
        active,
        flags: WindowFlags::from_raw(fields[6].clone()),
    })
}

fn parse_client_line(line: &str) -> (r: Result<ClientRecord, ParseError>)
    ensures
        match r {
            Ok(rec) => client_line_spec(line@) == Ok::<ClientRecordView, ParseErrorView>(rec@),
            Err(e) => client_line_spec(line@) == Err::<ClientRecordView, ParseErrorView>(e@),
        },
{
    let fields = split_fields(line);
    let ghost f = split_spec(line@, FIELD_SEPARATOR);
    if fields.len() != 5 {
        return Err(ParseError::WrongFieldCount {
            record: "client",
            expected: 5,
            actual: fields.len(),
            line: to_owned_string(line),
        });
    }
    assert(fields@[0]@ == f[0] && fields@[1]@ == f[1] && fields@[2]@ == f[2] && fields@[3]@ == f[3]);
    assert(fields@[4]@ == f[4]);
    let name = match required("client_name", &fields[0]) {
        Ok(v) => v,
        Err(e) => return Err(e),
    };
    let session_id = match required("client_session", &fields[1]) {
        Ok(v) => v,
        Err(e) => return Err(e),
    };
    let activity = match parse_u64("client_activity", &fields[3]) {
        Ok(v) => v,
        Err(e) => return Err(e),
    };
    Ok(ClientRecord {
        name: ClientName(name),
        session_id,
        current_window_id: optional_id(&fields[2]),
        activity,
        tty: fields[4].clone(),
    })
}

/// Records as their views.
pub open spec fn session_views(v: Seq<SessionRecord>) -> Seq<SessionRecordView> {
    v.map_values(|r: SessionRecord| r@)
}

pub open spec fn window_views(v: Seq<WindowRecord>) -> Seq<WindowRecordView> {
    v.map_values(|r: WindowRecord| r@)
}

pub open spec fn client_views(v: Seq<ClientRecord>) -> Seq<ClientRecordView> {
    v.map_values(|r: ClientRecord| r@)
}

proof fn lemma_sessions_error_stays(lines: Seq<Seq<char>>, k: nat, n: nat)
    requires
        k <= n <= lines.len(),
        sessions_spec(lines, k) is Err,
    ensures
        sessions_spec(lines, n) == sessions_spec(lines, k),
    decreases n,
{
    if n > k {
        lemma_sessions_error_stays(lines, k, (n - 1) as nat);
    }
}

/// The session records of `list-sessions` output, one per non-empty line.
pub fn parse_sessions(raw: &str) -> (r: Result<Vec<SessionRecord>, ParseError>)
    ensures
        match r {
            Ok(v) => sessions_spec(lines_spec(raw@), lines_spec(raw@).len()) == Ok::<
                Seq<SessionRecordView>,
                ParseErrorView,
            >(session_views(v@)),
            Err(e) => sessions_spec(lines_spec(raw@), lines_spec(raw@).len()) == Err::<
                Seq<SessionRecordView>,
                ParseErrorView,
            >(e@),
        },
{
    let lines = lines_of(raw);
    let ghost ls = lines_spec(raw@);
    let mut values: Vec<SessionRecord> = Vec::new();
    let mut i: usize = 0;
    assert(session_views(values@) =~= Seq::empty());
    while i < lines.len()
        invariant
            i <= lines@.len(),
            string_views(lines@) == ls,
            ls == lines_spec(raw@),
            sessions_spec(ls, i as nat) == Ok::<Seq<SessionRecordView>, ParseErrorView>(session_views(values@)),
        decreases lines@.len() - i,
    {
        assert(string_views(lines@)[i as int] == lines@[i as int]@);
        if lines[i].unicode_len() > 0 {
            match parse_session_line(lines[i].as_str()) {
                Ok(rec) => {
                    let ghost before = values@;
                    values.push(rec);
                    assert(session_views(values@) =~= session_views(before).push(rec@));
                },
                Err(e) => {
                    proof {
                        assert(sessions_spec(ls, (i + 1) as nat) == Err::<Seq<SessionRecordView>, ParseErrorView>(e@));
                        lemma_sessions_error_stays(ls, (i + 1) as nat, ls.len());
                    }
                    return Err(e);
                },
            }
        }
        i = i + 1;
    }
    Ok(values)
}

proof fn lemma_windows_error_stays(lines: Seq<Seq<char>>, k: nat, n: nat)
    requires
        k <= n <= lines.len(),
        windows_spec(lines, k) is Err,
    ensures
        windows_spec(lines, n) == windows_spec(lines, k),
    decreases n,
{
    if n > k {
        lemma_windows_error_stays(lines, k, (n - 1) as nat);
    }
}

/// The window records of `list-windows` output, one per non-empty line.
pub fn parse_windows(raw: &str) -> (r: Result<Vec<WindowRecord>, ParseError>)
    ensures
        match r {
            Ok(v) => windows_spec(lines_spec(raw@), lines_spec(raw@).len()) == Ok::<
                Seq<WindowRecordView>,
                ParseErrorView,
            >(window_views(v@)),
            Err(e) => windows_spec(lines_spec(raw@), lines_spec(raw@).len()) == Err::<
                Seq<WindowRecordView>,
                ParseErrorView,
            >(e@),
        },
{
    let lines = lines_of(raw);
    let ghost ls = lines_spec(raw@);
    let mut values: Vec<WindowRecord> = Vec::new();
    let mut i: usize = 0;
    assert(window_views(values@) =~= Seq::empty());
    while i < lines.len()
        invariant
            i <= lines@.len(),
            string_views(lines@) == ls,
            ls == lines_spec(raw@),
            windows_spec(ls, i as nat) == Ok::<Seq<WindowRecordView>, ParseErrorView>(window_views(values@)),
        decreases lines@.len() - i,
    {
        assert(string_views(lines@)[i as int] == lines@[i as int]@);
        if lines[i].unicode_len() > 0 {
            match parse_window_line(lines[i].as_str()) {
                Ok(rec) => {
                    let ghost before = values@;
                    values.push(rec);
                    assert(window_views(values@) =~= window_views(before).push(rec@));
                },
                Err(e) => {
                    proof {
                        assert(windows_spec(ls, (i + 1) as nat) == Err::<Seq<WindowRecordView>, ParseErrorView>(e@));
                        lemma_windows_error_stays(ls, (i + 1) as nat, ls.len());
                    }
                    return Err(e);
                },
            }
        }
        i = i + 1;
    }
    Ok(values)
}

proof fn lemma_clients_error_stays(lines: Seq<Seq<char>>, k: nat, n: nat)
    requires
        k <= n <= lines.len(),
        clients_spec(lines, k) is Err,
    ensures
        clients_spec(lines, n) == clients_spec(lines, k),
    decreases n,
{
    if n > k {
        lemma_clients_error_stays(lines, k, (n - 1) as nat);
    }
}

/// The client records of `list-clients` output, one per non-empty line.
pub fn parse_clients(raw: &str) -> (r: Result<Vec<ClientRecord>, ParseError>)
    ensures
        match r {
            Ok(v) => clients_spec(lines_spec(raw@), lines_spec(raw@).len()) == Ok::<
                Seq<ClientRecordView>,
                ParseErrorView,
            >(client_views(v@)),
            Err(e) => clients_spec(lines_spec(raw@), lines_spec(raw@).len()) == Err::<
                Seq<ClientRecordView>,
                ParseErrorView,
            >(e@),
        },
{
    let lines = lines_of(raw);
    let ghost ls = lines_spec(raw@);
    let mut values: Vec<ClientRecord> = Vec::new();
    let mut i: usize = 0;
    assert(client_views(values@) =~= Seq::empty());
    while i < lines.len()
        invariant
            i <= lines@.len(),
            string_views(lines@) == ls,
            ls == lines_spec(raw@),
            clients_spec(ls, i as nat) == Ok::<Seq<ClientRecordView>, ParseErrorView>(client_views(values@)),
        decreases lines@.len() - i,
    {
        assert(string_views(lines@)[i as int] == lines@[i as int]@);
        if lines[i].unicode_len() > 0 {
            match parse_client_line(lines[i].as_str()) {
                Ok(rec) => {
                    let ghost before = values@;
                    values.push(rec);
                    assert(client_views(values@) =~= client_views(before).push(rec@));
                },
                Err(e) => {
                    proof {
                        assert(clients_spec(ls, (i + 1) as nat) == Err::<Seq<ClientRecordView>, ParseErrorView>(e@));
                        lemma_clients_error_stays(ls, (i + 1) as nat, ls.len());
                    }
                    return Err(e);
                },
            }
        }
        i = i + 1;
    }
    Ok(values)
}

} // verus!
