use vstd::prelude::*;
use vstd::string::StrSliceExecFns;

verus! {

/// A workspace's number.
pub type WorkspaceID = i32;

/// What the event worker reports to the bar.
#[derive(Debug, Clone, Copy, PartialEq, Eq, Structural)]
pub enum WorkerMsg {
    WorkspaceSetActive(WorkspaceID),
    WorkspaceCreate(WorkspaceID),
    WorkspaceDestroy(WorkspaceID),
    WorkspaceReset,
}

/// What the bar tells the event worker.
#[derive(Debug, Clone, Copy, PartialEq, Eq, Structural)]
pub enum ManagerMsg {
    Close,
}

/// A non-empty run of ASCII digits.
pub open spec fn is_digits(s: Seq<char>) -> bool {
    s.len() > 0 && forall|i: int| 0 <= i < s.len() ==> '0' <= #[trigger] s[i] <= '9'
}

/// The number that a run of decimal digits writes.
pub open spec fn digits_value(s: Seq<char>) -> int
    decreases s.len(),
{
    if s.len() == 0 {
        0
    } else {
        digits_value(s.drop_last()) * 10 + (s.last() as int - '0' as int)
    }
}

/// The integer written as decimal digits with an optional `+` or `-` sign.
pub open spec fn signed_value(s: Seq<char>) -> Option<int> {
    if s.len() > 0 && s[0] == '-' && is_digits(s.skip(1)) {
        Some(-digits_value(s.skip(1)))
    } else if s.len() > 0 && s[0] == '+' && is_digits(s.skip(1)) {
        Some(digits_value(s.skip(1)))
    } else if is_digits(s) {
        Some(digits_value(s))
    } else {
        None
    }
}

/// `s` read as an `i32`: a signed decimal number in range, with nothing else.
pub open spec fn spec_parse_i32(s: Seq<char>) -> Option<i32> {
    match signed_value(s) {
        Some(v) => if i32::MIN <= v <= i32::MAX {
            Some(v as i32)
        } else {
            None
        },
        None => None,
    }
}

/// The message for event `cmd` with data `msg`, if it is one the bar follows.
pub open spec fn spec_worker_msg(cmd: Seq<char>, msg: Seq<char>) -> Option<WorkerMsg> {
    match spec_parse_i32(msg) {
        Some(id) => if cmd == "workspace"@ {
            Some(WorkerMsg::WorkspaceSetActive(id))
        } else if cmd == "createworkspace"@ {
            Some(WorkerMsg::WorkspaceCreate(id))
        } else if cmd == "destroyworkspace"@ {
            Some(WorkerMsg::WorkspaceDestroy(id))
        } else {
            None
        },
        None => None,
    }
}

/// Relies on `<str as PartialEq>::eq`: two strings are equal when their
/// characters are.
#[verifier::external_body]
fn str_eq(a: &str, b: &str) -> (r: bool)
    ensures
        r == (a@ == b@),
{
    a == b
}

/// Relies on `str::parse::<i32>`: an optional sign and decimal digits whose
/// value fits, and nothing else, give the number.
#[verifier::external_body]
fn parse_i32(s: &str) -> (r: Option<i32>)
    ensures
        r == spec_parse_i32(s@),
{
    s.parse::<i32>().ok()
}

impl WorkerMsg {
    /// Reads the event named `cmd` with data `msg`: `workspace`,
    /// `createworkspace` and `destroyworkspace` with a workspace number give
    /// a message; anything else gives none.
    pub fn parse(cmd: &str, msg: &str) -> (r: Option<WorkerMsg>)
        ensures
            r == spec_worker_msg(cmd@, msg@),
    {
        let id = parse_i32(msg);
        if str_eq(cmd, "workspace") {
            match id {
                Some(id) => Some(WorkerMsg::WorkspaceSetActive(id)),
                None => None,
            }
        } else if str_eq(cmd, "createworkspace") {
            match id {
                Some(id) => Some(WorkerMsg::WorkspaceCreate(id)),
                None => None,
            }
        } else if str_eq(cmd, "destroyworkspace") {
            match id {
                Some(id) => Some(WorkerMsg::WorkspaceDestroy(id)),
                None => None,
            }
        } else {
            proof {
                reveal_strlit("workspace");
                reveal_strlit("createworkspace");
                reveal_strlit("destroyworkspace");
            }
            None
        }
    }
}

/// `k` is the first position of a `'\n'` in `s`.
pub open spec fn is_first_newline(s: Seq<char>, k: int) -> bool {
    &&& 0 <= k < s.len()
    &&& s[k] == '\n'
    &&& forall|j: int| 0 <= j < k ==> s[j] != '\n'
}

/// `k` is the first position of `">>"` in `s`.
pub open spec fn is_first_separator(s: Seq<char>, k: int) -> bool {
    &&& 0 <= k && k + 1 < s.len()
    &&& s[k] == '>' && s[k + 1] == '>'
    &&& forall|j: int| 0 <= j < k ==> !(s[j] == '>' && #[trigger] s[j + 1] == '>')
}

/// The message of one event line `cmd>>data`, if it has a separator and is
/// one the bar follows.
pub open spec fn spec_event_line(line: Seq<char>) -> Option<WorkerMsg> {
    if exists|k: int| is_first_separator(line, k) {
        let k = choose|k: int| is_first_separator(line, k);
        spec_worker_msg(line.take(k), line.skip(k + 2))
    } else {
        None
    }
}

/// A line without its line ending: `"\n"`, or `"\r\n"`.
pub open spec fn strip_cr(line: Seq<char>) -> Seq<char> {
    if line.len() > 0 && line.last() == '\r' {
        line.drop_last()
    } else {
        line
    }
}

/// The messages of the lines of `s`, in order. Lines end at `"\n"` or
/// `"\r\n"`; the last one needs no ending, and nothing after a final ending
/// makes a line.
pub open spec fn spec_events(s: Seq<char>) -> Seq<WorkerMsg>
    decreases s.len(),
{
    if s.len() == 0 {
        seq![]
    } else if exists|k: int| is_first_newline(s, k) {
        let k = choose|k: int| is_first_newline(s, k);
        let head = match spec_event_line(strip_cr(s.take(k))) {
            Some(m) => seq![m],
            None => seq![],
        };
        head + spec_events(s.skip(k + 1))
    } else {
        match spec_event_line(s) {
            Some(m) => seq![m],
            None => seq![],
        }
    }
}

/// Relies on `str::chars`: the characters of the string, in order.
#[verifier::external_body]
fn chars_of(s: &str) -> (r: Vec<char>)
    ensures
        r@ == s@,
{
    s.chars().collect()
}

/// Reads the event of the characters `from..to` of `text`.
fn event_in(text: &str, cs: &Vec<char>, from: usize, to: usize) -> (r: Option<WorkerMsg>)
    requires
        cs@ == text@,
        from <= to <= cs@.len(),
    ensures
        r == spec_event_line(text@.subrange(from as int, to as int)),
{
    let ghost line = text@.subrange(from as int, to as int);
    let mut k = from;
    while to - k >= 2
        invariant
            cs@ == text@,
            from <= k <= to,
            to <= cs@.len(),
            line == text@.subrange(from as int, to as int),
            forall|j: int|
                0 <= j < k - from && j + 1 < line.len() ==> !(line[j] == '>' && #[trigger] line[j
                    + 1] == '>'),
        decreases to - k,
    {
        if cs[k] == '>' && cs[k + 1] == '>' {
            let ghost kk = k - from;
            assert(is_first_separator(line, kk as int));
            assert forall|k2: int| is_first_separator(line, k2) implies k2 == kk by {
                if k2 < kk {
                    assert(line[k2] == '>' && line[k2 + 1] == '>');
                } else if kk < k2 {
                    assert(line[kk] == '>' && line[kk + 1] == '>');
                }
            }
            let cmd = text.substring_char(from, k);
            let msg = text.substring_char(k + 2, to);
            assert(cmd@ =~= line.take(kk as int));
            assert(msg@ =~= line.skip(kk + 2));
            return WorkerMsg::parse(cmd, msg);
        }
        k = k + 1;
    }
    assert(!exists|k2: int| is_first_separator(line, k2));
    None
}

/// Reads the messages out of a chunk of event text, one line per event of
/// the form `cmd>>data`; lines without `">>"` and events the bar does not
/// follow give nothing.
pub fn parse_events(text: &str) -> (r: Vec<WorkerMsg>)
    ensures
        r@ == spec_events(text@),
{
    let cs = chars_of(text);
    let n = cs.len();
    let mut out: Vec<WorkerMsg> = Vec::new();
    let mut start: usize = 0;
    let mut i: usize = 0;
    assert(text@.skip(0) =~= text@);
    assert(out@ + spec_events(text@) =~= spec_events(text@));
    while i < n
        invariant
            cs@ == text@,
            n == cs@.len(),
            start <= i <= n,
            forall|j: int| start <= j < i ==> cs@[j] != '\n',
            out@ + spec_events(text@.skip(start as int)) == spec_events(text@),
        decreases n - i,
    {
        if cs[i] == '\n' {
            let ghost rest = text@.skip(start as int);
            let ghost k = i - start;
            assert(is_first_newline(rest, k as int));
            assert forall|k2: int| is_first_newline(rest, k2) implies k2 == k by {
                if k2 < k {
                    assert(rest[k2] == '\n');
                } else if k < k2 {
                    assert(rest[k as int] == '\n');
                }
            }
            let end = if i > start && cs[i - 1] == '\r' {
                i - 1
            } else {
                i
            };
            assert(text@.subrange(start as int, end as int) =~= strip_cr(rest.take(k as int)));
            assert(rest.skip(k + 1) =~= text@.skip(i + 1));
            let ev = event_in(text, &cs, start, end);
            match ev {
                Some(m) => {
                    out.push(m);
                },
                None => {},
            }
            assert(out@ + spec_events(text@.skip(i + 1)) =~= spec_events(text@));
            start = i + 1;
        }
        i = i + 1;
    }
    let ghost rest = text@.skip(start as int);
    if start < n {
        assert(!exists|k2: int| is_first_newline(rest, k2)) by {
            assert forall|k2: int| 0 <= k2 < rest.len() implies rest[k2] != '\n' by {
                assert(rest[k2] == cs@[start + k2]);
            }
        }
        assert(text@.subrange(start as int, n as int) =~= rest);
        let ev = event_in(text, &cs, start, n);
        match ev {
            Some(m) => {
                out.push(m);
            },
            None => {},
        }
        assert(out@ =~= spec_events(text@));
    } else {
        assert(rest.len() == 0);
        assert(out@ =~= spec_events(text@));
    }
    out
}

/// `k` is the first position of a `' '` in `s`.
pub open spec fn is_first_space(s: Seq<char>, k: int) -> bool {
    &&& 0 <= k < s.len()
    &&& s[k] == ' '
    &&& forall|j: int| 0 <= j < k ==> s[j] != ' '
}

/// The workspace number of a line `workspace ID <n> ...`, the number running
/// up to the next space or the end of the line.
pub open spec fn spec_id_line(line: Seq<char>) -> Option<WorkspaceID> {
    if 13 <= line.len() && line.take(13) == "workspace ID "@ {
        let rest = line.skip(13);
        if exists|k: int| is_first_space(rest, k) {
            spec_parse_i32(rest.take(choose|k: int| is_first_space(rest, k)))
        } else {
            spec_parse_i32(rest)
        }
    } else {
        None
    }
}

/// The workspace numbers of the lines of `s` that describe a workspace, in
/// order; lines are split as for `spec_events`.
pub open spec fn spec_workspace_ids(s: Seq<char>) -> Seq<WorkspaceID>
    decreases s.len(),
{
    if s.len() == 0 {
        seq![]
    } else if exists|k: int| is_first_newline(s, k) {
        let k = choose|k: int| is_first_newline(s, k);
        let head = match spec_id_line(strip_cr(s.take(k))) {
            Some(id) => seq![id],
            None => seq![],
        };
        head + spec_workspace_ids(s.skip(k + 1))
    } else {
        match spec_id_line(s) {
            Some(id) => seq![id],
            None => seq![],
        }
    }
}

/// Reads the workspace number of the characters `from..to` of `text`.
fn id_in(text: &str, cs: &Vec<char>, from: usize, to: usize) -> (r: Option<WorkspaceID>)
    requires
        cs@ == text@,
        from <= to <= cs@.len(),
    ensures
        r == spec_id_line(text@.subrange(from as int, to as int)),
{
    let ghost line = text@.subrange(from as int, to as int);
    proof {
        reveal_strlit("workspace ID ");
    }
    if to - from < 13 {
        return None;
    }
    let head = text.substring_char(from, from + 13);
    assert(head@ =~= line.take(13));
    if !str_eq(head, "workspace ID ") {
        return None;
    }
    let ghost rest = line.skip(13);
    assert(13 <= line.len() && line.take(13) == "workspace ID "@);
    let mut k = from + 13;
    while k < to
        invariant
            cs@ == text@,
            from + 13 <= k <= to,
            to <= cs@.len(),
            line == text@.subrange(from as int, to as int),
            rest == line.skip(13),
            13 <= line.len() && line.take(13) == "workspace ID "@,
            forall|j: int| 0 <= j < k - from - 13 ==> rest[j] != ' ',
        decreases to - k,
    {
        if cs[k] == ' ' {
            let ghost kk = k - from - 13;
            assert(is_first_space(rest, kk as int));
            assert forall|k2: int| is_first_space(rest, k2) implies k2 == kk by {
                if k2 < kk {
                    assert(rest[k2] == ' ');
                } else if kk < k2 {
                    assert(rest[kk as int] == ' ');
                }
            }
            let tok = text.substring_char(from + 13, k);
            assert(tok@ =~= rest.take(kk as int));
            return parse_i32(tok);
        }
        k = k + 1;
    }
    assert(!exists|k2: int| is_first_space(rest, k2));
    let tok = text.substring_char(from + 13, to);
    assert(tok@ =~= rest);
    parse_i32(tok)
}

/// Reads the workspace numbers out of a listing with one `workspace ID <n>`
/// line per workspace; other lines give nothing.
pub fn parse_workspace_ids(text: &str) -> (r: Vec<WorkspaceID>)
    ensures
        r@ == spec_workspace_ids(text@),
{
    let cs = chars_of(text);
    let n = cs.len();
    let mut out: Vec<WorkspaceID> = Vec::new();
    let mut start: usize = 0;
    let mut i: usize = 0;
    assert(text@.skip(0) =~= text@);
    assert(out@ + spec_workspace_ids(text@) =~= spec_workspace_ids(text@));
    while i < n
        invariant
            cs@ == text@,
            n == cs@.len(),
            start <= i <= n,
            forall|j: int| start <= j < i ==> cs@[j] != '\n',
            out@ + spec_workspace_ids(text@.skip(start as int)) == spec_workspace_ids(text@),
        decreases n - i,
    {
        if cs[i] == '\n' {
            let ghost rest = text@.skip(start as int);
            let ghost k = i - start;
            assert(is_first_newline(rest, k as int));
            assert forall|k2: int| is_first_newline(rest, k2) implies k2 == k by {
                if k2 < k {
                    assert(rest[k2] == '\n');
                } else if k < k2 {
                    assert(rest[k as int] == '\n');
                }
            }
            let end = if i > start && cs[i - 1] == '\r' {
                i - 1
            } else {
                i
            };
            assert(text@.subrange(start as int, end as int) =~= strip_cr(rest.take(k as int)));
            assert(rest.skip(k + 1) =~= text@.skip(i + 1));
            match id_in(text, &cs, start, end) {
                Some(id) => {
                    out.push(id);
                },
                None => {},
            }
            assert(out@ + spec_workspace_ids(text@.skip(i + 1)) =~= spec_workspace_ids(text@));
            start = i + 1;
        }
        i = i + 1;
    }
    let ghost rest = text@.skip(start as int);
    if start < n {
        assert(!exists|k2: int| is_first_newline(rest, k2)) by {
            assert forall|k2: int| 0 <= k2 < rest.len() implies rest[k2] != '\n' by {
                assert(rest[k2] == cs@[start + k2]);
            }
        }
        assert(text@.subrange(start as int, n as int) =~= rest);
        match id_in(text, &cs, start, n) {
            Some(id) => {
                out.push(id);
            },
            None => {},
        }
        assert(out@ =~= spec_workspace_ids(text@));
    } else {
        assert(rest.len() == 0);
        assert(out@ =~= spec_workspace_ids(text@));
    }
    out
}

} // verus!
