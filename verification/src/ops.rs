//! Small decisions of the operations side: which SQL statements are
//! queries, what the web terminal sends to the shell, how containers are
//! listed, where a request comes from, how the mail server is configured,
//! when a cached value is stale, and where an uploaded image is stored.

use vstd::prelude::*;
use crate::text::{chars_of, string_from_chars, trim, trimmed, split_whitespace, ws_tokens,
    str_equals, first_index_of, find_char, substring};

verus! {

/// The text of a public-read bucket policy around the bucket's name.
pub const POLICY_HEAD: &'static str = "{\n                \"Version\": \"2012-10-17\",\n                \"Statement\": [\n                    {\n                        \"Sid\": \"PublicReadGetObject\",\n                        \"Effect\": \"Allow\",\n                        \"Principal\": \"*\",\n                        \"Action\": [\"s3:GetObject\"],\n                        \"Resource\": [\"arn:aws:s3:::";

pub const POLICY_TAIL: &'static str = "/*\"]\n                    }\n                ]\n            }";

// ── numbers and pieces of text ─────────────────────────────────────────────

/// The digit character of `d` (`0` to `9`).
pub open spec fn digit_char(d: nat) -> char {
    if d == 0 {
        '0'
    } else if d == 1 {
        '1'
    } else if d == 2 {
        '2'
    } else if d == 3 {
        '3'
    } else if d == 4 {
        '4'
    } else if d == 5 {
        '5'
    } else if d == 6 {
        '6'
    } else if d == 7 {
        '7'
    } else if d == 8 {
        '8'
    } else {
        '9'
    }
}

/// The decimal digits of `n`, without leading zeros.
pub open spec fn decimal(n: nat) -> Seq<char>
    decreases n,
{
    if n < 10 {
        seq![digit_char(n)]
    } else {
        decimal(n / 10).push(digit_char(n % 10))
    }
}

fn digit_exec(d: u64) -> (r: char)
    requires
        d < 10,
    ensures
        r == digit_char(d as nat),
{
    if d == 0 {
        '0'
    } else if d == 1 {
        '1'
    } else if d == 2 {
        '2'
    } else if d == 3 {
        '3'
    } else if d == 4 {
        '4'
    } else if d == 5 {
        '5'
    } else if d == 6 {
        '6'
    } else if d == 7 {
        '7'
    } else if d == 8 {
        '8'
    } else {
        '9'
    }
}

fn decimal_chars(n: u64) -> (r: Vec<char>)
    ensures
        r@ == decimal(n as nat),
    decreases n,
{
    if n < 10 {
        let mut v: Vec<char> = Vec::new();
        v.push(digit_exec(n));
        v
    } else {
        let mut v = decimal_chars(n / 10);
        v.push(digit_exec(n % 10));
        v
    }
}

/// `n` written in decimal.
pub fn decimal_text(n: u64) -> (r: String)
    ensures
        r@ == decimal(n as nat),
{
    let v = decimal_chars(n);
    string_from_chars(&v)
}

/// The pieces of `s` between the occurrences of `c` (`str::split`).
pub open spec fn split_on(s: Seq<char>, c: char) -> Seq<Seq<char>>
    decreases s.len(),
{
    match first_index_of(s, c) {
        Some(i) => if 0 <= i < s.len() {
            seq![s.subrange(0, i)] + split_on(s.subrange(i + 1, s.len() as int), c)
        } else {
            seq![s]
        },
        None => seq![s],
    }
}

/// The pieces of `s` between the occurrences of `c`.
pub fn split_char(s: &str, c: char) -> (r: Vec<String>)
    ensures
        r@.map_values(|t: String| t@) == split_on(s@, c),
{
    let mut rest = chars_of(s);
    let mut out: Vec<String> = Vec::new();
    loop
        invariant
            split_on(s@, c) == out@.map_values(|t: String| t@) + split_on(rest@, c),
        decreases rest.len(),
    {
        match find_char(&rest, c) {
            None => {
                let ghost before = out@.map_values(|t: String| t@);
                let piece = string_from_chars(&rest);
                out.push(piece);
                proof {
                    assert(out@.map_values(|t: String| t@) == before.push(rest@));
                    assert(before + seq![rest@] == before.push(rest@));
                }
                return out;
            },
            Some(i) => {
                let ghost before = out@.map_values(|t: String| t@);
                let ghost old_rest = rest@;
                let piece = substring(&rest, 0, i);
                let tail = rest.split_off(i + 1);
                out.push(piece);
                proof {
                    assert(tail@ == old_rest.subrange(i + 1, old_rest.len() as int));
                    assert(out@.map_values(|t: String| t@) == before.push(
                        old_rest.subrange(0, i as int),
                    ));
                    assert(before.push(old_rest.subrange(0, i as int)) + split_on(tail@, c)
                        == before + (seq![old_rest.subrange(0, i as int)] + split_on(tail@, c)));
                }
                rest = tail;
            },
        }
    }
}

// ── SQL console ────────────────────────────────────────────────────────────

/// How the SQL console runs a statement.
#[derive(Clone, Copy, Debug, PartialEq, Eq, Structural)]
pub enum SqlKind {
    /// Rows are fetched and returned.
    Query,
    /// The statement is executed and the affected rows counted.
    Exec,
}

/// The body of a request to the SQL console.
#[derive(Clone, Debug)]
pub struct SqlStatement {
    pub sql: String,
}

/// The lower-case form of a text (std's `str::to_lowercase`, Unicode's
/// mapping).
pub uninterp spec fn lower_case(s: Seq<char>) -> Seq<char>;

/// A character in lower case when it is an ASCII capital letter; any other
/// character as it is.
pub open spec fn ascii_lower(c: char) -> char {
    if 'A' <= c <= 'Z' {
        ((c as u32) + 32) as char
    } else {
        c
    }
}

/// `str::to_lowercase`; its result is named, not stated, but for a text of
/// ASCII characters only, Unicode's lower-case mapping (which std follows)
/// turns the capital letters into small ones and leaves the rest.
#[verifier::external_body]
fn to_lower(s: &str) -> (r: String)
    ensures
        r@ == lower_case(s@),
        (forall|i: int| 0 <= i < s@.len() ==> (s@[i] as u32) < 128) ==> r@ == s@.map_values(
            |c: char| ascii_lower(c),
        ),
{
    s.to_lowercase()
}

/// The first word of a statement, in lower case (empty when there is none).
pub open spec fn sql_command(sql: Seq<char>) -> Seq<char> {
    if ws_tokens(sql).len() > 0 {
        lower_case(ws_tokens(sql)[0])
    } else {
        lower_case(Seq::empty())
    }
}

/// Statements whose first word is `select`, `show`, `describe`, `explain` or
/// `with` (in any case) are queries; all others are executed.
pub open spec fn sql_kind_of(sql: Seq<char>) -> SqlKind {
    let w = sql_command(sql);
    if w == "select"@ || w == "show"@ || w == "describe"@ || w == "explain"@ || w == "with"@ {
        SqlKind::Query
    } else {
        SqlKind::Exec
    }
}

/// How the console runs `sql`.
pub fn sql_kind(sql: &str) -> (r: SqlKind)
    ensures
        r == sql_kind_of(sql@),
{
    let words = split_whitespace(sql);
    let cmd = if words.len() > 0 {
        proof {
            assert(words@.map_values(|t: String| t@)[0] == words@[0]@);
        }
        to_lower(words[0].as_str())
    } else {
        to_lower("")
    };
    proof {
        assert(""@ == Seq::<char>::empty()) by {
            reveal_strlit("");
        }
    }
    let c = cmd.as_str();
    if str_equals(c, "select") || str_equals(c, "show") || str_equals(c, "describe") || str_equals(
        c,
        "explain",
    ) || str_equals(c, "with") {
        SqlKind::Query
    } else {
        SqlKind::Exec
    }
}

/// How the console reads a result column into a JSON value, by the column's
/// PostgreSQL type name.
#[derive(Clone, Copy, Debug, PartialEq, Eq, Structural)]
pub enum ColumnReading {
    /// Read as text, written as a JSON string.
    Text,
    /// Read as a 64-bit integer.
    Integer,
    /// Read as a 64-bit float.
    Float,
    /// Read as a boolean.
    Boolean,
    /// Read as a UUID, written as its text.
    Uuid,
    /// Read as JSON, written as it is.
    Json,
    /// Read as a date, written as its text.
    Date,
    /// Read as a timestamp, written as its text.
    Timestamp,
    /// Read as bytes, written in standard base64.
    Bytes,
}

/// The reading of each type name; a type not listed is read as text.
pub open spec fn column_reading_of(t: Seq<char>) -> ColumnReading {
    if t == "TEXT"@ || t == "VARCHAR"@ || t == "CHAR"@ || t == "BPCHAR"@ || t == "NAME"@
        || t == "CITEXT"@ {
        ColumnReading::Text
    } else if t == "INT2"@ || t == "INT4"@ || t == "INT8"@ || t == "OID"@ {
        ColumnReading::Integer
    } else if t == "FLOAT4"@ || t == "FLOAT8"@ || t == "NUMERIC"@ {
        ColumnReading::Float
    } else if t == "BOOL"@ {
        ColumnReading::Boolean
    } else if t == "UUID"@ {
        ColumnReading::Uuid
    } else if t == "JSON"@ || t == "JSONB"@ {
        ColumnReading::Json
    } else if t == "DATE"@ {
        ColumnReading::Date
    } else if t == "TIMESTAMP"@ || t == "TIMESTAMPTZ"@ {
        ColumnReading::Timestamp
    } else if t == "BYTEA"@ {
        ColumnReading::Bytes
    } else {
        ColumnReading::Text
    }
}

/// How a result column of type `pg_type` is read.
pub fn column_reading(pg_type: &str) -> (r: ColumnReading)
    ensures
        r == column_reading_of(pg_type@),
{
    let t = pg_type;
    if str_equals(t, "TEXT") || str_equals(t, "VARCHAR") || str_equals(t, "CHAR") || str_equals(
        t,
        "BPCHAR",
    ) || str_equals(t, "NAME") || str_equals(t, "CITEXT") {
        ColumnReading::Text
    } else if str_equals(t, "INT2") || str_equals(t, "INT4") || str_equals(t, "INT8")
        || str_equals(t, "OID") {
        ColumnReading::Integer
    } else if str_equals(t, "FLOAT4") || str_equals(t, "FLOAT8") || str_equals(t, "NUMERIC") {
        ColumnReading::Float
    } else if str_equals(t, "BOOL") {
        ColumnReading::Boolean
    } else if str_equals(t, "UUID") {
        ColumnReading::Uuid
    } else if str_equals(t, "JSON") || str_equals(t, "JSONB") {
        ColumnReading::Json
    } else if str_equals(t, "DATE") {
        ColumnReading::Date
    } else if str_equals(t, "TIMESTAMP") || str_equals(t, "TIMESTAMPTZ") {
        ColumnReading::Timestamp
    } else if str_equals(t, "BYTEA") {
        ColumnReading::Bytes
    } else {
        ColumnReading::Text
    }
}

// ── web terminal ───────────────────────────────────────────────────────────

/// The command that tells the shell its new size (24 rows and 80 columns
/// when not given).
pub open spec fn resize_command_text(rows: Option<u16>, cols: Option<u16>) -> Seq<char> {
    let r = match rows {
        Some(x) => x as nat,
        None => 24,
    };
    let c = match cols {
        Some(x) => x as nat,
        None => 80,
    };
    "stty rows "@ + decimal(r) + " cols "@ + decimal(c) + " 2>/dev/null\n"@
}

/// The command that resizes the shell.
pub fn resize_command(rows: Option<u16>, cols: Option<u16>) -> (r: String)
    ensures
        r@ == resize_command_text(rows, cols),
{
    let r: u64 = match rows {
        Some(x) => x as u64,
        None => 24,
    };
    let c: u64 = match cols {
        Some(x) => x as u64,
        None => 80,
    };
    let mut s = String::from_str("stty rows ");
    let rt = decimal_text(r);
    s.append(rt.as_str());
    s.append(" cols ");
    let ct = decimal_text(c);
    s.append(ct.as_str());
    s.append(" 2>/dev/null\n");
    s
}

/// A control message of the web terminal, as read from a text frame.
#[derive(Clone, Debug)]
pub struct TerminalControl {
    pub kind: String,
    pub cols: Option<u16>,
    pub rows: Option<u16>,
}

/// What a text frame sends to the shell: a resize message becomes the
/// resize command, anything else goes as it is.
pub fn terminal_input(text: String, control: Option<TerminalControl>) -> (r: String)
    ensures
        control.is_some() && control.unwrap().kind@ == "resize"@ ==> r@ == resize_command_text(
            control.unwrap().rows,
            control.unwrap().cols,
        ),
        !(control.is_some() && control.unwrap().kind@ == "resize"@) ==> r == text,
{
    match control {
        Some(ctrl) => {
            if str_equals(ctrl.kind.as_str(), "resize") {
                resize_command(ctrl.rows, ctrl.cols)
            } else {
                text
            }
        },
        None => text,
    }
}

// ── containers ─────────────────────────────────────────────────────────────

/// A port of a container, as the Docker daemon lists it.
#[derive(Clone, Debug)]
pub struct PortEntry {
    pub ip: Option<String>,
    pub public_port: Option<u16>,
    pub private_port: u16,
}

/// How a port is shown: `ip:public` when published (ip `0.0.0.0` when not
/// given), else the private port.
pub open spec fn port_shown(p: PortEntry) -> Seq<char> {
    let host = match p.ip {
        Some(ip) => ip@,
        None => "0.0.0.0"@,
    };
    match p.public_port {
        Some(x) => host + ":"@ + decimal(x as nat),
        None => decimal(p.private_port as nat),
    }
}

/// The ports shown one after the other, separated by `, `.
pub open spec fn ports_shown(ps: Seq<PortEntry>) -> Seq<char>
    decreases ps.len(),
{
    if ps.len() == 0 {
        Seq::empty()
    } else if ps.len() == 1 {
        port_shown(ps[0])
    } else {
        ports_shown(ps.drop_last()) + ", "@ + port_shown(ps.last())
    }
}

fn port_text(p: &PortEntry) -> (r: String)
    ensures
        r@ == port_shown(*p),
{
    match p.public_port {
        Some(x) => {
            let mut s = match &p.ip {
                Some(ip) => ip.clone(),
                None => String::from_str("0.0.0.0"),
            };
            s.append(":");
            let d = decimal_text(x as u64);
            s.append(d.as_str());
            s
        },
        None => decimal_text(p.private_port as u64),
    }
}

/// The ports of a container, as the listing shows them.
pub fn ports_text(ports: &Vec<PortEntry>) -> (r: String)
    ensures
        r@ == ports_shown(ports@),
{
    let mut s = String::new();
    let mut i: usize = 0;
    while i < ports.len()
        invariant
            i <= ports.len(),
            s@ == ports_shown(ports@.subrange(0, i as int)),
        decreases ports.len() - i,
    {
        proof {
            assert(ports@.subrange(0, i + 1).drop_last() == ports@.subrange(0, i as int));
        }
        if i > 0 {
            s.append(", ");
        }
        let t = port_text(&ports[i]);
        s.append(t.as_str());
        i = i + 1;
    }
    proof {
        assert(ports@.subrange(0, ports.len() as int) == ports@);
    }
    s
}

/// `s` without its leading `/` characters.
pub open spec fn without_slashes(s: Seq<char>) -> Seq<char>
    decreases s.len(),
{
    if s.len() > 0 && s[0] == '/' {
        without_slashes(s.drop_first())
    } else {
        s
    }
}

/// The name a container is listed under: its first name without leading
/// slashes, or the empty string.
pub fn container_name(names: &Option<Vec<String>>) -> (r: String)
    ensures
        names.is_none() || names.unwrap().len() == 0 ==> r@ == Seq::<char>::empty(),
        names.is_some() && names.unwrap().len() > 0 ==> r@ == without_slashes(
            names.unwrap()@[0]@,
        ),
{
    match names {
        None => String::new(),
        Some(v) => {
            if v.len() == 0 {
                String::new()
            } else {
                let cs = chars_of(v[0].as_str());
                let mut i: usize = 0;
                proof {
                    assert(cs@.subrange(0, cs.len() as int) == cs@);
                    assert(cs@.skip(0) == cs@);
                }
                while i < cs.len() && cs[i] == '/'
                    invariant
                        i <= cs.len(),
                        without_slashes(cs@) == without_slashes(cs@.skip(i as int)),
                    decreases cs.len() - i,
                {
                    proof {
                        assert(cs@.skip(i as int).drop_first() == cs@.skip(i + 1));
                    }
                    i = i + 1;
                }
                proof {
                    assert(cs@.skip(i as int) == cs@.subrange(i as int, cs.len() as int));
                }
                substring(&cs, i, cs.len())
            }
        },
    }
}

/// A container as the listing shows it.
#[derive(Clone, Debug)]
pub struct FloatDockerContainer {
    pub id: String,
    pub name: String,
    pub status: String,
    pub image: String,
    pub ports: String,
    pub created: i64,
}

/// An image as the listing shows it.
#[derive(Clone, Debug)]
pub struct ImageInfo {
    pub id: String,
    pub repo_tags: Vec<String>,
    pub size: i64,
    pub created: i64,
}

/// A network as the listing shows it.
#[derive(Clone, Debug)]
pub struct NetworkInfo {
    pub id: String,
    pub name: String,
    pub driver: String,
    pub scope: String,
    pub ipam_driver: String,
    pub subnet: Option<String>,
    pub gateway: Option<String>,
}

/// The body of a request that creates a network.
#[derive(Clone, Debug)]
pub struct CreateNetworkRequest {
    pub name: String,
    pub subnet: String,
    pub gateway: String,
    pub driver: Option<String>,
}

/// The driver of a new network: `bridge` unless another is asked for.
pub fn network_driver(req: &CreateNetworkRequest) -> (r: String)
    ensures
        req.driver.is_some() ==> r == req.driver.unwrap(),
        req.driver.is_none() ==> r@ == "bridge"@,
{
    match &req.driver {
        Some(d) => d.clone(),
        None => String::from_str("bridge"),
    }
}

// ── where a request comes from ─────────────────────────────────────────────

/// The client's address: the first entry of `X-Forwarded-For` (trimmed)
/// when that header is readable, else `X-Real-IP`, else the peer address.
pub fn client_ip(forwarded_for: Option<String>, real_ip: Option<String>, peer: Option<String>) -> (r:
    Option<String>)
    ensures
        forwarded_for.is_some() ==> r.is_some() && r.unwrap()@ == trim(
            split_on(forwarded_for.unwrap()@, ',')[0],
        ),
        forwarded_for.is_none() && real_ip.is_some() ==> r == real_ip,
        forwarded_for.is_none() && real_ip.is_none() ==> r == peer,
{
    match forwarded_for {
        Some(f) => {
            let parts = split_char(f.as_str(), ',');
            proof {
                lemma_split_nonempty(f@, ',');
                assert(parts@.map_values(|t: String| t@)[0] == parts@[0]@);
            }
            Some(trimmed(parts[0].as_str()))
        },
        None => match real_ip {
            Some(x) => Some(x),
            None => peer,
        },
    }
}

proof fn lemma_split_nonempty(s: Seq<char>, c: char)
    ensures
        split_on(s, c).len() >= 1,
{
}

// ── mail server ────────────────────────────────────────────────────────────

/// The mail server setting, `server:user:pass`.
#[derive(Clone, Debug)]
pub struct SmtpSetting {
    pub server: String,
    pub user: String,
    pub pass: String,
}

/// Reads the mail server setting: it must have exactly three parts separated
/// by `:`.
pub fn smtp_setting(uri: &str) -> (r: Result<SmtpSetting, String>)
    ensures
        split_on(uri@, ':').len() == 3 ==> r.is_ok() && r->Ok_0.server@ == split_on(uri@, ':')[0]
            && r->Ok_0.user@ == split_on(uri@, ':')[1] && r->Ok_0.pass@ == split_on(uri@, ':')[2],
        split_on(uri@, ':').len() != 3 ==> r.is_err() && r->Err_0@
            == "Invalid SMTP_URI format, expected server:user:pass"@,
{
    let parts = split_char(uri, ':');
    if parts.len() != 3 {
        return Err(String::from_str("Invalid SMTP_URI format, expected server:user:pass"));
    }
    proof {
        let v = parts@.map_values(|t: String| t@);
        assert(v[0] == parts@[0]@ && v[1] == parts@[1]@ && v[2] == parts@[2]@);
    }
    Ok(
        SmtpSetting {
            server: parts[0].clone(),
            user: parts[1].clone(),
            pass: parts[2].clone(),
        },
    )
}

// ── cached values ──────────────────────────────────────────────────────────

/// Whether a cached value that expires at `expires_at` (seconds, never when
/// `None`) is stale at `now`: once its expiry is not after now.
pub open spec fn stale(expires_at: Option<i64>, now: int) -> bool {
    match expires_at {
        Some(e) => e <= now,
        None => false,
    }
}

/// When a value cached at `now` for `ttl` seconds expires (never without a
/// time to live).
pub open spec fn expiry_after(now: i64, ttl: Option<i64>) -> Option<i64> {
    match ttl {
        Some(t) => Some((now + t) as i64),
        None => None,
    }
}

/// Whether a cached value is stale at `now`.
pub fn cache_expired(expires_at: Option<i64>, now: i64) -> (r: bool)
    ensures
        r == stale(expires_at, now as int),
{
    match expires_at {
        Some(e) => e <= now,
        None => false,
    }
}

/// When a value cached at `now` for `ttl` seconds expires.
pub fn cache_expiry(now: i64, ttl: Option<i64>) -> (r: Option<i64>)
    requires
        ttl.is_some() ==> i64::MIN <= now + ttl.unwrap() <= i64::MAX,
    ensures
        r == expiry_after(now, ttl),
{
    match ttl {
        Some(t) => Some(now + t),
        None => None,
    }
}

/// A value written with a positive time to live is read back until that
/// time has passed, and is stale from then on; one written without a time to
/// live never goes stale.
pub proof fn lemma_cache_read_after_write(now: i64, ttl: Option<i64>, later: int)
    requires
        ttl.is_some() ==> ttl.unwrap() > 0 && now + ttl.unwrap() <= i64::MAX,
        later >= now,
    ensures
        ttl.is_none() ==> !stale(expiry_after(now, ttl), later),
        ttl.is_some() ==> (stale(expiry_after(now, ttl), later) <==> later >= now + ttl.unwrap()),
{
}

// ── uploaded images ────────────────────────────────────────────────────────

/// What follows the last `.` of `s` (all of `s` without one).
pub open spec fn after_last_dot(s: Seq<char>) -> Seq<char>
    decreases s.len(),
{
    if s.len() == 0 {
        s
    } else if s.last() == '.' {
        Seq::empty()
    } else {
        after_last_dot(s.drop_last()).push(s.last())
    }
}

/// The extension an uploaded image is stored with: what follows the last
/// `.` of its name, `png` without a name.
pub fn image_extension(name: Option<&str>) -> (r: String)
    ensures
        name.is_none() ==> r@ == "png"@,
        name.is_some() ==> r@ == after_last_dot(name.unwrap()@),
{
    match name {
        None => String::from_str("png"),
        Some(n) => {
            let cs = chars_of(n);
            let mut j: usize = cs.len();
            proof {
                assert(cs@.subrange(0, j as int) == cs@);
            }
            while j > 0 && cs[j - 1] != '.'
                invariant
                    j <= cs.len(),
                    after_last_dot(cs@) == after_last_dot(cs@.subrange(0, j as int)) + cs@.subrange(
                        j as int,
                        cs.len() as int,
                    ),
                decreases j,
            {
                proof {
                    let pre = cs@.subrange(0, j as int);
                    assert(pre.drop_last() == cs@.subrange(0, j - 1));
                    assert(cs@.subrange(j - 1, cs.len() as int) == seq![cs@[j - 1]]
                        + cs@.subrange(j as int, cs.len() as int));
                    assert(after_last_dot(cs@.subrange(0, j - 1)).push(cs@[j - 1])
                        + cs@.subrange(j as int, cs.len() as int) == after_last_dot(
                        cs@.subrange(0, j - 1),
                    ) + cs@.subrange(j - 1, cs.len() as int));
                }
                j = j - 1;
            }
            proof {
                assert(after_last_dot(cs@.subrange(0, j as int)) == Seq::<char>::empty());
                assert(Seq::<char>::empty() + cs@.subrange(j as int, cs.len() as int)
                    == cs@.subrange(j as int, cs.len() as int));
            }
            substring(&cs, j, cs.len())
        },
    }
}

/// The extension an image named `name` is stored with.
pub open spec fn extension_of(name: Option<&str>) -> Seq<char> {
    match name {
        Some(n) => after_last_dot(n@),
        None => "png"@,
    }
}

/// Where an uploaded image is stored: under `images/`, named by the upload
/// time, the first six characters of a fresh id, and the extension.
pub open spec fn image_path_text(stamp: Seq<char>, id: Seq<char>, ext: Seq<char>) -> Seq<char> {
    "images/"@ + stamp + "_"@ + id.subrange(0, 6) + "."@ + ext
}

/// The storage path of an image, given the upload time text and a fresh id.
pub fn image_path(stamp: &str, id: &str, name: Option<&str>) -> (r: String)
    requires
        id@.len() >= 6,
    ensures
        r@ == image_path_text(
            stamp@,
            id@,
            extension_of(name),
        ),
{
    let ext = image_extension(name);
    let cs = chars_of(id);
    let head = substring(&cs, 0, 6);
    let mut s = String::from_str("images/");
    s.append(stamp);
    s.append("_");
    s.append(head.as_str());
    s.append(".");
    s.append(ext.as_str());
    s
}

/// The upload time, `%Y%m%d%H%M%S%3f` in UTC (chrono's `Utc::now` and
/// `format`); it depends on the clock, so nothing is stated of it.
#[verifier::external_body]
fn upload_stamp() -> (r: String) {
    chrono::Utc::now().format("%Y%m%d%H%M%S%3f").to_string()
}

/// A fresh random id in its hyphenated text form (uuid's `Uuid::new_v4`,
/// then `to_string`), which is 36 characters long; nothing else is stated
/// of it.
#[verifier::external_body]
fn fresh_id_text() -> (r: String)
    ensures
        r@.len() == 36,
{
    uuid::Uuid::new_v4().to_string()
}

/// The storage path of a newly uploaded image.
pub fn gen_image_path(name: Option<&str>) -> (r: String)
    ensures
        exists|stamp: Seq<char>, id: Seq<char>|
            id.len() == 36 && r@ == #[trigger] image_path_text(
                stamp,
                id,
                extension_of(name),
            ),
{
    let stamp = upload_stamp();
    let id = fresh_id_text();
    image_path(stamp.as_str(), id.as_str(), name)
}


// ── file storage ───────────────────────────────────────────────────────────

/// The policy that lets anybody read the objects of a public bucket.
pub open spec fn read_policy_text(bucket: Seq<char>) -> Seq<char> {
    POLICY_HEAD@ + bucket + POLICY_TAIL@
}

/// The policy that lets anybody read the objects of `bucket`.
pub fn public_read_policy(bucket: &str) -> (r: String)
    ensures
        r@ == read_policy_text(bucket@),
{
    let mut s = String::from_str(POLICY_HEAD);
    s.append(bucket);
    s.append(POLICY_TAIL);
    s
}

/// `w` before, between and after the characters of `s` (`str::replace`
/// with an empty pattern).
pub open spec fn interleaved(s: Seq<char>, w: Seq<char>) -> Seq<char>
    decreases s.len(),
{
    if s.len() == 0 {
        w
    } else {
        w + seq![s[0]] + interleaved(s.drop_first(), w)
    }
}

/// `s` with every occurrence of `p` (from the left, not overlapping)
/// replaced by `w` (`str::replace`); an empty pattern occurs before, between
/// and after the characters.
pub open spec fn replaced(s: Seq<char>, p: Seq<char>, w: Seq<char>) -> Seq<char>
    decreases s.len(),
{
    if p.len() == 0 {
        interleaved(s, w)
    } else if s.len() < p.len() {
        s
    } else if s.subrange(0, p.len() as int) == p {
        w + replaced(s.subrange(p.len() as int, s.len() as int), p, w)
    } else {
        seq![s[0]] + replaced(s.drop_first(), p, w)
    }
}

fn append_all(out: &mut Vec<char>, w: &Vec<char>)
    ensures
        final(out)@ == old(out)@ + w@,
{
    let mut j: usize = 0;
    while j < w.len()
        invariant
            j <= w.len(),
            out@ == old(out)@ + w@.subrange(0, j as int),
        decreases w.len() - j,
    {
        out.push(w[j]);
        proof {
            assert(w@.subrange(0, j + 1) == w@.subrange(0, j as int).push(w@[j as int]));
        }
        j = j + 1;
    }
    proof {
        assert(w@.subrange(0, w.len() as int) == w@);
    }
}

/// `s` with every occurrence of `p` replaced by `w`; an empty pattern puts
/// `w` before, between and after the characters (as `str::replace` does).
pub fn replace_all(s: &str, p: &str, w: &str) -> (r: String)
    ensures
        r@ == replaced(s@, p@, w@),
{
    let pc = chars_of(p);
    if pc.len() == 0 {
        let cs = chars_of(s);
        let ws = chars_of(w);
        let n = cs.len();
        let mut out: Vec<char> = Vec::new();
        let mut i: usize = 0;
        proof {
            assert(cs@.subrange(0, n as int) == cs@);
        }
        while i < n
            invariant
                cs@ == s@,
                ws@ == w@,
                n == cs.len(),
                i <= n,
                interleaved(s@, w@) == out@ + interleaved(cs@.subrange(i as int, n as int), w@),
            decreases n - i,
        {
            proof {
                assert(cs@.subrange(i as int, n as int).drop_first() =~= cs@.subrange(
                    i + 1,
                    n as int,
                ));
            }
            let ghost before = out@;
            append_all(&mut out, &ws);
            out.push(cs[i]);
            proof {
                assert(out@ == before + w@ + seq![cs@[i as int]]);
            }
            i = i + 1;
        }
        proof {
            assert(cs@.subrange(n as int, n as int) =~= Seq::<char>::empty());
        }
        append_all(&mut out, &ws);
        return string_from_chars(&out);
    }
    replace_nonempty(s, p, w)
}

fn replace_nonempty(s: &str, p: &str, w: &str) -> (r: String)
    requires
        p@.len() > 0,
    ensures
        r@ == replaced(s@, p@, w@),
{
    let cs = chars_of(s);
    let ps = chars_of(p);
    let ws = chars_of(w);
    let n = cs.len();
    let m = ps.len();
    let mut out: Vec<char> = Vec::new();
    let mut i: usize = 0;
    proof {
        assert(cs@.subrange(0, n as int) == cs@);
    }
    while i < n
        invariant
            cs@ == s@,
            ps@ == p@,
            ws@ == w@,
            n == cs.len(),
            m == ps.len(),
            m > 0,
            i <= n,
            replaced(s@, p@, w@) == out@ + replaced(cs@.subrange(i as int, n as int), p@, w@),
        decreases n - i,
    {
        let ghost rest = cs@.subrange(i as int, n as int);
        let mut matched = m <= n - i;
        let mut k: usize = 0;
        while matched && k < m
            invariant
                k <= m,
                m <= n - i ==> i + m <= n,
                n == cs.len(),
                m == ps.len(),
                matched ==> m <= n - i,
                matched ==> forall|t: int| 0 <= t < k ==> cs@[i + t] == ps@[t],
                !matched ==> (m > n - i || exists|t: int| 0 <= t < m && cs@[i + t] != ps@[t]),
            decreases m - k + if matched {
                1int
            } else {
                0int
            },
        {
            if cs[i + k] != ps[k] {
                matched = false;
            } else {
                k = k + 1;
            }
        }
        if matched {
            proof {
                assert(rest.subrange(0, m as int) =~= ps@);
                assert(rest.subrange(m as int, rest.len() as int) =~= cs@.subrange(i + m, n as int));
            }
            let ghost before = out@;
            let mut j: usize = 0;
            while j < ws.len()
                invariant
                    j <= ws.len(),
                    out@ == before + ws@.subrange(0, j as int),
                decreases ws.len() - j,
            {
                out.push(ws[j]);
                proof {
                    assert(ws@.subrange(0, j + 1) == ws@.subrange(0, j as int).push(ws@[j as int]));
                }
                j = j + 1;
            }
            proof {
                assert(ws@.subrange(0, ws.len() as int) == ws@);
                assert(before + (ws@ + replaced(cs@.subrange(i + m, n as int), p@, w@)) == (before + ws@)
                    + replaced(cs@.subrange(i + m, n as int), p@, w@));
            }
            i = i + m;
        } else {
            proof {
                if m <= n - i {
                    let t = choose|t: int| 0 <= t < m && cs@[i + t] != ps@[t];
                    assert(rest.subrange(0, m as int)[t] != ps@[t]);
                }
                assert(rest.drop_first() =~= cs@.subrange(i + 1, n as int));
                assert(out@.push(cs@[i as int]) + replaced(cs@.subrange(i + 1, n as int), p@, w@)
                    == out@ + (seq![cs@[i as int]] + replaced(cs@.subrange(i + 1, n as int), p@, w@)));
            }
            out.push(cs[i]);
            i = i + 1;
        }
    }
    proof {
        assert(cs@.subrange(n as int, n as int) == Seq::<char>::empty());
        assert(out@ + Seq::<char>::empty() == out@);
    }
    string_from_chars(&out)
}

/// A download link for a private object as handed out: the storage
/// endpoint's address of the private bucket replaced by `/private`.
pub fn private_download_link(presigned: &str, endpoint: &str) -> (r: String)
    ensures
        r@ == replaced(presigned@, endpoint@ + "/floatctf-private"@, "/private"@),
{
    let mut pat = String::from_str(endpoint);
    pat.append("/floatctf-private");
    proof {
        reveal_strlit("/floatctf-private");
        assert(pat@.len() > 0);
    }
    replace_all(presigned, pat.as_str(), "/private")
}

} // verus!
