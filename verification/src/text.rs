//! Texts that the routes answer with: decimal numbers, error messages and
//! the preview of an uploaded file.
use vstd::prelude::*;
use vstd::string::*;

verus! {

/// The largest SQL file, in bytes, that an execution reads.
pub const MAX_SQL_FILE_BYTES: u64 = 209715200;

/// How many characters of an uploaded file its preview shows.
pub const PREVIEW_CHARS: usize = 20000;

/// The character of a decimal digit.
pub open spec fn digit_char(d: nat) -> char {
    (48 + d) as char
}

/// The decimal digits of `n`, most significant first, without leading zeros.
pub open spec fn decimal(n: nat) -> Seq<char>
    decreases n,
{
    if n < 10 {
        seq![digit_char(n)]
    } else {
        decimal(n / 10).push(digit_char(n % 10))
    }
}

/// The one-character text of a decimal digit.
fn digit_text(d: u64) -> (r: &'static str)
    requires
        d < 10,
    ensures
        r@ == seq![digit_char(d as nat)],
{
    if d == 0 {
        proof { reveal_strlit("0"); }
        "0"
    } else if d == 1 {
        proof { reveal_strlit("1"); }
        "1"
    } else if d == 2 {
        proof { reveal_strlit("2"); }
        "2"
    } else if d == 3 {
        proof { reveal_strlit("3"); }
        "3"
    } else if d == 4 {
        proof { reveal_strlit("4"); }
        "4"
    } else if d == 5 {
        proof { reveal_strlit("5"); }
        "5"
    } else if d == 6 {
        proof { reveal_strlit("6"); }
        "6"
    } else if d == 7 {
        proof { reveal_strlit("7"); }
        "7"
    } else if d == 8 {
        proof { reveal_strlit("8"); }
        "8"
    } else {
        proof { reveal_strlit("9"); }
        "9"
    }
}

/// The decimal text of `n`, as `{}` formats an unsigned integer.
pub fn decimal_text(n: u64) -> (r: String)
    ensures
        r@ == decimal(n as nat),
{
    let mut rest: u64 = n;
    let mut acc = String::new();
    while rest >= 10
        invariant
            decimal(n as nat) == decimal(rest as nat) + acc@,
        decreases rest,
    {
        let mut next = String::from_str(digit_text(rest % 10));
        next.append(acc.as_str());
        proof {
            assert(decimal(rest as nat) == decimal((rest / 10) as nat).push(digit_char((rest % 10) as nat)));
            assert(decimal((rest / 10) as nat) + next@ =~= decimal(rest as nat) + acc@);
        }
        acc = next;
        rest = rest / 10;
    }
    let mut r = String::from_str(digit_text(rest));
    r.append(acc.as_str());
    r
}

/// "File too large: N bytes (max M bytes)", the report on a file above the limit.
pub open spec fn file_too_large_text(size: nat) -> Seq<char> {
    "File too large: "@ + decimal(size) + " bytes (max "@ + decimal(MAX_SQL_FILE_BYTES as nat)
        + " bytes)"@
}

/// The report on an SQL file of `size` bytes, which is above the limit.
pub fn file_too_large_message(size: u64) -> (r: String)
    ensures
        r@ == file_too_large_text(size as nat),
{
    let mut r = String::from_str("File too large: ");
    let size_text = decimal_text(size);
    r.append(size_text.as_str());
    r.append(" bytes (max ");
    let max_text = decimal_text(MAX_SQL_FILE_BYTES);
    r.append(max_text.as_str());
    r.append(" bytes)");
    r
}

/// "SQL file execution 'ID' already exists".
pub open spec fn duplicate_execution_text(execution_id: Seq<char>) -> Seq<char> {
    "SQL file execution '"@ + execution_id + "' already exists"@
}

/// The report on an execution id that is already in use.
pub fn duplicate_execution_message(execution_id: &String) -> (r: String)
    ensures
        r@ == duplicate_execution_text(execution_id@),
{
    let mut r = String::from_str("SQL file execution '");
    r.append(execution_id.as_str());
    r.append("' already exists");
    r
}

/// The refusal of an execution on a connection that is read-only.
pub open spec fn read_only_text(connection_name: Seq<char>) -> Seq<char> {
    "Read-only mode: connection '"@ + connection_name
        + "' has read-only protection enabled. SQL file execution blocked."@
}

/// The refusal of an execution on the read-only connection `connection_name`.
pub fn read_only_message(connection_name: &String) -> (r: String)
    ensures
        r@ == read_only_text(connection_name@),
{
    let mut r = String::from_str("Read-only mode: connection '");
    r.append(connection_name.as_str());
    r.append("' has read-only protection enabled. SQL file execution blocked.");
    r
}

/// The first `PREVIEW_CHARS` characters of `content` (all of it if shorter).
pub fn preview_text(content: &str) -> (r: String)
    ensures
        content@.len() <= PREVIEW_CHARS ==> r@ == content@,
        content@.len() > PREVIEW_CHARS ==> r@ == content@.take(PREVIEW_CHARS as int),
{
    let len = content.unicode_len();
    let end = if len <= PREVIEW_CHARS { len } else { PREVIEW_CHARS };
    let part = content.substring_char(0, end);
    assert(content@.len() <= PREVIEW_CHARS ==> content@.subrange(0, end as int) =~= content@);
    String::from_str(part)
}

} // verus!
