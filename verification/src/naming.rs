//! Fresh names: the random id of a newly installed instance and the time
//! stamped name of a new backup, each with what holds of every value the
//! random source or the clock can give.
use vstd::prelude::*;
use crate::commands::{backup_file_name, backup_name_text, lemma_backup_name_valid, stamp_chars_ok};
use crate::paths::{backup_filename_ok, plain_instance_id};
use crate::text::{contains_seq, is_digit, occurs_at};

verus! {

/// A lowercase hexadecimal digit.
pub open spec fn is_lower_hex(c: char) -> bool {
    ('0' <= c <= '9') || ('a' <= c <= 'f')
}

/// The hyphenated lowercase text of a UUID: 36 characters, each a lowercase
/// hexadecimal digit or a hyphen.
pub open spec fn uuid_text_ok(s: Seq<char>) -> bool {
    &&& s.len() == 36
    &&& forall|i: int| 0 <= i < s.len() ==> (is_lower_hex(#[trigger] s[i]) || s[i] == '-')
}

/// A random version 4 UUID as text (`uuid::Uuid::new_v4().to_string()`).
/// Which UUID comes is chance; the contract states only the shape that the
/// crate's `Display` gives every UUID: the hyphenated form in lowercase
/// hexadecimal.
#[verifier::external_body]
fn random_uuid_text() -> (r: String)
    ensures
        uuid_text_ok(r@),
{
    uuid::Uuid::new_v4().to_string()
}

/// Name for the text chrono gives for the UTC time `secs` seconds after
/// 1970-01-01 00:00:00 (`DateTime::<Utc>::from_timestamp(secs, 0)`)
/// formatted with `%Y%m%d-%H%M%S`; `None` where chrono's calendar does not
/// reach that time.
pub uninterp spec fn utc_stamp_text(secs: i64) -> Option<Seq<char>>;

/// The last second that chrono writes with a four-digit year:
/// 9999-12-31 23:59:59 UTC.
pub open spec fn last_four_digit_year_second() -> int {
    253402300799
}

/// The shape of a `%Y%m%d-%H%M%S` time stamp of a year from 1970 on: eight
/// digits (year, month, day), a dash and six digits (hour, minute, second),
/// and, only for a year past 9999, a `+` and the further year digits in
/// front.
pub open spec fn stamp_shape(s: Seq<char>) -> bool {
    let n = s.len();
    &&& n == 15 || (n >= 17 && s[0] == '+')
    &&& s[n - 7] == '-'
    &&& forall|i: int| 0 <= i < n && i != n - 7 && !(n > 15 && i == 0) ==> is_digit(#[trigger] s[i])
}

/// Seconds since 1970-01-01 00:00:00 UTC by the system clock
/// (`SystemTime::now().duration_since(UNIX_EPOCH)`, whole seconds); `None`
/// when the clock reads earlier. What the clock reads is not stated.
#[verifier::external_body]
fn clock_seconds() -> (r: Option<u64>) {
    match std::time::SystemTime::now().duration_since(std::time::UNIX_EPOCH) {
        Ok(d) => Some(d.as_secs()),
        Err(_) => None,
    }
}

/// The UTC time `secs` formatted by chrono with `pattern`, which is
/// `%Y%m%d-%H%M%S` (`DateTime::<Utc>::from_timestamp(secs, 0)`, then
/// `format(pattern).to_string()`). The text is named; the contract also
/// states what chrono's formatting code shows of it: for a time from 1970 on
/// it has the stamp shape (the year, month, day, hour, minute and second
/// zero-padded, a year past 9999 with a `+`), every time up to the end of
/// year 9999 is in chrono's range, and its year has four digits.
#[verifier::external_body]
fn format_utc_stamp(secs: i64, pattern: &str) -> (r: Option<String>)
    requires
        secs >= 0,
        pattern@ == "%Y%m%d-%H%M%S"@,
    ensures
        match r {
            Some(s) => utc_stamp_text(secs) == Some(s@) && stamp_shape(s@),
            None => utc_stamp_text(secs) is None,
        },
        r is Some || secs > last_four_digit_year_second(),
        r is None || secs > last_four_digit_year_second() || r->0@.len() == 15,
{
    match chrono::DateTime::<chrono::Utc>::from_timestamp(secs, 0) {
        Some(t) => Some(t.format(pattern).to_string()),
        None => None,
    }
}

/// The stamp of the UTC time `secs` seconds after 1970, when chrono reaches it.
pub open spec fn stamp_at(secs: u64) -> Option<Seq<char>> {
    if secs <= i64::MAX {
        utc_stamp_text(secs as i64)
    } else {
        None
    }
}

/// The stamp-shaped texts are made of digits, dashes and `+` only.
proof fn lemma_shape_chars(s: Seq<char>)
    requires
        stamp_shape(s),
    ensures
        stamp_chars_ok(s),
{
    assert forall|i: int| 0 <= i < s.len() implies (is_digit(#[trigger] s[i]) || s[i] == '-' || s[i]
        == '+') by {
        if i != s.len() - 7 && !(s.len() > 15 && i == 0) {
            assert(is_digit(s[i]));
        }
    }
}

/// The time stamp of `secs` seconds after 1970 (`%Y%m%d-%H%M%S`, UTC):
/// stamp shaped, fifteen characters up to the end of year 9999, and `None`
/// only beyond chrono's calendar.
pub fn backup_stamp_at(secs: u64) -> (r: Option<String>)
    ensures
        match r {
            Some(s) => stamp_at(secs) == Some(s@) && stamp_shape(s@),
            None => stamp_at(secs) is None,
        },
        secs <= last_four_digit_year_second() ==> (r matches Some(s) && s@.len() == 15),
{
    if secs > 0x7fff_ffff_ffff_ffffu64 {
        return None;
    }
    let t: i64 = secs as i64;
    format_utc_stamp(t, "%Y%m%d-%H%M%S")
}

/// The name of a backup made `secs` seconds after 1970:
/// `backup-<stamp>.tar.gz`, which the backup file name check accepts.
pub fn backup_file_name_at(secs: u64) -> (r: Option<String>)
    ensures
        match stamp_at(secs) {
            Some(st) => stamp_shape(st) && (r matches Some(n) && n@ == backup_name_text(st)),
            None => r is None,
        },
        r matches Some(n) ==> backup_filename_ok(n@),
        secs <= last_four_digit_year_second() ==> (r matches Some(n) && n@.len() == 29),
{
    match backup_stamp_at(secs) {
        Some(stamp) => {
            proof {
                lemma_shape_chars(stamp@);
                lemma_backup_name_valid(stamp@);
                reveal_strlit("backup-");
                reveal_strlit(".tar.gz");
            }
            Some(backup_file_name(stamp.as_str()))
        },
        None => None,
    }
}

/// The name of a backup made now, by the system clock: `None` when the
/// clock reads before 1970 (or beyond chrono's calendar); otherwise
/// `backup-<stamp>.tar.gz` with a stamp of the `%Y%m%d-%H%M%S` shape, which
/// the backup file name check accepts.
pub fn new_backup_file_name() -> (r: Option<String>)
    ensures
        r matches Some(n) ==> (exists|st: Seq<char>| stamp_shape(st) && n@ == backup_name_text(st))
            && backup_filename_ok(n@),
{
    match clock_seconds() {
        Some(secs) => {
            let r = backup_file_name_at(secs);
            proof {
                if r is Some {
                    let st = stamp_at(secs)->0;
                    assert(stamp_shape(st));
                }
            }
            r
        },
        None => None,
    }
}

/// No character of `s` is `c`, so the one-character text `c` does not occur
/// in it.
proof fn lemma_char_absent(s: Seq<char>, c: char)
    requires
        forall|i: int| 0 <= i < s.len() ==> s[i] != c,
    ensures
        !contains_seq(s, seq![c]),
{
    if contains_seq(s, seq![c]) {
        let i = choose|i: int| occurs_at(s, seq![c], i);
        assert(s.subrange(i, i + 1)[0] == s[i]);
    }
}

/// A fresh instance id: a random UUID, which names one directory and
/// nothing wider.
pub fn new_instance_id() -> (r: String)
    ensures
        uuid_text_ok(r@),
        plain_instance_id(r@),
{
    let id = random_uuid_text();
    proof {
        reveal_strlit("/");
        reveal_strlit(".");
        assert("/"@ =~= seq!['/']);
        assert("."@ =~= seq!['.']);
        lemma_char_absent(id@, '/');
        lemma_char_absent(id@, '.');
        reveal_strlit("..");
        if contains_seq(id@, ".."@) {
            let i = choose|i: int| occurs_at(id@, ".."@, i);
            assert(id@.subrange(i, i + 2)[0] == id@[i]);
        }
    }
    id
}

} // verus!
