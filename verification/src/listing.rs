//! Directory and backup listings read from `find`/`stat` output, and the
//! order in which they are shown.
use vstd::prelude::*;
use crate::text::{
    chars_of, lines, lines_of, parse_i64, parse_signed, parse_u64, parse_unsigned, same_chars,
    split_once, split_once_spec, splitn, splitn_spec, string_of, trim, trimmed,
};

verus! {

/// The sequence `s` with `x` inserted before the first element that `x`
/// strictly precedes (after all elements it does not precede).
pub open spec fn insert_by<T>(s: Seq<T>, x: T, precedes: spec_fn(T, T) -> bool) -> Seq<T>
    decreases s.len(),
{
    if s.len() == 0 {
        seq![x]
    } else if precedes(x, s[0]) {
        seq![x] + s
    } else {
        seq![s[0]] + insert_by(s.drop_first(), x, precedes)
    }
}

/// `s` stably sorted by `precedes`: elements are inserted one by one in
/// their order in `s`, each after every element it does not precede, so
/// elements that do not precede one another keep their order (what
/// `slice::sort_by` produces).
pub open spec fn sorted_by<T>(s: Seq<T>, precedes: spec_fn(T, T) -> bool) -> Seq<T>
    decreases s.len(),
{
    if s.len() == 0 {
        s
    } else {
        insert_by(sorted_by(s.drop_last(), precedes), s.last(), precedes)
    }
}

/// Inserting at the first element that `x` precedes.
pub proof fn lemma_insert_by_index<T>(s: Seq<T>, x: T, precedes: spec_fn(T, T) -> bool, j: int)
    requires
        0 <= j <= s.len(),
        forall|k: int| 0 <= k < j ==> !precedes(x, #[trigger] s[k]),
        j == s.len() || precedes(x, s[j]),
    ensures
        insert_by(s, x, precedes) == s.insert(j, x),
    decreases s.len(),
{
    if s.len() == 0 {
        assert(s.insert(j, x) =~= seq![x]);
    } else if precedes(x, s[0]) {
        assert(j == 0);
        assert(s.insert(0, x) =~= seq![x] + s);
    } else {
        assert forall|k: int| 0 <= k < j - 1 implies !precedes(x, #[trigger] s.drop_first()[k]) by {
            assert(s.drop_first()[k] == s[k + 1]);
        }
        lemma_insert_by_index(s.drop_first(), x, precedes, j - 1);
        assert(seq![s[0]] + s.drop_first().insert(j - 1, x) =~= s.insert(j, x));
    }
}

/// Inserting by `precedes` inserts `x` at some position.
pub proof fn lemma_insert_by_is_insert<T>(s: Seq<T>, x: T, precedes: spec_fn(T, T) -> bool) -> (j: int)
    ensures
        0 <= j <= s.len(),
        insert_by(s, x, precedes) == s.insert(j, x),
        forall|k: int| 0 <= k < j ==> !precedes(x, #[trigger] s[k]),
        j < s.len() ==> precedes(x, s[j]),
    decreases s.len(),
{
    if s.len() == 0 {
        assert(s.insert(0, x) =~= seq![x]);
        0
    } else if precedes(x, s[0]) {
        assert(s.insert(0, x) =~= seq![x] + s);
        0
    } else {
        let j = lemma_insert_by_is_insert(s.drop_first(), x, precedes);
        assert(seq![s[0]] + s.drop_first().insert(j, x) =~= s.insert(j + 1, x));
        assert forall|k: int| 0 <= k < j + 1 implies !precedes(x, #[trigger] s[k]) by {
            if k > 0 {
                assert(s[k] == s.drop_first()[k - 1]);
            }
        }
        j + 1
    }
}

/// No element of `s` strictly precedes one that stands before it.
pub open spec fn in_order<T>(s: Seq<T>, precedes: spec_fn(T, T) -> bool) -> bool {
    forall|i: int, j: int| 0 <= i < j < s.len() ==> !precedes(#[trigger] s[j], #[trigger] s[i])
}

/// `precedes` is a strict order: irreflexive and transitive.
pub open spec fn strict_order<T>(precedes: spec_fn(T, T) -> bool) -> bool {
    &&& forall|a: T| !#[trigger] precedes(a, a)
    &&& forall|a: T, b: T, c: T| #[trigger] precedes(a, b) && #[trigger] precedes(b, c) ==> precedes(a, c)
}

proof fn lemma_insert_in_order<T>(s: Seq<T>, x: T, precedes: spec_fn(T, T) -> bool)
    requires
        strict_order(precedes),
        in_order(s, precedes),
    ensures
        in_order(insert_by(s, x, precedes), precedes),
{
    let j = lemma_insert_by_is_insert(s, x, precedes);
    let r = s.insert(j, x);
    assert forall|a: int, b: int| 0 <= a < b < r.len() implies !precedes(#[trigger] r[b], #[trigger] r[a]) by {
        if b < j {
            assert(r[a] == s[a] && r[b] == s[b]);
        } else if b == j {
            assert(r[a] == s[a]);
        } else if a == j {
            assert(r[b] == s[b - 1]);
            assert(precedes(x, s[j]));
            if precedes(s[b - 1], x) {
                assert(precedes(s[b - 1], s[j]));
                if b - 1 == j {
                } else {
                    assert(!precedes(s[b - 1], s[j]));
                }
            }
        } else if a < j {
            assert(r[a] == s[a] && r[b] == s[b - 1]);
        } else {
            assert(r[a] == s[a - 1] && r[b] == s[b - 1]);
        }
    }
}

/// A stable sort by a strict order puts its elements in order: none
/// precedes an element listed before it.
pub proof fn lemma_sorted_by_in_order<T>(s: Seq<T>, precedes: spec_fn(T, T) -> bool)
    requires
        strict_order(precedes),
    ensures
        in_order(sorted_by(s, precedes), precedes),
    decreases s.len(),
{
    if s.len() > 0 {
        lemma_sorted_by_in_order(s.drop_last(), precedes);
        lemma_insert_in_order(sorted_by(s.drop_last(), precedes), s.last(), precedes);
    }
}

/// Sorting neither loses nor adds elements: the result holds the same
/// elements, as often.
pub proof fn lemma_sorted_by_same_elements<T>(s: Seq<T>, precedes: spec_fn(T, T) -> bool)
    ensures
        sorted_by(s, precedes).to_multiset() == s.to_multiset(),
    decreases s.len(),
{
    broadcast use vstd::seq_lib::group_to_multiset_ensures;

    if s.len() > 0 {
        lemma_sorted_by_same_elements(s.drop_last(), precedes);
        let sorted = sorted_by(s.drop_last(), precedes);
        let j = lemma_insert_by_is_insert(sorted, s.last(), precedes);
        assert(s.drop_last().push(s.last()) =~= s);
    }
}

/// A file or directory directly inside a browsed directory.
#[derive(Clone, Debug)]
pub struct DirEntry {
    pub name: String,
    pub is_dir: bool,
    pub size_bytes: u64,
}

/// Name for `str::to_lowercase`: the full Unicode lower-case mapping of a
/// string.
pub uninterp spec fn lowercase(s: Seq<char>) -> Seq<char>;

/// Lower-cases a string with std's `str::to_lowercase`; the contract names
/// the result and states none of Unicode's case rules.
#[verifier::external_body]
fn to_lower(s: &str) -> (r: String)
    ensures
        r@ == lowercase(s@),
{
    s.to_lowercase()
}

/// `a` comes before `b` in code-point order (the order of `String`).
pub open spec fn chars_lt(a: Seq<char>, b: Seq<char>) -> bool
    decreases a.len(),
{
    if a.len() == 0 {
        b.len() > 0
    } else if b.len() == 0 {
        false
    } else if (a[0] as u32) < (b[0] as u32) {
        true
    } else if a[0] == b[0] {
        chars_lt(a.drop_first(), b.drop_first())
    } else {
        false
    }
}

/// Whether `a` comes before `b` in code-point order.
fn less_chars(a: &[char], b: &[char]) -> (r: bool)
    ensures
        r == chars_lt(a@, b@),
{
    let mut i: usize = 0;
    proof {
        assert(a@.skip(0) =~= a@);
        assert(b@.skip(0) =~= b@);
        assert(a@.subrange(0, 0) =~= b@.subrange(0, 0));
    }
    while i < a.len() && i < b.len() && a[i] == b[i]
        invariant
            i <= a@.len(),
            i <= b@.len(),
            a@.subrange(0, i as int) == b@.subrange(0, i as int),
            chars_lt(a@, b@) == chars_lt(a@.skip(i as int), b@.skip(i as int)),
        decreases a@.len() - i,
    {
        proof {
            assert(a@.skip(i as int).drop_first() =~= a@.skip(i + 1));
            assert(b@.skip(i as int).drop_first() =~= b@.skip(i + 1));
            assert(a@.subrange(0, i + 1) =~= a@.subrange(0, i as int).push(a@[i as int]));
            assert(b@.subrange(0, i + 1) =~= b@.subrange(0, i as int).push(b@[i as int]));
        }
        i = i + 1;
    }
    let ghost ra = a@.skip(i as int);
    let ghost rb = b@.skip(i as int);
    if i == a.len() {
        i < b.len()
    } else if i == b.len() {
        false
    } else {
        proof {
            assert(ra[0] == a@[i as int]);
            assert(rb[0] == b@[i as int]);
        }
        (a[i] as u32) < (b[i] as u32)
    }
}

/// The listing order on (name, is directory, size): directories before
/// files, then names in code-point order of their lower case.
pub open spec fn dir_order() -> spec_fn((Seq<char>, bool, u64), (Seq<char>, bool, u64)) -> bool {
    |a: (Seq<char>, bool, u64), b: (Seq<char>, bool, u64)|
        (a.1 && !b.1) || (a.1 == b.1 && chars_lt(lowercase(a.0), lowercase(b.0)))
}

/// Whether entry `a` is listed before entry `b`.
pub open spec fn dir_entry_precedes(a: DirEntry, b: DirEntry) -> bool {
    (dir_order())(dir_entry_fields(a), dir_entry_fields(b))
}

fn dir_entry_before(a: &DirEntry, b: &DirEntry) -> (r: bool)
    ensures
        r == dir_entry_precedes(*a, *b),
{
    if a.is_dir != b.is_dir {
        return a.is_dir;
    }
    let la = chars_of(to_lower(a.name.as_str()).as_str());
    let lb = chars_of(to_lower(b.name.as_str()).as_str());
    less_chars(&la, &lb)
}

/// The entry a `TYPE|NAME|SIZE` line of `find -printf '%y|%f|%s\n'` stands
/// for: a directory when the type is `d`; no entry when a piece is missing
/// or the size is not a number.
pub open spec fn dir_entry_line(line: Seq<char>) -> Option<(Seq<char>, bool, u64)> {
    let ps = splitn_spec(line, 3, '|');
    if ps.len() == 3 {
        match parse_unsigned(ps[2], u64::MAX as nat) {
            Some(size) => Some((ps[1], ps[0] == "d"@, size as u64)),
            None => None,
        }
    } else {
        None
    }
}

/// The entries of the lines `ls`, in order, skipping lines that are none.
pub open spec fn dir_entries_of_lines(ls: Seq<Seq<char>>) -> Seq<(Seq<char>, bool, u64)>
    decreases ls.len(),
{
    if ls.len() == 0 {
        seq![]
    } else {
        let rest = dir_entries_of_lines(ls.drop_last());
        match dir_entry_line(ls.last()) {
            Some(e) => rest.push(e),
            None => rest,
        }
    }
}

/// The name, kind and size of an entry.
pub open spec fn dir_entry_fields(e: DirEntry) -> (Seq<char>, bool, u64) {
    (e.name@, e.is_dir, e.size_bytes)
}

/// The name, kind and size of each entry.
pub open spec fn dir_entry_views(es: Seq<DirEntry>) -> Seq<(Seq<char>, bool, u64)> {
    es.map_values(|e: DirEntry| dir_entry_fields(e))
}

/// Parses one listing line.
fn parse_dir_entry(line: &[char]) -> (r: Option<DirEntry>)
    ensures
        match r {
            Some(e) => dir_entry_line(line@) == Some(dir_entry_fields(e)),
            None => dir_entry_line(line@) is None,
        },
{
    let ps = splitn(line, 3, '|');
    if ps.len() != 3 {
        return None;
    }
    let d = chars_of("d");
    match parse_u64(&ps[2]) {
        Some(size_bytes) => Some(
            DirEntry { name: string_of(&ps[1]), is_dir: same_chars(&ps[0], &d), size_bytes },
        ),
        None => None,
    }
}

/// Parses the listing and orders it: directories first, then by name,
/// ignoring case.
pub fn parse_dir_listing(raw: &str) -> (r: Vec<DirEntry>)
    ensures
        dir_entry_views(r@) == sorted_by(dir_entries_of_lines(lines_of(raw@)), dir_order()),
{
    let ls = lines(&chars_of(raw));
    let ghost all = lines_of(raw@);
    let mut out: Vec<DirEntry> = Vec::new();
    let mut i: usize = 0;
    while i < ls.len()
        invariant
            all == lines_of(raw@),
            ls@.len() == all.len(),
            forall|k: int| 0 <= k < ls@.len() ==> (#[trigger] ls@[k])@ == all[k],
            i <= ls@.len(),
            dir_entry_views(out@) == sorted_by(dir_entries_of_lines(all.take(i as int)), dir_order()),
        decreases ls@.len() - i,
    {
        let ghost done = dir_entries_of_lines(all.take(i as int));
        proof {
            assert(all.take(i + 1).drop_last() =~= all.take(i as int));
            assert(all.take(i + 1).last() == all[i as int]);
        }
        match parse_dir_entry(&ls[i]) {
            Some(e) => {
                let ghost view_before = dir_entry_views(out@);
                let ghost f = dir_entry_fields(e);
                let mut j: usize = 0;
                while j < out.len() && !dir_entry_before(&e, &out[j])
                    invariant
                        j <= out@.len(),
                        view_before == dir_entry_views(out@),
                        f == dir_entry_fields(e),
                        forall|k: int| 0 <= k < j ==> !(dir_order())(f, #[trigger] view_before[k]),
                    decreases out@.len() - j,
                {
                    assert(view_before[j as int] == dir_entry_fields(out@[j as int]));
                    j = j + 1;
                }
                proof {
                    if j < out@.len() {
                        assert(view_before[j as int] == dir_entry_fields(out@[j as int]));
                    }
                    lemma_insert_by_index(view_before, f, dir_order(), j as int);
                }
                out.insert(j, e);
                proof {
                    assert(dir_entry_views(out@) =~= view_before.insert(j as int, f));
                    assert(dir_entries_of_lines(all.take(i + 1)) == done.push(f));
                    assert(done.push(f).drop_last() =~= done);
                }
            },
            None => {},
        }
        i = i + 1;
    }
    proof {
        assert(all.take(i as int) =~= all);
    }
    out
}


/// A backup archive of an instance.
#[derive(Clone, Debug)]
pub struct BackupEntry {
    pub name: String,
    pub size_bytes: u64,
    /// Unix timestamp (seconds) of the backup file's mtime.
    pub created_at: i64,
}

/// The name, size and time of a backup.
pub open spec fn backup_fields(e: BackupEntry) -> (Seq<char>, u64, i64) {
    (e.name@, e.size_bytes, e.created_at)
}

/// The name, size and time of each backup.
pub open spec fn backup_views(es: Seq<BackupEntry>) -> Seq<(Seq<char>, u64, i64)> {
    es.map_values(|e: BackupEntry| backup_fields(e))
}

/// Newest first.
pub open spec fn backup_order() -> spec_fn((Seq<char>, u64, i64), (Seq<char>, u64, i64)) -> bool {
    |a: (Seq<char>, u64, i64), b: (Seq<char>, u64, i64)| a.2 > b.2
}

/// The whole seconds of a `%T@` timestamp: what stands before the first
/// `.`.
pub open spec fn whole_seconds(t: Seq<char>) -> Seq<char> {
    match split_once_spec(t, '.') {
        Some((a, _)) => a,
        None => t,
    }
}

/// The backup a `NAME|SIZE|MTIME` line of `find -printf '%f|%s|%T@\n'`
/// stands for; no backup when a piece is missing or not a number.
pub open spec fn backup_line(line: Seq<char>) -> Option<(Seq<char>, u64, i64)> {
    let ps = splitn_spec(line, 3, '|');
    if ps.len() == 3 {
        match (
            parse_unsigned(ps[1], u64::MAX as nat),
            parse_signed(whole_seconds(ps[2]), i64::MIN as int, i64::MAX as int),
        ) {
            (Some(size), Some(t)) => Some((ps[0], size as u64, t as i64)),
            _ => None,
        }
    } else {
        None
    }
}

/// The backups of the lines `ls`, in order, skipping lines that are none.
pub open spec fn backups_of_lines(ls: Seq<Seq<char>>) -> Seq<(Seq<char>, u64, i64)>
    decreases ls.len(),
{
    if ls.len() == 0 {
        seq![]
    } else {
        let rest = backups_of_lines(ls.drop_last());
        match backup_line(ls.last()) {
            Some(e) => rest.push(e),
            None => rest,
        }
    }
}

/// Parses one backup listing line.
fn parse_backup_line(line: &[char]) -> (r: Option<BackupEntry>)
    ensures
        match r {
            Some(e) => backup_line(line@) == Some(backup_fields(e)),
            None => backup_line(line@) is None,
        },
{
    let ps = splitn(line, 3, '|');
    if ps.len() != 3 {
        return None;
    }
    let size = parse_u64(&ps[1]);
    let secs = match split_once(&ps[2], '.') {
        Some((a, _)) => a,
        None => ps[2].clone(),
    };
    let created = parse_i64(&secs);
    match (size, created) {
        (Some(size_bytes), Some(created_at)) => Some(
            BackupEntry { name: string_of(&ps[0]), size_bytes, created_at },
        ),
        _ => None,
    }
}

/// Parses the backup listing and orders it newest first (backups with the
/// same time keep their order).
pub fn parse_backup_listing(raw: &str) -> (r: Vec<BackupEntry>)
    ensures
        backup_views(r@) == sorted_by(backups_of_lines(lines_of(raw@)), backup_order()),
{
    let ls = lines(&chars_of(raw));
    let ghost all = lines_of(raw@);
    let mut out: Vec<BackupEntry> = Vec::new();
    let mut i: usize = 0;
    while i < ls.len()
        invariant
            all == lines_of(raw@),
            ls@.len() == all.len(),
            forall|k: int| 0 <= k < ls@.len() ==> (#[trigger] ls@[k])@ == all[k],
            i <= ls@.len(),
            backup_views(out@) == sorted_by(backups_of_lines(all.take(i as int)), backup_order()),
        decreases ls@.len() - i,
    {
        let ghost done = backups_of_lines(all.take(i as int));
        proof {
            assert(all.take(i + 1).drop_last() =~= all.take(i as int));
            assert(all.take(i + 1).last() == all[i as int]);
        }
        match parse_backup_line(&ls[i]) {
            Some(e) => {
                let ghost view_before = backup_views(out@);
                let ghost f = backup_fields(e);
                let mut j: usize = 0;
                while j < out.len() && !(e.created_at > out[j].created_at)
                    invariant
                        j <= out@.len(),
                        view_before == backup_views(out@),
                        f == backup_fields(e),
                        forall|k: int| 0 <= k < j ==> !(backup_order())(f, #[trigger] view_before[k]),
                    decreases out@.len() - j,
                {
                    assert(view_before[j as int] == backup_fields(out@[j as int]));
                    j = j + 1;
                }
                proof {
                    if j < out@.len() {
                        assert(view_before[j as int] == backup_fields(out@[j as int]));
                    }
                    lemma_insert_by_index(view_before, f, backup_order(), j as int);
                }
                out.insert(j, e);
                proof {
                    assert(backup_views(out@) =~= view_before.insert(j as int, f));
                    assert(backups_of_lines(all.take(i + 1)) == done.push(f));
                    assert(done.push(f).drop_last() =~= done);
                }
            },
            None => {},
        }
        i = i + 1;
    }
    proof {
        assert(all.take(i as int) =~= all);
    }
    out
}

/// Size and mtime from `stat -c '%s|%Y'` output.
pub open spec fn stat_of(stat: Seq<char>) -> Option<(u64, i64)> {
    match split_once_spec(trim(stat), '|') {
        Some((a, b)) => match (
            parse_unsigned(a, u64::MAX as nat),
            parse_signed(b, i64::MIN as int, i64::MAX as int),
        ) {
            (Some(size), Some(t)) => Some((size as u64, t as i64)),
            _ => None,
        },
        None => None,
    }
}

/// Reads size and mtime from `stat` output.
pub fn parse_stat(stat: &str) -> (r: Option<(u64, i64)>)
    ensures
        r == stat_of(stat@),
{
    let t = trimmed(&chars_of(stat));
    match split_once(&t, '|') {
        Some((a, b)) => match (parse_u64(&a), parse_i64(&b)) {
            (Some(size), Some(time)) => Some((size, time)),
            _ => None,
        },
        None => None,
    }
}

/// The entry for a backup archive `name` from its `stat` output, or the
/// error `failure` when size and time cannot be read.
fn backup_from_stat(name: String, stat: &str, failure: &str) -> (r: Result<BackupEntry, String>)
    ensures
        match stat_of(stat@) {
            Some((size, time)) => r is Ok && r->Ok_0.name == name && r->Ok_0.size_bytes == size
                && r->Ok_0.created_at == time,
            None => r is Err && r->Err_0@ == failure@,
        },
{
    match parse_stat(stat) {
        Some((size_bytes, created_at)) => Ok(BackupEntry { name, size_bytes, created_at }),
        None => Err(string_of(&chars_of(failure))),
    }
}

/// The entry for a backup just created by `tar`.
pub fn created_backup_entry(name: String, stat: &str) -> (r: Result<BackupEntry, String>)
    ensures
        match stat_of(stat@) {
            Some((size, time)) => r is Ok && r->Ok_0.name == name && r->Ok_0.size_bytes == size
                && r->Ok_0.created_at == time,
            None => r is Err && r->Err_0@
                == "Backup erstellt, aber Größe/Zeitstempel konnten nicht gelesen werden"@,
        },
{
    backup_from_stat(name, stat, "Backup erstellt, aber Größe/Zeitstempel konnten nicht gelesen werden")
}

/// The entry for a backup just uploaded.
pub fn uploaded_backup_entry(name: String, stat: &str) -> (r: Result<BackupEntry, String>)
    ensures
        match stat_of(stat@) {
            Some((size, time)) => r is Ok && r->Ok_0.name == name && r->Ok_0.size_bytes == size
                && r->Ok_0.created_at == time,
            None => r is Err && r->Err_0@
                == "Hochgeladen, aber Größe/Zeitstempel konnten nicht gelesen werden"@,
        },
{
    backup_from_stat(name, stat, "Hochgeladen, aber Größe/Zeitstempel konnten nicht gelesen werden")
}


/// Code-point order is a strict order.
proof fn lemma_chars_lt_strict(a: Seq<char>, b: Seq<char>, c: Seq<char>)
    ensures
        !chars_lt(a, a),
        chars_lt(a, b) && chars_lt(b, c) ==> chars_lt(a, c),
    decreases a.len(),
{
    if a.len() > 0 {
        lemma_chars_lt_strict(a.drop_first(), a.drop_first(), a.drop_first());
        if b.len() > 0 && c.len() > 0 {
            lemma_chars_lt_strict(a.drop_first(), b.drop_first(), c.drop_first());
        }
    }
}

/// Code-point order is decided at the first position where the two texts
/// differ: the shorter one first when one is a prefix of the other (so a
/// proper prefix comes before every longer text it begins), else the one
/// whose character there has the smaller code point.
pub proof fn lemma_chars_lt_first_difference(a: Seq<char>, b: Seq<char>, i: int)
    requires
        0 <= i <= a.len(),
        i <= b.len(),
        a.take(i) == b.take(i),
    ensures
        i == a.len() ==> (chars_lt(a, b) <==> i < b.len()),
        i < a.len() && i == b.len() ==> !chars_lt(a, b),
        i < a.len() && i < b.len() && a[i] != b[i] ==> (chars_lt(a, b) <==> (a[i] as u32) < (
        b[i] as u32)),
    decreases i,
{
    if i > 0 {
        assert(a[0] == a.take(i)[0] && b[0] == b.take(i)[0]);
        assert(a.drop_first().take(i - 1) =~= a.take(i).drop_first());
        assert(b.drop_first().take(i - 1) =~= b.take(i).drop_first());
        lemma_chars_lt_first_difference(a.drop_first(), b.drop_first(), i - 1);
        if i < a.len() && i < b.len() {
            assert(a[i] == a.drop_first()[i - 1] && b[i] == b.drop_first()[i - 1]);
        }
    }
}

/// A name that is a proper prefix of another comes before it, and never
/// after it.
pub proof fn lemma_chars_lt_prefix(s: Seq<char>, t: Seq<char>)
    requires
        t.len() > 0,
    ensures
        chars_lt(s, s + t),
        !chars_lt(s + t, s),
{
    assert((s + t).take(s.len() as int) =~= s.take(s.len() as int));
    lemma_chars_lt_first_difference(s, s + t, s.len() as int);
    lemma_chars_lt_first_difference(s + t, s, s.len() as int);
}

/// Two entries of the same kind are listed in the code-point order of their
/// lower-cased names; a directory always precedes a file.
pub proof fn lemma_dir_entry_order(a: (Seq<char>, bool, u64), b: (Seq<char>, bool, u64))
    ensures
        a.1 == b.1 ==> ((dir_order())(a, b) <==> chars_lt(lowercase(a.0), lowercase(b.0))),
        a.1 && !b.1 ==> (dir_order())(a, b) && !(dir_order())(b, a),
{
}

/// The listing order of directories is a strict order.
pub proof fn lemma_dir_order_strict()
    ensures
        strict_order(dir_order()),
{
    assert forall|a: (Seq<char>, bool, u64)| !#[trigger] (dir_order())(a, a) by {
        lemma_chars_lt_strict(lowercase(a.0), lowercase(a.0), lowercase(a.0));
    }
    assert forall|a: (Seq<char>, bool, u64), b: (Seq<char>, bool, u64), c: (Seq<char>, bool, u64)|
        #[trigger] (dir_order())(a, b) && #[trigger] (dir_order())(b, c) implies (dir_order())(a, c) by {
        lemma_chars_lt_strict(lowercase(a.0), lowercase(b.0), lowercase(c.0));
    }
}

/// A directory listing is shown in order: directories before files, and
/// within each, names ascending when lower-cased; it holds exactly the
/// entries of the parsed lines.
pub proof fn lemma_dir_listing_ordered(raw: Seq<char>)
    ensures
        in_order(sorted_by(dir_entries_of_lines(lines_of(raw)), dir_order()), dir_order()),
        sorted_by(dir_entries_of_lines(lines_of(raw)), dir_order()).to_multiset()
            == dir_entries_of_lines(lines_of(raw)).to_multiset(),
{
    lemma_dir_order_strict();
    lemma_sorted_by_in_order(dir_entries_of_lines(lines_of(raw)), dir_order());
    lemma_sorted_by_same_elements(dir_entries_of_lines(lines_of(raw)), dir_order());
}

/// A backup listing is shown newest first and holds exactly the backups of
/// the parsed lines.
pub proof fn lemma_backup_listing_ordered(raw: Seq<char>)
    ensures
        in_order(sorted_by(backups_of_lines(lines_of(raw)), backup_order()), backup_order()),
        sorted_by(backups_of_lines(lines_of(raw)), backup_order()).to_multiset()
            == backups_of_lines(lines_of(raw)).to_multiset(),
{
    assert(strict_order(backup_order()));
    lemma_sorted_by_in_order(backups_of_lines(lines_of(raw)), backup_order());
    lemma_sorted_by_same_elements(backups_of_lines(lines_of(raw)), backup_order());
}

} // verus!
