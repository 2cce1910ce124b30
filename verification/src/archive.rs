//! Structural validation of uploaded test-case archives.
//!
//! An archive is acceptable when its file entries are exactly the expected
//! set derived from the problem's tasks: for the task at zero-based index
//! `i` and each case index `j` below that task's `test_case_count`, the two
//! entries `test-case/{ii}{jj}/STDIN` and `test-case/{ii}{jj}/STDOUT` with
//! two-digit zero-padded indices. Symbolic links are never allowed,
//! directories are skipped, and paths must resolve safely inside the
//! archive and be valid text. Task or case counts above one hundred cannot
//! be expressed by two-digit names and are rejected outright.
//!
//! The zip container itself is read through the `zip` crate; what it
//! reports for given bytes is a function of the bytes alone, named here by
//! [`zip_parses`] and [`zip_entries`].

use vstd::prelude::*;

use crate::error::{ArchiveIssue, CaseFileId};
use crate::problems::tasks::ProblemTask;

verus! {

/// One entry of an archive, reduced to plain values.
#[derive(Debug)]
pub struct ArchiveEntry {
    /// Whether the entry is a symbolic link.
    pub symlink: bool,
    /// Whether the entry is a directory.
    pub dir: bool,
    /// The entry's display name, used in error reports.
    pub name: String,
    /// The entry's path if it resolves safely inside the archive and is
    /// valid text; `None` for traversal attempts and non-text names.
    pub path: Option<String>,
}

/// Whether the bytes parse as a zip archive's central directory. The
/// outcome depends on the bytes alone.
pub uninterp spec fn zip_parses(bytes: Seq<u8>) -> bool;

/// The entries the archive lists, in order; `None` stands for an entry
/// whose metadata cannot be read back. The outcome depends on the bytes
/// alone.
pub uninterp spec fn zip_entries(bytes: Seq<u8>) -> Seq<Option<ArchiveEntry>>;

#[verifier::external_type_specification]
#[verifier::external_body]
#[verifier::reject_recursive_types(R)]
pub struct ExZipArchive<R>(zip::read::ZipArchive<R>);

#[verifier::external_type_specification]
#[verifier::external_body]
#[verifier::reject_recursive_types(T)]
pub struct ExCursor<T>(std::io::Cursor<T>);

#[verifier::external_type_specification]
#[verifier::external_body]
pub struct ExZipError(zip::result::ZipError);

/// An open archive over an in-memory copy of the uploaded bytes; `raw`
/// keeps the bytes the reader was opened over.
pub struct CaseArchive {
    inner: zip::read::ZipArchive<std::io::Cursor<Vec<u8>>>,
    raw: Vec<u8>,
}

impl View for CaseArchive {
    type V = Seq<u8>;

    closed spec fn view(&self) -> Seq<u8> {
        self.raw@
    }
}

/// Relies on `zip::ZipArchive::new` over an in-memory cursor: whether the
/// central directory of `bytes` parses is a function of the bytes alone.
#[verifier::external_body]
fn archive_open(bytes: &Vec<u8>) -> (r: Result<CaseArchive, zip::result::ZipError>)
    ensures
        match r {
            Ok(a) => zip_parses(bytes@) && a@ == bytes@,
            Err(_) => !zip_parses(bytes@),
        },
{
    match zip::read::ZipArchive::new(std::io::Cursor::new(bytes.clone())) {
        Ok(inner) => Ok(CaseArchive { inner, raw: bytes.clone() }),
        Err(e) => Err(e),
    }
}

/// Relies on `zip::ZipArchive::len`: the number of entries the central
/// directory lists.
#[verifier::external_body]
fn archive_len(a: &CaseArchive) -> (n: usize)
    ensures
        n as int == zip_entries(a@).len(),
{
    a.inner.len()
}

/// Relies on `zip::ZipArchive::by_index` and the entry accessors
/// `is_symlink`, `is_dir`, `name` and `enclosed_name`: reads one entry's
/// metadata and converts it to plain values. `enclosed_name` yields the
/// traversal-safe path; a non-text path is treated like an unsafe one.
#[verifier::external_body]
fn archive_entry(a: &mut CaseArchive, i: usize) -> (r: Result<ArchiveEntry, zip::result::ZipError>)
    requires
        (i as int) < zip_entries(old(a)@).len(),
    ensures
        final(a)@ == old(a)@,
        match r {
            Ok(e) => zip_entries(old(a)@)[i as int] == Some(e),
            Err(_) => zip_entries(old(a)@)[i as int] is None,
        },
{
    let f = a.inner.by_index(i)?;
    Ok(ArchiveEntry {
        symlink: f.is_symlink(),
        dir: f.is_dir(),
        name: f.name().to_string(),
        path: f.enclosed_name().and_then(|p| p.to_str().map(|s| s.to_string())),
    })
}

/// The value of an ASCII digit.
pub open spec fn spec_digit(c: char) -> Option<int> {
    if c == '0' {
        Some(0)
    } else if c == '1' {
        Some(1)
    } else if c == '2' {
        Some(2)
    } else if c == '3' {
        Some(3)
    } else if c == '4' {
        Some(4)
    } else if c == '5' {
        Some(5)
    } else if c == '6' {
        Some(6)
    } else if c == '7' {
        Some(7)
    } else if c == '8' {
        Some(8)
    } else if c == '9' {
        Some(9)
    } else {
        None
    }
}

/// Decides [`spec_digit`].
pub(crate) fn digit_val(c: char) -> (r: Option<usize>)
    ensures
        match r {
            Some(d) => spec_digit(c) == Some(d as int) && d <= 9,
            None => spec_digit(c) is None,
        },
{
    match c {
        '0' => Some(0),
        '1' => Some(1),
        '2' => Some(2),
        '3' => Some(3),
        '4' => Some(4),
        '5' => Some(5),
        '6' => Some(6),
        '7' => Some(7),
        '8' => Some(8),
        '9' => Some(9),
        _ => None,
    }
}

/// Parses a path of the shape `test-case/TTCC/STDIN` or
/// `test-case/TTCC/STDOUT`, with `TT` the two-digit task index and `CC`
/// the two-digit case index; `true` stands for `STDIN`. Anything else is
/// `None`.
pub open spec fn spec_case_path(s: Seq<char>) -> Option<(int, int, bool)> {
    if s.len() != 20 && s.len() != 21 {
        None
    } else if !(s[0] == 't' && s[1] == 'e' && s[2] == 's' && s[3] == 't' && s[4] == '-' && s[5]
        == 'c' && s[6] == 'a' && s[7] == 's' && s[8] == 'e' && s[9] == '/') {
        None
    } else if spec_digit(s[10]) is None || spec_digit(s[11]) is None || spec_digit(s[12]) is None
        || spec_digit(s[13]) is None || s[14] != '/' {
        None
    } else {
        let t = spec_digit(s[10])->0 * 10 + spec_digit(s[11])->0;
        let c = spec_digit(s[12])->0 * 10 + spec_digit(s[13])->0;
        if s.len() == 20 {
            if s[15] == 'S' && s[16] == 'T' && s[17] == 'D' && s[18] == 'I' && s[19] == 'N' {
                Some((t, c, true))
            } else {
                None
            }
        } else {
            if s[15] == 'S' && s[16] == 'T' && s[17] == 'D' && s[18] == 'O' && s[19] == 'U' && s[20]
                == 'T' {
                Some((t, c, false))
            } else {
                None
            }
        }
    }
}

/// Decides [`spec_case_path`]. Parsed indices are below one hundred.
fn parse_case_path(s: &str) -> (r: Option<(usize, usize, bool)>)
    ensures
        match r {
            Some((t, c, st)) => {
                &&& spec_case_path(s@) == Some((t as int, c as int, st))
                &&& t < 100
                &&& c < 100
            },
            None => spec_case_path(s@) is None,
        },
{
    let n = s.unicode_len();
    if n != 20 && n != 21 {
        return None;
    }
    if !(s.get_char(0) == 't' && s.get_char(1) == 'e' && s.get_char(2) == 's' && s.get_char(3)
        == 't' && s.get_char(4) == '-' && s.get_char(5) == 'c' && s.get_char(6) == 'a' && s.get_char(
        7,
    ) == 's' && s.get_char(8) == 'e' && s.get_char(9) == '/') {
        return None;
    }
    let d0 = match digit_val(s.get_char(10)) {
        Some(d) => d,
        None => {
            return None;
        },
    };
    let d1 = match digit_val(s.get_char(11)) {
        Some(d) => d,
        None => {
            return None;
        },
    };
    let d2 = match digit_val(s.get_char(12)) {
        Some(d) => d,
        None => {
            return None;
        },
    };
    let d3 = match digit_val(s.get_char(13)) {
        Some(d) => d,
        None => {
            return None;
        },
    };
    if s.get_char(14) != '/' {
        return None;
    }
    let t = d0 * 10 + d1;
    let c = d2 * 10 + d3;
    if n == 20 {
        if s.get_char(15) == 'S' && s.get_char(16) == 'T' && s.get_char(17) == 'D' && s.get_char(18)
            == 'I' && s.get_char(19) == 'N' {
            Some((t, c, true))
        } else {
            None
        }
    } else {
        if s.get_char(15) == 'S' && s.get_char(16) == 'T' && s.get_char(17) == 'D' && s.get_char(18)
            == 'O' && s.get_char(19) == 'U' && s.get_char(20) == 'T' {
            Some((t, c, false))
        } else {
            None
        }
    }
}

/// The expected file set of a task list: both halves of every case of
/// every task.
pub open spec fn spec_expected(ts: Seq<ProblemTask>) -> Set<(int, int, bool)> {
    Set::new(|x: (int, int, bool)| 0 <= x.0 < ts.len() && 0 <= x.1 < ts[x.0].test_case_count)
}

/// Whether the task list needs indices the two-digit naming scheme cannot
/// express.
pub open spec fn spec_index_overflow(ts: Seq<ProblemTask>) -> bool {
    ts.len() > 100 || exists|i: int|
        0 <= i < ts.len() && (#[trigger] ts[i]).test_case_count > 100
}

/// One step of the entry scan: what a single archive entry does to the
/// set of matched expected files, or the complaint it raises.
pub open spec fn spec_entry_step(
    ts: Seq<ProblemTask>,
    oe: Option<ArchiveEntry>,
    seen: Set<(int, int, bool)>,
) -> Result<Set<(int, int, bool)>, ArchiveIssue> {
    match oe {
        None => Err(ArchiveIssue::Unreadable),
        Some(e) => {
            if e.symlink {
                Err(ArchiveIssue::Symlink(e.name))
            } else if e.dir {
                Ok(seen)
            } else {
                match e.path {
                    None => Err(ArchiveIssue::UnsafePath(e.name)),
                    Some(p) => match spec_case_path(p@) {
                        Some((t, c, st)) => {
                            if 0 <= t < ts.len() && 0 <= c < ts[t].test_case_count
                                && !seen.contains((t, c, st)) {
                                Ok(seen.insert((t, c, st)))
                            } else {
                                Err(ArchiveIssue::ExtraOrDuplicate(e.name))
                            }
                        },
                        None => Err(ArchiveIssue::ExtraOrDuplicate(e.name)),
                    },
                }
            }
        },
    }
}

/// The whole entry scan, left to right.
pub open spec fn spec_scan(
    ts: Seq<ProblemTask>,
    es: Seq<Option<ArchiveEntry>>,
    seen: Set<(int, int, bool)>,
) -> Result<Set<(int, int, bool)>, ArchiveIssue>
    decreases es.len(),
{
    if es.len() == 0 {
        Ok(seen)
    } else {
        match spec_entry_step(ts, es[0], seen) {
            Ok(seen2) => spec_scan(ts, es.drop_first(), seen2),
            Err(e) => Err(e),
        }
    }
}

/// The expected files of cases `0..count` of task `t` that were never
/// seen, in case order, `STDIN` before `STDOUT`.
pub open spec fn spec_missing_cases(seen: Set<(int, int, bool)>, t: int, count: int) -> Seq<
    CaseFileId,
>
    decreases count,
{
    if count <= 0 {
        Seq::empty()
    } else {
        spec_missing_cases(seen, t, count - 1) + (if seen.contains((t, count - 1, true)) {
            Seq::empty()
        } else {
            seq![CaseFileId { task: t as usize, case: (count - 1) as usize, stdin: true }]
        }) + (if seen.contains((t, count - 1, false)) {
            Seq::empty()
        } else {
            seq![CaseFileId { task: t as usize, case: (count - 1) as usize, stdin: false }]
        })
    }
}

/// The expected files of tasks `0..n` that were never seen, in task
/// order.
pub open spec fn spec_missing_tasks(
    ts: Seq<ProblemTask>,
    seen: Set<(int, int, bool)>,
    n: int,
) -> Seq<CaseFileId>
    decreases n,
{
    if n <= 0 {
        Seq::empty()
    } else {
        spec_missing_tasks(ts, seen, n - 1) + spec_missing_cases(
            seen,
            n - 1,
            ts[n - 1].test_case_count as int,
        )
    }
}

/// Every expected file the scan never matched, in task order, then case
/// order, `STDIN` before `STDOUT`.
pub open spec fn spec_missing(ts: Seq<ProblemTask>, seen: Set<(int, int, bool)>) -> Seq<
    CaseFileId,
> {
    spec_missing_tasks(ts, seen, ts.len() as int)
}

} // verus!

verus! {

/// Which expected files have been matched so far: one pair of marks per
/// task/case slot, in a flat matrix of one hundred case slots per task.
struct SeenSet {
    cells: Vec<(bool, bool)>,
}

impl SeenSet {
    /// The matched set this matrix stands for.
    pub closed spec fn set_view(self) -> Set<(int, int, bool)> {
        Set::new(
            |x: (int, int, bool)|
                0 <= x.0 && 0 <= x.1 < 100 && x.0 * 100 + x.1 < self.cells@.len() && (if x.2 {
                    self.cells@[x.0 * 100 + x.1].0
                } else {
                    self.cells@[x.0 * 100 + x.1].1
                }),
        )
    }

    pub closed spec fn slots(self) -> int {
        self.cells@.len() as int
    }

    /// An empty matrix for `n_tasks` tasks.
    #[verifier::loop_isolation(false)]
    fn new(n_tasks: usize) -> (r: Self)
        requires
            n_tasks <= 100,
        ensures
            r.slots() == n_tasks * 100,
            r.set_view() == Set::<(int, int, bool)>::empty(),
    {
        let total = n_tasks * 100;
        let mut cells: Vec<(bool, bool)> = Vec::new();
        for k in 0..total
            invariant
                cells@.len() == k,
                forall|i: int| 0 <= i < k ==> #[trigger] cells@[i] == (false, false),
        {
            cells.push((false, false));
        }
        let r = SeenSet { cells };
        proof {
            assert forall|x: (int, int, bool)| !r.set_view().contains(x) by {
                if 0 <= x.0 && 0 <= x.1 < 100 && x.0 * 100 + x.1 < r.cells@.len() {
                    assert(r.cells@[x.0 * 100 + x.1] == (false, false));
                }
            }
            assert(r.set_view() =~= Set::<(int, int, bool)>::empty());
        }
        r
    }

    /// Whether the slot is already marked.
    fn is_marked(&self, t: usize, c: usize, st: bool) -> (b: bool)
        requires
            t < 100,
            c < 100,
            t * 100 + c < self.slots(),
        ensures
            b == self.set_view().contains((t as int, c as int, st)),
    {
        let cell = self.cells[t * 100 + c];
        if st {
            cell.0
        } else {
            cell.1
        }
    }

    /// Marks the slot.
    fn mark(&mut self, t: usize, c: usize, st: bool)
        requires
            t < 100,
            c < 100,
            t * 100 + c < old(self).slots(),
        ensures
            final(self).slots() == old(self).slots(),
            final(self).set_view() == old(self).set_view().insert((t as int, c as int, st)),
    {
        let idx = t * 100 + c;
        let cell = self.cells[idx];
        let updated = if st {
            (true, cell.1)
        } else {
            (cell.0, true)
        };
        self.cells.set(idx, updated);
        proof {
            let sv0 = old(self).set_view();
            let sv1 = self.set_view();
            assert forall|x: (int, int, bool)|
                sv1.contains(x) == sv0.insert((t as int, c as int, st)).contains(x) by {
                let j = x.0 * 100 + x.1;
                if 0 <= x.0 && 0 <= x.1 < 100 && j < self.cells@.len() {
                    if j == idx as int {
                        assert(x.0 == t as int && x.1 == c as int);
                    } else {
                        assert(self.cells@[j] == old(self).cells@[j]);
                    }
                }
            }
            assert(sv1 =~= sv0.insert((t as int, c as int, st)));
        }
    }
}

/// Decides [`spec_index_overflow`]: whether the task list needs indices
/// beyond the two-digit naming scheme.
#[verifier::loop_isolation(false)]
fn index_overflows(tasks: &Vec<ProblemTask>) -> (b: bool)
    ensures
        b == spec_index_overflow(tasks@),
{
    if tasks.len() > 100 {
        return true;
    }
    let n = tasks.len();
    for i in 0..n
        invariant
            forall|j: int| 0 <= j < i ==> (#[trigger] tasks@[j]).test_case_count <= 100,
    {
        if tasks[i].test_case_count > 100 {
            return true;
        }
    }
    false
}

/// Applies one archive entry to the scan state, as [`spec_entry_step`]
/// describes.
fn entry_step(tasks: &Vec<ProblemTask>, e: &ArchiveEntry, seen: &mut SeenSet) -> (r: Result<
    (),
    ArchiveIssue,
>)
    requires
        tasks@.len() <= 100,
        old(seen).slots() == tasks@.len() * 100,
    ensures
        final(seen).slots() == old(seen).slots(),
        match r {
            Ok(_) => spec_entry_step(tasks@, Some(*e), old(seen).set_view()) == Ok::<
                Set<(int, int, bool)>,
                ArchiveIssue,
            >(final(seen).set_view()),
            Err(err) => {
                &&& spec_entry_step(tasks@, Some(*e), old(seen).set_view()) == Err::<
                    Set<(int, int, bool)>,
                    ArchiveIssue,
                >(err)
                &&& *final(seen) == *old(seen)
            },
        },
{
    if e.symlink {
        return Err(ArchiveIssue::Symlink(e.name.clone()));
    }
    if e.dir {
        return Ok(());
    }
    let p = match &e.path {
        Some(p) => p,
        None => {
            return Err(ArchiveIssue::UnsafePath(e.name.clone()));
        },
    };
    match parse_case_path(p.as_str()) {
        Some((t, c, st)) => {
            let in_range = t < tasks.len() && (c as i32) < tasks[t].test_case_count;
            if in_range && !seen.is_marked(t, c, st) {
                seen.mark(t, c, st);
                Ok(())
            } else {
                Err(ArchiveIssue::ExtraOrDuplicate(e.name.clone()))
            }
        },
        None => Err(ArchiveIssue::ExtraOrDuplicate(e.name.clone())),
    }
}

/// Collects every expected file the scan never matched, as
/// [`spec_missing`] lists them.
#[verifier::loop_isolation(false)]
fn collect_missing(tasks: &Vec<ProblemTask>, seen: &SeenSet) -> (v: Vec<CaseFileId>)
    requires
        !spec_index_overflow(tasks@),
        seen.slots() == tasks@.len() * 100,
    ensures
        v@ == spec_missing(tasks@, seen.set_view()),
{
    let ghost sv = seen.set_view();
    let mut v: Vec<CaseFileId> = Vec::new();
    let n = tasks.len();
    for t in 0..n
        invariant
            v@ =~= spec_missing_tasks(tasks@, sv, t as int),
    {
        let count = tasks[t].test_case_count;
        let cnt: usize = if count < 0 {
            0
        } else {
            count as usize
        };
        assert(spec_missing_cases(sv, t as int, 0) =~= Seq::<CaseFileId>::empty());
        for c in 0..cnt
            invariant
                cnt <= 100,
                cnt as int == (if count < 0 {
                    0int
                } else {
                    count as int
                }),
                v@ =~= spec_missing_tasks(tasks@, sv, t as int) + spec_missing_cases(
                    sv,
                    t as int,
                    c as int,
                ),
        {
            if !seen.is_marked(t, c, true) {
                v.push(CaseFileId { task: t, case: c, stdin: true });
            }
            if !seen.is_marked(t, c, false) {
                v.push(CaseFileId { task: t, case: c, stdin: false });
            }
            proof {
                assert(spec_missing_cases(sv, t as int, c as int + 1) =~= spec_missing_cases(
                    sv,
                    t as int,
                    c as int,
                ) + (if sv.contains((t as int, c as int, true)) {
                    Seq::<CaseFileId>::empty()
                } else {
                    seq![CaseFileId { task: t, case: c, stdin: true }]
                }) + (if sv.contains((t as int, c as int, false)) {
                    Seq::<CaseFileId>::empty()
                } else {
                    seq![CaseFileId { task: t, case: c, stdin: false }]
                }));
            }
        }
        proof {
            assert(spec_missing_tasks(tasks@, sv, t as int + 1) =~= spec_missing_tasks(
                tasks@,
                sv,
                t as int,
            ) + spec_missing_cases(sv, t as int, tasks@[t as int].test_case_count as int));
            assert(spec_missing_cases(sv, t as int, tasks@[t as int].test_case_count as int)
                =~= spec_missing_cases(sv, t as int, cnt as int));
        }
    }
    v
}

/// A fully acceptable archive: the container parses, the task list is
/// expressible, the scan raises no complaint, and every expected file
/// appeared.
pub open spec fn spec_archive_ok(ts: Seq<ProblemTask>, bytes: Seq<u8>) -> bool {
    &&& zip_parses(bytes)
    &&& !spec_index_overflow(ts)
    &&& spec_scan(ts, zip_entries(bytes), Set::empty()) matches Ok(seen) && spec_missing(ts, seen).len() == 0
}

/// Maps read entries to the scan's alphabet.
pub open spec fn spec_entry_opts(es: Seq<ArchiveEntry>) -> Seq<Option<ArchiveEntry>> {
    es.map_values(|e: ArchiveEntry| Some(e))
}

/// Checks a fully read entry list against the task list: the pure tail of
/// the validation, usable on any entry list however it was obtained.
///
/// The result is exactly what the scan and the missing-file check say:
/// oversized task lists are rejected; otherwise the first offending entry
/// (in order) decides the error; otherwise the expected files that never
/// appeared are listed; otherwise the archive is accepted.
#[verifier::loop_isolation(false)]
pub fn check_entries(tasks: &Vec<ProblemTask>, entries: &Vec<ArchiveEntry>) -> (r: Result<
    (),
    ArchiveIssue,
>)
    ensures
        spec_index_overflow(tasks@) ==> r == Err::<(), ArchiveIssue>(ArchiveIssue::IndexOverflow),
        !spec_index_overflow(tasks@) ==> match spec_scan(
            tasks@,
            spec_entry_opts(entries@),
            Set::empty(),
        ) {
            Err(e) => r == Err::<(), ArchiveIssue>(e),
            Ok(seen) => if spec_missing(tasks@, seen).len() == 0 {
                r == Ok::<(), ArchiveIssue>(())
            } else {
                r matches Err(ArchiveIssue::Missing(v)) && v@ == spec_missing(tasks@, seen)
            },
        },
{
    if index_overflows(tasks) {
        return Err(ArchiveIssue::IndexOverflow);
    }
    let ghost es = spec_entry_opts(entries@);
    let mut seen = SeenSet::new(tasks.len());
    let n = entries.len();
    assert(es.skip(0) =~= es);
    for i in 0..n
        invariant
            n == es.len(),
            seen.slots() == tasks@.len() * 100,
            spec_scan(tasks@, es, Set::empty()) == spec_scan(
                tasks@,
                es.skip(i as int),
                seen.set_view(),
            ),
    {
        proof {
            assert(es.skip(i as int)[0] == es[i as int]);
            assert(es[i as int] == Some(entries@[i as int]));
            assert(es.skip(i as int).drop_first() =~= es.skip(i as int + 1));
        }
        match entry_step(tasks, &entries[i], &mut seen) {
            Ok(_) => {},
            Err(err) => {
                return Err(err);
            },
        }
    }
    proof {
        assert(es.skip(n as int) =~= Seq::<Option<ArchiveEntry>>::empty());
    }
    let missing = collect_missing(tasks, &seen);
    if missing.len() == 0 {
        proof {
            assert(missing@ =~= Seq::<CaseFileId>::empty());
        }
        Ok(())
    } else {
        Err(ArchiveIssue::Missing(missing))
    }
}

/// Validates uploaded archive bytes against the problem's task list, as
/// the module description lays out. Never mutates any stored state.
///
/// The result is a function of the bytes and the task list: a container
/// that does not parse is `Unreadable`; an oversized task list is
/// rejected; otherwise the entries are scanned in order and the first
/// offense decides, and a clean scan must have matched every expected
/// file.
#[verifier::loop_isolation(false)]
pub fn validate_test_case(tasks: &Vec<ProblemTask>, bytes: &Vec<u8>) -> (r: Result<
    (),
    ArchiveIssue,
>)
    ensures
        r is Ok <==> spec_archive_ok(tasks@, bytes@),
        !zip_parses(bytes@) ==> r == Err::<(), ArchiveIssue>(ArchiveIssue::Unreadable),
        (zip_parses(bytes@) && spec_index_overflow(tasks@)) ==> r == Err::<(), ArchiveIssue>(
            ArchiveIssue::IndexOverflow,
        ),
        (zip_parses(bytes@) && !spec_index_overflow(tasks@)) ==> match spec_scan(
            tasks@,
            zip_entries(bytes@),
            Set::empty(),
        ) {
            Err(e) => r == Err::<(), ArchiveIssue>(e),
            Ok(seen) => if spec_missing(tasks@, seen).len() == 0 {
                r == Ok::<(), ArchiveIssue>(())
            } else {
                r matches Err(ArchiveIssue::Missing(v)) && v@ == spec_missing(tasks@, seen)
            },
        },
{
    let mut a = match archive_open(bytes) {
        Ok(a) => a,
        Err(_) => {
            return Err(ArchiveIssue::Unreadable);
        },
    };
    if index_overflows(tasks) {
        return Err(ArchiveIssue::IndexOverflow);
    }
    let ghost es = zip_entries(bytes@);
    let mut seen = SeenSet::new(tasks.len());
    let n = archive_len(&a);
    assert(es.skip(0) =~= es);
    for i in 0..n
        invariant
            a@ == bytes@,
            n == es.len(),
            seen.slots() == tasks@.len() * 100,
            spec_scan(tasks@, es, Set::empty()) == spec_scan(
                tasks@,
                es.skip(i as int),
                seen.set_view(),
            ),
    {
        proof {
            assert(es.skip(i as int)[0] == es[i as int]);
            assert(es.skip(i as int).drop_first() =~= es.skip(i as int + 1));
        }
        let e = match archive_entry(&mut a, i) {
            Ok(e) => e,
            Err(_) => {
                return Err(ArchiveIssue::Unreadable);
            },
        };
        match entry_step(tasks, &e, &mut seen) {
            Ok(_) => {},
            Err(err) => {
                return Err(err);
            },
        }
    }
    proof {
        assert(es.skip(n as int) =~= Seq::<Option<ArchiveEntry>>::empty());
    }
    let missing = collect_missing(tasks, &seen);
    if missing.len() == 0 {
        proof {
            assert(missing@ =~= Seq::<CaseFileId>::empty());
        }
        Ok(())
    } else {
        Err(ArchiveIssue::Missing(missing))
    }
}

} // verus!

verus! {

/// The expected-file id a file entry carries: `Some` only for a readable
/// non-symlink, non-directory entry whose safe path parses as a case
/// path.
pub open spec fn spec_entry_file_id(oe: Option<ArchiveEntry>) -> Option<(int, int, bool)> {
    match oe {
        Some(e) => if !e.symlink && !e.dir {
            match e.path {
                Some(p) => spec_case_path(p@),
                None => None,
            }
        } else {
            None
        },
        None => None,
    }
}

/// An entry the scan passes without complaint: readable, no symlink, and
/// either a directory or a file naming an expected id.
pub open spec fn spec_entry_clean(ts: Seq<ProblemTask>, oe: Option<ArchiveEntry>) -> bool {
    oe matches Some(e) && !e.symlink && (e.dir || (spec_entry_file_id(oe) matches Some(id)
        && spec_expected(ts).contains(id)))
}

/// The ids of all file entries of a listing.
pub open spec fn spec_file_ids(es: Seq<Option<ArchiveEntry>>) -> Set<(int, int, bool)>
    decreases es.len(),
{
    if es.len() == 0 {
        Set::empty()
    } else {
        let rest = spec_file_ids(es.drop_first());
        match spec_entry_file_id(es[0]) {
            Some(id) => rest.insert(id),
            None => rest,
        }
    }
}

/// A scan of clean entries with fresh, pairwise distinct ids never
/// complains, and matches exactly the ids the entries carry.
pub proof fn lemma_scan_clean(
    ts: Seq<ProblemTask>,
    es: Seq<Option<ArchiveEntry>>,
    s0: Set<(int, int, bool)>,
)
    requires
        forall|i: int| 0 <= i < es.len() ==> spec_entry_clean(ts, #[trigger] es[i]),
        forall|i: int|
            0 <= i < es.len() ==> (spec_entry_file_id(#[trigger] es[i]) is Some ==> !s0.contains(
                spec_entry_file_id(es[i])->0,
            )),
        forall|i: int, j: int|
            0 <= i < j < es.len() ==> !(spec_entry_file_id(#[trigger] es[i]) is Some
                && spec_entry_file_id(#[trigger] es[j]) is Some && spec_entry_file_id(es[i])->0
                == spec_entry_file_id(es[j])->0),
    ensures
        spec_scan(ts, es, s0) == Ok::<Set<(int, int, bool)>, crate::error::ArchiveIssue>(
            s0.union(spec_file_ids(es)),
        ),
    decreases es.len(),
{
    if es.len() == 0 {
        assert(s0.union(spec_file_ids(es)) =~= s0);
    } else {
        let rest = es.drop_first();
        assert forall|i: int| 0 <= i < rest.len() implies spec_entry_clean(
            ts,
            #[trigger] rest[i],
        ) by {
            assert(rest[i] == es[i + 1]);
        }
        match spec_entry_file_id(es[0]) {
            Some(id) => {
                assert(spec_entry_step(ts, es[0], s0) == Ok::<
                    Set<(int, int, bool)>,
                    crate::error::ArchiveIssue,
                >(s0.insert(id)));
                assert forall|i: int|
                    0 <= i < rest.len() implies (spec_entry_file_id(#[trigger] rest[i]) is Some
                    ==> !s0.insert(id).contains(spec_entry_file_id(rest[i])->0)) by {
                    assert(rest[i] == es[i + 1]);
                }
                assert forall|i: int, j: int|
                    0 <= i < j < rest.len() implies !(spec_entry_file_id(#[trigger] rest[i])
                    is Some && spec_entry_file_id(#[trigger] rest[j]) is Some && spec_entry_file_id(
                    rest[i],
                )->0 == spec_entry_file_id(rest[j])->0) by {
                    assert(rest[i] == es[i + 1] && rest[j] == es[j + 1]);
                }
                lemma_scan_clean(ts, rest, s0.insert(id));
                assert(s0.insert(id).union(spec_file_ids(rest)) =~= s0.union(
                    spec_file_ids(es),
                ));
            },
            None => {
                assert(es[0] matches Some(e) && !e.symlink && e.dir);
                assert(spec_entry_step(ts, es[0], s0) == Ok::<
                    Set<(int, int, bool)>,
                    crate::error::ArchiveIssue,
                >(s0));
                assert forall|i: int|
                    0 <= i < rest.len() implies (spec_entry_file_id(#[trigger] rest[i]) is Some
                    ==> !s0.contains(spec_entry_file_id(rest[i])->0)) by {
                    assert(rest[i] == es[i + 1]);
                }
                assert forall|i: int, j: int|
                    0 <= i < j < rest.len() implies !(spec_entry_file_id(#[trigger] rest[i])
                    is Some && spec_entry_file_id(#[trigger] rest[j]) is Some && spec_entry_file_id(
                    rest[i],
                )->0 == spec_entry_file_id(rest[j])->0) by {
                    assert(rest[i] == es[i + 1] && rest[j] == es[j + 1]);
                }
                lemma_scan_clean(ts, rest, s0);
                assert(s0.union(spec_file_ids(rest)) =~= s0.union(spec_file_ids(es)));
            },
        }
    }
}

/// A scan that ends without complaint passed only clean entries.
pub proof fn lemma_scan_ok_clean(
    ts: Seq<ProblemTask>,
    es: Seq<Option<ArchiveEntry>>,
    s0: Set<(int, int, bool)>,
)
    requires
        spec_scan(ts, es, s0) is Ok,
    ensures
        forall|i: int| 0 <= i < es.len() ==> spec_entry_clean(ts, #[trigger] es[i]),
    decreases es.len(),
{
    if es.len() != 0 {
        let step = spec_entry_step(ts, es[0], s0);
        assert(step is Ok);
        assert(spec_entry_clean(ts, es[0]));
        lemma_scan_ok_clean(ts, es.drop_first(), step->Ok_0);
        assert forall|i: int| 0 <= i < es.len() implies spec_entry_clean(
            ts,
            #[trigger] es[i],
        ) by {
            if i > 0 {
                assert(es.drop_first()[i - 1] == es[i]);
            }
        }
    }
}

/// A scan that ends without complaint saw no id twice, nor one already
/// matched before it started.
pub proof fn lemma_scan_ok_distinct(
    ts: Seq<ProblemTask>,
    es: Seq<Option<ArchiveEntry>>,
    s0: Set<(int, int, bool)>,
)
    requires
        spec_scan(ts, es, s0) is Ok,
    ensures
        forall|i: int|
            0 <= i < es.len() ==> (spec_entry_file_id(#[trigger] es[i]) is Some ==> !s0.contains(
                spec_entry_file_id(es[i])->0,
            )),
        forall|i: int, j: int|
            0 <= i < j < es.len() ==> !(spec_entry_file_id(#[trigger] es[i]) is Some
                && spec_entry_file_id(#[trigger] es[j]) is Some && spec_entry_file_id(es[i])->0
                == spec_entry_file_id(es[j])->0),
    decreases es.len(),
{
    if es.len() != 0 {
        let step = spec_entry_step(ts, es[0], s0);
        assert(step is Ok);
        let s1 = step->Ok_0;
        lemma_scan_ok_distinct(ts, es.drop_first(), s1);
        assert forall|i: int|
            0 <= i < es.len() implies (spec_entry_file_id(#[trigger] es[i]) is Some
            ==> !s0.contains(spec_entry_file_id(es[i])->0)) by {
            if i > 0 && spec_entry_file_id(es[i]) is Some {
                assert(es.drop_first()[i - 1] == es[i]);
                assert(!s1.contains(spec_entry_file_id(es[i])->0));
                assert(s0.subset_of(s1));
            }
        }
        assert forall|i: int, j: int|
            0 <= i < j < es.len() implies !(spec_entry_file_id(#[trigger] es[i]) is Some
            && spec_entry_file_id(#[trigger] es[j]) is Some && spec_entry_file_id(es[i])->0
            == spec_entry_file_id(es[j])->0) by {
            if i == 0 {
                if spec_entry_file_id(es[0]) is Some && spec_entry_file_id(es[j]) is Some {
                    let id = spec_entry_file_id(es[0])->0;
                    assert(s1 == s0.insert(id));
                    assert(es.drop_first()[j - 1] == es[j]);
                    assert(!s1.contains(spec_entry_file_id(es[j])->0));
                }
            } else {
                assert(es.drop_first()[i - 1] == es[i] && es.drop_first()[j - 1] == es[j]);
            }
        }
    }
}

/// No file of cases `0..n` of task `t` is missing exactly when every one
/// of them was seen.
pub proof fn lemma_missing_cases_empty(seen: Set<(int, int, bool)>, t: int, n: int)
    ensures
        (spec_missing_cases(seen, t, n).len() == 0) <==> (forall|c: int|
            0 <= c < n ==> seen.contains((t, c, true)) && seen.contains((t, c, false))),
    decreases n,
{
    if n > 0 {
        lemma_missing_cases_empty(seen, t, n - 1);
    }
}

/// No file of tasks `0..n` is missing exactly when every expected file of
/// those tasks was seen.
pub proof fn lemma_missing_tasks_empty(ts: Seq<ProblemTask>, seen: Set<(int, int, bool)>, n: int)
    ensures
        (spec_missing_tasks(ts, seen, n).len() == 0) <==> (forall|t: int, c: int|
            0 <= t < n && 0 <= c < ts[t].test_case_count ==> seen.contains((t, c, true))
                && seen.contains((t, c, false))),
    decreases n,
{
    if n > 0 {
        lemma_missing_tasks_empty(ts, seen, n - 1);
        lemma_missing_cases_empty(seen, n - 1, ts[n - 1].test_case_count as int);
    }
}

/// An archive listing exactly the expected file set is accepted: every
/// entry is a clean file or directory, no id repeats, and every expected
/// id appears. This is the acceptance half of the validation's meaning,
/// for every task list the naming scheme can express.
pub proof fn lemma_exact_archive_accepted(ts: Seq<ProblemTask>, es: Seq<Option<ArchiveEntry>>)
    requires
        !spec_index_overflow(ts),
        forall|i: int| 0 <= i < es.len() ==> spec_entry_clean(ts, #[trigger] es[i]),
        forall|i: int, j: int|
            0 <= i < j < es.len() ==> !(spec_entry_file_id(#[trigger] es[i]) is Some
                && spec_entry_file_id(#[trigger] es[j]) is Some && spec_entry_file_id(es[i])->0
                == spec_entry_file_id(es[j])->0),
        forall|id: (int, int, bool)|
            spec_expected(ts).contains(id) ==> spec_file_ids(es).contains(id),
    ensures
        spec_scan(ts, es, Set::empty()) matches Ok(seen) && spec_missing(ts, seen).len() == 0,
{
    lemma_scan_clean(ts, es, Set::empty());
    let seen = Set::empty().union(spec_file_ids(es));
    lemma_missing_tasks_empty(ts, seen, ts.len() as int);
    assert forall|t: int, c: int|
        0 <= t < ts.len() && 0 <= c < ts[t].test_case_count implies seen.contains((t, c, true))
        && seen.contains((t, c, false)) by {
        assert(spec_expected(ts).contains((t, c, true)));
        assert(spec_expected(ts).contains((t, c, false)));
    }
}

/// Removing any one expected file from an otherwise exact archive makes
/// the validation fail with the missing-files complaint: the scan still
/// passes, but the expected set is not covered.
pub proof fn lemma_removed_file_rejected(
    ts: Seq<ProblemTask>,
    es: Seq<Option<ArchiveEntry>>,
    id0: (int, int, bool),
)
    requires
        !spec_index_overflow(ts),
        forall|i: int| 0 <= i < es.len() ==> spec_entry_clean(ts, #[trigger] es[i]),
        forall|i: int, j: int|
            0 <= i < j < es.len() ==> !(spec_entry_file_id(#[trigger] es[i]) is Some
                && spec_entry_file_id(#[trigger] es[j]) is Some && spec_entry_file_id(es[i])->0
                == spec_entry_file_id(es[j])->0),
        spec_expected(ts).contains(id0),
        !spec_file_ids(es).contains(id0),
    ensures
        spec_scan(ts, es, Set::empty()) matches Ok(seen) && spec_missing(ts, seen).len() != 0,
{
    lemma_scan_clean(ts, es, Set::empty());
    let seen = Set::empty().union(spec_file_ids(es));
    assert(!seen.contains(id0));
    lemma_missing_tasks_empty(ts, seen, ts.len() as int);
    if spec_missing(ts, seen).len() == 0 {
        assert(0 <= id0.0 < ts.len() && 0 <= id0.1 < ts[id0.0].test_case_count);
        assert(seen.contains((id0.0, id0.1, true)) && seen.contains((id0.0, id0.1, false)));
        assert(id0 == (id0.0, id0.1, id0.2));
        assert(false);
    }
}

/// A file entry that names no expected file — an unparsable or
/// out-of-range path, or an unsafe one — always makes the scan complain,
/// wherever it stands.
pub proof fn lemma_unexpected_file_rejected(
    ts: Seq<ProblemTask>,
    es: Seq<Option<ArchiveEntry>>,
    s0: Set<(int, int, bool)>,
    i: int,
)
    requires
        0 <= i < es.len(),
        !spec_entry_clean(ts, es[i]),
    ensures
        !(spec_scan(ts, es, s0) is Ok),
{
    if spec_scan(ts, es, s0) is Ok {
        lemma_scan_ok_clean(ts, es, s0);
    }
}

/// A file entry repeating another entry's id always makes the scan
/// complain: the second occurrence is a duplicate.
pub proof fn lemma_duplicate_file_rejected(
    ts: Seq<ProblemTask>,
    es: Seq<Option<ArchiveEntry>>,
    s0: Set<(int, int, bool)>,
    i: int,
    j: int,
)
    requires
        0 <= i < j < es.len(),
        spec_entry_file_id(es[i]) is Some,
        spec_entry_file_id(es[j]) is Some,
        spec_entry_file_id(es[i])->0 == spec_entry_file_id(es[j])->0,
    ensures
        !(spec_scan(ts, es, s0) is Ok),
{
    if spec_scan(ts, es, s0) is Ok {
        lemma_scan_ok_distinct(ts, es, s0);
    }
}

/// A symbolic-link entry always makes the scan complain, regardless of
/// its name.
pub proof fn lemma_symlink_rejected(
    ts: Seq<ProblemTask>,
    es: Seq<Option<ArchiveEntry>>,
    s0: Set<(int, int, bool)>,
    i: int,
)
    requires
        0 <= i < es.len(),
        es[i] matches Some(e) && e.symlink,
    ensures
        !(spec_scan(ts, es, s0) is Ok),
{
    if spec_scan(ts, es, s0) is Ok {
        lemma_scan_ok_clean(ts, es, s0);
        assert(spec_entry_clean(ts, es[i]));
    }
}

} // verus!
