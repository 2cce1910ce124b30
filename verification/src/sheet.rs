//! The batch-signup sheet: a fixed tabular grammar.
//!
//! The payload is lines separated by `\n` (a trailing `\r` per line is
//! tolerated), each line a comma-separated record; fields cannot contain
//! commas. The header must be exactly `username,email,password`,
//! optionally followed by `displayed_name`, optionally followed by
//! `role`. Every data row must have exactly the header's width; an empty
//! optional field reads as absent; a non-empty role must be an integer.
//! Any malformed row fails the whole sheet, fast.

use vstd::prelude::*;

use crate::archive::{digit_val, spec_digit};
use crate::error::{DomainError, ValidationIssue};
use crate::users::BatchSignupItem;

verus! {

/// The position of the first `sep` in `s`, if any.
pub open spec fn spec_first_sep(s: Seq<char>, sep: char) -> Option<int>
    decreases s.len(),
{
    if s.len() == 0 {
        None
    } else if s[0] == sep {
        Some(0)
    } else {
        match spec_first_sep(s.drop_first(), sep) {
            Some(i) => Some(i + 1),
            None => None,
        }
    }
}

/// A separator at `j` with none before it is the first one.
proof fn lemma_first_sep_at(s: Seq<char>, sep: char, j: int)
    requires
        0 <= j < s.len(),
        s[j] == sep,
        forall|k: int| 0 <= k < j ==> s[k] != sep,
    ensures
        spec_first_sep(s, sep) == Some(j),
    decreases j,
{
    if j > 0 {
        assert forall|k: int| 0 <= k < j - 1 implies s.drop_first()[k] != sep by {
            assert(s.drop_first()[k] == s[k + 1]);
        }
        assert(s.drop_first()[j - 1] == s[j]);
        lemma_first_sep_at(s.drop_first(), sep, j - 1);
    }
}

/// No separator anywhere means there is no first one.
proof fn lemma_first_sep_none(s: Seq<char>, sep: char)
    requires
        forall|k: int| 0 <= k < s.len() ==> s[k] != sep,
    ensures
        spec_first_sep(s, sep) is None,
    decreases s.len(),
{
    if s.len() > 0 {
        assert forall|k: int| 0 <= k < s.drop_first().len() implies s.drop_first()[k] != sep by {
            assert(s.drop_first()[k] == s[k + 1]);
        }
        lemma_first_sep_none(s.drop_first(), sep);
    }
}

/// A first separator, when there is one, lies inside the string.
proof fn lemma_first_sep_range(s: Seq<char>, sep: char)
    requires
        spec_first_sep(s, sep) is Some,
    ensures
        0 <= spec_first_sep(s, sep)->0 < s.len(),
        s[spec_first_sep(s, sep)->0] == sep,
    decreases s.len(),
{
    if s.len() > 0 && s[0] != sep {
        lemma_first_sep_range(s.drop_first(), sep);
        assert(s.drop_first()[spec_first_sep(s.drop_first(), sep)->0] == s[spec_first_sep(
            s.drop_first(),
            sep,
        )->0 + 1]);
    }
}

/// Splits `s` at every `sep`: always at least one field, and empty
/// fields are kept.
pub open spec fn spec_split(s: Seq<char>, sep: char) -> Seq<Seq<char>>
    decreases s.len(),
{
    match spec_first_sep(s, sep) {
        None => seq![s],
        Some(i) => if 0 <= i < s.len() {
            seq![s.take(i)] + spec_split(s.skip(i + 1), sep)
        } else {
            seq![s]
        },
    }
}

/// Computes [`spec_split`].
#[verifier::loop_isolation(false)]
fn split(s: &str, sep: char) -> (r: Vec<String>)
    ensures
        r@.map_values(|f: String| f@) == spec_split(s@, sep),
{
    let n = s.unicode_len();
    let mut fields: Vec<String> = Vec::new();
    let mut pos: usize = 0;
    proof {
        assert(s@.skip(0) =~= s@);
        assert(fields@.map_values(|f: String| f@) =~= Seq::<Seq<char>>::empty());
        assert(Seq::<Seq<char>>::empty() + spec_split(s@, sep) =~= spec_split(s@, sep));
    }
    loop
        invariant
            pos <= n,
            n == s@.len(),
            spec_split(s@, sep) == fields@.map_values(|f: String| f@) + spec_split(
                s@.skip(pos as int),
                sep,
            ),
        decreases n - pos,
    {
        // find the next separator at or after pos
        let mut j = pos;
        while j < n
            invariant
                pos <= j <= n,
                forall|k: int| pos <= k < j ==> s@[k] != sep,
            decreases n - j,
        {
            if s.get_char(j) == sep {
                break ;
            }
            j = j + 1;
        }
        let piece = s.substring_char(pos, j).to_owned();
        let ghost tail = s@.skip(pos as int);
        let ghost done = fields@.map_values(|f: String| f@);
        if j < n {
            proof {
                assert forall|k: int| 0 <= k < j - pos implies tail[k] != sep by {
                    assert(tail[k] == s@[pos + k]);
                }
                assert(tail[j - pos] == s@[j as int]);
                lemma_first_sep_at(tail, sep, j - pos);
                assert(spec_split(tail, sep) == seq![tail.take(j - pos)] + spec_split(
                    tail.skip(j - pos + 1),
                    sep,
                ));
                assert(tail.take(j - pos) =~= s@.subrange(pos as int, j as int));
                assert(piece@ == tail.take(j - pos));
                assert(tail.skip(j - pos + 1) =~= s@.skip(j as int + 1));
                assert((fields@.push(piece)).map_values(|f: String| f@) =~= done.push(piece@));
                assert(done.push(piece@) + spec_split(s@.skip(j as int + 1), sep) =~= done + (seq![
                    piece@,
                ] + spec_split(s@.skip(j as int + 1), sep)));
            }
            fields.push(piece);
            pos = j + 1;
        } else {
            proof {
                assert forall|k: int| 0 <= k < tail.len() implies tail[k] != sep by {
                    assert(tail[k] == s@[pos + k]);
                }
                lemma_first_sep_none(tail, sep);
                assert(piece@ =~= tail);
                assert(spec_split(tail, sep) == seq![tail]);
                assert((fields@.push(piece)).map_values(|f: String| f@) =~= done.push(piece@));
                assert(done.push(tail) =~= done + seq![tail]);
            }
            fields.push(piece);
            return fields;
        }
    }
}

/// The digit string's numeric value, most significant digit first;
/// meaningful only when every character is a digit.
pub open spec fn spec_digits_val(ds: Seq<char>) -> int
    decreases ds.len(),
{
    if ds.len() == 0 {
        0
    } else {
        spec_digits_val(ds.drop_last()) * 10 + (match spec_digit(ds.last()) {
            Some(d) => d,
            None => 0,
        })
    }
}

/// Whether every character is an ASCII digit.
pub open spec fn spec_all_digits(ds: Seq<char>) -> bool {
    forall|i: int| 0 <= i < ds.len() ==> spec_digit(#[trigger] ds[i]) is Some
}

/// Reads a decimal integer, with an optional leading minus: at most ten
/// digits, all numeric, and the value must fit an `i32`.
pub open spec fn spec_parse_i32(s: Seq<char>) -> Option<int> {
    let neg = s.len() > 0 && s[0] == '-';
    let ds = if neg {
        s.drop_first()
    } else {
        s
    };
    if ds.len() == 0 || ds.len() > 10 || !spec_all_digits(ds) {
        None
    } else {
        let v = if neg {
            -spec_digits_val(ds)
        } else {
            spec_digits_val(ds)
        };
        if i32::MIN <= v <= i32::MAX {
            Some(v)
        } else {
            None
        }
    }
}

/// Ten to the `n`-th power.
pub open spec fn spec_pow10(n: nat) -> int
    decreases n,
{
    if n == 0 {
        1
    } else {
        10 * spec_pow10((n - 1) as nat)
    }
}

/// Powers of ten grow with the exponent.
proof fn lemma_pow10_le(a: nat, b: nat)
    requires
        a <= b,
    ensures
        spec_pow10(a) <= spec_pow10(b),
        spec_pow10(a) >= 1,
    decreases b,
{
    if b > 0 {
        if a == b {
            lemma_pow10_le((a - 1) as nat, (b - 1) as nat);
        } else {
            lemma_pow10_le(a, (b - 1) as nat);
        }
    }
}

/// A digit string's value is below ten to its length.
proof fn lemma_digits_val_bound(ds: Seq<char>)
    requires
        spec_all_digits(ds),
    ensures
        0 <= spec_digits_val(ds) < spec_pow10(ds.len()),
    decreases ds.len(),
{
    if ds.len() == 0 {
    } else {
        assert forall|i: int| 0 <= i < ds.drop_last().len() implies spec_digit(
            #[trigger] ds.drop_last()[i],
        ) is Some by {
            assert(ds.drop_last()[i] == ds[i]);
        }
        lemma_digits_val_bound(ds.drop_last());
        assert(spec_digit(ds.last()) is Some);
        assert((match spec_digit(ds.last()) {
            Some(d) => d,
            None => 0,
        }) <= 9);
    }
}

/// Decides [`spec_parse_i32`].
#[verifier::loop_isolation(false)]
fn parse_i32(s: &str) -> (r: Option<i32>)
    ensures
        match r {
            Some(v) => spec_parse_i32(s@) == Some(v as int),
            None => spec_parse_i32(s@) is None,
        },
{
    let n = s.unicode_len();
    let neg = n > 0 && s.get_char(0) == '-';
    let start: usize = if neg {
        1
    } else {
        0
    };
    let ghost ds = if neg {
        s@.drop_first()
    } else {
        s@
    };
    assert(ds.len() == n - start);
    if n - start == 0 || n - start > 10 {
        return None;
    }
    let mut val: i64 = 0;
    let mut k = start;
    while k < n
        invariant
            start <= k <= n,
            n == s@.len(),
            n - start <= 10,
            ds == (if neg {
                s@.drop_first()
            } else {
                s@
            }),
            ds.len() == n - start,
            spec_all_digits(ds.take(k - start)),
            val == spec_digits_val(ds.take(k - start)),
            0 <= val < spec_pow10((k - start) as nat),
        decreases n - k,
    {
        let c = s.get_char(k);
        let d = match digit_val(c) {
            Some(d) => d,
            None => {
                proof {
                    assert(ds[k - start] == c);
                }
                return None;
            },
        };
        proof {
            assert(ds.take(k - start + 1).drop_last() =~= ds.take(k - start));
            assert(ds.take(k - start + 1).last() == ds[k - start]);
            assert(ds[k - start] == c);
            lemma_pow10_le((k - start) as nat, 9nat);
            reveal_with_fuel(spec_pow10, 11);
            assert(spec_pow10(9nat) == 1000000000);
        }
        val = val * 10 + (d as i64);
        k = k + 1;
    }
    proof {
        assert(ds.take(n - start) =~= ds);
    }
    let signed: i64 = if neg {
        -val
    } else {
        val
    };
    if signed < -0x80000000i64 || signed > 0x7fffffffi64 {
        return None;
    }
    Some(signed as i32)
}

/// The sheet's lines: split on `\n`, each line's trailing `\r` removed,
/// and one final empty line (from a trailing newline) dropped.
pub open spec fn spec_sheet_lines(text: Seq<char>) -> Seq<Seq<char>> {
    let raw = spec_split(text, '\n').map_values(
        |l: Seq<char>|
            if l.len() > 0 && l.last() == '\r' {
                l.drop_last()
            } else {
                l
            },
    );
    if raw.len() > 0 && raw.last().len() == 0 {
        raw.drop_last()
    } else {
        raw
    }
}

/// How many columns a well-formed header declares, if it is one of the
/// three accepted shapes.
pub open spec fn spec_header_cols(h: Seq<Seq<char>>) -> Option<int> {
    if h == seq!["username"@, "email"@, "password"@] {
        Some(3)
    } else if h == seq!["username"@, "email"@, "password"@, "displayed_name"@] {
        Some(4)
    } else if h == seq!["username"@, "email"@, "password"@, "displayed_name"@, "role"@] {
        Some(5)
    } else {
        None
    }
}

/// Whether a data row fits the declared width, with a role column that
/// is empty or numeric.
pub open spec fn spec_row_ok(fields: Seq<Seq<char>>, cols: int) -> bool {
    &&& fields.len() == cols
    &&& (cols >= 5 && fields[4].len() > 0 ==> spec_parse_i32(fields[4]) is Some)
}

/// Whether the whole sheet parses: a recognized header and every data
/// row well-formed.
pub open spec fn spec_sheet_ok(text: Seq<char>) -> bool {
    let lines = spec_sheet_lines(text);
    &&& lines.len() >= 1
    &&& spec_header_cols(spec_split(lines[0], ',')) is Some
    &&& forall|i: int|
        1 <= i < lines.len() ==> spec_row_ok(
            spec_split(#[trigger] lines[i], ','),
            spec_header_cols(spec_split(lines[0], ','))->0,
        )
}

/// What one well-formed data row means.
pub open spec fn spec_row_item(item: BatchSignupItem, fields: Seq<Seq<char>>, cols: int) -> bool {
    &&& item.username@ == fields[0]
    &&& item.email@ == fields[1]
    &&& item.password@ == fields[2]
    &&& item.displayed_name == (if cols >= 4 && fields[3].len() > 0 {
        Some(item.displayed_name->0)
    } else {
        None::<String>
    })
    &&& (cols >= 4 && fields[3].len() > 0 ==> item.displayed_name->0@ == fields[3])
    &&& item.role == (if cols >= 5 && fields[4].len() > 0 {
        Some((spec_parse_i32(fields[4])->0) as i32)
    } else {
        None::<i32>
    })
}

/// Parses the batch-signup sheet. A sheet that does not fit the grammar
/// is rejected whole, before any row is acted on.
#[verifier::loop_isolation(false)]
#[verifier::rlimit(60)]
pub fn parse_signup_sheet(text: &str) -> (r: Result<Vec<BatchSignupItem>, DomainError>)
    ensures
        match r {
            Ok(items) => {
                &&& spec_sheet_ok(text@)
                &&& items@.len() == spec_sheet_lines(text@).len() - 1
                &&& forall|i: int|
                    0 <= i < items@.len() ==> spec_row_item(
                        #[trigger] items@[i],
                        spec_split(spec_sheet_lines(text@)[i + 1], ','),
                        spec_header_cols(spec_split(spec_sheet_lines(text@)[0], ','))->0,
                    )
            },
            Err(e) => {
                &&& !spec_sheet_ok(text@)
                &&& e matches DomainError::Validation(v) && v@ == seq![
                    ValidationIssue::SheetMalformed,
                ]
            },
        },
{
    let malformed = || -> (e: DomainError)
        ensures
            e matches DomainError::Validation(v) && v@ == seq![ValidationIssue::SheetMalformed],
        {
            let mut v: Vec<ValidationIssue> = Vec::new();
            v.push(ValidationIssue::SheetMalformed);
            proof {
                assert(v@ =~= seq![ValidationIssue::SheetMalformed]);
            }
            DomainError::Validation(v)
        };
    let raw = split(text, '\n');
    let mut lines: Vec<String> = Vec::new();
    let m = raw.len();
    for k in 0..m
        invariant
            m == raw@.len(),
            lines@.map_values(|l: String| l@) =~= raw@.map_values(|l: String| l@).take(
                k as int,
            ).map_values(
                |l: Seq<char>|
                    if l.len() > 0 && l.last() == '\r' {
                        l.drop_last()
                    } else {
                        l
                    },
            ),
    {
        let line = &raw[k];
        let nlen = line.as_str().unicode_len();
        let stripped = if nlen > 0 && line.as_str().get_char(nlen - 1) == '\r' {
            line.as_str().substring_char(0, nlen - 1).to_owned()
        } else {
            line.clone()
        };
        proof {
            let strip = |l: Seq<char>|
                if l.len() > 0 && l.last() == '\r' {
                    l.drop_last()
                } else {
                    l
                };
            let a = raw@.map_values(|x: String| x@);
            let l = a[k as int];
            if l.len() > 0 && l.last() == '\r' {
                assert(stripped@ =~= l.drop_last());
            }
            assert(stripped@ == strip(l));
            assert(a.take(k as int + 1) =~= a.take(k as int).push(l));
            assert(a.take(k as int + 1).map_values(strip) =~= a.take(k as int).map_values(
                strip,
            ).push(strip(l)));
            assert((lines@.push(stripped)).map_values(|x: String| x@) =~= lines@.map_values(
                |x: String| x@,
            ).push(stripped@));
        }
        lines.push(stripped);
    }
    proof {
        assert(raw@.map_values(|l: String| l@).take(m as int) =~= raw@.map_values(
            |l: String| l@,
        ));
        assert(raw@.map_values(|l: String| l@) == spec_split(text@, '\n'));
    }
    if lines.len() > 0 && lines[lines.len() - 1].as_str().unicode_len() == 0 {
        proof {
            let mapped = raw@.map_values(|l: String| l@).map_values(
                |l: Seq<char>|
                    if l.len() > 0 && l.last() == '\r' {
                        l.drop_last()
                    } else {
                        l
                    },
            );
            assert(lines@.map_values(|l: String| l@).drop_last() =~= mapped.drop_last());
        }
        lines.pop();
    }
    let ghost slines = spec_sheet_lines(text@);
    proof {
        assert(lines@.map_values(|l: String| l@) =~= slines);
    }
    if lines.len() == 0 {
        return Err(malformed());
    }
    let header = split(lines[0].as_str(), ',');
    let cols = header.len();
    let w_username = "username".to_owned();
    let w_email = "email".to_owned();
    let w_password = "password".to_owned();
    let w_displayed = "displayed_name".to_owned();
    let w_role = "role".to_owned();
    let header_ok = cols == 3 || cols == 4 || cols == 5;
    let header_ok = header_ok && header[0] == w_username && header[1] == w_email && header[2]
        == w_password;
    let header_ok = header_ok && (cols < 4 || header[3] == w_displayed) && (cols < 5 || header[4]
        == w_role);
    if !header_ok {
        proof {
            let h = header@.map_values(|f: String| f@);
            assert(h == spec_split(slines[0], ','));
            if spec_header_cols(h) is Some {
                if h == seq!["username"@, "email"@, "password"@] {
                    assert(h.len() == 3);
                    assert(h[0] == "username"@ && h[1] == "email"@ && h[2] == "password"@);
                } else if h == seq!["username"@, "email"@, "password"@, "displayed_name"@] {
                    assert(h.len() == 4);
                    assert(h[0] == "username"@ && h[1] == "email"@ && h[2] == "password"@ && h[3]
                        == "displayed_name"@);
                } else {
                    assert(h == seq![
                        "username"@,
                        "email"@,
                        "password"@,
                        "displayed_name"@,
                        "role"@,
                    ]);
                    assert(h.len() == 5);
                    assert(h[0] == "username"@ && h[1] == "email"@ && h[2] == "password"@ && h[3]
                        == "displayed_name"@ && h[4] == "role"@);
                }
                assert(false);
            }
        }
        return Err(malformed());
    }
    proof {
        assert(header@.map_values(|f: String| f@) == spec_split(slines[0], ','));
        if cols == 3 {
            assert(header@.map_values(|f: String| f@) =~= seq!["username"@, "email"@, "password"@]);
        } else if cols == 4 {
            assert(header@.map_values(|f: String| f@) =~= seq![
                "username"@,
                "email"@,
                "password"@,
                "displayed_name"@,
            ]);
        } else {
            assert(header@.map_values(|f: String| f@) =~= seq![
                "username"@,
                "email"@,
                "password"@,
                "displayed_name"@,
                "role"@,
            ]);
        }
        assert(spec_header_cols(spec_split(slines[0], ',')) == Some(cols as int));
    }
    let mut items: Vec<BatchSignupItem> = Vec::new();
    let n = lines.len();
    for i in 1..n
        invariant
            n == slines.len(),
            lines@.map_values(|l: String| l@) == slines,
            spec_header_cols(spec_split(slines[0], ',')) == Some(cols as int),
            items@.len() == i - 1,
            forall|j: int|
                1 <= j < i ==> spec_row_ok(spec_split(#[trigger] slines[j], ','), cols as int),
            forall|j: int|
                0 <= j < i - 1 ==> spec_row_item(
                    #[trigger] items@[j],
                    spec_split(slines[j + 1], ','),
                    cols as int,
                ),
    {
        let fields = split(lines[i].as_str(), ',');
        proof {
            assert(fields@.map_values(|f: String| f@) == spec_split(slines[i as int], ','));
        }
        if fields.len() != cols {
            return Err(malformed());
        }
        let role: Option<i32> = if cols >= 5 && fields[4].as_str().unicode_len() > 0 {
            match parse_i32(fields[4].as_str()) {
                Some(v) => Some(v),
                None => {
                    return Err(malformed());
                },
            }
        } else {
            None
        };
        let displayed_name: Option<String> = if cols >= 4 && fields[3].as_str().unicode_len() > 0 {
            Some(fields[3].clone())
        } else {
            None
        };
        let item = BatchSignupItem {
            username: fields[0].clone(),
            password: fields[2].clone(),
            email: fields[1].clone(),
            displayed_name,
            role,
        };
        items.push(item);
    }
    Ok(items)
}

} // verus!
