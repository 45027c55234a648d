//! Mining calendar dates out of path strings, and removing caller-designated
//! path segments before the mining.
//!
//! Three fixed patterns are scanned over the whole path, each left to right
//! with non-overlapping matches: eight contiguous digits read as `YYYYMMDD`,
//! then `YYYY-MM-DD`, then `YYYYcMMcDD` where `c` is one arbitrary separator
//! character repeated in both places (only dot-separated candidates spell a
//! date).  A candidate that is not a real calendar date is dropped and the
//! scan goes on.  The extracted sequence is the concatenation of the three
//! pattern's finds, in that fixed order, so the last element of the whole
//! sequence prefers dot-separated dates over hyphen-separated ones over solid
//! ones.

use vstd::prelude::*;
use vstd::string::StrSliceExecFns;

use crate::dates::Date;

verus! {

/// ASCII decimal digit.
pub open spec fn is_digit(c: char) -> bool {
    48 <= (c as u32) <= 57
}

/// Value of an ASCII decimal digit.
pub open spec fn digit_val(c: char) -> int {
    (c as u32) - 48
}

/// All of `s[i..i+n)` are digits.
pub open spec fn digits_at(s: Seq<char>, i: int, n: int) -> bool {
    forall|j: int| i <= j < i + n ==> is_digit(#[trigger] s[j])
}

/// The number the two digits at `i` spell.
pub open spec fn num2(s: Seq<char>, i: int) -> int {
    10 * digit_val(s[i]) + digit_val(s[i + 1])
}

/// The number the four digits at `i` spell.
pub open spec fn num4(s: Seq<char>, i: int) -> int {
    1000 * digit_val(s[i]) + 100 * digit_val(s[i + 1]) + 10 * digit_val(s[i + 2]) + digit_val(
        s[i + 3],
    )
}

/// An eight-digit `YYYYMMDD` candidate starts at `i`.
pub open spec fn solid_at(s: Seq<char>, i: int) -> bool {
    0 <= i && i + 8 <= s.len() && digits_at(s, i, 8)
}

/// The date an eight-digit candidate at `i` spells.
pub open spec fn solid_date(s: Seq<char>, i: int) -> Date {
    Date { year: num4(s, i) as i32, month: num2(s, i + 4) as u32, day: num2(s, i + 6) as u32 }
}

/// A ten-character `YYYY-MM-DD` candidate starts at `i`.
pub open spec fn hyphen_at(s: Seq<char>, i: int) -> bool {
    &&& 0 <= i
    &&& i + 10 <= s.len()
    &&& digits_at(s, i, 4)
    &&& s[i + 4] == '-'
    &&& digits_at(s, i + 5, 2)
    &&& s[i + 7] == '-'
    &&& digits_at(s, i + 8, 2)
}

/// A ten-character `YYYYcMMcDD` candidate starts at `i`: the separator is one
/// arbitrary character, the same in both places.
pub open spec fn sep_at(s: Seq<char>, i: int) -> bool {
    &&& 0 <= i
    &&& i + 10 <= s.len()
    &&& digits_at(s, i, 4)
    &&& digits_at(s, i + 5, 2)
    &&& digits_at(s, i + 8, 2)
    &&& s[i + 4] == s[i + 7]
}

/// The date a ten-character separated candidate at `i` spells.
pub open spec fn sep_date(s: Seq<char>, i: int) -> Date {
    Date { year: num4(s, i) as i32, month: num2(s, i + 5) as u32, day: num2(s, i + 8) as u32 }
}

/// The valid dates of the eight-digit pattern's non-overlapping matches from
/// position `i` on, in match order.
pub open spec fn solid_dates_from(s: Seq<char>, i: int) -> Seq<Date>
    decreases s.len() - i,
{
    if i + 8 > s.len() {
        Seq::empty()
    } else if solid_at(s, i) {
        if solid_date(s, i).valid() {
            seq![solid_date(s, i)] + solid_dates_from(s, i + 8)
        } else {
            solid_dates_from(s, i + 8)
        }
    } else {
        solid_dates_from(s, i + 1)
    }
}

/// The valid dates of the hyphenated pattern's non-overlapping matches from
/// position `i` on, in match order.
pub open spec fn hyphen_dates_from(s: Seq<char>, i: int) -> Seq<Date>
    decreases s.len() - i,
{
    if i + 10 > s.len() {
        Seq::empty()
    } else if hyphen_at(s, i) {
        if sep_date(s, i).valid() {
            seq![sep_date(s, i)] + hyphen_dates_from(s, i + 10)
        } else {
            hyphen_dates_from(s, i + 10)
        }
    } else {
        hyphen_dates_from(s, i + 1)
    }
}

/// The valid dates of the arbitrary-separator pattern's non-overlapping
/// matches from position `i` on, in match order.  Every same-separator
/// candidate is consumed by the scan, but only a dot-separated one spells a
/// date.
pub open spec fn dotted_dates_from(s: Seq<char>, i: int) -> Seq<Date>
    decreases s.len() - i,
{
    if i + 10 > s.len() {
        Seq::empty()
    } else if sep_at(s, i) {
        if s[i + 4] == '.' && sep_date(s, i).valid() {
            seq![sep_date(s, i)] + dotted_dates_from(s, i + 10)
        } else {
            dotted_dates_from(s, i + 10)
        }
    } else {
        dotted_dates_from(s, i + 1)
    }
}

/// The dates mined from `s`: the solid pattern's finds, then the hyphenated
/// pattern's, then the dot-separated pattern's.
pub open spec fn extracted_dates(s: Seq<char>) -> Seq<Date> {
    solid_dates_from(s, 0) + hyphen_dates_from(s, 0) + dotted_dates_from(s, 0)
}

fn char_is_digit(c: char) -> (r: bool)
    ensures
        r == is_digit(c),
{
    let u: u32 = c as u32;
    48 <= u && u <= 57
}

fn char_digit(c: char) -> (r: u32)
    requires
        is_digit(c),
    ensures
        r as int == digit_val(c),
        r < 10,
{
    c as u32 - 48
}

/// Whether the `n` characters of `s` at `i` are all digits.
fn digits_run(s: &str, i: usize, n: usize) -> (r: bool)
    requires
        i + n <= s@.len(),
        i + n <= usize::MAX,
    ensures
        r == digits_at(s@, i as int, n as int),
{
    let mut j: usize = 0;
    while j < n
        invariant
            i + n <= s@.len(),
            i + n <= usize::MAX,
            j <= n,
            forall|k: int| i <= k < i + j ==> is_digit(#[trigger] s@[k]),
        decreases n - j,
    {
        let c: char = s.get_char(i + j);
        if !char_is_digit(c) {
            proof {
                assert(!is_digit(s@[i + j]));
            }
            return false;
        }
        j = j + 1;
    }
    true
}

/// The number the two digits of `s` at `i` spell.
fn read_num2(s: &str, i: usize) -> (r: u32)
    requires
        i + 2 <= s@.len(),
        i + 2 <= usize::MAX,
        digits_at(s@, i as int, 2),
    ensures
        r as int == num2(s@, i as int),
        r < 100,
{
    proof {
        assert(is_digit(s@[i as int]));
        assert(is_digit(s@[i + 1]));
    }
    let a: u32 = char_digit(s.get_char(i));
    let b: u32 = char_digit(s.get_char(i + 1));
    10 * a + b
}

/// The number the four digits of `s` at `i` spell.
fn read_num4(s: &str, i: usize) -> (r: u32)
    requires
        i + 4 <= s@.len(),
        i + 4 <= usize::MAX,
        digits_at(s@, i as int, 4),
    ensures
        r as int == num4(s@, i as int),
        r < 10000,
{
    proof {
        assert(is_digit(s@[i as int]));
        assert(is_digit(s@[i + 1]));
        assert(is_digit(s@[i + 2]));
        assert(is_digit(s@[i + 3]));
    }
    let a: u32 = char_digit(s.get_char(i));
    let b: u32 = char_digit(s.get_char(i + 1));
    let c: u32 = char_digit(s.get_char(i + 2));
    let d: u32 = char_digit(s.get_char(i + 3));
    1000 * a + 100 * b + 10 * c + d
}

/// Appends the eight-digit pattern's finds to `out`.
fn scan_solid(s: &str, out: &mut Vec<Date>)
    ensures
        final(out)@ == old(out)@ + solid_dates_from(s@, 0),
        forall|k: int|
            old(out)@.len() <= k < final(out)@.len() ==> (#[trigger] final(out)@[k]).valid(),
{
    let n: usize = s.unicode_len();
    if n < 8 {
        proof {
            assert(old(out)@ + solid_dates_from(s@, 0) =~= old(out)@);
        }
        return ;
    }
    let mut i: usize = 0;
    while i <= n - 8
        invariant
            n == s@.len(),
            8 <= n,
            i <= n,
            old(out)@ + solid_dates_from(s@, 0) == out@ + solid_dates_from(s@, i as int),
            old(out)@.len() <= out@.len(),
            forall|k: int| old(out)@.len() <= k < out@.len() ==> (#[trigger] out@[k]).valid(),
        decreases n - i,
    {
        if digits_run(s, i, 8) {
            proof {
                assert(solid_at(s@, i as int));
            }
            let y: u32 = read_num4(s, i);
            let mo: u32 = read_num2(s, i + 4);
            let d: u32 = read_num2(s, i + 6);
            proof {
                assert(digits_at(s@, i + 4, 2)) by {
                    assert(forall|j: int|
                        i + 4 <= j < i + 6 ==> is_digit(#[trigger] s@[j]) && i <= j < i + 8);
                }
                assert(digits_at(s@, i + 6, 2)) by {
                    assert(forall|j: int|
                        i + 6 <= j < i + 8 ==> is_digit(#[trigger] s@[j]) && i <= j < i + 8);
                }
                assert(solid_date(s@, i as int) == Date { year: y as i32, month: mo, day: d });
            }
            let ghost pre = out@;
            match Date::new(y as i32, mo, d) {
                Some(dt) => {
                    proof {
                        assert(dt == solid_date(s@, i as int));
                        assert(dt.valid());
                    }
                    out.push(dt);
                    proof {
                        assert(solid_dates_from(s@, i as int) == seq![solid_date(s@, i as int)]
                            + solid_dates_from(s@, i + 8));
                        assert(pre + (seq![solid_date(s@, i as int)] + solid_dates_from(s@, i + 8))
                            =~= out@ + solid_dates_from(s@, i + 8));
                    }
                },
                None => {
                    proof {
                        assert(!solid_date(s@, i as int).valid());
                        assert(solid_dates_from(s@, i as int) == solid_dates_from(s@, i + 8));
                    }
                },
            }
            i = i + 8;
        } else {
            proof {
                assert(!solid_at(s@, i as int));
                assert(solid_dates_from(s@, i as int) == solid_dates_from(s@, i + 1));
            }
            i = i + 1;
        }
    }
    proof {
        assert(solid_dates_from(s@, i as int) =~= Seq::<Date>::empty());
        assert(out@ + Seq::<Date>::empty() =~= out@);
    }
}

/// Whether the ten characters of `s` at `i` fit the separated shape, the two
/// separator characters being arbitrary but checked by the caller.
fn sep_shape(s: &str, i: usize) -> (r: bool)
    requires
        i + 10 <= s@.len(),
        i + 10 <= usize::MAX,
    ensures
        r == (digits_at(s@, i as int, 4) && digits_at(s@, i + 5, 2) && digits_at(s@, i + 8, 2)),
{
    digits_run(s, i, 4) && digits_run(s, i + 5, 2) && digits_run(s, i + 8, 2)
}

/// The date the separated candidate at `i` spells, built from its digits.
fn read_sep_date(s: &str, i: usize) -> (r: Option<Date>)
    requires
        i + 10 <= s@.len(),
        i + 10 <= usize::MAX,
        digits_at(s@, i as int, 4),
        digits_at(s@, i + 5, 2),
        digits_at(s@, i + 8, 2),
    ensures
        sep_date(s@, i as int).valid() ==> r == Some(sep_date(s@, i as int)),
        !sep_date(s@, i as int).valid() ==> r is None,
{
    let y: u32 = read_num4(s, i);
    let mo: u32 = read_num2(s, i + 5);
    let d: u32 = read_num2(s, i + 8);
    proof {
        assert(sep_date(s@, i as int) == Date { year: y as i32, month: mo, day: d });
    }
    Date::new(y as i32, mo, d)
}

/// Appends the hyphenated pattern's finds to `out`.
fn scan_hyphen(s: &str, out: &mut Vec<Date>)
    ensures
        final(out)@ == old(out)@ + hyphen_dates_from(s@, 0),
        forall|k: int|
            old(out)@.len() <= k < final(out)@.len() ==> (#[trigger] final(out)@[k]).valid(),
{
    let n: usize = s.unicode_len();
    if n < 10 {
        proof {
            assert(old(out)@ + hyphen_dates_from(s@, 0) =~= old(out)@);
        }
        return ;
    }
    let mut i: usize = 0;
    while i <= n - 10
        invariant
            n == s@.len(),
            10 <= n,
            i <= n,
            old(out)@ + hyphen_dates_from(s@, 0) == out@ + hyphen_dates_from(s@, i as int),
            old(out)@.len() <= out@.len(),
            forall|k: int| old(out)@.len() <= k < out@.len() ==> (#[trigger] out@[k]).valid(),
        decreases n - i,
    {
        let shaped: bool = sep_shape(s, i);
        if shaped && s.get_char(i + 4) == '-' && s.get_char(i + 7) == '-' {
            proof {
                assert(hyphen_at(s@, i as int));
            }
            let ghost pre = out@;
            match read_sep_date(s, i) {
                Some(dt) => {
                    out.push(dt);
                    proof {
                        assert(hyphen_dates_from(s@, i as int) == seq![sep_date(s@, i as int)]
                            + hyphen_dates_from(s@, i + 10));
                        assert(pre + (seq![sep_date(s@, i as int)] + hyphen_dates_from(s@, i + 10))
                            =~= out@ + hyphen_dates_from(s@, i + 10));
                    }
                },
                None => {
                    proof {
                        assert(hyphen_dates_from(s@, i as int) == hyphen_dates_from(s@, i + 10));
                    }
                },
            }
            i = i + 10;
        } else {
            proof {
                assert(!hyphen_at(s@, i as int));
                assert(hyphen_dates_from(s@, i as int) == hyphen_dates_from(s@, i + 1));
            }
            i = i + 1;
        }
    }
    proof {
        assert(hyphen_dates_from(s@, i as int) =~= Seq::<Date>::empty());
        assert(out@ + Seq::<Date>::empty() =~= out@);
    }
}

/// Appends the arbitrary-separator pattern's finds to `out`.
fn scan_dotted(s: &str, out: &mut Vec<Date>)
    ensures
        final(out)@ == old(out)@ + dotted_dates_from(s@, 0),
        forall|k: int|
            old(out)@.len() <= k < final(out)@.len() ==> (#[trigger] final(out)@[k]).valid(),
{
    let n: usize = s.unicode_len();
    if n < 10 {
        proof {
            assert(old(out)@ + dotted_dates_from(s@, 0) =~= old(out)@);
        }
        return ;
    }
    let mut i: usize = 0;
    while i <= n - 10
        invariant
            n == s@.len(),
            10 <= n,
            i <= n,
            old(out)@ + dotted_dates_from(s@, 0) == out@ + dotted_dates_from(s@, i as int),
            old(out)@.len() <= out@.len(),
            forall|k: int| old(out)@.len() <= k < out@.len() ==> (#[trigger] out@[k]).valid(),
        decreases n - i,
    {
        let shaped: bool = sep_shape(s, i);
        if shaped && s.get_char(i + 4) == s.get_char(i + 7) {
            proof {
                assert(sep_at(s@, i as int));
            }
            let ghost pre = out@;
            if s.get_char(i + 4) == '.' {
                match read_sep_date(s, i) {
                    Some(dt) => {
                        out.push(dt);
                        proof {
                            assert(dotted_dates_from(s@, i as int) == seq![sep_date(s@, i as int)]
                                + dotted_dates_from(s@, i + 10));
                            assert(pre + (seq![sep_date(s@, i as int)] + dotted_dates_from(
                                s@,
                                i + 10,
                            )) =~= out@ + dotted_dates_from(s@, i + 10));
                        }
                    },
                    None => {
                        proof {
                            assert(dotted_dates_from(s@, i as int) == dotted_dates_from(
                                s@,
                                i + 10,
                            ));
                        }
                    },
                }
            } else {
                proof {
                    assert(dotted_dates_from(s@, i as int) == dotted_dates_from(s@, i + 10));
                }
            }
            i = i + 10;
        } else {
            proof {
                assert(!sep_at(s@, i as int));
                assert(dotted_dates_from(s@, i as int) == dotted_dates_from(s@, i + 1));
            }
            i = i + 1;
        }
    }
    proof {
        assert(dotted_dates_from(s@, i as int) =~= Seq::<Date>::empty());
        assert(out@ + Seq::<Date>::empty() =~= out@);
    }
}

/// The dates found anywhere in `path`, in the fixed pattern order; every
/// returned date is a real calendar date.
pub fn get_dates_from_path(path: &str) -> (r: Vec<Date>)
    ensures
        r@ == extracted_dates(path@),
        forall|k: int| 0 <= k < r@.len() ==> (#[trigger] r@[k]).valid(),
{
    let mut out: Vec<Date> = Vec::new();
    scan_solid(path, &mut out);
    scan_hyphen(path, &mut out);
    scan_dotted(path, &mut out);
    proof {
        assert(out@ =~= extracted_dates(path@));
    }
    out
}

/// What `str::to_lowercase` returns: the Unicode lowercasing of a character
/// sequence, a function of the characters alone.
pub uninterp spec fn lower_of(s: Seq<char>) -> Seq<char>;

/// Relies on str::to_lowercase: the lowercased text depends on the input
/// characters alone.
#[verifier::external_body]
pub(crate) fn to_lowercase_str(s: &str) -> (r: String)
    ensures
        r@ == lower_of(s@),
{
    s.to_lowercase()
}

/// The segments of `s` between `/` separators, from position `i` on, the
/// current segment having started at `start`.
pub open spec fn split_from(s: Seq<char>, i: int, start: int) -> Seq<Seq<char>>
    decreases s.len() - i,
{
    if i >= s.len() {
        seq![s.subrange(start, s.len() as int)]
    } else if s[i] == '/' {
        seq![s.subrange(start, i)] + split_from(s, i + 1, i + 1)
    } else {
        split_from(s, i + 1, start)
    }
}

/// The `/`-separated segments of a path string.
pub open spec fn path_segments(s: Seq<char>) -> Seq<Seq<char>> {
    split_from(s, 0, 0)
}

/// A segment is dropped when its lowercase form starts with the lowercase
/// form of one of the skip names.
pub open spec fn segment_dropped(part: Seq<char>, skips: Seq<Seq<char>>) -> bool {
    exists|k: int|
        0 <= k < skips.len() && lower_of(#[trigger] skips[k]).is_prefix_of(lower_of(part))
}

/// How one more kept segment extends the rebuilt path: appended as is to an
/// empty path or after a separator, else after a fresh `/`.
pub open spec fn join_push(acc: Seq<char>, part: Seq<char>) -> Seq<char> {
    if acc.len() == 0 {
        part
    } else if acc.last() == '/' {
        acc + part
    } else {
        acc + "/"@ + part
    }
}

/// The path rebuilt from `parts`, skip-prefixed segments removed, starting
/// from the already-rebuilt `acc`.
pub open spec fn rebuild(acc: Seq<char>, parts: Seq<Seq<char>>, skips: Seq<Seq<char>>) -> Seq<char>
    decreases parts.len(),
{
    if parts.len() == 0 {
        acc
    } else if segment_dropped(parts.first(), skips) {
        rebuild(acc, parts.drop_first(), skips)
    } else {
        rebuild(join_push(acc, parts.first()), parts.drop_first(), skips)
    }
}

/// The path with every segment removed whose lowercase form starts with a
/// skip name, the order of the remaining segments kept.
pub open spec fn sanitized_path(s: Seq<char>, skips: Seq<Seq<char>>) -> Seq<char> {
    rebuild(Seq::empty(), path_segments(s), skips)
}

/// Whether `p` is a prefix of `s`, by characters.
fn str_is_prefix(p: &str, s: &str) -> (r: bool)
    ensures
        r == p@.is_prefix_of(s@),
{
    let np: usize = p.unicode_len();
    let ns: usize = s.unicode_len();
    if np > ns {
        return false;
    }
    let mut j: usize = 0;
    while j < np
        invariant
            j <= np,
            np <= ns,
            np == p@.len(),
            ns == s@.len(),
            forall|t: int| 0 <= t < j ==> p@[t] == s@[t],
        decreases np - j,
    {
        if p.get_char(j) != s.get_char(j) {
            proof {
                assert(p@[j as int] != s@.subrange(0, p@.len() as int)[j as int]);
            }
            return false;
        }
        j = j + 1;
    }
    proof {
        assert(p@ =~= s@.subrange(0, p@.len() as int));
    }
    true
}

/// Whether the lowercased segment starts with one of the lowered skip names.
fn lowered_segment_dropped(lowered: &Vec<String>, part_lower: &str) -> (r: bool)
    ensures
        r == (exists|k: int|
            0 <= k < lowered@.len() && (#[trigger] lowered@[k])@.is_prefix_of(part_lower@)),
{
    let mut k: usize = 0;
    while k < lowered.len()
        invariant
            k <= lowered@.len(),
            forall|t: int| 0 <= t < k ==> !(#[trigger] lowered@[t])@.is_prefix_of(part_lower@),
        decreases lowered@.len() - k,
    {
        if str_is_prefix(lowered[k].as_str(), part_lower) {
            return true;
        }
        k = k + 1;
    }
    false
}

proof fn lemma_dropped_equiv(
    lowered: Seq<String>,
    skips: Seq<Seq<char>>,
    seg: Seq<char>,
    part_lower: Seq<char>,
)
    requires
        lowered.len() == skips.len(),
        forall|t: int| 0 <= t < skips.len() ==> (#[trigger] lowered[t])@ == lower_of(skips[t]),
        part_lower == lower_of(seg),
    ensures
        (exists|k: int|
            0 <= k < lowered.len() && (#[trigger] lowered[k])@.is_prefix_of(part_lower))
            == segment_dropped(seg, skips),
{
    if exists|k: int|
        0 <= k < lowered.len() && (#[trigger] lowered[k])@.is_prefix_of(part_lower) {
        let k = choose|k: int|
            0 <= k < lowered.len() && (#[trigger] lowered[k])@.is_prefix_of(part_lower);
        assert(lower_of(skips[k]).is_prefix_of(lower_of(seg)));
        assert(segment_dropped(seg, skips));
    }
    if segment_dropped(seg, skips) {
        let k = choose|k: int|
            0 <= k < skips.len() && lower_of(#[trigger] skips[k]).is_prefix_of(lower_of(seg));
        assert(lowered[k]@.is_prefix_of(part_lower));
    }
}

/// Appends one kept segment to the rebuilt path.
fn push_segment(acc: &mut String, part: &str)
    ensures
        final(acc)@ == join_push(old(acc)@, part@),
{
    let alen: usize = acc.as_str().unicode_len();
    if alen == 0 {
        acc.append(part);
        proof {
            assert(old(acc)@ + part@ =~= part@);
        }
    } else {
        let lastc: char = acc.as_str().get_char(alen - 1);
        if lastc == '/' {
            acc.append(part);
        } else {
            acc.append("/");
            acc.append(part);
            proof {
                assert((old(acc)@ + "/"@) + part@ =~= old(acc)@ + "/"@ + part@);
            }
        }
    }
}

/// The path with every segment removed whose lowercase form starts with one
/// of `skip_folder_names` (case-insensitively); the remaining segments keep
/// their order and are joined back with `/`.
pub fn get_path_without_dir_names(path: &str, skip_folder_names: &Vec<String>) -> (r: String)
    ensures
        r@ == sanitized_path(path@, skip_folder_names.deep_view()),
{
    let ghost skips: Seq<Seq<char>> = skip_folder_names.deep_view();
    let mut lowered: Vec<String> = Vec::new();
    let mut k: usize = 0;
    while k < skip_folder_names.len()
        invariant
            k <= skip_folder_names@.len(),
            lowered@.len() == k,
            skips == skip_folder_names.deep_view(),
            forall|t: int|
                0 <= t < k ==> (#[trigger] lowered@[t])@ == lower_of(skip_folder_names@[t]@),
        decreases skip_folder_names@.len() - k,
    {
        lowered.push(to_lowercase_str(skip_folder_names[k].as_str()));
        k = k + 1;
    }
    proof {
        assert(forall|t: int|
            0 <= t < skips.len() ==> #[trigger] skips[t] == skip_folder_names@[t]@);
    }
    let n: usize = path.unicode_len();
    let mut acc = String::new();
    let mut start: usize = 0;
    let mut i: usize = 0;
    while i < n
        invariant
            n == path@.len(),
            start <= i <= n,
            skips == skip_folder_names.deep_view(),
            lowered@.len() == skips.len(),
            forall|t: int| 0 <= t < skips.len() ==> (#[trigger] lowered@[t])@ == lower_of(skips[t]),
            sanitized_path(path@, skips) == rebuild(
                acc@,
                split_from(path@, i as int, start as int),
                skips,
            ),
        decreases n - i,
    {
        if path.get_char(i) == '/' {
            let ghost seg: Seq<char> = path@.subrange(start as int, i as int);
            proof {
                assert(split_from(path@, i as int, start as int) == seq![seg] + split_from(
                    path@,
                    i + 1,
                    i + 1,
                ));
                assert((seq![seg] + split_from(path@, i + 1, i + 1)).first() == seg);
                assert((seq![seg] + split_from(path@, i + 1, i + 1)).drop_first() =~= split_from(
                    path@,
                    i + 1,
                    i + 1,
                ));
            }
            let part: &str = path.substring_char(start, i);
            let part_lower: String = to_lowercase_str(part);
            proof {
                assert(part@ == seg);
                lemma_dropped_equiv(lowered@, skips, seg, part_lower@);
            }
            if !lowered_segment_dropped(&lowered, part_lower.as_str()) {
                proof {
                    assert(!segment_dropped(seg, skips));
                }
                push_segment(&mut acc, part);
            } else {
                proof {
                    assert(segment_dropped(seg, skips));
                }
            }
            start = i + 1;
            i = i + 1;
        } else {
            proof {
                assert(split_from(path@, i as int, start as int) == split_from(
                    path@,
                    i + 1,
                    start as int,
                ));
            }
            i = i + 1;
        }
    }
    let ghost seg: Seq<char> = path@.subrange(start as int, n as int);
    proof {
        assert(split_from(path@, n as int, start as int) == seq![seg]);
        assert(seq![seg].first() == seg);
        assert(seq![seg].drop_first() =~= Seq::<Seq<char>>::empty());
    }
    let part: &str = path.substring_char(start, n);
    let part_lower: String = to_lowercase_str(part);
    proof {
        assert(part@ == seg);
        lemma_dropped_equiv(lowered@, skips, seg, part_lower@);
    }
    if !lowered_segment_dropped(&lowered, part_lower.as_str()) {
        proof {
            assert(!segment_dropped(seg, skips));
        }
        push_segment(&mut acc, part);
    } else {
        proof {
            assert(segment_dropped(seg, skips));
        }
    }
    proof {
        assert(rebuild(acc@, Seq::<Seq<char>>::empty(), skips) == acc@);
    }
    acc
}

/// The fixed pattern priority behind "the date nearest to the filename": the
/// last element of the extracted sequence is the last dot-separated find if
/// any exists, else the last hyphenated find if any exists, else the last
/// solid find.
pub proof fn lemma_pattern_priority(s: Seq<char>)
    ensures
        dotted_dates_from(s, 0).len() > 0 ==> extracted_dates(s).len() > 0 && extracted_dates(
            s,
        ).last() == dotted_dates_from(s, 0).last(),
        dotted_dates_from(s, 0).len() == 0 && hyphen_dates_from(s, 0).len() > 0 ==> extracted_dates(
            s,
        ).len() > 0 && extracted_dates(s).last() == hyphen_dates_from(s, 0).last(),
        dotted_dates_from(s, 0).len() == 0 && hyphen_dates_from(s, 0).len() == 0
            && solid_dates_from(s, 0).len() > 0 ==> extracted_dates(s).len() > 0 && extracted_dates(
            s,
        ).last() == solid_dates_from(s, 0).last(),
{
}

} // verus!
