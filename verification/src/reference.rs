//! Dataset references: `owner/name`, optionally pinned with `@version`.

use crate::error::GaggleError;
use crate::text::{
    char_is_control, chars_of, count_of, first_index_of, is_control, is_white_space,
    lemma_count_concat, lemma_count_zero, lemma_first_index_of, lemma_first_index_shape,
    lemma_trim_fixed, lemma_trim_hi, lemma_trim_lo, lemma_trim_shape, parse_decimal_range,
    parse_unsigned, scan_for, trim, trim_hi, trim_lo, trim_range,
};
use vstd::prelude::*;
use vstd::string::StrSliceExecFns;
use vstd::string::StringExecFns;
use vstd::utf8::encode_utf8;

verus! {

/// Longest reference, in bytes, that is looked at.
pub const MAX_PATH_LENGTH: usize = 4096;

/// Why a reference is rejected.
#[derive(Debug, Clone, Copy, PartialEq, Eq, Structural)]
pub enum ReferenceFault {
    /// Longer than `MAX_PATH_LENGTH` bytes.
    TooLong,
    /// Not exactly one `/`.
    Shape,
    /// Nothing but white space on one side of the `/`.
    EmptySegment,
    /// Owner or name is `.` or `..`.
    Traversal,
    /// Owner or name holds a control character.
    ControlCharacter,
    /// More than one `@`.
    VersionMarks,
    /// The text after `@` is no positive version number.
    Version,
}

/// Number of bytes of `s` in UTF-8.
pub open spec fn byte_len(s: Seq<char>) -> nat {
    encode_utf8(s).len()
}

/// The owner that a reference names: what stands before the first `/`, trimmed.
pub open spec fn owner_part(path: Seq<char>) -> Seq<char> {
    let t = trim(path);
    trim(t.take(first_index_of(t, '/')))
}

/// The dataset that a reference names: what stands after the first `/`, trimmed.
pub open spec fn name_part(path: Seq<char>) -> Seq<char> {
    let t = trim(path);
    if first_index_of(t, '/') < t.len() {
        trim(t.skip(first_index_of(t, '/') + 1))
    } else {
        Seq::empty()
    }
}

/// The segments `.` and `..`.
pub open spec fn is_dot_segment(s: Seq<char>) -> bool {
    (s.len() == 1 && s[0] == '.') || (s.len() == 2 && s[0] == '.' && s[1] == '.')
}

/// Whether a control character occurs in `s`.
pub open spec fn has_control(s: Seq<char>) -> bool {
    exists|i: int| 0 <= i < s.len() && is_control(#[trigger] s[i])
}

/// The first reason, if any, for which `path` is no reference of the form `owner/name`.
pub open spec fn reference_fault(path: Seq<char>) -> Option<ReferenceFault> {
    if byte_len(path) > MAX_PATH_LENGTH {
        Some(ReferenceFault::TooLong)
    } else if count_of(trim(path), '/') != 1 {
        Some(ReferenceFault::Shape)
    } else if owner_part(path).len() == 0 || name_part(path).len() == 0 {
        Some(ReferenceFault::EmptySegment)
    } else if is_dot_segment(owner_part(path)) || is_dot_segment(name_part(path)) {
        Some(ReferenceFault::Traversal)
    } else if has_control(owner_part(path)) || has_control(name_part(path)) {
        Some(ReferenceFault::ControlCharacter)
    } else {
        None
    }
}

/// The detail of the error that reports `fault` for the text `shown`.
pub open spec fn fault_detail(fault: ReferenceFault, shown: Seq<char>) -> Seq<char> {
    match fault {
        ReferenceFault::TooLong => "Dataset path exceeds maximum length of 4096 characters"@,
        ReferenceFault::Shape => "Dataset path must be in format 'owner/dataset-name', got: "@
            + shown,
        ReferenceFault::EmptySegment =>
            "Dataset path cannot have empty owner or dataset name, got: "@ + shown,
        ReferenceFault::Traversal => "Dataset path contains invalid traversal segments: "@ + shown,
        ReferenceFault::ControlCharacter => "Dataset path contains control characters: "@ + shown,
        ReferenceFault::VersionMarks =>
            "Dataset path can only contain one @ for version specification"@,
        ReferenceFault::Version => "Invalid version number '"@ + shown
            + "'. Version must be a positive integer > 0."@,
    }
}

/// Whether a control character occurs in `v[from..to]`.
fn range_has_control(v: &Vec<char>, from: usize, to: usize) -> (r: bool)
    requires
        from <= to <= v.len(),
    ensures
        r == has_control(v@.subrange(from as int, to as int)),
{
    let ghost s = v@.subrange(from as int, to as int);
    let mut i: usize = from;
    while i < to
        invariant
            from <= i <= to <= v.len(),
            s == v@.subrange(from as int, to as int),
            forall|j: int| 0 <= j < i - from ==> !is_control(#[trigger] s[j]),
        decreases to - i,
    {
        if char_is_control(v[i]) {
            assert(is_control(s[i - from]));
            return true;
        }
        i += 1;
    }
    false
}

/// Whether `v[from..to]` is `.` or `..`.
fn range_is_dot_segment(v: &Vec<char>, from: usize, to: usize) -> (r: bool)
    requires
        from <= to <= v.len(),
    ensures
        r == is_dot_segment(v@.subrange(from as int, to as int)),
{
    let n = to - from;
    (n == 1 && v[from] == '.') || (n == 2 && v[from] == '.' && v[from + 1] == '.')
}

/// The error that reports `fault` with `shown` as the offending text.
fn reference_error(fault: ReferenceFault, shown: &str) -> (e: GaggleError)
    ensures
        e matches GaggleError::InvalidDatasetPath(m) && m@ == fault_detail(fault, shown@),
{
    let detail = match fault {
        ReferenceFault::TooLong => String::from_str(
            "Dataset path exceeds maximum length of 4096 characters",
        ),
        ReferenceFault::Shape => String::from_str(
            "Dataset path must be in format 'owner/dataset-name', got: ",
        ).concat(shown),
        ReferenceFault::EmptySegment => String::from_str(
            "Dataset path cannot have empty owner or dataset name, got: ",
        ).concat(shown),
        ReferenceFault::Traversal => String::from_str(
            "Dataset path contains invalid traversal segments: ",
        ).concat(shown),
        ReferenceFault::ControlCharacter => String::from_str(
            "Dataset path contains control characters: ",
        ).concat(shown),
        ReferenceFault::VersionMarks => String::from_str(
            "Dataset path can only contain one @ for version specification",
        ),
        ReferenceFault::Version => String::from_str("Invalid version number '").concat(
            shown,
        ).concat("'. Version must be a positive integer > 0."),
    };
    GaggleError::InvalidDatasetPath(detail)
}

/// Splits a reference of the form `owner/name` into its two parts.
///
/// White space around the reference and around each part is dropped. The reference is
/// rejected when it is longer than `MAX_PATH_LENGTH` bytes, when it does not hold exactly
/// one `/`, when a part is empty, is `.` or `..`, or holds a control character.
pub fn parse_dataset_path(path: &str) -> (r: Result<(String, String), GaggleError>)
    ensures
        match reference_fault(path@) {
            None => r matches Ok(p) && p.0@ == owner_part(path@) && p.1@ == name_part(path@),
            Some(f) => r matches Err(GaggleError::InvalidDatasetPath(m)) && m@ == fault_detail(
                f,
                path@,
            ),
        },
{
    if path.as_bytes().len() > MAX_PATH_LENGTH {
        return Err(reference_error(ReferenceFault::TooLong, path));
    }
    let v = chars_of(path);
    let (a, b) = trim_range(&v, 0, v.len());
    let ghost t = trim(path@);
    proof {
        assert(v@.subrange(0, v@.len() as int) =~= path@);
        assert(t == v@.subrange(a as int, b as int));
    }
    let (count, slash) = scan_for(&v, a, b, '/');
    if count != 1 {
        return Err(reference_error(ReferenceFault::Shape, path));
    }
    proof {
        lemma_count_zero(t, '/');
        lemma_first_index_shape(t, '/');
        assert(slash < b);
        assert(t.take(slash - a) =~= v@.subrange(a as int, slash as int));
        assert(t.skip(slash - a + 1) =~= v@.subrange(slash + 1, b as int));
    }
    let (oa, ob) = trim_range(&v, a, slash);
    let (da, db) = trim_range(&v, slash + 1, b);
    if oa == ob || da == db {
        return Err(reference_error(ReferenceFault::EmptySegment, path));
    }
    if range_is_dot_segment(&v, oa, ob) || range_is_dot_segment(&v, da, db) {
        return Err(reference_error(ReferenceFault::Traversal, path));
    }
    if range_has_control(&v, oa, ob) || range_has_control(&v, da, db) {
        return Err(reference_error(ReferenceFault::ControlCharacter, path));
    }
    let owner = String::from_str(path.substring_char(oa, ob));
    let dataset = String::from_str(path.substring_char(da, db));
    Ok((owner, dataset))
}


/// What precedes the first `@` of `path`; all of `path` if it holds none.
pub open spec fn base_part(path: Seq<char>) -> Seq<char> {
    path.take(first_index_of(path, '@'))
}

/// What follows the first `@` of `path`, trimmed; `None` if `path` holds no `@`.
pub open spec fn version_text(path: Seq<char>) -> Option<Seq<char>> {
    if first_index_of(path, '@') < path.len() {
        Some(trim(path.skip(first_index_of(path, '@') + 1)))
    } else {
        None
    }
}

/// Whether a version text asks for the latest version: it is empty or reads `latest`.
pub open spec fn names_latest(v: Seq<char>) -> bool {
    v.len() == 0 || v == "latest"@
}

/// A version text without its optional leading `v`.
pub open spec fn version_digits(v: Seq<char>) -> Seq<char> {
    if v.len() > 0 && v[0] == 'v' {
        v.drop_first()
    } else {
        v
    }
}

/// Whether a version text denotes a version number: a numeral between 1 and `u32::MAX`,
/// with or without a leading `v`.
pub open spec fn is_version_number(v: Seq<char>) -> bool {
    parse_unsigned(version_digits(v), u32::MAX as nat) matches Some(n) && n > 0
}

/// The version that `path` is pinned to, if any.
pub open spec fn pinned_version(path: Seq<char>) -> Option<Seq<char>> {
    match version_text(path) {
        Some(v) => if names_latest(v) {
            None
        } else {
            Some(version_digits(v))
        },
        None => None,
    }
}

/// The first reason, if any, for which `path` is no reference of the form `owner/name`
/// or `owner/name@version`, with the text that the error shows.
pub open spec fn versioned_fault(path: Seq<char>) -> Option<(ReferenceFault, Seq<char>)> {
    if count_of(path, '@') > 1 {
        Some((ReferenceFault::VersionMarks, path))
    } else if version_text(path) matches Some(v) && !names_latest(v) && !is_version_number(v) {
        Some((ReferenceFault::Version, version_text(path)->0))
    } else {
        match reference_fault(base_part(path)) {
            Some(f) => Some((f, base_part(path))),
            None => None,
        }
    }
}

/// Splits a reference with an optional version: `owner/name`, `owner/name@v2`,
/// `owner/name@5` or `owner/name@latest`.
///
/// The version is `None` where the reference holds no `@`, or nothing or `latest` after
/// it. Otherwise what follows the `@` must be a number between 1 and `u32::MAX`, with or
/// without a leading `v`; the digits are handed back as written.
pub fn parse_dataset_path_with_version(path: &str) -> (r: Result<
    (String, String, Option<String>),
    GaggleError,
>)
    ensures
        match versioned_fault(path@) {
            None => r matches Ok(p) && p.0@ == owner_part(base_part(path@)) && p.1@ == name_part(
                base_part(path@),
            ) && match pinned_version(path@) {
                Some(v) => p.2 matches Some(w) && w@ == v,
                None => p.2 is None,
            },
            Some((f, shown)) => r matches Err(GaggleError::InvalidDatasetPath(m)) && m@
                == fault_detail(f, shown),
        },
{
    let v = chars_of(path);
    let n = v.len();
    proof {
        assert(v@.subrange(0, n as int) =~= path@);
    }
    let (count, at) = scan_for(&v, 0, n, '@');
    if count > 1 {
        return Err(reference_error(ReferenceFault::VersionMarks, path));
    }
    let mut version: Option<String> = None;
    if at < n {
        let (a, b) = trim_range(&v, at + 1, n);
        let ghost text = v@.subrange(a as int, b as int);
        proof {
            assert(path@.skip(at + 1) =~= v@.subrange(at + 1, n as int));
            assert(version_text(path@) == Some(text));
        }
        let shown = path.substring_char(a, b);
        let is_latest = a == b || String::from_str(shown) == String::from_str("latest");
        if !is_latest {
            let start: usize = if v[a] == 'v' {
                a + 1
            } else {
                a
            };
            proof {
                assert(text[0] == v@[a as int]);
                assert(version_digits(text) =~= v@.subrange(start as int, b as int));
            }
            match parse_decimal_range(&v, start, b, u32::MAX as u64) {
                Some(number) => {
                    if number == 0 {
                        return Err(reference_error(ReferenceFault::Version, shown));
                    }
                },
                None => {
                    return Err(reference_error(ReferenceFault::Version, shown));
                },
            }
            version = Some(String::from_str(path.substring_char(start, b)));
        }
    }
    let base = path.substring_char(0, at);
    match parse_dataset_path(base) {
        Ok((owner, dataset)) => Ok((owner, dataset, version)),
        Err(e) => Err(e),
    }
}


/// A segment that parsing hands back as it stands: not empty, without `/`, neither `.`
/// nor `..`, without control characters, and with no white space at either end.
pub open spec fn is_plain_segment(s: Seq<char>) -> bool {
    &&& s.len() > 0
    &&& count_of(s, '/') == 0
    &&& !is_dot_segment(s)
    &&& !has_control(s)
    &&& !is_white_space(s[0])
    &&& !is_white_space(s.last())
}

/// Joining two plain segments with `/` and parsing the result gives the two segments
/// back, as long as the joined text is within the length limit.
pub proof fn lemma_parse_round_trip(owner: Seq<char>, name: Seq<char>)
    requires
        is_plain_segment(owner),
        is_plain_segment(name),
        byte_len(owner + seq!['/'] + name) <= MAX_PATH_LENGTH,
    ensures
        reference_fault(owner + seq!['/'] + name) is None,
        owner_part(owner + seq!['/'] + name) == owner,
        name_part(owner + seq!['/'] + name) == name,
{
    let path = owner + seq!['/'] + name;
    assert(path[0] == owner[0]);
    assert(path.last() == name.last());
    lemma_trim_fixed(path);
    lemma_count_concat(owner + seq!['/'], name, '/');
    lemma_count_concat(owner, seq!['/'], '/');
    assert(count_of(seq!['/'], '/') == 1) by {
        assert(seq!['/'].drop_last() =~= Seq::<char>::empty());
        assert(count_of(Seq::<char>::empty(), '/') == 0);
    }
    lemma_count_zero(owner, '/');
    assert forall|j: int| 0 <= j < owner.len() implies #[trigger] path[j] != '/' by {
        assert(path[j] == owner[j]);
    }
    assert(path[owner.len() as int] == '/');
    lemma_first_index_of(path, '/', owner.len() as int);
    assert(path.take(owner.len() as int) =~= owner);
    assert(path.skip(owner.len() as int + 1) =~= name);
    lemma_trim_fixed(owner);
    lemma_trim_fixed(name);
}

/// Trimming neither adds nor removes a character that is no white space.
pub proof fn lemma_trim_keeps_count(s: Seq<char>, c: char)
    requires
        !is_white_space(c),
    ensures
        count_of(trim(s), c) == count_of(s, c),
{
    lemma_trim_shape(s);
    let lo = trim_lo(s);
    let hi = trim_hi(s);
    if lo < hi {
        let head = s.subrange(0, lo);
        let tail = s.subrange(hi, s.len() as int);
        assert(s =~= head + trim(s) + tail);
        lemma_count_concat(head + trim(s), tail, c);
        lemma_count_concat(head, trim(s), c);
        lemma_count_zero(head, c);
        lemma_count_zero(tail, c);
    } else {
        lemma_count_zero(s, c);
        assert(count_of(trim(s), c) == 0);
    }
}

/// The empty text, a text without `/`, and a text with more than one `/` are each
/// rejected.
pub proof fn lemma_wrong_shape_rejected(path: Seq<char>)
    requires
        path.len() == 0 || count_of(path, '/') != 1,
    ensures
        reference_fault(path) is Some,
{
    lemma_trim_keeps_count(path, '/');
}

/// A reference with one `/` and nothing but white space before or after it is rejected.
pub proof fn lemma_empty_segment_rejected(path: Seq<char>)
    requires
        count_of(path, '/') == 1,
        trim(path.take(first_index_of(path, '/'))).len() == 0 || trim(
            path.skip(first_index_of(path, '/') + 1),
        ).len() == 0,
    ensures
        reference_fault(path) is Some,
{
    let i = first_index_of(path, '/');
    let t = trim(path);
    let lo = trim_lo(path);
    let hi = trim_hi(path);
    lemma_trim_keeps_count(path, '/');
    lemma_trim_shape(path);
    lemma_first_index_shape(path, '/');
    lemma_count_zero(path, '/');
    assert(i < path.len());
    assert(lo <= i < hi);
    assert(t == path.subrange(lo, hi));
    assert forall|j: int| 0 <= j < i - lo implies #[trigger] t[j] != '/' by {
        assert(t[j] == path[lo + j]);
    }
    assert(t[i - lo] == path[i]);
    lemma_first_index_of(t, '/', i - lo);
    let before = path.take(i);
    let after = path.skip(i + 1);
    let t_before = t.take(i - lo);
    let t_after = t.skip(i - lo + 1);
    assert(t_before =~= path.subrange(lo, i));
    assert(t_after =~= path.subrange(i + 1, hi));
    lemma_trim_shape(before);
    lemma_trim_shape(after);
    lemma_trim_shape(t_before);
    lemma_trim_shape(t_after);
    if trim(before).len() == 0 {
        // everything before the `/` is white space, so the same holds of what is left of it
        assert forall|j: int| 0 <= j < t_before.len() implies is_white_space(
            #[trigger] t_before[j],
        ) by {
            assert(t_before[j] == before[lo + j]);
            if trim_lo(before) < before.len() {
                assert(trim(before) =~= before.subrange(trim_lo(before), trim_hi(before)));
            }
        }
        lemma_trim_lo(t_before, t_before.len() as int);
        lemma_trim_hi(t_before, 0);
        assert(owner_part(path).len() == 0);
    } else {
        assert forall|j: int| 0 <= j < t_after.len() implies is_white_space(
            #[trigger] t_after[j],
        ) by {
            assert(t_after[j] == after[j]);
            if trim_lo(after) < after.len() {
                assert(trim(after) =~= after.subrange(trim_lo(after), trim_hi(after)));
            }
        }
        lemma_trim_lo(t_after, t_after.len() as int);
        lemma_trim_hi(t_after, 0);
        assert(name_part(path).len() == 0);
    }
}


/// The bytes of a text are those of its parts.
pub proof fn lemma_byte_len_concat(a: Seq<char>, b: Seq<char>)
    ensures
        byte_len(a + b) == byte_len(a) + byte_len(b),
    decreases a.len(),
{
    if a.len() == 0 {
        assert(a + b =~= b);
    } else {
        assert((a + b)[0] == a[0]);
        assert((a + b).drop_first() =~= a.drop_first() + b);
        lemma_byte_len_concat(a.drop_first(), b);
    }
}

/// A part of a text has no more bytes than the text.
pub proof fn lemma_byte_len_subrange(s: Seq<char>, from: int, to: int)
    requires
        0 <= from <= to <= s.len(),
    ensures
        byte_len(s.subrange(from, to)) <= byte_len(s),
{
    let head = s.subrange(0, from);
    let part = s.subrange(from, to);
    let tail = s.subrange(to, s.len() as int);
    assert(s =~= head + part + tail);
    lemma_byte_len_concat(head + part, tail);
    lemma_byte_len_concat(head, part);
}

/// What parsing accepts is sound: owner and name are plain segments, and joined by
/// `/` they make a reference within the length limit that parses to the same owner
/// and name.
pub proof fn lemma_parsed_reference_is_sound(path: Seq<char>)
    requires
        reference_fault(path) is None,
    ensures
        is_plain_segment(owner_part(path)),
        is_plain_segment(name_part(path)),
        byte_len(owner_part(path) + seq!['/'] + name_part(path)) <= MAX_PATH_LENGTH,
        reference_fault(owner_part(path) + seq!['/'] + name_part(path)) is None,
        owner_part(owner_part(path) + seq!['/'] + name_part(path)) == owner_part(path),
        name_part(owner_part(path) + seq!['/'] + name_part(path)) == name_part(path),
{
    let t = trim(path);
    let i = first_index_of(t, '/');
    let owner = owner_part(path);
    let name = name_part(path);
    lemma_trim_shape(path);
    lemma_first_index_shape(t, '/');
    lemma_count_zero(t, '/');
    assert(i < t.len());
    let before = t.take(i);
    let after = t.skip(i + 1);
    assert(t =~= before + seq!['/'] + after);
    // `/` occurs once in all, so not at all on either side of its first occurrence
    lemma_count_concat(before + seq!['/'], after, '/');
    lemma_count_concat(before, seq!['/'], '/');
    assert(count_of(seq!['/'], '/') == 1) by {
        assert(seq!['/'].drop_last() =~= Seq::<char>::empty());
        assert(count_of(Seq::<char>::empty(), '/') == 0);
    }
    lemma_count_zero(before, '/');
    lemma_count_zero(after, '/');
    lemma_trim_shape(before);
    lemma_trim_shape(after);
    assert(owner == before.subrange(trim_lo(before), trim_hi(before)));
    assert(name == after.subrange(trim_lo(after), trim_hi(after)));
    assert(count_of(owner, '/') == 0) by {
        lemma_count_zero(owner, '/');
        assert forall|j: int| 0 <= j < owner.len() implies #[trigger] owner[j] != '/' by {
            assert(owner[j] == before[trim_lo(before) + j]);
        }
    }
    assert(count_of(name, '/') == 0) by {
        lemma_count_zero(name, '/');
        assert forall|j: int| 0 <= j < name.len() implies #[trigger] name[j] != '/' by {
            assert(name[j] == after[trim_lo(after) + j]);
        }
    }
    assert(owner[0] == before[trim_lo(before)]);
    assert(owner.last() == before[trim_hi(before) - 1]);
    assert(name[0] == after[trim_lo(after)]);
    assert(name.last() == after[trim_hi(after) - 1]);
    // the joined reference is no longer than the text it was parsed from
    lemma_byte_len_subrange(before, trim_lo(before), trim_hi(before));
    lemma_byte_len_subrange(after, trim_lo(after), trim_hi(after));
    lemma_byte_len_concat(before + seq!['/'], after);
    lemma_byte_len_concat(before, seq!['/']);
    lemma_byte_len_concat(owner + seq!['/'], name);
    lemma_byte_len_concat(owner, seq!['/']);
    if trim_lo(path) < trim_hi(path) {
        lemma_byte_len_subrange(path, trim_lo(path), trim_hi(path));
    }
    lemma_parse_round_trip(owner, name);
}

} // verus!
