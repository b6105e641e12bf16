//! Small helpers that belong to no component in particular.

use crate::text::{chars_of, ends_with_folded, ends_with_ignore_ascii_case};
use vstd::prelude::*;
use vstd::string::StringExecFns;

verus! {

/// The reader function that goes with a file, by the file's extension and without
/// regard to ASCII case.
pub open spec fn reader_for(path: Seq<char>) -> Seq<char> {
    if ends_with_folded(path, ".parquet"@) || ends_with_folded(path, ".parq"@) {
        "read_parquet"@
    } else if ends_with_folded(path, ".json"@) || ends_with_folded(path, ".jsonl"@)
        || ends_with_folded(path, ".ndjson"@) {
        "read_json_auto"@
    } else if ends_with_folded(path, ".xlsx"@) {
        "read_excel"@
    } else {
        "read_csv_auto"@
    }
}

/// Picks the reader function for a file by its extension: Parquet, JSON, Excel, and
/// CSV for everything else.
pub fn guess_reader_for_path(path: &str) -> (r: &'static str)
    ensures
        r@ == reader_for(path@),
{
    let v = chars_of(path);
    if ends_with_ignore_ascii_case(&v, ".parquet") || ends_with_ignore_ascii_case(&v, ".parq") {
        "read_parquet"
    } else if ends_with_ignore_ascii_case(&v, ".json") || ends_with_ignore_ascii_case(&v, ".jsonl")
        || ends_with_ignore_ascii_case(&v, ".ndjson") {
        "read_json_auto"
    } else if ends_with_ignore_ascii_case(&v, ".xlsx") {
        "read_excel"
    } else {
        "read_csv_auto"
    }
}

/// `name` below the directory `base`: the two joined by `/`, unless `base` is empty or
/// ends in `/` already.
pub open spec fn joined(base: Seq<char>, name: Seq<char>) -> Seq<char> {
    if base.len() == 0 || base.last() == '/' {
        base + name
    } else {
        base + "/"@ + name
    }
}

/// The path of `name` below the directory `base`.
pub fn join_path(base: &str, name: &str) -> (r: String)
    ensures
        r@ == joined(base@, name@),
{
    let v = chars_of(base);
    let mut r = base.to_owned();
    if v.len() > 0 && v[v.len() - 1] != '/' {
        r.append("/");
    }
    r.append(name);
    r
}

} // verus!
