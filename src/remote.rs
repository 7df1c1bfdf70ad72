//! Decisions on the remote vault's answers. The requests themselves are made by
//! the caller, which hands over each answer's status code and body.
use vstd::prelude::*;
use crate::date::CalendarDate;
use crate::plan::{Malformed, RenameError};
use crate::timestamp::{creation_date_utc, in_four_digit_years, utc_day_of};

verus! {

/// An HTTP status in the success class.
pub open spec fn is_success(status: u16) -> bool {
    200 <= status <= 299
}

/// Where `body` is JSON text: `None` where it has no `files` array, else each
/// element of that array as its text where it is a JSON string.
pub uninterp spec fn listed_entries_of(body: Seq<char>) -> Option<Option<Seq<Option<Seq<char>>>>>;

/// Where `body` is JSON text: the integer at `stat.ctime`, if there is one.
pub uninterp spec fn note_ctime_of(body: Seq<char>) -> Option<Option<i64>>;

pub open spec fn entry_view(e: Option<String>) -> Option<Seq<char>> {
    match e {
        Some(t) => Some(t@),
        None => None,
    }
}

pub open spec fn entries_view(r: Option<Option<Vec<Option<String>>>>) -> Option<Option<Seq<Option<Seq<char>>>>> {
    match r {
        None => None,
        Some(None) => Some(None),
        Some(Some(v)) => Some(Some(v@.map_values(|e: Option<String>| entry_view(e)))),
    }
}

/// Relies on `serde_json::from_str` into a `Value`, indexing it by `"files"`,
/// `Value::as_array` and `Value::as_str`: `None` where the body is no JSON text.
#[verifier::external_body]
fn listed_entries(body: &str) -> (r: Option<Option<Vec<Option<String>>>>)
    ensures
        entries_view(r) == listed_entries_of(body@),
{
    match serde_json::from_str::<serde_json::Value>(body) {
        Err(_) => None,
        Ok(json) => match json["files"].as_array() {
            None => Some(None),
            Some(items) => {
                let mut entries = Vec::new();
                for item in items {
                    entries.push(item.as_str().map(String::from));
                }
                Some(Some(entries))
            },
        },
    }
}

/// Relies on `serde_json::from_str` into a `Value`, indexing it by `"stat"` and
/// `"ctime"`, and `Value::as_i64`: `None` where the body is no JSON text.
#[verifier::external_body]
fn note_ctime(body: &str) -> (r: Option<Option<i64>>)
    ensures
        r == note_ctime_of(body@),
{
    match serde_json::from_str::<serde_json::Value>(body) {
        Ok(json) => Some(json["stat"]["ctime"].as_i64()),
        Err(_) => None,
    }
}

/// `r` is a `MalformedResponse` error of kind `m` that carries `body`.
pub open spec fn malformed_with<T>(r: Result<T, RenameError>, m: Malformed, body: Seq<char>) -> bool {
    r matches Err(RenameError::MalformedResponse(k, b)) && k == m && b@ == body
}

/// The texts among `entries`, in order.
pub open spec fn present(entries: Seq<Option<Seq<char>>>) -> Seq<Seq<char>>
    decreases entries.len(),
{
    if entries.len() == 0 {
        Seq::empty()
    } else {
        let rest = present(entries.drop_last());
        match entries.last() {
            Some(t) => rest.push(t),
            None => rest,
        }
    }
}

pub open spec fn names_view(v: Vec<String>) -> Seq<Seq<char>> {
    v@.map_values(|t: String| t@)
}

/// The listing that a parsed body gives.
pub open spec fn listing_spec(entries: Option<Option<Seq<Option<Seq<char>>>>>) -> Result<Seq<Seq<char>>, Malformed> {
    match entries {
        None => Err(Malformed::NotJson),
        Some(None) => Err(Malformed::MissingFiles),
        Some(Some(e)) => Ok(present(e)),
    }
}

/// The file names of a parsed listing body: its `files` entries that are
/// strings, in order; a body that is no JSON text, or that has no `files`
/// array, is malformed.
pub fn listing_from_entries(body: &str, entries: Option<Option<Vec<Option<String>>>>) -> (r: Result<Vec<String>, RenameError>)
    ensures
        match listing_spec(entries_view(entries)) {
            Ok(names) => r matches Ok(v) && names_view(v) == names,
            Err(m) => malformed_with(r, m, body@),
        },
{
    match entries {
        None => Err(RenameError::MalformedResponse(Malformed::NotJson, String::from_str(body))),
        Some(None) => Err(RenameError::MalformedResponse(Malformed::MissingFiles, String::from_str(body))),
        Some(Some(v)) => {
            let ghost ev = v@.map_values(|e: Option<String>| entry_view(e));
            let mut out: Vec<String> = Vec::new();
            let mut i: usize = 0;
            while i < v.len()
                invariant
                    i <= v@.len(),
                    ev == v@.map_values(|e: Option<String>| entry_view(e)),
                    names_view(out) == present(ev.subrange(0, i as int)),
                decreases v@.len() - i,
            {
                assert(ev.subrange(0, i + 1).drop_last() =~= ev.subrange(0, i as int));
                match &v[i] {
                    Some(t) => {
                        out.push(t.clone());
                    },
                    None => {},
                }
                assert(names_view(out) =~= present(ev.subrange(0, i + 1)));
                i += 1;
            }
            assert(ev.subrange(0, v@.len() as int) =~= ev);
            Ok(out)
        },
    }
}

/// The file names that a directory listing answer gives. A non-success status
/// is a `BackendStatus` error; an empty body, a body that is no JSON text and
/// one without a `files` array are malformed, and the error carries the body.
pub fn listing_from_response(status: u16, body: &str) -> (r: Result<Vec<String>, RenameError>)
    ensures
        !is_success(status) ==> (r matches Err(RenameError::BackendStatus(s, b)) && s == status && b@
            == body@),
        is_success(status) && body@.len() == 0 ==> malformed_with(r, Malformed::EmptyBody, body@),
        is_success(status) && body@.len() > 0 ==> match listing_spec(listed_entries_of(body@)) {
            Ok(names) => r matches Ok(v) && names_view(v) == names,
            Err(m) => malformed_with(r, m, body@),
        },
{
    if status < 200 || status > 299 {
        return Err(RenameError::BackendStatus(status, String::from_str(body)));
    }
    if body.unicode_len() == 0 {
        return Err(RenameError::MalformedResponse(Malformed::EmptyBody, String::from_str(body)));
    }
    listing_from_entries(body, listed_entries(body))
}

/// The creation date that a note answer gives: a non-success status is a
/// `BackendStatus` error, a body that is no JSON text is malformed, a note
/// without an integer `stat.ctime` gives `MetadataUnavailable`, else the UTC
/// day of that instant (`MetadataUnavailable` outside the four-digit years).
pub fn creation_date_from_note(status: u16, body: &str) -> (r: Result<CalendarDate, RenameError>)
    ensures
        !is_success(status) ==> (r matches Err(RenameError::BackendStatus(s, b)) && s == status && b@
            == body@),
        is_success(status) ==> match note_ctime_of(body@) {
            None => malformed_with(r, Malformed::NotJson, body@),
            Some(None) => r == Err::<CalendarDate, RenameError>(RenameError::MetadataUnavailable),
            Some(Some(ms)) => (r matches Ok(c) ==> (c.spec_year(), c.spec_month(), c.spec_day())
                == utc_day_of(ms as int)) && (in_four_digit_years(ms as int) <==> r is Ok) && (r matches Err(e) ==> e
                == RenameError::MetadataUnavailable),
        },
        r matches Ok(c) ==> c.wf(),
{
    if status < 200 || status > 299 {
        return Err(RenameError::BackendStatus(status, String::from_str(body)));
    }
    match note_ctime(body) {
        None => Err(RenameError::MalformedResponse(Malformed::NotJson, String::from_str(body))),
        Some(None) => Err(RenameError::MetadataUnavailable),
        Some(Some(ms)) => creation_date_utc(ms),
    }
}

/// The outcome of a rename answer: any non-success status is a
/// `BackendStatus` error carrying the status and body.
pub fn rename_outcome(status: u16, body: &str) -> (r: Result<(), RenameError>)
    ensures
        is_success(status) <==> r is Ok,
        !is_success(status) ==> (r matches Err(RenameError::BackendStatus(s, b)) && s == status && b@
            == body@),
{
    if status < 200 || status > 299 {
        Err(RenameError::BackendStatus(status, String::from_str(body)))
    } else {
        Ok(())
    }
}

} // verus!
