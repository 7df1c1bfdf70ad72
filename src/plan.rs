//! Resolving a file's date and planning its rename. Nothing here touches a file.
use vstd::prelude::*;
use crate::date::{iso_text, CalendarDate};
use crate::extract::{date_in_name, has_iso_prefix, is_already_dated, match_date, ymd_of, chars_of};

verus! {

/// Why handling a file, or a whole run, did not succeed.
#[derive(Clone, Debug, PartialEq, Eq)]
pub enum RenameError {
    /// The path names no file (it is empty or ends with `/`).
    InvalidPath,
    /// No creation time could be had for a file whose name holds no date.
    MetadataUnavailable,
    /// The remote service could not be reached.
    BackendUnreachable,
    /// The remote service answered with a non-success status and this body.
    BackendStatus(u16, String),
    /// The remote service answered with this body, which lacks what was asked
    /// for.
    MalformedResponse(Malformed, String),
    /// The storage refused the rename itself.
    RenameFailed,
}

/// What was wrong with a remote body.
#[derive(Clone, Copy, Debug, PartialEq, Eq, Structural)]
pub enum Malformed {
    EmptyBody,
    NotJson,
    MissingFiles,
}

/// How the date of a name is settled.
#[derive(Clone, Copy, Debug, PartialEq, Eq, Structural)]
pub enum Resolution {
    /// The name already begins with `DDDD-DD-DD`: nothing is to be done.
    AlreadyDated,
    /// The name holds this date.
    Dated(CalendarDate),
    /// The name holds no date: the creation time must decide.
    NotFound,
}

/// The index where the last component of a `/`-separated path begins.
pub open spec fn name_start(s: Seq<char>) -> int
    decreases s.len(),
{
    if s.len() == 0 {
        0
    } else if s.last() == '/' {
        s.len() as int
    } else {
        name_start(s.drop_last())
    }
}

/// The file name of a path: what follows its last `/`.
pub open spec fn file_name_of(s: Seq<char>) -> Seq<char> {
    s.subrange(name_start(s), s.len() as int)
}

/// The directory part of a path, its last `/` included.
pub open spec fn parent_of(s: Seq<char>) -> Seq<char> {
    s.subrange(0, name_start(s))
}

/// The dated name: `YYYY-MM-DD - ` followed by the unchanged name.
pub open spec fn renamed_text(c: CalendarDate, name: Seq<char>) -> Seq<char> {
    iso_text(c) + seq![' ', '-', ' '] + name
}

proof fn lemma_name_start_bounds(s: Seq<char>)
    ensures
        0 <= name_start(s) <= s.len(),
    decreases s.len(),
{
    if s.len() > 0 && s.last() != '/' {
        lemma_name_start_bounds(s.drop_last());
    }
}

/// The index where the file name of `path` begins.
pub fn name_start_of(path: &str) -> (r: usize)
    ensures
        r == name_start(path@),
        r <= path@.len(),
{
    proof {
        lemma_name_start_bounds(path@);
    }
    let s = chars_of(path);
    let mut i: usize = s.len();
    assert(s@.subrange(0, i as int) =~= s@);
    while i > 0 && s[i - 1] != '/'
        invariant
            i <= s@.len(),
            name_start(s@) == name_start(s@.subrange(0, i as int)),
        decreases i,
    {
        assert(s@.subrange(0, i as int).drop_last() =~= s@.subrange(0, i - 1));
        i -= 1;
    }
    assert(s@.subrange(0, 0) =~= Seq::<char>::empty());
    i
}

/// Settles the date of `name`: already dated, dated by the name, or not found.
pub fn resolve(name: &str) -> (r: Resolution)
    ensures
        r is AlreadyDated <==> has_iso_prefix(name@),
        r matches Resolution::Dated(c) ==> c.wf() && !has_iso_prefix(name@) && date_in_name(name@)
            == Some(ymd_of(c)),
        r is NotFound <==> !has_iso_prefix(name@) && date_in_name(name@) is None,
{
    if is_already_dated(name) {
        return Resolution::AlreadyDated;
    }
    match match_date(name) {
        Some(c) => Resolution::Dated(c),
        None => Resolution::NotFound,
    }
}

/// A planned rename: the file at `original` becomes `new_path`, whose last
/// component is `new_name`.
#[derive(Clone, Debug, PartialEq, Eq)]
pub struct RenamePlan {
    pub original: String,
    pub date: CalendarDate,
    pub new_name: String,
    pub new_path: String,
}

/// `p` renames the file at `path` by prefixing its name with `c`.
pub open spec fn is_plan_for(p: RenamePlan, path: Seq<char>, c: CalendarDate) -> bool {
    &&& p.original@ == path
    &&& p.date == c
    &&& p.new_name@ == renamed_text(c, file_name_of(path))
    &&& p.new_path@ == parent_of(path) + p.new_name@
}

/// Plans the rename of the file at `path` to carry `date` in front of its name.
pub fn plan(path: &str, date: CalendarDate) -> (r: RenamePlan)
    ensures
        is_plan_for(r, path@, date),
{
    let start = name_start_of(path);
    let n = path.unicode_len();
    let name = path.substring_char(start, n);
    let parent = path.substring_char(0, start);
    let new_name = date.to_iso_string().concat(" - ").concat(name);
    let new_path = String::from_str(parent).concat(new_name.as_str());
    proof {
        reveal_strlit(" - ");
        assert(new_name@ =~= renamed_text(date, file_name_of(path@)));
    }
    RenamePlan { original: String::from_str(path), date, new_name, new_path }
}

} // verus!
