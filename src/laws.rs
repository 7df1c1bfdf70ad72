//! Properties that hold across the library's functions.
use vstd::prelude::*;
use crate::date::{digit_char, iso_text, padded, valid_ymd, CalendarDate};
use crate::extract::{
    date_in_name, digits_at, has_iso_prefix, is_digit, iso_candidate, number_at,
};
use crate::pipeline::{first_step_ok, is_folder_entry, joined, FileStep};
use crate::plan::{file_name_of, is_plan_for, name_start, parent_of, renamed_text, RenameError, RenamePlan};

verus! {

proof fn lemma_digit_char_is_digit(n: int)
    requires
        0 <= n < 10,
    ensures
        is_digit(digit_char(n)),
{
    if n == 0 {} else if n == 1 {} else if n == 2 {} else if n == 3 {} else if n == 4 {}
    else if n == 5 {} else if n == 6 {} else if n == 7 {} else if n == 8 {} else {}
}

proof fn lemma_padded_digits(n: nat, width: nat)
    ensures
        padded(n, width).len() == width,
        digits_at(padded(n, width), 0, width as int),
    decreases width,
{
    if width > 0 {
        lemma_padded_digits(n / 10, (width - 1) as nat);
        lemma_digit_char_is_digit((n % 10) as int);
        let s = padded(n, width);
        let prev = padded(n / 10, (width - 1) as nat);
        assert forall|k: int| 0 <= k < width implies is_digit(#[trigger] s[0 + k]) by {
            if k < width - 1 {
                assert(s[k] == prev[0 + k]);
            }
        }
    }
}

/// A dated name begins with `DDDD-DD-DD` whatever followed the date.
proof fn lemma_renamed_has_prefix(c: CalendarDate, name: Seq<char>)
    requires
        c.wf(),
    ensures
        has_iso_prefix(renamed_text(c, name)),
{
    let y = padded(c.spec_year() as nat, 4);
    let m = padded(c.spec_month() as nat, 2);
    let d = padded(c.spec_day() as nat, 2);
    lemma_padded_digits(c.spec_year() as nat, 4);
    lemma_padded_digits(c.spec_month() as nat, 2);
    lemma_padded_digits(c.spec_day() as nat, 2);
    let s = renamed_text(c, name);
    assert(s =~= y + seq!['-'] + m + seq!['-'] + d + seq![' ', '-', ' '] + name);
    assert forall|k: int| 0 <= k < 4 implies is_digit(#[trigger] s[0 + k]) by {
        assert(s[k] == y[0 + k]);
    }
    assert forall|k: int| 0 <= k < 2 implies is_digit(#[trigger] s[5 + k]) by {
        assert(s[5 + k] == m[0 + k]);
    }
    assert forall|k: int| 0 <= k < 2 implies is_digit(#[trigger] s[8 + k]) by {
        assert(s[8 + k] == d[0 + k]);
    }
    assert(s[4] == '-');
    assert(s[7] == '-');
}

proof fn lemma_name_start_slash(s: Seq<char>)
    ensures
        0 <= name_start(s) <= s.len(),
        name_start(s) > 0 ==> s[name_start(s) - 1] == '/',
        forall|k: int| name_start(s) <= k < s.len() ==> s[k] != '/',
    decreases s.len(),
{
    if s.len() > 0 && s.last() != '/' {
        lemma_name_start_slash(s.drop_last());
        assert forall|k: int| name_start(s) <= k < s.len() implies s[k] != '/' by {
            if k < s.len() - 1 {
                assert(s.drop_last()[k] == s[k]);
            }
        }
    }
}

/// Appending text without `/` to a path that is empty or ends in `/` gives a
/// path whose file name is exactly that text.
proof fn lemma_name_after_parent(p: Seq<char>, q: Seq<char>)
    requires
        p.len() == 0 || p.last() == '/',
        forall|k: int| 0 <= k < q.len() ==> q[k] != '/',
    ensures
        name_start(p + q) == p.len(),
    decreases q.len(),
{
    if q.len() == 0 {
        assert(p + q =~= p);
    } else {
        assert((p + q).drop_last() =~= p + q.drop_last());
        lemma_name_after_parent(p, q.drop_last());
    }
}

/// A date found in a name that begins with a real day written `YYYY-MM-DD` is
/// that day: the later layouts are not consulted.
pub proof fn lemma_leading_date_wins(s: Seq<char>)
    requires
        has_iso_prefix(s),
        valid_ymd(number_at(s, 0, 4), number_at(s, 5, 2), number_at(s, 8, 2)),
    ensures
        date_in_name(s) == Some((number_at(s, 0, 4), number_at(s, 5, 2), number_at(s, 8, 2))),
        date_in_name(s) == iso_candidate(s),
{
}

/// A file whose name already begins with `DDDD-DD-DD`, a real day or not, is
/// skipped: no rename is planned for it.
pub proof fn lemma_dated_names_skipped(path: Seq<char>, r: Result<FileStep, RenameError>)
    requires
        has_iso_prefix(file_name_of(path)),
        first_step_ok(path, r),
    ensures
        r == Ok::<FileStep, RenameError>(FileStep::AlreadyDated),
{
}

/// A file whose name holds no date goes on to the creation-time fallback.
pub proof fn lemma_undated_names_fall_back(path: Seq<char>, r: Result<FileStep, RenameError>)
    requires
        file_name_of(path).len() > 0,
        !has_iso_prefix(file_name_of(path)),
        date_in_name(file_name_of(path)) is None,
        first_step_ok(path, r),
    ensures
        r == Ok::<FileStep, RenameError>(FileStep::NeedsCreationDate),
{
}

/// The planned name is the date as `YYYY-MM-DD`, then ` - `, then the file's
/// name unchanged.
pub proof fn lemma_plan_name(path: Seq<char>, c: CalendarDate, p: RenamePlan)
    requires
        is_plan_for(p, path, c),
    ensures
        p.new_name@ == iso_text(c) + seq![' ', '-', ' '] + file_name_of(path),
        p.new_path@ == parent_of(path) + p.new_name@,
{
}

/// The new name of a plan begins with a date and holds no `/`.
proof fn lemma_new_name_facts(path: Seq<char>, c: CalendarDate, p: RenamePlan)
    requires
        c.wf(),
        is_plan_for(p, path, c),
    ensures
        has_iso_prefix(p.new_name@),
        p.new_name@.len() >= 10,
        forall|k: int| 0 <= k < p.new_name@.len() ==> p.new_name@[k] != '/',
{
    let name = file_name_of(path);
    lemma_name_start_slash(path);
    lemma_renamed_has_prefix(c, name);
    let nn = p.new_name@;
    lemma_padded_digits(c.spec_year() as nat, 4);
    assert forall|k: int| 0 <= k < nn.len() implies nn[k] != '/' by {
        let pre = iso_text(c) + seq![' ', '-', ' '];
        assert(nn =~= pre + name);
        if k >= pre.len() {
            assert(nn[k] == name[k - pre.len()]);
            assert(name[k - pre.len()] == path[name_start(path) + k - pre.len()]);
        } else {
            let y = padded(c.spec_year() as nat, 4);
            let m = padded(c.spec_month() as nat, 2);
            let d = padded(c.spec_day() as nat, 2);
            lemma_padded_digits(c.spec_month() as nat, 2);
            lemma_padded_digits(c.spec_day() as nat, 2);
            assert(pre =~= y + seq!['-'] + m + seq!['-'] + d + seq![' ', '-', ' ']);
            if k < 4 {
                assert(pre[k] == y[0 + k]);
            } else if 5 <= k < 7 {
                assert(pre[k] == m[0 + (k - 5)]);
            } else if 8 <= k < 10 {
                assert(pre[k] == d[0 + (k - 8)]);
            }
        }
    }
}

/// Running the pipeline again on a renamed file skips it: its new name already
/// begins with a date.
pub proof fn lemma_second_run_skips(
    path: Seq<char>,
    c: CalendarDate,
    p: RenamePlan,
    r: Result<FileStep, RenameError>,
)
    requires
        c.wf(),
        is_plan_for(p, path, c),
        first_step_ok(p.new_path@, r),
    ensures
        file_name_of(p.new_path@) == p.new_name@,
        r == Ok::<FileStep, RenameError>(FileStep::AlreadyDated),
{
    let parent = parent_of(path);
    lemma_name_start_slash(path);
    lemma_new_name_facts(path, c, p);
    if parent.len() > 0 {
        assert(parent.last() == path[name_start(path) - 1]);
    }
    lemma_name_after_parent(parent, p.new_name@);
    assert(file_name_of(p.new_path@) =~= p.new_name@);
}

/// Entries without `/` are all files: the listing split gives `dir` followed by
/// each of them, in order.
proof fn lemma_joined_files(dir: Seq<char>, names: Seq<Seq<char>>)
    requires
        forall|j: int, k: int| 0 <= j < names.len() && 0 <= k < names[j].len() ==> names[j][k] != '/',
    ensures
        joined(dir, names, false).len() == names.len(),
        forall|j: int| 0 <= j < names.len() ==> #[trigger] joined(dir, names, false)[j] == dir + names[j],
        joined(dir, names, true).len() == 0,
    decreases names.len(),
{
    if names.len() > 0 {
        let last = names.last();
        assert(names.drop_last().len() == names.len() - 1);
        assert forall|j: int, k: int| 0 <= j < names.drop_last().len() && 0 <= k < names.drop_last()[j].len()
            implies names.drop_last()[j][k] != '/' by {
            assert(names.drop_last()[j] == names[j]);
        }
        lemma_joined_files(dir, names.drop_last());
        if last.len() > 0 {
            assert(last[last.len() - 1] != '/');
        }
        assert(!is_folder_entry(last));
        assert forall|j: int| 0 <= j < names.len() implies #[trigger] joined(dir, names, false)[j] == dir + names[j] by {
            if j < names.len() - 1 {
                assert(joined(dir, names.drop_last(), false)[j] == dir + names.drop_last()[j]);
            }
        }
    }
}

/// A directory run over a listing whose entries are the new names that an
/// earlier run gave (`plans[j]` renamed `paths[j]` to the date `dates[j]`)
/// skips every file it gets: no rename is planned for any of them.
pub proof fn lemma_second_directory_run_skips(
    dir: Seq<char>,
    paths: Seq<Seq<char>>,
    dates: Seq<CalendarDate>,
    plans: Seq<RenamePlan>,
    i: int,
    r: Result<FileStep, RenameError>,
)
    requires
        dir.len() == 0 || dir.last() == '/',
        paths.len() == plans.len(),
        dates.len() == plans.len(),
        forall|j: int| 0 <= j < plans.len() ==> #[trigger] dates[j].wf() && is_plan_for(plans[j], paths[j], dates[j]),
        0 <= i < plans.len(),
        first_step_ok(dir + plans[i].new_name@, r),
    ensures
        joined(dir, plans.map_values(|p: RenamePlan| p.new_name@), false)[i] == dir + plans[i].new_name@,
        r == Ok::<FileStep, RenameError>(FileStep::AlreadyDated),
{
    let names = plans.map_values(|p: RenamePlan| p.new_name@);
    assert(names.len() == plans.len());
    assert forall|j: int, k: int| 0 <= j < names.len() && 0 <= k < names[j].len() implies names[j][k] != '/' by {
        assert(dates[j].wf() && is_plan_for(plans[j], paths[j], dates[j]));
        lemma_new_name_facts(paths[j], dates[j], plans[j]);
        assert(names[j] == plans[j].new_name@);
    }
    lemma_joined_files(dir, names);
    assert(dates[i].wf() && is_plan_for(plans[i], paths[i], dates[i]));
    lemma_new_name_facts(paths[i], dates[i], plans[i]);
    lemma_name_after_parent(dir, plans[i].new_name@);
    assert(file_name_of(dir + plans[i].new_name@) =~= plans[i].new_name@);
}

} // verus!
