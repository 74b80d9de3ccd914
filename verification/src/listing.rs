//! Parsing of the service directory's two listings: the unit files with
//! their persisted states, and the units currently active. The commands
//! themselves run outside; this module turns their captured output into
//! the service list the application state is loaded with.
use vstd::prelude::*;

use crate::services::Service;
use crate::text::{spec_fields, spec_lines, split_fields, split_lines, str_eq, vec_str_ref};

verus! {

/// The unit-file states that can be toggled by hand; static, generated,
/// alias, transient, indirect and masked units are left out.
pub open spec fn state_toggleable(st: Seq<char>) -> bool {
    ||| st == "enabled"@
    ||| st == "enabled-runtime"@
    ||| st == "disabled"@
    ||| st == "linked"@
    ||| st == "linked-runtime"@
}

/// The unit-file states that count as enabled.
pub open spec fn state_enabled(st: Seq<char>) -> bool {
    st == "enabled"@ || st == "enabled-runtime"@ || st == "linked"@
}

/// The first field of each line that has one.
pub open spec fn first_fields(lines: Seq<Seq<char>>) -> Seq<Seq<char>>
    decreases lines.len(),
{
    if lines.len() == 0 {
        Seq::empty()
    } else {
        let rest = first_fields(lines.drop_last());
        let f = spec_fields(lines.last());
        if f.len() > 0 {
            rest.push(f[0])
        } else {
            rest
        }
    }
}

/// The names of the running units: the first field of each line of the
/// active-units listing.
pub open spec fn spec_active_names(active: Seq<char>) -> Seq<Seq<char>> {
    first_fields(spec_lines(active))
}

/// What one line of the unit-files listing contributes: its name and
/// state fields, kept only when the state is toggleable; whether the
/// unit is running comes from the active-units listing.
pub open spec fn listing_entry(line: Seq<char>, active: Seq<char>) -> Option<
    (Seq<char>, bool, bool),
> {
    let f = spec_fields(line);
    if f.len() >= 2 && state_toggleable(f[1]) {
        Some((f[0], state_enabled(f[1]), spec_active_names(active).contains(f[0])))
    } else {
        None
    }
}

/// The entries the given lines contribute, in order.
pub open spec fn listing_entries(lines: Seq<Seq<char>>, active: Seq<char>) -> Seq<
    (Seq<char>, bool, bool),
>
    decreases lines.len(),
{
    if lines.len() == 0 {
        Seq::empty()
    } else {
        let rest = listing_entries(lines.drop_last(), active);
        match listing_entry(lines.last(), active) {
            Some(t) => rest.push(t),
            None => rest,
        }
    }
}

/// The services the two listings describe: identifier, enabled flag and
/// running flag of each toggleable unit, in listing order.
pub open spec fn spec_services_from_listing(unit_files: Seq<char>, active: Seq<char>) -> Seq<
    (Seq<char>, bool, bool),
> {
    listing_entries(spec_lines(unit_files), active)
}

/// The first field of each line of the active-units listing.
fn active_names<'a>(active_units: &'a str) -> (r: Vec<&'a str>)
    ensures
        r@.len() == spec_active_names(active_units@).len(),
        forall|j: int| 0 <= j < r@.len() ==> (#[trigger] r@[j])@ == spec_active_names(
            active_units@,
        )[j],
{
    let ghost all = spec_lines(active_units@);
    let lines = split_lines(active_units);
    let mut r: Vec<&'a str> = Vec::new();
    let n = lines.len();
    let mut i: usize = 0;
    proof {
        assert(all.take(0) =~= Seq::<Seq<char>>::empty());
    }
    while i < n
        invariant
            n == lines@.len(),
            i <= n,
            all == spec_lines(active_units@),
            n == all.len(),
            forall|j: int| 0 <= j < n ==> (#[trigger] lines@[j])@ == all[j],
            r@.len() == first_fields(all.take(i as int)).len(),
            forall|j: int|
                0 <= j < r@.len() ==> (#[trigger] r@[j])@ == first_fields(all.take(i as int))[j],
        decreases n - i,
    {
        let line = *vec_str_ref(&lines, i);
        proof {
            assert(all.take(i + 1).drop_last() =~= all.take(i as int));
            assert(all.take(i + 1).last() == all[i as int]);
        }
        let fields = split_fields(line);
        if fields.len() > 0 {
            let first = *vec_str_ref(&fields, 0);
            r.push(first);
        }
        i = i + 1;
    }
    proof {
        assert(all.take(n as int) =~= all);
    }
    r
}

/// Whether the name stands among the given ones.
fn contains_name(names: &Vec<&str>, x: &str) -> (r: bool)
    ensures
        r == (exists|j: int| 0 <= j < names@.len() && (#[trigger] names@[j])@ == x@),
{
    let n = names.len();
    let mut i: usize = 0;
    while i < n
        invariant
            n == names@.len(),
            i <= n,
            forall|j: int| 0 <= j < i ==> (#[trigger] names@[j])@ != x@,
        decreases n - i,
    {
        let name = *vec_str_ref(names, i);
        if str_eq(name, x) {
            return true;
        }
        i = i + 1;
    }
    false
}

/// The service list the two captured listings describe: one service per
/// toggleable unit-file line, in listing order, its enabled flag from
/// the state field and its running flag from the active-units listing.
pub fn services_from_listing(unit_files: &str, active_units: &str) -> (r: Vec<Service>)
    ensures
        r@.len() == spec_services_from_listing(unit_files@, active_units@).len(),
        forall|i: int|
            0 <= i < r@.len() ==> {
                let t = spec_services_from_listing(unit_files@, active_units@)[i];
                &&& (#[trigger] r@[i]).name@ == t.0
                &&& r@[i].enabled == t.1
                &&& r@[i].active == t.2
            },
{
    let ghost all = spec_lines(unit_files@);
    let ghost sa = spec_active_names(active_units@);
    let lines = split_lines(unit_files);
    let actives = active_names(active_units);
    let mut r: Vec<Service> = Vec::new();
    let n = lines.len();
    let mut i: usize = 0;
    proof {
        assert(all.take(0) =~= Seq::<Seq<char>>::empty());
    }
    while i < n
        invariant
            n == lines@.len(),
            i <= n,
            all == spec_lines(unit_files@),
            sa == spec_active_names(active_units@),
            n == all.len(),
            forall|j: int| 0 <= j < n ==> (#[trigger] lines@[j])@ == all[j],
            actives@.len() == sa.len(),
            forall|j: int| 0 <= j < actives@.len() ==> (#[trigger] actives@[j])@ == sa[j],
            r@.len() == listing_entries(all.take(i as int), active_units@).len(),
            forall|j: int|
                0 <= j < r@.len() ==> {
                    let t = listing_entries(all.take(i as int), active_units@)[j];
                    &&& (#[trigger] r@[j]).name@ == t.0
                    &&& r@[j].enabled == t.1
                    &&& r@[j].active == t.2
                },
        decreases n - i,
    {
        let line = *vec_str_ref(&lines, i);
        proof {
            assert(all.take(i + 1).drop_last() =~= all.take(i as int));
            assert(all.take(i + 1).last() == all[i as int]);
        }
        let fields = split_fields(line);
        if fields.len() >= 2 {
            let name = *vec_str_ref(&fields, 0);
            let state = *vec_str_ref(&fields, 1);
            let toggleable = str_eq(state, "enabled") || str_eq(state, "enabled-runtime")
                || str_eq(state, "disabled") || str_eq(state, "linked") || str_eq(
                state,
                "linked-runtime",
            );
            if toggleable {
                let enabled = str_eq(state, "enabled") || str_eq(state, "enabled-runtime")
                    || str_eq(state, "linked");
                let active = contains_name(&actives, name);
                proof {
                    if active {
                        let j = choose|j: int|
                            0 <= j < actives@.len() && (#[trigger] actives@[j])@ == name@;
                        assert(sa[j] == name@);
                        assert(sa.contains(name@));
                    }
                    if sa.contains(name@) {
                        let j = choose|j: int| 0 <= j < sa.len() && sa[j] == name@;
                        assert(actives@[j]@ == name@);
                    }
                }
                r.push(Service { name: name.to_owned(), enabled, active });
            }
        }
        i = i + 1;
    }
    proof {
        assert(all.take(n as int) =~= all);
    }
    r
}

} // verus!
