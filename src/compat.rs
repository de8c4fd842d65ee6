//! Compatibility of a catalog item with a patient and a mention: species, route, and
//! exact name matches. Comparisons ignore case.
use vstd::prelude::*;
use crate::search::views;
use crate::text::{contains_text, lower_of, occurs_in, to_lower, to_upper, upper_of};

verus! {

/// How well an item's restriction fits what is known of the encounter.
#[derive(Debug, Clone, Copy, PartialEq, Eq, Structural)]
pub enum Fit {
    /// The item allows it.
    Compatible,
    /// Too little is known to tell.
    Unknown,
    /// The item names a restriction that excludes it.
    Incompatible,
}

/// Whether some entry of `list` has the same lowercase form as `x`.
pub open spec fn any_lower_equal(list: Seq<Seq<char>>, x: Seq<char>) -> bool {
    exists|i: int| 0 <= i < list.len() && lower_of(list[i]) == lower_of(x)
}

/// Whether some entry of `list` has the same uppercase form as `x`.
pub open spec fn any_upper_equal(list: Seq<Seq<char>>, x: Seq<char>) -> bool {
    exists|i: int| 0 <= i < list.len() && upper_of(list[i]) == upper_of(x)
}

/// Whether an item restricted to `species` (no entries: no restriction) suits `s`.
pub open spec fn species_ok(species: Seq<Seq<char>>, s: Seq<char>) -> bool {
    species.len() == 0 || any_lower_equal(species, s)
}

/// Whether an item restricted to `routes` (no entries: no restriction) suits `r`.
pub open spec fn route_ok(routes: Seq<Seq<char>>, r: Seq<char>) -> bool {
    routes.len() == 0 || any_upper_equal(routes, r)
}

/// Whether an item suits a species; an item with no species listed suits all.
pub fn is_species_compatible(species: &Vec<String>, s: &str) -> (r: bool)
    ensures
        r == species_ok(views(species@), s@),
{
    if species.len() == 0 {
        return true;
    }
    let target = to_lower(s);
    let mut i: usize = 0;
    while i < species.len()
        invariant
            i <= species@.len(),
            target@ == lower_of(s@),
            forall|k: int| 0 <= k < i ==> lower_of(species@[k]@) != lower_of(s@),
        decreases species@.len() - i,
    {
        let l = to_lower(species[i].as_str());
        if l == target {
            assert(views(species@)[i as int] == species@[i as int]@);
            return true;
        }
        i = i + 1;
    }
    assert forall|k: int| 0 <= k < views(species@).len() implies lower_of(views(species@)[k]) != lower_of(s@) by {
        assert(views(species@)[k] == species@[k]@);
    }
    false
}

/// Whether an item suits a route; an item with no routes listed suits all.
pub fn is_route_compatible(routes: &Vec<String>, route: &str) -> (r: bool)
    ensures
        r == route_ok(views(routes@), route@),
{
    if routes.len() == 0 {
        return true;
    }
    let target = to_upper(route);
    let mut i: usize = 0;
    while i < routes.len()
        invariant
            i <= routes@.len(),
            target@ == upper_of(route@),
            forall|k: int| 0 <= k < i ==> upper_of(routes@[k]@) != upper_of(route@),
        decreases routes@.len() - i,
    {
        let u = to_upper(routes[i].as_str());
        if u == target {
            assert(views(routes@)[i as int] == routes@[i as int]@);
            return true;
        }
        i = i + 1;
    }
    assert forall|k: int| 0 <= k < views(routes@).len() implies upper_of(views(routes@)[k]) != upper_of(route@) by {
        assert(views(routes@)[k] == routes@[k]@);
    }
    false
}

/// The species fit: without a restriction on the item, compatible; otherwise unknown
/// without a patient species, else compatible or not.
pub open spec fn species_fit_of(species: Seq<Seq<char>>, patient: Option<Seq<char>>) -> Fit {
    if species.len() == 0 {
        Fit::Compatible
    } else {
        match patient {
            None => Fit::Unknown,
            Some(p) => if any_lower_equal(species, p) {
                Fit::Compatible
            } else {
                Fit::Incompatible
            },
        }
    }
}

/// The route fit: unknown without a route or without a restriction on the item, else
/// compatible or not.
pub open spec fn route_fit_of(routes: Seq<Seq<char>>, route: Option<Seq<char>>) -> Fit {
    match route {
        None => Fit::Unknown,
        Some(r) => if routes.len() == 0 {
            Fit::Unknown
        } else if any_upper_equal(routes, r) {
            Fit::Compatible
        } else {
            Fit::Incompatible
        },
    }
}

/// How an item's species restriction fits the patient's species.
pub fn species_fit(species: &Vec<String>, patient: Option<&str>) -> (r: Fit)
    ensures
        r == species_fit_of(views(species@), match patient {
            Some(p) => Some(p@),
            None => None,
        }),
{
    if species.len() == 0 {
        return Fit::Compatible;
    }
    match patient {
        None => Fit::Unknown,
        Some(p) => if is_species_compatible(species, p) {
            Fit::Compatible
        } else {
            Fit::Incompatible
        },
    }
}

/// How an item's route restriction fits the mention's route.
pub fn route_fit(routes: &Vec<String>, route: Option<&str>) -> (r: Fit)
    ensures
        r == route_fit_of(views(routes@), match route {
            Some(x) => Some(x@),
            None => None,
        }),
{
    match route {
        None => Fit::Unknown,
        Some(x) => if routes.len() == 0 {
            Fit::Unknown
        } else if is_route_compatible(routes, x) {
            Fit::Compatible
        } else {
            Fit::Incompatible
        },
    }
}

/// Whether a query names an item outright: it occurs in the item's name, or equals one of
/// its aliases, ignoring case.
pub open spec fn exact_name_match(name: Seq<char>, aliases: Seq<Seq<char>>, query: Seq<char>) -> bool {
    occurs_in(lower_of(name), lower_of(query)) || any_lower_equal(aliases, query)
}

/// Decides whether a query names an item outright.
pub fn matches_name_exactly(name: &str, aliases: &Vec<String>, query: &str) -> (r: bool)
    ensures
        r == exact_name_match(name@, views(aliases@), query@),
{
    let q = to_lower(query);
    let n = to_lower(name);
    if contains_text(n.as_str(), q.as_str()) {
        return true;
    }
    let mut i: usize = 0;
    while i < aliases.len()
        invariant
            i <= aliases@.len(),
            q@ == lower_of(query@),
            forall|k: int| 0 <= k < i ==> lower_of(aliases@[k]@) != lower_of(query@),
        decreases aliases@.len() - i,
    {
        let a = to_lower(aliases[i].as_str());
        if a == q {
            assert(views(aliases@)[i as int] == aliases@[i as int]@);
            return true;
        }
        i = i + 1;
    }
    assert forall|k: int| 0 <= k < views(aliases@).len() implies lower_of(views(aliases@)[k]) != lower_of(query@) by {
        assert(views(aliases@)[k] == aliases@[k]@);
    }
    false
}

} // verus!
