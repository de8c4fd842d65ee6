//! Normalization of drug mentions: alias expansion, unit conversion and route
//! canonicalization. Lookups are made on the lowercase form of the input; when a key
//! was entered twice, the later entry wins.
use vstd::prelude::*;
use vstd::string::StringExecFns;
use crate::text::{lower_of, to_lower, to_upper, upper_of};

verus! {

/// An exact conversion factor `num / den`.
#[derive(Debug, Clone, Copy, PartialEq, Eq, Structural)]
pub struct UnitFactor {
    pub num: u64,
    pub den: u64,
}

/// A table of text keys to values, in order of entry.
pub type NameTable = Vec<(String, String)>;

/// A table of units to their canonical unit and factor, in order of entry.
pub type UnitTable = Vec<(String, String, UnitFactor)>;

/// The value entered last under key `k`, if any.
pub open spec fn lookup<V>(t: Seq<(Seq<char>, V)>, k: Seq<char>) -> Option<V>
    decreases t.len(),
{
    if t.len() == 0 {
        None
    } else if t.last().0 == k {
        Some(t.last().1)
    } else {
        lookup(t.drop_last(), k)
    }
}

/// View of a name table.
pub open spec fn name_view(v: Seq<(String, String)>) -> Seq<(Seq<char>, Seq<char>)> {
    Seq::new(v.len(), |i: int| (v[i].0@, v[i].1@))
}

/// View of a unit table.
pub open spec fn unit_view(v: Seq<(String, String, UnitFactor)>) -> Seq<(Seq<char>, (Seq<char>, UnitFactor))> {
    Seq::new(v.len(), |i: int| (v[i].0@, (v[i].1@, v[i].2)))
}

/// The factor that leaves a dose unchanged.
pub open spec fn unit_one() -> UnitFactor {
    UnitFactor { num: 1, den: 1 }
}

/// Well-known brand names and abbreviations, with their active ingredients.
pub open spec fn default_alias_table() -> Seq<(Seq<char>, Seq<char>)> {
    seq![
        ("rimadyl"@, "carprofen"@),
        ("novox"@, "carprofen"@),
        ("quellin"@, "carprofen"@),
        ("metacam"@, "meloxicam"@),
        ("loxicom"@, "meloxicam"@),
        ("previcox"@, "firocoxib"@),
        ("deramaxx"@, "deracoxib"@),
        ("galliprant"@, "grapiprant"@),
        ("onsior"@, "robenacoxib"@),
        ("ace"@, "acepromazine"@),
        ("promace"@, "acepromazine"@),
        ("atravet"@, "acepromazine"@),
        ("propoflo"@, "propofol"@),
        ("telazol"@, "tiletamine-zolazepam"@),
        ("domitor"@, "medetomidine"@),
        ("dexdomitor"@, "dexmedetomidine"@),
        ("antisedan"@, "atipamezole"@),
        ("torb"@, "butorphanol"@),
        ("torbugesic"@, "butorphanol"@),
        ("clavamox"@, "amoxicillin-clavulanate"@),
        ("augmentin"@, "amoxicillin-clavulanate"@),
        ("baytril"@, "enrofloxacin"@),
        ("zeniquin"@, "marbofloxacin"@),
        ("convenia"@, "cefovecin"@),
        ("simplicef"@, "cefpodoxime"@),
        ("orbax"@, "orbifloxacin"@),
        ("dex"@, "dexamethasone"@),
        ("depo"@, "methylprednisolone"@),
        ("depo-medrol"@, "methylprednisolone"@),
        ("pred"@, "prednisone"@),
        ("prednisolone"@, "prednisolone"@),
        ("vetalog"@, "triamcinolone"@),
        ("heartgard"@, "ivermectin"@),
        ("ivomec"@, "ivermectin"@),
        ("interceptor"@, "milbemycin"@),
        ("sentinel"@, "milbemycin-lufenuron"@),
        ("revolution"@, "selamectin"@),
        ("strongid"@, "pyrantel"@),
        ("panacur"@, "fenbendazole"@),
        ("drontal"@, "praziquantel-pyrantel"@),
        ("vetmedin"@, "pimobendan"@),
        ("enacard"@, "enalapril"@),
        ("vasotec"@, "enalapril"@),
        ("salix"@, "furosemide"@),
        ("lasix"@, "furosemide"@),
        ("digoxin"@, "digoxin"@),
        ("cerenia"@, "maropitant"@),
        ("reglan"@, "metoclopramide"@),
        ("pepcid"@, "famotidine"@),
        ("zantac"@, "ranitidine"@),
        ("prilosec"@, "omeprazole"@),
        ("gastrogard"@, "omeprazole"@),
        ("sucralfate"@, "sucralfate"@),
        ("carafate"@, "sucralfate"@),
        ("keppra"@, "levetiracetam"@),
        ("zonegran"@, "zonisamide"@),
        ("phenobarb"@, "phenobarbital"@),
        ("potassium bromide"@, "potassium-bromide"@),
        ("kbr"@, "potassium-bromide"@),
        ("soloxine"@, "levothyroxine"@),
        ("thyro-tabs"@, "levothyroxine"@),
        ("methimazole"@, "methimazole"@),
        ("tapazole"@, "methimazole"@),
        ("felimazole"@, "methimazole"@),
        ("clomicalm"@, "clomipramine"@),
        ("reconcile"@, "fluoxetine"@),
        ("prozac"@, "fluoxetine"@),
        ("sileo"@, "dexmedetomidine"@),
        ("trazadone"@, "trazodone"@),
    ]
}

/// Spoken units, with their canonical unit and conversion factor.
pub open spec fn default_unit_table() -> Seq<(Seq<char>, (Seq<char>, UnitFactor))> {
    seq![
        ("cc"@, ("mL"@, UnitFactor { num: 1, den: 1 })),
        ("ml"@, ("mL"@, UnitFactor { num: 1, den: 1 })),
        ("l"@, ("mL"@, UnitFactor { num: 1000, den: 1 })),
        ("liter"@, ("mL"@, UnitFactor { num: 1000, den: 1 })),
        ("liters"@, ("mL"@, UnitFactor { num: 1000, den: 1 })),
        ("mcg"@, ("mg"@, UnitFactor { num: 1, den: 1000 })),
        ("microgram"@, ("mg"@, UnitFactor { num: 1, den: 1000 })),
        ("micrograms"@, ("mg"@, UnitFactor { num: 1, den: 1000 })),
        ("µg"@, ("mg"@, UnitFactor { num: 1, den: 1000 })),
        ("g"@, ("mg"@, UnitFactor { num: 1000, den: 1 })),
        ("gram"@, ("mg"@, UnitFactor { num: 1000, den: 1 })),
        ("grams"@, ("mg"@, UnitFactor { num: 1000, den: 1 })),
        ("kg"@, ("mg"@, UnitFactor { num: 1000000, den: 1 })),
        ("unit"@, ("units"@, UnitFactor { num: 1, den: 1 })),
        ("iu"@, ("IU"@, UnitFactor { num: 1, den: 1 })),
        ("tab"@, ("tablets"@, UnitFactor { num: 1, den: 1 })),
        ("tabs"@, ("tablets"@, UnitFactor { num: 1, den: 1 })),
        ("tablet"@, ("tablets"@, UnitFactor { num: 1, den: 1 })),
        ("cap"@, ("capsules"@, UnitFactor { num: 1, den: 1 })),
        ("caps"@, ("capsules"@, UnitFactor { num: 1, den: 1 })),
        ("capsule"@, ("capsules"@, UnitFactor { num: 1, den: 1 })),
    ]
}

/// Spoken routes of administration, with their standard abbreviations.
pub open spec fn default_route_table() -> Seq<(Seq<char>, Seq<char>)> {
    seq![
        ("oral"@, "PO"@),
        ("orally"@, "PO"@),
        ("by mouth"@, "PO"@),
        ("per os"@, "PO"@),
        ("po"@, "PO"@),
        ("intravenous"@, "IV"@),
        ("intravenously"@, "IV"@),
        ("iv"@, "IV"@),
        ("i.v."@, "IV"@),
        ("intramuscular"@, "IM"@),
        ("intramuscularly"@, "IM"@),
        ("im"@, "IM"@),
        ("i.m."@, "IM"@),
        ("subcutaneous"@, "SQ"@),
        ("subcutaneously"@, "SQ"@),
        ("subq"@, "SQ"@),
        ("sub-q"@, "SQ"@),
        ("sq"@, "SQ"@),
        ("sc"@, "SQ"@),
        ("topical"@, "TOP"@),
        ("topically"@, "TOP"@),
        ("top"@, "TOP"@),
        ("ophthalmic"@, "OPH"@),
        ("ophthalmically"@, "OPH"@),
        ("eye"@, "OPH"@),
        ("in the eye"@, "OPH"@),
        ("in the eyes"@, "OPH"@),
        ("ou"@, "OPH"@),
        ("od"@, "OPH"@),
        ("os"@, "OPH"@),
        ("otic"@, "OT"@),
        ("ear"@, "OT"@),
        ("in the ear"@, "OT"@),
        ("in the ears"@, "OT"@),
        ("rectal"@, "PR"@),
        ("rectally"@, "PR"@),
        ("per rectum"@, "PR"@),
        ("pr"@, "PR"@),
        ("intranasal"@, "IN"@),
        ("intranasally"@, "IN"@),
        ("in the nose"@, "IN"@),
        ("transdermal"@, "TD"@),
        ("transdermally"@, "TD"@),
    ]
}

fn push_pair(v: &mut NameTable, k: &str, c: &str)
    ensures
        name_view(final(v)@) == name_view(old(v)@).push((k@, c@)),
{
    v.push((String::from_str(k), String::from_str(c)));
    assert(name_view(v@) =~= name_view(old(v)@).push((k@, c@)));
}

fn push_unit(v: &mut UnitTable, k: &str, to: &str, num: u64, den: u64)
    ensures
        unit_view(final(v)@) == unit_view(old(v)@).push((k@, (to@, UnitFactor { num, den }))),
{
    v.push((String::from_str(k), String::from_str(to), UnitFactor { num, den }));
    assert(unit_view(v@) =~= unit_view(old(v)@).push((k@, (to@, UnitFactor { num, den }))));
}

#[verifier::rlimit(50)]
fn default_aliases() -> (r: NameTable)
    ensures
        name_view(r@) == default_alias_table(),
{
    let mut v: NameTable = Vec::new();
    push_pair(&mut v, "rimadyl", "carprofen");
    push_pair(&mut v, "novox", "carprofen");
    push_pair(&mut v, "quellin", "carprofen");
    push_pair(&mut v, "metacam", "meloxicam");
    push_pair(&mut v, "loxicom", "meloxicam");
    push_pair(&mut v, "previcox", "firocoxib");
    push_pair(&mut v, "deramaxx", "deracoxib");
    push_pair(&mut v, "galliprant", "grapiprant");
    push_pair(&mut v, "onsior", "robenacoxib");
    push_pair(&mut v, "ace", "acepromazine");
    push_pair(&mut v, "promace", "acepromazine");
    push_pair(&mut v, "atravet", "acepromazine");
    push_pair(&mut v, "propoflo", "propofol");
    push_pair(&mut v, "telazol", "tiletamine-zolazepam");
    push_pair(&mut v, "domitor", "medetomidine");
    push_pair(&mut v, "dexdomitor", "dexmedetomidine");
    push_pair(&mut v, "antisedan", "atipamezole");
    push_pair(&mut v, "torb", "butorphanol");
    push_pair(&mut v, "torbugesic", "butorphanol");
    push_pair(&mut v, "clavamox", "amoxicillin-clavulanate");
    push_pair(&mut v, "augmentin", "amoxicillin-clavulanate");
    push_pair(&mut v, "baytril", "enrofloxacin");
    push_pair(&mut v, "zeniquin", "marbofloxacin");
    push_pair(&mut v, "convenia", "cefovecin");
    push_pair(&mut v, "simplicef", "cefpodoxime");
    push_pair(&mut v, "orbax", "orbifloxacin");
    push_pair(&mut v, "dex", "dexamethasone");
    push_pair(&mut v, "depo", "methylprednisolone");
    push_pair(&mut v, "depo-medrol", "methylprednisolone");
    push_pair(&mut v, "pred", "prednisone");
    push_pair(&mut v, "prednisolone", "prednisolone");
    push_pair(&mut v, "vetalog", "triamcinolone");
    push_pair(&mut v, "heartgard", "ivermectin");
    push_pair(&mut v, "ivomec", "ivermectin");
    push_pair(&mut v, "interceptor", "milbemycin");
    push_pair(&mut v, "sentinel", "milbemycin-lufenuron");
    push_pair(&mut v, "revolution", "selamectin");
    push_pair(&mut v, "strongid", "pyrantel");
    push_pair(&mut v, "panacur", "fenbendazole");
    push_pair(&mut v, "drontal", "praziquantel-pyrantel");
    push_pair(&mut v, "vetmedin", "pimobendan");
    push_pair(&mut v, "enacard", "enalapril");
    push_pair(&mut v, "vasotec", "enalapril");
    push_pair(&mut v, "salix", "furosemide");
    push_pair(&mut v, "lasix", "furosemide");
    push_pair(&mut v, "digoxin", "digoxin");
    push_pair(&mut v, "cerenia", "maropitant");
    push_pair(&mut v, "reglan", "metoclopramide");
    push_pair(&mut v, "pepcid", "famotidine");
    push_pair(&mut v, "zantac", "ranitidine");
    push_pair(&mut v, "prilosec", "omeprazole");
    push_pair(&mut v, "gastrogard", "omeprazole");
    push_pair(&mut v, "sucralfate", "sucralfate");
    push_pair(&mut v, "carafate", "sucralfate");
    push_pair(&mut v, "keppra", "levetiracetam");
    push_pair(&mut v, "zonegran", "zonisamide");
    push_pair(&mut v, "phenobarb", "phenobarbital");
    push_pair(&mut v, "potassium bromide", "potassium-bromide");
    push_pair(&mut v, "kbr", "potassium-bromide");
    push_pair(&mut v, "soloxine", "levothyroxine");
    push_pair(&mut v, "thyro-tabs", "levothyroxine");
    push_pair(&mut v, "methimazole", "methimazole");
    push_pair(&mut v, "tapazole", "methimazole");
    push_pair(&mut v, "felimazole", "methimazole");
    push_pair(&mut v, "clomicalm", "clomipramine");
    push_pair(&mut v, "reconcile", "fluoxetine");
    push_pair(&mut v, "prozac", "fluoxetine");
    push_pair(&mut v, "sileo", "dexmedetomidine");
    push_pair(&mut v, "trazadone", "trazodone");
    assert(name_view(v@) =~= default_alias_table());
    v
}

#[verifier::rlimit(50)]
fn default_unit_conversions() -> (r: UnitTable)
    ensures
        unit_view(r@) == default_unit_table(),
{
    let mut v: UnitTable = Vec::new();
    push_unit(&mut v, "cc", "mL", 1, 1);
    push_unit(&mut v, "ml", "mL", 1, 1);
    push_unit(&mut v, "l", "mL", 1000, 1);
    push_unit(&mut v, "liter", "mL", 1000, 1);
    push_unit(&mut v, "liters", "mL", 1000, 1);
    push_unit(&mut v, "mcg", "mg", 1, 1000);
    push_unit(&mut v, "microgram", "mg", 1, 1000);
    push_unit(&mut v, "micrograms", "mg", 1, 1000);
    push_unit(&mut v, "µg", "mg", 1, 1000);
    push_unit(&mut v, "g", "mg", 1000, 1);
    push_unit(&mut v, "gram", "mg", 1000, 1);
    push_unit(&mut v, "grams", "mg", 1000, 1);
    push_unit(&mut v, "kg", "mg", 1000000, 1);
    push_unit(&mut v, "unit", "units", 1, 1);
    push_unit(&mut v, "iu", "IU", 1, 1);
    push_unit(&mut v, "tab", "tablets", 1, 1);
    push_unit(&mut v, "tabs", "tablets", 1, 1);
    push_unit(&mut v, "tablet", "tablets", 1, 1);
    push_unit(&mut v, "cap", "capsules", 1, 1);
    push_unit(&mut v, "caps", "capsules", 1, 1);
    push_unit(&mut v, "capsule", "capsules", 1, 1);
    assert(unit_view(v@) =~= default_unit_table());
    v
}

#[verifier::rlimit(50)]
fn default_routes() -> (r: NameTable)
    ensures
        name_view(r@) == default_route_table(),
{
    let mut v: NameTable = Vec::new();
    push_pair(&mut v, "oral", "PO");
    push_pair(&mut v, "orally", "PO");
    push_pair(&mut v, "by mouth", "PO");
    push_pair(&mut v, "per os", "PO");
    push_pair(&mut v, "po", "PO");
    push_pair(&mut v, "intravenous", "IV");
    push_pair(&mut v, "intravenously", "IV");
    push_pair(&mut v, "iv", "IV");
    push_pair(&mut v, "i.v.", "IV");
    push_pair(&mut v, "intramuscular", "IM");
    push_pair(&mut v, "intramuscularly", "IM");
    push_pair(&mut v, "im", "IM");
    push_pair(&mut v, "i.m.", "IM");
    push_pair(&mut v, "subcutaneous", "SQ");
    push_pair(&mut v, "subcutaneously", "SQ");
    push_pair(&mut v, "subq", "SQ");
    push_pair(&mut v, "sub-q", "SQ");
    push_pair(&mut v, "sq", "SQ");
    push_pair(&mut v, "sc", "SQ");
    push_pair(&mut v, "topical", "TOP");
    push_pair(&mut v, "topically", "TOP");
    push_pair(&mut v, "top", "TOP");
    push_pair(&mut v, "ophthalmic", "OPH");
    push_pair(&mut v, "ophthalmically", "OPH");
    push_pair(&mut v, "eye", "OPH");
    push_pair(&mut v, "in the eye", "OPH");
    push_pair(&mut v, "in the eyes", "OPH");
    push_pair(&mut v, "ou", "OPH");
    push_pair(&mut v, "od", "OPH");
    push_pair(&mut v, "os", "OPH");
    push_pair(&mut v, "otic", "OT");
    push_pair(&mut v, "ear", "OT");
    push_pair(&mut v, "in the ear", "OT");
    push_pair(&mut v, "in the ears", "OT");
    push_pair(&mut v, "rectal", "PR");
    push_pair(&mut v, "rectally", "PR");
    push_pair(&mut v, "per rectum", "PR");
    push_pair(&mut v, "pr", "PR");
    push_pair(&mut v, "intranasal", "IN");
    push_pair(&mut v, "intranasally", "IN");
    push_pair(&mut v, "in the nose", "IN");
    push_pair(&mut v, "transdermal", "TD");
    push_pair(&mut v, "transdermally", "TD");
    assert(name_view(v@) =~= default_route_table());
    v
}

/// Finds the value entered last under `key`.
fn find_name(t: &NameTable, key: &String) -> (r: Option<String>)
    ensures
        match r {
            Some(s) => lookup(name_view(t@), key@) == Some(s@),
            None => lookup(name_view(t@), key@) is None,
        },
{
    let ghost tv = name_view(t@);
    let mut i: usize = t.len();
    assert(tv.subrange(0, i as int) =~= tv);
    while i > 0
        invariant
            i <= t@.len(),
            tv == name_view(t@),
            lookup(tv, key@) == lookup(tv.subrange(0, i as int), key@),
        decreases i,
    {
        let ghost pre = tv.subrange(0, i as int);
        assert(pre.drop_last() =~= tv.subrange(0, i - 1));
        i = i - 1;
        if t[i].0 == *key {
            return Some(t[i].1.clone());
        }
    }
    None
}

/// Finds the unit entry entered last under `key`.
fn find_unit(t: &UnitTable, key: &String) -> (r: Option<(String, UnitFactor)>)
    ensures
        match r {
            Some(e) => lookup(unit_view(t@), key@) == Some((e.0@, e.1)),
            None => lookup(unit_view(t@), key@) is None,
        },
{
    let ghost tv = unit_view(t@);
    let mut i: usize = t.len();
    assert(tv.subrange(0, i as int) =~= tv);
    while i > 0
        invariant
            i <= t@.len(),
            tv == unit_view(t@),
            lookup(tv, key@) == lookup(tv.subrange(0, i as int), key@),
        decreases i,
    {
        let ghost pre = tv.subrange(0, i as int);
        assert(pre.drop_last() =~= tv.subrange(0, i - 1));
        i = i - 1;
        if t[i].0 == *key {
            return Some((t[i].1.clone(), t[i].2));
        }
    }
    None
}

/// The canonical name for a drug name: its alias entry, or its lowercase form.
pub open spec fn alias_result(t: Seq<(Seq<char>, Seq<char>)>, name: Seq<char>) -> Seq<char> {
    match lookup(t, lower_of(name)) {
        Some(c) => c,
        None => lower_of(name),
    }
}

/// The canonical unit and factor for a unit: its entry, or its lowercase form and one.
pub open spec fn unit_result(t: Seq<(Seq<char>, (Seq<char>, UnitFactor))>, unit: Seq<char>) -> (Seq<char>, UnitFactor) {
    match lookup(t, lower_of(unit)) {
        Some(e) => e,
        None => (lower_of(unit), unit_one()),
    }
}

/// The canonical route: its entry, or the route in upper case.
pub open spec fn route_result(t: Seq<(Seq<char>, Seq<char>)>, route: Seq<char>) -> Seq<char> {
    match lookup(t, lower_of(route)) {
        Some(c) => c,
        None => upper_of(route),
    }
}

/// The normalized text parts of a mention. The dose itself is scaled by `factor`
/// outside this library.
#[derive(Debug)]
pub struct NormalizedParts {
    pub normalized_name: String,
    pub normalized_unit: Option<String>,
    pub factor: Option<UnitFactor>,
    pub normalized_route: Option<String>,
}

/// Maps mention text to canonical drug names, units and routes.
pub struct Normalizer {
    aliases: NameTable,
    unit_conversions: UnitTable,
    route_map: NameTable,
}

impl Normalizer {
    /// The alias table.
    pub closed spec fn alias_view(&self) -> Seq<(Seq<char>, Seq<char>)> {
        name_view(self.aliases@)
    }

    /// The unit table.
    pub closed spec fn unit_table_view(&self) -> Seq<(Seq<char>, (Seq<char>, UnitFactor))> {
        unit_view(self.unit_conversions@)
    }

    /// The route table.
    pub closed spec fn route_view(&self) -> Seq<(Seq<char>, Seq<char>)> {
        name_view(self.route_map@)
    }

    /// A normalizer with the default tables.
    pub fn new() -> (r: Normalizer)
        ensures
            r.alias_view() == default_alias_table(),
            r.unit_table_view() == default_unit_table(),
            r.route_view() == default_route_table(),
    {
        Normalizer {
            aliases: default_aliases(),
            unit_conversions: default_unit_conversions(),
            route_map: default_routes(),
        }
    }

    /// Expands a drug alias to its canonical name; unknown names come back lowercased.
    pub fn expand_alias(&self, name: &str) -> (r: String)
        ensures
            r@ == alias_result(self.alias_view(), name@),
    {
        let lower = to_lower(name);
        match find_name(&self.aliases, &lower) {
            Some(c) => c,
            None => lower,
        }
    }

    /// The canonical unit and the factor that converts a dose into it; unknown units
    /// come back lowercased, with factor one.
    pub fn convert_unit(&self, unit: &str) -> (r: (String, UnitFactor))
        ensures
            (r.0@, r.1) == unit_result(self.unit_table_view(), unit@),
    {
        let lower = to_lower(unit);
        match find_unit(&self.unit_conversions, &lower) {
            Some(e) => e,
            None => (lower, UnitFactor { num: 1, den: 1 }),
        }
    }

    /// The standard abbreviation of a route; unknown routes come back uppercased.
    pub fn canonicalize_route(&self, route: &str) -> (r: String)
        ensures
            r@ == route_result(self.route_view(), route@),
    {
        let lower = to_lower(route);
        match find_name(&self.route_map, &lower) {
            Some(c) => c,
            None => to_upper(route),
        }
    }

    /// Adds an alias; both sides are stored lowercased.
    pub fn add_alias(&mut self, alias: &str, canonical: &str)
        ensures
            final(self).alias_view() == old(self).alias_view().push(
                (lower_of(alias@), lower_of(canonical@)),
            ),
            final(self).unit_table_view() == old(self).unit_table_view(),
            final(self).route_view() == old(self).route_view(),
    {
        let k = to_lower(alias);
        let c = to_lower(canonical);
        self.aliases.push((k, c));
        assert(name_view(self.aliases@) =~= name_view(old(self).aliases@).push(
            (lower_of(alias@), lower_of(canonical@)),
        ));
    }

    /// Adds a unit conversion; both units are stored lowercased.
    pub fn add_unit_conversion(&mut self, from: &str, to: &str, factor: UnitFactor)
        ensures
            final(self).unit_table_view() == old(self).unit_table_view().push(
                (lower_of(from@), (lower_of(to@), factor)),
            ),
            final(self).alias_view() == old(self).alias_view(),
            final(self).route_view() == old(self).route_view(),
    {
        let k = to_lower(from);
        let t = to_lower(to);
        self.unit_conversions.push((k, t, factor));
        assert(unit_view(self.unit_conversions@) =~= unit_view(old(self).unit_conversions@).push(
            (lower_of(from@), (lower_of(to@), factor)),
        ));
    }

    /// Adds a route; the spoken form is stored lowercased and the abbreviation uppercased.
    pub fn add_route(&mut self, spoken: &str, canonical: &str)
        ensures
            final(self).route_view() == old(self).route_view().push(
                (lower_of(spoken@), upper_of(canonical@)),
            ),
            final(self).alias_view() == old(self).alias_view(),
            final(self).unit_table_view() == old(self).unit_table_view(),
    {
        let k = to_lower(spoken);
        let c = to_upper(canonical);
        self.route_map.push((k, c));
        assert(name_view(self.route_map@) =~= name_view(old(self).route_map@).push(
            (lower_of(spoken@), upper_of(canonical@)),
        ));
    }

    /// Normalizes the text parts of a mention: the name through the aliases, the route
    /// through the routes, and the unit through the unit table when a dose is present
    /// too; otherwise the unit passes through unchanged and no factor applies.
    pub fn normalize_parts(
        &self,
        drug_name: &str,
        unit: Option<&str>,
        has_dose: bool,
        route: Option<&str>,
    ) -> (r: NormalizedParts)
        ensures
            r.normalized_name@ == alias_result(self.alias_view(), drug_name@),
            match unit {
                Some(u) => if has_dose {
                    let e = unit_result(self.unit_table_view(), u@);
                    r.normalized_unit matches Some(nu) && nu@ == e.0 && r.factor == Some(e.1)
                } else {
                    r.normalized_unit matches Some(nu) && nu@ == u@ && r.factor is None
                },
                None => r.normalized_unit is None && r.factor is None,
            },
            match route {
                Some(ro) => r.normalized_route matches Some(nr) && nr@ == route_result(
                    self.route_view(),
                    ro@,
                ),
                None => r.normalized_route is None,
            },
    {
        let normalized_name = self.expand_alias(drug_name);
        let (normalized_unit, factor) = match unit {
            Some(u) => if has_dose {
                let (cu, f) = self.convert_unit(u);
                (Some(cu), Some(f))
            } else {
                (Some(String::from_str(u)), None)
            },
            None => (None, None),
        };
        let normalized_route = match route {
            Some(ro) => Some(self.canonicalize_route(ro)),
            None => None,
        };
        NormalizedParts { normalized_name, normalized_unit, factor, normalized_route }
    }
}

/// The entry added last under a key is the one found by later lookups.
pub proof fn lemma_added_entry_found<V>(t: Seq<(Seq<char>, V)>, k: Seq<char>, v: V)
    ensures
        lookup(t.push((k, v)), k) == Some(v),
{
    assert(t.push((k, v)).last() == (k, v));
}

/// No key occurs twice in the table.
pub open spec fn keys_distinct<V>(t: Seq<(Seq<char>, V)>) -> bool {
    forall|a: int, b: int| 0 <= a < b < t.len() ==> t[a].0 != t[b].0
}

/// In a table without repeated keys, every entry is found under its key.
pub proof fn lemma_distinct_entry_found<V>(t: Seq<(Seq<char>, V)>, i: int)
    requires
        keys_distinct(t),
        0 <= i < t.len(),
    ensures
        lookup(t, t[i].0) == Some(t[i].1),
    decreases t.len(),
{
    if i < t.len() - 1 {
        assert(t.last().0 != t[i].0);
        let d = t.drop_last();
        assert(d[i] == t[i]);
        assert(keys_distinct(d)) by {
            assert forall|a: int, b: int| 0 <= a < b < d.len() implies d[a].0 != d[b].0 by {
                assert(d[a] == t[a] && d[b] == t[b]);
            }
        }
        lemma_distinct_entry_found(d, i);
    }
}

/// Each alias of a table without repeated keys expands to its canonical name, when the
/// alias is written in lower case.
pub proof fn lemma_alias_closure(t: Seq<(Seq<char>, Seq<char>)>, i: int)
    requires
        keys_distinct(t),
        0 <= i < t.len(),
        lower_of(t[i].0) == t[i].0,
    ensures
        alias_result(t, t[i].0) == t[i].1,
{
    lemma_distinct_entry_found(t, i);
}

/// Each unit of a table without repeated keys converts to its canonical unit with its
/// factor, when the unit is written in lower case.
pub proof fn lemma_unit_closure(t: Seq<(Seq<char>, (Seq<char>, UnitFactor))>, i: int)
    requires
        keys_distinct(t),
        0 <= i < t.len(),
        lower_of(t[i].0) == t[i].0,
    ensures
        unit_result(t, t[i].0) == t[i].1,
{
    lemma_distinct_entry_found(t, i);
}

} // verus!
