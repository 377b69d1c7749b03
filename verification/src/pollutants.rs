//! Static catalogue of RSQA pollutants: display names (EN/FR) and units.
//!
//! Keyed by the exact column key used in the source data (e.g. `"NO2"`,
//! `"PM2.5"`). The interface only offers substances that appear in the loaded
//! data, but the catalogue carries metadata for every column the dataset can
//! contain so labels and units never fall back to a bare key.

use vstd::prelude::*;

use crate::i18n::{same_text, Lang};

verus! {

#[derive(Clone, Copy)]
pub struct Pollutant {
    pub key: &'static str,
    pub name_en: &'static str,
    pub name_fr: &'static str,
    pub unit: &'static str,
}

/// The display name of a pollutant in a language.
pub open spec fn name_in(p: Pollutant, lang: Lang) -> &'static str {
    match lang {
        Lang::En => p.name_en,
        Lang::Fr => p.name_fr,
    }
}

impl Pollutant {
    pub fn name(&self, lang: Lang) -> (r: &'static str)
        ensures
            r == name_in(*self, lang),
    {
        match lang {
            Lang::En => self.name_en,
            Lang::Fr => self.name_fr,
        }
    }
}

/// The full catalogue, in the dataset's column order. PST and PM10 are listed
/// for completeness but were not measured in 2024, so they never reach the
/// interface. `IQA` is the official Air Quality Index, a unitless composite, so
/// its unit is empty.
pub open spec fn catalogue() -> Seq<Pollutant> {
    seq![
        Pollutant { key: "IQA", name_en: "Air Quality Index (IQA)", name_fr: "Indice de la qualité de l'air (IQA)", unit: "" },
        Pollutant { key: "CO", name_en: "Carbon monoxide", name_fr: "Monoxyde de carbone", unit: "ppb" },
        Pollutant { key: "H2S", name_en: "Hydrogen sulfide", name_fr: "Sulfure d'hydrogène", unit: "ppb" },
        Pollutant { key: "NO", name_en: "Nitric oxide", name_fr: "Monoxyde d'azote", unit: "ppb" },
        Pollutant { key: "NO2", name_en: "Nitrogen dioxide", name_fr: "Dioxyde d'azote", unit: "ppb" },
        Pollutant { key: "PM2.5", name_en: "Fine particles (PM2.5)", name_fr: "Particules fines (PM2,5)", unit: "µg/m³" },
        Pollutant { key: "PST", name_en: "Total suspended particles", name_fr: "Particules en suspension", unit: "µg/m³" },
        Pollutant { key: "PM10", name_en: "Respirable particles (PM10)", name_fr: "Particules (PM10)", unit: "µg/m³" },
        Pollutant { key: "O3", name_en: "Ozone", name_fr: "Ozone", unit: "ppb" },
        Pollutant { key: "SO2", name_en: "Sulfur dioxide", name_fr: "Dioxyde de soufre", unit: "ppb" },
        Pollutant { key: "BC1_370nm", name_en: "Black carbon (370 nm)", name_fr: "Carbone suie (370 nm)", unit: "µg/m³" },
        Pollutant { key: "BC6_880nm", name_en: "Black carbon (880 nm)", name_fr: "Carbone suie (880 nm)", unit: "µg/m³" },
        Pollutant { key: "PUF", name_en: "Ultrafine particles", name_fr: "Particules ultrafines", unit: "part/cm³" },
        Pollutant { key: "Benzene", name_en: "Benzene", name_fr: "Benzène", unit: "µg/m³" },
        Pollutant { key: "Toluene", name_en: "Toluene", name_fr: "Toluène", unit: "µg/m³" },
        Pollutant { key: "Ethylbenzene", name_en: "Ethylbenzene", name_fr: "Éthylbenzène", unit: "µg/m³" },
        Pollutant { key: "MP-Xylene", name_en: "m,p-Xylene", name_fr: "m,p-Xylène", unit: "µg/m³" },
        Pollutant { key: "O-Xylene", name_en: "o-Xylene", name_fr: "o-Xylène", unit: "µg/m³" }
    ]
}

/// The catalogue entries, as a slice.
pub fn pollutants() -> (r: &'static [Pollutant])
    ensures
        r@ == catalogue(),
{
    &[
        Pollutant { key: "IQA", name_en: "Air Quality Index (IQA)", name_fr: "Indice de la qualité de l'air (IQA)", unit: "" },
        Pollutant { key: "CO", name_en: "Carbon monoxide", name_fr: "Monoxyde de carbone", unit: "ppb" },
        Pollutant { key: "H2S", name_en: "Hydrogen sulfide", name_fr: "Sulfure d'hydrogène", unit: "ppb" },
        Pollutant { key: "NO", name_en: "Nitric oxide", name_fr: "Monoxyde d'azote", unit: "ppb" },
        Pollutant { key: "NO2", name_en: "Nitrogen dioxide", name_fr: "Dioxyde d'azote", unit: "ppb" },
        Pollutant { key: "PM2.5", name_en: "Fine particles (PM2.5)", name_fr: "Particules fines (PM2,5)", unit: "µg/m³" },
        Pollutant { key: "PST", name_en: "Total suspended particles", name_fr: "Particules en suspension", unit: "µg/m³" },
        Pollutant { key: "PM10", name_en: "Respirable particles (PM10)", name_fr: "Particules (PM10)", unit: "µg/m³" },
        Pollutant { key: "O3", name_en: "Ozone", name_fr: "Ozone", unit: "ppb" },
        Pollutant { key: "SO2", name_en: "Sulfur dioxide", name_fr: "Dioxyde de soufre", unit: "ppb" },
        Pollutant { key: "BC1_370nm", name_en: "Black carbon (370 nm)", name_fr: "Carbone suie (370 nm)", unit: "µg/m³" },
        Pollutant { key: "BC6_880nm", name_en: "Black carbon (880 nm)", name_fr: "Carbone suie (880 nm)", unit: "µg/m³" },
        Pollutant { key: "PUF", name_en: "Ultrafine particles", name_fr: "Particules ultrafines", unit: "part/cm³" },
        Pollutant { key: "Benzene", name_en: "Benzene", name_fr: "Benzène", unit: "µg/m³" },
        Pollutant { key: "Toluene", name_en: "Toluene", name_fr: "Toluène", unit: "µg/m³" },
        Pollutant { key: "Ethylbenzene", name_en: "Ethylbenzene", name_fr: "Éthylbenzène", unit: "µg/m³" },
        Pollutant { key: "MP-Xylene", name_en: "m,p-Xylene", name_fr: "m,p-Xylène", unit: "µg/m³" },
        Pollutant { key: "O-Xylene", name_en: "o-Xylene", name_fr: "o-Xylène", unit: "µg/m³" }
    ]
}

/// Whether some catalogue entry has this key.
pub open spec fn is_catalogued(key: Seq<char>) -> bool {
    exists|i: int| 0 <= i < catalogue().len() && (#[trigger] catalogue()[i]).key@ == key
}

/// The catalogue entry with this key, if any.
pub open spec fn lookup(key: Seq<char>) -> Option<Pollutant> {
    if is_catalogued(key) {
        Some(
            catalogue()[choose|i: int|
                0 <= i < catalogue().len() && (#[trigger] catalogue()[i]).key@ == key],
        )
    } else {
        None
    }
}

/// No two catalogue entries share a key.
#[verifier::rlimit(100)]
pub proof fn lemma_keys_unique()
    ensures
        forall|i: int, j: int|
            0 <= i < catalogue().len() && 0 <= j < catalogue().len() && i != j
                ==> (#[trigger] catalogue()[i]).key@ != (#[trigger] catalogue()[j]).key@,
{
    reveal_strlit("IQA");
    reveal_strlit("CO");
    reveal_strlit("H2S");
    reveal_strlit("NO");
    reveal_strlit("NO2");
    reveal_strlit("PM2.5");
    reveal_strlit("PST");
    reveal_strlit("PM10");
    reveal_strlit("O3");
    reveal_strlit("SO2");
    reveal_strlit("BC1_370nm");
    reveal_strlit("BC6_880nm");
    reveal_strlit("PUF");
    reveal_strlit("Benzene");
    reveal_strlit("Toluene");
    reveal_strlit("Ethylbenzene");
    reveal_strlit("MP-Xylene");
    reveal_strlit("O-Xylene");
    let c = catalogue();
    assert(c[0].key@.len() == 3 && c[0].key@[0] == 'I' && c[0].key@[1] == 'Q' && c[0].key@[2] == 'A');
    assert(c[1].key@.len() == 2 && c[1].key@[0] == 'C' && c[1].key@[1] == 'O');
    assert(c[2].key@.len() == 3 && c[2].key@[0] == 'H' && c[2].key@[1] == '2' && c[2].key@[2] == 'S');
    assert(c[3].key@.len() == 2 && c[3].key@[0] == 'N' && c[3].key@[1] == 'O');
    assert(c[4].key@.len() == 3 && c[4].key@[0] == 'N' && c[4].key@[1] == 'O' && c[4].key@[2] == '2');
    assert(c[5].key@.len() == 5 && c[5].key@[0] == 'P' && c[5].key@[1] == 'M' && c[5].key@[2] == '2');
    assert(c[6].key@.len() == 3 && c[6].key@[0] == 'P' && c[6].key@[1] == 'S' && c[6].key@[2] == 'T');
    assert(c[7].key@.len() == 4 && c[7].key@[0] == 'P' && c[7].key@[1] == 'M' && c[7].key@[2] == '1');
    assert(c[8].key@.len() == 2 && c[8].key@[0] == 'O' && c[8].key@[1] == '3');
    assert(c[9].key@.len() == 3 && c[9].key@[0] == 'S' && c[9].key@[1] == 'O' && c[9].key@[2] == '2');
    assert(c[10].key@.len() == 9 && c[10].key@[0] == 'B' && c[10].key@[1] == 'C' && c[10].key@[2] == '1');
    assert(c[11].key@.len() == 9 && c[11].key@[0] == 'B' && c[11].key@[1] == 'C' && c[11].key@[2] == '6');
    assert(c[12].key@.len() == 3 && c[12].key@[0] == 'P' && c[12].key@[1] == 'U' && c[12].key@[2] == 'F');
    assert(c[13].key@.len() == 7 && c[13].key@[0] == 'B' && c[13].key@[1] == 'e' && c[13].key@[2] == 'n');
    assert(c[14].key@.len() == 7 && c[14].key@[0] == 'T' && c[14].key@[1] == 'o' && c[14].key@[2] == 'l');
    assert(c[15].key@.len() == 12 && c[15].key@[0] == 'E' && c[15].key@[1] == 't' && c[15].key@[2] == 'h');
    assert(c[16].key@.len() == 9 && c[16].key@[0] == 'M' && c[16].key@[1] == 'P' && c[16].key@[2] == '-');
    assert(c[17].key@.len() == 8 && c[17].key@[0] == 'O' && c[17].key@[1] == '-' && c[17].key@[2] == 'X');
    assert forall|i: int, j: int|
        0 <= i < c.len() && 0 <= j < c.len() && i != j
            implies (#[trigger] c[i]).key@ != (#[trigger] c[j]).key@ by {
        assert(i == 0 || i == 1 || i == 2 || i == 3 || i == 4 || i == 5 || i == 6 || i == 7 || i == 8 || i == 9 || i == 10 || i == 11 || i == 12 || i == 13 || i == 14 || i == 15 || i == 16 || i == 17);
        assert(j == 0 || j == 1 || j == 2 || j == 3 || j == 4 || j == 5 || j == 6 || j == 7 || j == 8 || j == 9 || j == 10 || j == 11 || j == 12 || j == 13 || j == 14 || j == 15 || j == 16 || j == 17);
    }
}

/// Look up a pollutant by its dataset key.
pub fn pollutant(key: &str) -> (r: Option<Pollutant>)
    ensures
        r == lookup(key@),
{
    let all = pollutants();
    let mut i: usize = 0;
    while i < all.len()
        invariant
            all@ == catalogue(),
            0 <= i <= all@.len(),
            forall|j: int| 0 <= j < i ==> (#[trigger] catalogue()[j]).key@ != key@,
        decreases all@.len() - i,
    {
        if same_text(all[i].key, key) {
            proof {
                lemma_keys_unique();
                assert(is_catalogued(key@));
                let c = choose|c: int|
                    0 <= c < catalogue().len() && (#[trigger] catalogue()[c]).key@ == key@;
                assert(c == i as int);
            }
            return Some(all[i]);
        }
        i += 1;
    }
    None
}

/// Display name for a key, falling back to the raw key if uncatalogued.
pub fn name_of(key: &str, lang: Lang) -> (r: String)
    ensures
        r@ == (match lookup(key@) {
            Some(p) => name_in(p, lang)@,
            None => key@,
        }),
{
    match pollutant(key) {
        Some(p) => p.name(lang).to_owned(),
        None => key.to_owned(),
    }
}

/// Unit for a key, or the empty string if uncatalogued or unitless (e.g. IQA).
pub fn unit_of(key: &str) -> (r: &'static str)
    ensures
        r@ == (match lookup(key@) {
            Some(p) => p.unit@,
            None => Seq::<char>::empty(),
        }),
{
    match pollutant(key) {
        Some(p) => p.unit,
        None => {
            proof {
                reveal_strlit("");
            }
            ""
        },
    }
}

/// The label of a name and a unit: `name (unit)`, or the bare name when the
/// unit is empty.
pub open spec fn labelled(name: Seq<char>, unit: Seq<char>) -> Seq<char> {
    if unit.len() == 0 {
        name
    } else {
        name + " ("@ + unit + ")"@
    }
}

/// Display label "Name (unit)", dropping the parenthetical for unitless keys.
pub fn display_label(key: &str, lang: Lang) -> (r: String)
    ensures
        r@ == labelled(
            match lookup(key@) {
                Some(p) => name_in(p, lang)@,
                None => key@,
            },
            match lookup(key@) {
                Some(p) => p.unit@,
                None => Seq::<char>::empty(),
            },
        ),
{
    let name = name_of(key, lang);
    let unit = unit_of(key);
    if unit.is_empty() {
        name
    } else {
        let mut out = name;
        out.append(" (");
        out.append(unit);
        out.append(")");
        out
    }
}

} // verus!
