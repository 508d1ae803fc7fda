//! The five preset colour themes of the GUI, by name and RGB triples.

use crate::text::str_equal;
use vstd::prelude::*;

verus! {

/// An RGB colour with 8-bit channels.
#[derive(Debug, Clone, Copy, PartialEq, Eq, Structural)]
pub struct Rgb {
    pub r: u8,
    pub g: u8,
    pub b: u8,
}

pub open spec fn rgb(r: u8, g: u8, b: u8) -> Rgb {
    Rgb { r, g, b }
}

pub fn from_rgb(r: u8, g: u8, b: u8) -> (c: Rgb)
    ensures
        c == rgb(r, g, b),
{
    Rgb { r, g, b }
}

/// A named colour scheme.
#[derive(Debug, Clone, Copy)]
pub struct ColorScheme {
    pub name: &'static str,
    pub bg: Rgb,
    pub fg: Rgb,
    pub accent: Rgb,
    pub success: Rgb,
    pub error: Rgb,
    pub warn: Rgb,
    pub progress_fill: Rgb,
    pub progress_bg: Rgb,
}

/// The names of the presets, in order.
pub open spec fn scheme_names() -> Seq<Seq<char>> {
    seq!["Deep Space"@, "Midnight Nebula"@, "Solar Flare"@, "Aurora"@, "Blood Moon"@]
}

/// Number of presets.
pub open spec fn scheme_count() -> nat {
    5
}

/// All available colour schemes, in their fixed order.
pub fn schemes() -> (r: Vec<ColorScheme>)
    ensures
        r@.len() == scheme_count(),
        forall|i: int| 0 <= i < r@.len() ==> #[trigger] r@[i].name@ == scheme_names()[i],
        r@[0].bg == rgb(10, 10, 20),
        r@[0].accent == rgb(100, 180, 255),
        r@[3].accent == rgb(50, 255, 150),
        r@[4].error == rgb(255, 0, 0),
{
    let mut v: Vec<ColorScheme> = Vec::new();
    v.push(ColorScheme {
        name: "Deep Space",
        bg: from_rgb(10, 10, 20),
        fg: from_rgb(200, 200, 210),
        accent: from_rgb(100, 180, 255),
        success: from_rgb(76, 175, 80),
        error: from_rgb(244, 67, 54),
        warn: from_rgb(255, 200, 50),
        progress_fill: from_rgb(80, 180, 255),
        progress_bg: from_rgb(30, 30, 50),
    });
    v.push(ColorScheme {
        name: "Midnight Nebula",
        bg: from_rgb(5, 5, 25),
        fg: from_rgb(180, 180, 220),
        accent: from_rgb(120, 80, 255),
        success: from_rgb(0, 200, 150),
        error: from_rgb(255, 80, 80),
        warn: from_rgb(255, 200, 50),
        progress_fill: from_rgb(120, 80, 255),
        progress_bg: from_rgb(20, 20, 40),
    });
    v.push(ColorScheme {
        name: "Solar Flare",
        bg: from_rgb(20, 15, 10),
        fg: from_rgb(220, 200, 170),
        accent: from_rgb(255, 150, 50),
        success: from_rgb(100, 200, 100),
        error: from_rgb(255, 80, 50),
        warn: from_rgb(255, 200, 50),
        progress_fill: from_rgb(255, 150, 50),
        progress_bg: from_rgb(40, 30, 20),
    });
    v.push(ColorScheme {
        name: "Aurora",
        bg: from_rgb(10, 20, 15),
        fg: from_rgb(180, 220, 200),
        accent: from_rgb(50, 255, 150),
        success: from_rgb(50, 200, 100),
        error: from_rgb(255, 80, 80),
        warn: from_rgb(255, 220, 50),
        progress_fill: from_rgb(50, 255, 150),
        progress_bg: from_rgb(15, 30, 20),
    });
    v.push(ColorScheme {
        name: "Blood Moon",
        bg: from_rgb(15, 5, 5),
        fg: from_rgb(200, 150, 150),
        accent: from_rgb(255, 50, 50),
        success: from_rgb(200, 100, 100),
        error: from_rgb(255, 0, 0),
        warn: from_rgb(255, 150, 50),
        progress_fill: from_rgb(200, 50, 50),
        progress_bg: from_rgb(30, 10, 10),
    });
    v
}

/// The scheme at `index` (0-based), if there is one.
pub fn get_scheme(index: usize) -> (r: Option<ColorScheme>)
    ensures
        r is Some <==> index < scheme_count(),
        r matches Some(s) ==> s.name@ == scheme_names()[index as int],
{
    let all = schemes();
    if index < all.len() {
        Some(all[index])
    } else {
        None
    }
}

/// Find the index of a scheme by name.
pub fn scheme_index(name: &str) -> (r: Option<usize>)
    ensures
        r matches Some(i) ==> i < scheme_count() && scheme_names()[i as int] == name@
            && forall|j: int| 0 <= j < i ==> scheme_names()[j] != name@,
        r is None ==> forall|j: int| 0 <= j < scheme_count() ==> scheme_names()[j] != name@,
{
    let all = schemes();
    let mut i: usize = 0;
    while i < all.len()
        invariant
            all@.len() == scheme_count(),
            forall|k: int| 0 <= k < all@.len() ==> #[trigger] all@[k].name@ == scheme_names()[k],
            i <= all@.len(),
            forall|j: int| 0 <= j < i ==> scheme_names()[j] != name@,
        decreases all@.len() - i,
    {
        if str_equal(all[i].name, name) {
            return Some(i);
        }
        i += 1;
    }
    None
}

/// No two presets share a name.
pub proof fn lemma_scheme_names_unique()
    ensures
        forall|i: int, j: int|
            0 <= i < scheme_count() && 0 <= j < scheme_count() && i != j
                ==> scheme_names()[i] != scheme_names()[j],
{
    reveal_strlit("Deep Space");
    reveal_strlit("Midnight Nebula");
    reveal_strlit("Solar Flare");
    reveal_strlit("Aurora");
    reveal_strlit("Blood Moon");
    let n = scheme_names();
    assert forall|i: int, j: int|
        0 <= i < scheme_count() && 0 <= j < scheme_count() && i != j implies n[i] != n[j] by {
        assert(n[i][0] != n[j][0]);
    }
}

} // verus!
