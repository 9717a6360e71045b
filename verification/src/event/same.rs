//! Comparison of the lists that events hold.

use vstd::prelude::*;
use crate::mahjong::tile::Tile;
use crate::text::same;

verus! {

pub open spec fn same_names(a: Seq<String>, b: Seq<String>) -> bool {
    a.len() == b.len() && forall|i: int| 0 <= i < a.len() ==> (#[trigger] a[i])@ == b[i]@
}

/// Markers as a list.
pub open spec fn markers_view(m: Option<Vec<Tile>>) -> Option<Seq<Tile>> {
    match m {
        Some(v) => Some(v@),
        None => None,
    }
}

pub fn equal_names(a: &[String], b: &[String]) -> (r: bool)
    ensures
        r == same_names(a@, b@),
{
    if a.len() != b.len() {
        return false;
    }
    let mut i: usize = 0;
    while i < a.len()
        invariant
            i <= a.len(),
            a.len() == b.len(),
            forall|j: int| 0 <= j < i ==> (#[trigger] a@[j])@ == b@[j]@,
        decreases a.len() - i,
    {
        if !same(a[i].as_str(), b[i].as_str()) {
            assert(a@[i as int]@ != b@[i as int]@);
            return false;
        }
        i = i + 1;
    }
    true
}

pub fn equal_tiles(a: &[Tile], b: &[Tile]) -> (r: bool)
    ensures
        r == (a@ == b@),
{
    if a.len() != b.len() {
        return false;
    }
    let mut i: usize = 0;
    while i < a.len()
        invariant
            i <= a.len(),
            a.len() == b.len(),
            forall|j: int| 0 <= j < i ==> a@[j] == b@[j],
        decreases a.len() - i,
    {
        if a[i] != b[i] {
            return false;
        }
        i = i + 1;
    }
    assert(a@ =~= b@);
    true
}

pub fn equal_hands(a: &[[Tile; 13]], b: &[[Tile; 13]]) -> (r: bool)
    ensures
        r == (a@ == b@),
{
    if a.len() != b.len() {
        return false;
    }
    let mut i: usize = 0;
    while i < a.len()
        invariant
            i <= a.len(),
            a.len() == b.len(),
            forall|j: int| 0 <= j < i ==> a@[j] == b@[j],
        decreases a.len() - i,
    {
        if !equal_tiles(a[i].as_slice(), b[i].as_slice()) {
            assert(a@[i as int]@ != b@[i as int]@);
            return false;
        }
        assert(a@[i as int] =~= b@[i as int]);
        i = i + 1;
    }
    assert(a@ =~= b@);
    true
}

pub fn equal_numbers(a: &[i32], b: &[i32]) -> (r: bool)
    ensures
        r == (a@ == b@),
{
    if a.len() != b.len() {
        return false;
    }
    let mut i: usize = 0;
    while i < a.len()
        invariant
            i <= a.len(),
            a.len() == b.len(),
            forall|j: int| 0 <= j < i ==> a@[j] == b@[j],
        decreases a.len() - i,
    {
        if a[i] != b[i] {
            return false;
        }
        i = i + 1;
    }
    assert(a@ =~= b@);
    true
}

pub fn equal_markers(a: &Option<Vec<Tile>>, b: &Option<Vec<Tile>>) -> (r: bool)
    ensures
        r == (markers_view(*a) == markers_view(*b)),
{
    match (a, b) {
        (Some(x), Some(y)) => equal_tiles(x.as_slice(), y.as_slice()),
        (None, None) => true,
        _ => false,
    }
}

} // verus!
