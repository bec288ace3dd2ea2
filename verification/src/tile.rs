//! Tile appearance and the tile template catalog.
//!
//! Templates are stored in an arena (`MapInfo`); grid cells and turn logic
//! refer to them by index, so open/close transitions are total functions once
//! the catalog is well formed.

use vstd::prelude::*;
use vstd::string::StrSliceExecFns;

verus! {

/// An RGBA color.
pub type Color = (u8, u8, u8, u8);

/// The drawable appearance of a tile or creature: glyph plus foreground and
/// background colors.
#[derive(Copy, Clone, Debug)]
pub struct Tile {
    pub ch: u16,
    pub fg: Color,
    pub bg: Color,
}

/// A tile template: appearance plus physical properties, and the optional
/// open/close/flip transition targets as indices into the owning catalog.
/// Published templates are never mutated.
#[derive(Debug)]
pub struct MapTile {
    /// The symbolic name the template was registered under.
    pub name: String,
    pub tile: Tile,
    pub transparent: bool,
    pub walkable: bool,
    /// Index of the template this tile turns into when opened, if any.
    pub open: Option<usize>,
    /// Index of the template this tile turns into when closed, if any.
    pub close: Option<usize>,
    /// Index of a flipped variant, if any.
    pub flip: Option<usize>,
}

/// Raised when a symbolic tile name is absent from the catalog: a fatal
/// configuration error, not a recoverable runtime condition.
#[derive(Debug)]
pub struct MissingTileError {
    pub name: String,
}

/// The immutable tile template registry. All transition indices of its
/// entries stay inside the catalog.
#[derive(Debug)]
pub struct MapInfo {
    pub tiles: Vec<MapTile>,
}

impl MapInfo {
    /// Every open/close/flip transition target is a valid index.
    pub open spec fn wf(&self) -> bool {
        forall|i: int| 0 <= i < self.tiles@.len() ==> {
            &&& ((#[trigger] self.tiles@[i]).open matches Some(o) ==> o < self.tiles@.len())
            &&& (self.tiles@[i].close matches Some(c) ==> c < self.tiles@.len())
            &&& (self.tiles@[i].flip matches Some(f) ==> f < self.tiles@.len())
        }
    }

    /// Some catalog entry carries this name.
    pub open spec fn has_name(&self, name: Seq<char>) -> bool {
        exists|i: int| 0 <= i < self.tiles@.len() && self.tiles@[i].name@ == name
    }

    /// Number of templates in the catalog.
    pub fn len(&self) -> (n: usize)
        ensures
            n == self.tiles@.len(),
    {
        self.tiles.len()
    }

    /// Looks a template up by name and returns its index; absence is a fatal
    /// configuration error, reported as `MissingTileError`.
    pub fn lookup(&self, name: &str) -> (r: Result<usize, MissingTileError>)
        ensures
            r matches Ok(i) ==> i < self.tiles@.len() && self.tiles@[i as int].name@ == name@,
            r.is_ok() <==> self.has_name(name@),
            r matches Err(e) ==> e.name@ == name@,
    {
        let n = self.tiles.len();
        let mut i: usize = 0;
        while i < n
            invariant
                i <= n,
                n == self.tiles@.len(),
                forall|j: int| 0 <= j < i ==> self.tiles@[j].name@ != name@,
            decreases n - i,
        {
            if str_eq(self.tiles[i].name.as_str(), name) {
                return Ok(i);
            }
            i += 1;
        }
        Err(MissingTileError { name: name.to_owned() })
    }

    /// Runtime check of the catalog invariant, for callers that assemble a
    /// catalog from untrusted configuration.
    pub fn valid(&self) -> (r: bool)
        ensures
            r == self.wf(),
    {
        let n = self.tiles.len();
        let mut i: usize = 0;
        while i < n
            invariant
                i <= n,
                n == self.tiles@.len(),
                forall|j: int| 0 <= j < i ==> {
                    &&& ((#[trigger] self.tiles@[j]).open matches Some(o) ==> o < self.tiles@.len())
                    &&& (self.tiles@[j].close matches Some(c) ==> c < self.tiles@.len())
                    &&& (self.tiles@[j].flip matches Some(f) ==> f < self.tiles@.len())
                },
            decreases n - i,
        {
            let t = &self.tiles[i];
            if let Some(o) = t.open {
                if o >= n {
                    return false;
                }
            }
            if let Some(c) = t.close {
                if c >= n {
                    return false;
                }
            }
            if let Some(f) = t.flip {
                if f >= n {
                    return false;
                }
            }
            i += 1;
        }
        true
    }
}

/// Character-by-character string equality.
pub fn str_eq(a: &str, b: &str) -> (r: bool)
    ensures
        r == (a@ == b@),
{
    let la = a.unicode_len();
    let lb = b.unicode_len();
    if la != lb {
        return false;
    }
    let mut i: usize = 0;
    while i < la
        invariant
            i <= la,
            la == a@.len(),
            la == b@.len(),
            forall|j: int| 0 <= j < i ==> a@[j] == b@[j],
        decreases la - i,
    {
        if a.get_char(i) != b.get_char(i) {
            return false;
        }
        i += 1;
    }
    proof {
        assert(a@ =~= b@);
    }
    true
}

} // verus!
