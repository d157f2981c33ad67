use vstd::prelude::*;

verus! {

/// A grid cell or a pixel offset.
#[derive(Clone, Copy, Debug, PartialEq, Eq, Structural)]
pub struct Vec2d {
    pub x: u32,
    pub y: u32,
}

impl Vec2d {
    /// Component-wise sum.
    pub fn plus(self, rhs: Vec2d) -> (r: Vec2d)
        requires
            self.x + rhs.x <= u32::MAX,
            self.y + rhs.y <= u32::MAX,
        ensures
            r.x == self.x + rhs.x,
            r.y == self.y + rhs.y,
    {
        Vec2d { x: self.x + rhs.x, y: self.y + rhs.y }
    }

    /// Component-wise product: turns a grid cell into a pixel offset when
    /// `rhs` is the tile size.
    pub fn times(self, rhs: Vec2d) -> (r: Vec2d)
        requires
            self.x * rhs.x <= u32::MAX,
            self.y * rhs.y <= u32::MAX,
        ensures
            r.x == self.x * rhs.x,
            r.y == self.y * rhs.y,
    {
        Vec2d { x: self.x * rhs.x, y: self.y * rhs.y }
    }
}

/// One tile to fetch: its address, and where its pixels go in the image.
#[derive(Clone, Debug, PartialEq, Eq)]
pub struct TileReference {
    pub url: String,
    pub position: Vec2d,
}

/// What the host learned from fetching one batch of tiles.
#[derive(Clone, Copy, Debug, PartialEq, Eq, Structural)]
pub struct TileFetchResult {
    pub count: u64,
    pub successes: u64,
    pub tile_size: Option<Vec2d>,
}

impl TileFetchResult {
    /// A batch counts as a success when every tile of it was fetched and a
    /// tile size was decoded.
    pub open spec fn succeeded(&self) -> bool {
        self.successes == self.count && self.tile_size is Some
    }

    pub fn is_success(&self) -> (r: bool)
        ensures
            r == self.succeeded(),
    {
        self.successes == self.count && self.tile_size.is_some()
    }
}

/// What a strategy is offered: an address, and the bytes behind it once the
/// host has fetched them.
#[derive(Clone, Debug)]
pub struct DezoomerInput {
    pub uri: String,
    pub contents: Option<Vec<u8>>,
}

/// Why a strategy produced no zoom level.
#[derive(Clone, Debug, PartialEq, Eq)]
pub enum DezoomerError {
    /// The strategy applies only once the contents of `uri` are known.
    NeedsData { uri: String },
    /// The strategy does not apply to this input.
    WrongDezoomer { name: String },
    /// The input was meant for the strategy but cannot be used.
    Other { message: String },
}

} // verus!
