use vstd::prelude::*;
use crate::cursor::{ByteCursor, read_u8, read_u16, read_u32, read_f32_bits};
use crate::errors::DecodeError;

verus! {

broadcast use crate::cursor::lemma_cursor_position_wf;

/// Magic prefix of a navigation-mesh file.
pub const MAGIC_PREFIX: u32 = 0xFEEDFACE;

/// Navigation file version this parser understands.
pub const STEAM_VR_HOME_NAV_VERSION: u32 = 30;

/// Navigation file subversion this parser understands.
pub const STEAM_VR_HOME_NAV_SUB_VERSION: u32 = 0;

/// Directions an area can connect in, clockwise: north, east, south, west.
pub const NAV_DIRECTIONS: usize = 4;

/// One connection from an area: the area it reaches and the polygon edge it
/// crosses.
#[derive(Clone, Copy, PartialEq, Eq, Structural, Debug)]
pub struct NavAreaConnectionData {
    pub area_id: u32,
    pub edge_index: u32,
}

/// One walkable area: an id, attribute flags, a polygon of raw float
/// vertices, and the connection lists for the four directions.
#[derive(Debug)]
pub struct NavArea {
    pub id: u32,
    pub attributes: u32,
    /// Vertices as raw 32-bit float patterns, x, y, z.
    pub polygon_bits: Vec<[u32; 3]>,
    /// One list per direction, clockwise from north.
    pub connections: Vec<Vec<NavAreaConnectionData>>,
}

/// A parsed navigation file.
#[derive(Debug)]
pub struct NavFile {
    pub magic: u32,
    pub version: u32,
    pub sub_version: u32,
    pub is_analyzed: bool,
    pub place_count: u16,
    pub has_unnamed_areas: bool,
    pub nav_areas: Vec<NavArea>,
}

impl NavFile {
    /// Every area carries one connection list per direction.
    pub open spec fn wf(&self) -> bool {
        forall|i: int|
            0 <= i < self.nav_areas@.len() ==> (#[trigger] self.nav_areas@[i]).connections@.len()
                == NAV_DIRECTIONS
    }

    /// Renumbers areas sequentially so ids can index an array directly, and
    /// rewrites every connection that names a renumbered area. A repeated
    /// old id resolves to its last holder; a connection naming an unknown
    /// id keeps it.
    pub fn compress_area_ids(&mut self)
        requires
            old(self).wf(),
            old(self).nav_areas@.len() <= u32::MAX,
        ensures
            final(self).wf(),
            final(self).nav_areas@.len() == old(self).nav_areas@.len(),
            forall|i: int|
                0 <= i < final(self).nav_areas@.len() ==> (#[trigger] final(self).nav_areas@[i]).id
                    == i,
            forall|i: int|
                0 <= i < final(self).nav_areas@.len() ==> spec_area_renumbered(
                    old(self).nav_areas@.map_values(|a: NavArea| a.id),
                    #[trigger] old(self).nav_areas@[i],
                    final(self).nav_areas@[i],
                ),
    {
        let ghost n0 = self.nav_areas@.len();
        let ghost originals = self.nav_areas@;
        // Remember the old ids in area order; entry `j` maps old id
        // `old_ids[j]` to new id `j`.
        let mut old_ids: Vec<u32> = Vec::new();
        let mut j: usize = 0;
        while j < self.nav_areas.len()
            invariant
                j <= self.nav_areas@.len(),
                old_ids@.len() == j,
                self.nav_areas@ == originals,
                forall|k: int| 0 <= k < j ==> #[trigger] old_ids@[k] == originals[k].id,
            decreases self.nav_areas@.len() - j,
        {
            old_ids.push(self.nav_areas[j].id);
            j = j + 1;
        }
        proof {
            assert(old_ids@ =~= originals.map_values(|a: NavArea| a.id));
        }
        if old_ids.len() > u32::MAX as usize {
            return ;
        }
        let mut new_areas: Vec<NavArea> = Vec::new();
        while self.nav_areas.len() > 0
            invariant
                old_ids@.len() == n0,
                n0 <= u32::MAX,
                originals.len() == n0,
                old_ids@ == originals.map_values(|a: NavArea| a.id),
                new_areas@.len() + self.nav_areas@.len() == n0,
                self.nav_areas@ == originals.subrange(new_areas@.len() as int, n0 as int),
                forall|i: int|
                    0 <= i < originals.len() ==> (#[trigger] originals[i]).connections@.len()
                        == NAV_DIRECTIONS,
                forall|k: int|
                    0 <= k < new_areas@.len() ==> (#[trigger] new_areas@[k]).id == k,
                forall|k: int|
                    0 <= k < new_areas@.len() ==> (#[trigger] new_areas@[k]).connections@.len()
                        == NAV_DIRECTIONS,
                forall|k: int|
                    0 <= k < new_areas@.len() ==> spec_area_renumbered(
                        old_ids@,
                        #[trigger] originals[k],
                        new_areas@[k],
                    ),
            decreases self.nav_areas@.len(),
        {
            let ghost done = new_areas@.len() as int;
            let ghost pre = self.nav_areas@;
            let area = self.nav_areas.remove(0);
            proof {
                assert(area == originals[done]);
                assert(self.nav_areas@ =~= originals.subrange(done + 1, n0 as int));
            }
            let new_conns = renumber_connections(&area.connections, &old_ids);
            let renumbered = NavArea {
                id: new_areas.len() as u32,
                attributes: area.attributes,
                polygon_bits: area.polygon_bits,
                connections: new_conns,
            };
            new_areas.push(renumbered);
            proof {
                assert(spec_area_renumbered(old_ids@, originals[done], new_areas@[done]));
            }
        }
        self.nav_areas = new_areas;
    }
}

/// One connection list with every known target id replaced by its new
/// sequential id.
fn renumber_conn_list(conns: &Vec<NavAreaConnectionData>, old_ids: &Vec<u32>) -> (r: Vec<
    NavAreaConnectionData,
>)
    requires
        old_ids@.len() <= u32::MAX,
    ensures
        r@.len() == conns@.len(),
        forall|k: int|
            0 <= k < r@.len() ==> #[trigger] r@[k] == spec_renumbered(old_ids@, conns@[k]),
{
    let mut r: Vec<NavAreaConnectionData> = Vec::new();
    let mut c: usize = 0;
    while c < conns.len()
        invariant
            c <= conns@.len(),
            r@.len() == c,
            old_ids@.len() <= u32::MAX,
            forall|k: int|
                0 <= k < c ==> #[trigger] r@[k] == spec_renumbered(old_ids@, conns@[k]),
        decreases conns@.len() - c,
    {
        let conn = conns[c];
        match last_index_of(old_ids, conn.area_id) {
            Some(new_id) => {
                r.push(
                    NavAreaConnectionData {
                        area_id: new_id as u32,
                        edge_index: conn.edge_index,
                    },
                );
            },
            None => {
                r.push(conn);
            },
        }
        c = c + 1;
    }
    r
}

/// All four direction lists renumbered.
fn renumber_connections(connections: &Vec<Vec<NavAreaConnectionData>>, old_ids: &Vec<u32>) -> (r:
    Vec<Vec<NavAreaConnectionData>>)
    requires
        old_ids@.len() <= u32::MAX,
    ensures
        r@.len() == connections@.len(),
        forall|d: int|
            0 <= d < r@.len() ==> (#[trigger] r@[d])@.len() == connections@[d]@.len(),
        forall|d: int, k: int|
            0 <= d < r@.len() && 0 <= k < r@[d]@.len() ==> #[trigger] r@[d]@[k]
                == spec_renumbered(old_ids@, connections@[d]@[k]),
{
    let mut r: Vec<Vec<NavAreaConnectionData>> = Vec::new();
    let mut d: usize = 0;
    while d < connections.len()
        invariant
            d <= connections@.len(),
            r@.len() == d,
            old_ids@.len() <= u32::MAX,
            forall|j: int|
                0 <= j < d ==> (#[trigger] r@[j])@.len() == connections@[j]@.len(),
            forall|j: int, k: int|
                0 <= j < d && 0 <= k < r@[j]@.len() ==> #[trigger] r@[j]@[k] == spec_renumbered(
                    old_ids@,
                    connections@[j]@[k],
                ),
        decreases connections@.len() - d,
    {
        r.push(renumber_conn_list(&connections[d], old_ids));
        d = d + 1;
    }
    r
}

/// The highest position holding `v`, or `None`.
pub open spec fn spec_last_index(ids: Seq<u32>, v: u32) -> Option<int>
    decreases ids.len(),
{
    if ids.len() == 0 {
        Option::None
    } else if ids.last() == v {
        Option::Some(ids.len() - 1)
    } else {
        spec_last_index(ids.drop_last(), v)
    }
}

/// What `spec_last_index` returns, spelled out.
pub proof fn lemma_last_index_char(ids: Seq<u32>, v: u32)
    ensures
        match spec_last_index(ids, v) {
            Option::Some(j) => 0 <= j < ids.len() && ids[j] == v && forall|k: int|
                j < k < ids.len() ==> ids[k] != v,
            Option::None => forall|k: int| 0 <= k < ids.len() ==> ids[k] != v,
        },
    decreases ids.len(),
{
    if ids.len() > 0 && ids.last() != v {
        lemma_last_index_char(ids.drop_last(), v);
        assert forall|k: int| 0 <= k < ids.len() - 1 implies ids.drop_last()[k] == ids[k] by {}
    }
}

/// `new` is `old_a` renumbered: the same attributes and polygon, the same
/// connection-list shape, every connection renumbered by the rule below.
pub open spec fn spec_area_renumbered(old_ids: Seq<u32>, old_a: NavArea, new: NavArea) -> bool {
    &&& new.attributes == old_a.attributes
    &&& new.polygon_bits@ == old_a.polygon_bits@
    &&& new.connections@.len() == old_a.connections@.len()
    &&& forall|d: int|
        0 <= d < new.connections@.len() ==> (#[trigger] new.connections@[d])@.len()
            == old_a.connections@[d]@.len()
    &&& forall|d: int, k: int|
        0 <= d < new.connections@.len() && 0 <= k < new.connections@[d]@.len()
            ==> #[trigger] new.connections@[d]@[k] == spec_renumbered(
            old_ids,
            old_a.connections@[d]@[k],
        )
}

/// A connection with its target renumbered: the last position of its old
/// target id becomes the new id; an unknown target keeps its id.
pub open spec fn spec_renumbered(old_ids: Seq<u32>, conn: NavAreaConnectionData)
    -> NavAreaConnectionData {
    match spec_last_index(old_ids, conn.area_id) {
        Option::Some(j) => NavAreaConnectionData { area_id: j as u32, edge_index: conn.edge_index },
        Option::None => conn,
    }
}

/// The highest position holding `v`, scanned from the back.
pub fn last_index_of(ids: &Vec<u32>, v: u32) -> (r: Option<usize>)
    requires
        ids@.len() <= u32::MAX,
    ensures
        match r {
            Some(j) => Option::Some(j as int) == spec_last_index(ids@, v) && j < ids@.len()
                && ids@[j as int] == v && forall|k: int| j < k < ids@.len() ==> ids@[k] != v,
            None => spec_last_index(ids@, v) is None && forall|k: int|
                0 <= k < ids@.len() ==> ids@[k] != v,
        },
{
    proof {
        lemma_last_index_char(ids@, v);
    }
    let mut j: usize = ids.len();
    while j > 0
        invariant
            j <= ids@.len(),
            forall|k: int| j <= k < ids@.len() ==> ids@[k] != v,
        decreases j,
    {
        j = j - 1;
        if ids[j] == v {
            proof {
                lemma_last_index_char(ids@, v);
            }
            return Some(j);
        }
    }
    None
}

/// The file's three header words hold the supported magic, version and
/// subversion.
pub open spec fn spec_nav_header_good(data: Seq<u8>) -> bool {
    &&& vstd::bytes::spec_u32_from_le_bytes(data.subrange(0, 4)) == MAGIC_PREFIX
    &&& vstd::bytes::spec_u32_from_le_bytes(data.subrange(4, 8)) == STEAM_VR_HOME_NAV_VERSION
    &&& vstd::bytes::spec_u32_from_le_bytes(data.subrange(8, 12)) == STEAM_VR_HOME_NAV_SUB_VERSION
}

/// Parses a whole navigation file: the magic word and versions (each
/// checked against the one supported value), the area count, and per area
/// its polygon and its four connection lists. A check failure or a short
/// file yields an error naming the field.
pub fn parse_nav(data: Vec<u8>) -> (r: Result<NavFile, DecodeError>)
    ensures
        match r {
            Ok(f) => {
                &&& f.wf()
                &&& data@.len() >= 20
                &&& f.magic == MAGIC_PREFIX
                &&& vstd::bytes::spec_u32_from_le_bytes(data@.subrange(0, 4)) == MAGIC_PREFIX
                &&& f.version == STEAM_VR_HOME_NAV_VERSION
                &&& vstd::bytes::spec_u32_from_le_bytes(data@.subrange(4, 8))
                    == STEAM_VR_HOME_NAV_VERSION
                &&& f.sub_version == STEAM_VR_HOME_NAV_SUB_VERSION
                &&& vstd::bytes::spec_u32_from_le_bytes(data@.subrange(8, 12))
                    == STEAM_VR_HOME_NAV_SUB_VERSION
                &&& f.is_analyzed == (data@[12] == 1)
                &&& f.place_count == vstd::bytes::spec_u16_from_le_bytes(data@.subrange(13, 15))
                &&& f.has_unnamed_areas == (data@[15] == 1)
                &&& f.nav_areas@.len() == vstd::bytes::spec_u32_from_le_bytes(
                    data@.subrange(16, 20),
                )
            },
            Err(e) => {
                &&& (e matches DecodeError::HeaderMismatch { expected, actual } ==> ({
                    let m0 = vstd::bytes::spec_u32_from_le_bytes(data@.subrange(0, 4));
                    let v1 = vstd::bytes::spec_u32_from_le_bytes(data@.subrange(4, 8));
                    let s2 = vstd::bytes::spec_u32_from_le_bytes(data@.subrange(8, 12));
                    ||| (m0 != MAGIC_PREFIX && expected == MAGIC_PREFIX as i32 && actual == m0
                        as i32)
                    ||| (m0 == MAGIC_PREFIX && v1 != STEAM_VR_HOME_NAV_VERSION && expected
                        == STEAM_VR_HOME_NAV_VERSION as i32 && actual == v1 as i32)
                    ||| (m0 == MAGIC_PREFIX && v1 == STEAM_VR_HOME_NAV_VERSION && s2
                        != STEAM_VR_HOME_NAV_SUB_VERSION && expected
                        == STEAM_VR_HOME_NAV_SUB_VERSION as i32 && actual == s2 as i32)
                }))
                &&& (data@.len() >= 12 && (vstd::bytes::spec_u32_from_le_bytes(
                    data@.subrange(0, 4),
                ) != MAGIC_PREFIX || vstd::bytes::spec_u32_from_le_bytes(data@.subrange(4, 8))
                    != STEAM_VR_HOME_NAV_VERSION || vstd::bytes::spec_u32_from_le_bytes(
                    data@.subrange(8, 12),
                ) != STEAM_VR_HOME_NAV_SUB_VERSION) ==> e matches DecodeError::HeaderMismatch {
                    ..
                })
            },
        },
{
    let mut c = ByteCursor::new(data);
    let mut f = NavFile {
        magic: 0,
        version: 0,
        sub_version: 0,
        is_analyzed: false,
        place_count: 0,
        has_unnamed_areas: false,
        nav_areas: Vec::new(),
    };
    f.magic = read_u32(&mut c)?;
    if f.magic != MAGIC_PREFIX {
        return Err(
            DecodeError::HeaderMismatch { expected: MAGIC_PREFIX as i32, actual: f.magic as i32 },
        );
    }
    f.version = read_u32(&mut c)?;
    if f.version != STEAM_VR_HOME_NAV_VERSION {
        return Err(
            DecodeError::HeaderMismatch {
                expected: STEAM_VR_HOME_NAV_VERSION as i32,
                actual: f.version as i32,
            },
        );
    }
    f.sub_version = read_u32(&mut c)?;
    if f.sub_version != STEAM_VR_HOME_NAV_SUB_VERSION {
        return Err(
            DecodeError::HeaderMismatch {
                expected: STEAM_VR_HOME_NAV_SUB_VERSION as i32,
                actual: f.sub_version as i32,
            },
        );
    }
    f.is_analyzed = read_u8(&mut c)? == 1;
    f.place_count = read_u16(&mut c)?;
    f.has_unnamed_areas = read_u8(&mut c)? == 1;

    let area_count = read_u32(&mut c)?;
    let mut i: u32 = 0;
    while i < area_count
        invariant
            f.wf(),
            c.bytes() == data@,
            spec_nav_header_good(data@),
            f.magic == MAGIC_PREFIX,
            f.version == STEAM_VR_HOME_NAV_VERSION,
            f.sub_version == STEAM_VR_HOME_NAV_SUB_VERSION,
            data@.len() >= 20,
            f.is_analyzed == (data@[12] == 1),
            f.place_count == vstd::bytes::spec_u16_from_le_bytes(data@.subrange(13, 15)),
            f.has_unnamed_areas == (data@[15] == 1),
            area_count == vstd::bytes::spec_u32_from_le_bytes(data@.subrange(16, 20)),
            f.nav_areas@.len() == i,
            i <= area_count,
        decreases area_count - i,
    {
        let id = read_u32(&mut c)?;
        let attributes = read_u32(&mut c)?;
        c.seek_relative(5)?;

        let polygon_count = read_u32(&mut c)?;
        let mut polygon_bits: Vec<[u32; 3]> = Vec::new();
        let mut p: u32 = 0;
        while p < polygon_count
            invariant
                polygon_bits@.len() == p,
                c.bytes() == data@,
                spec_nav_header_good(data@),
            decreases polygon_count - p,
        {
            let x = read_f32_bits(&mut c)?;
            let y = read_f32_bits(&mut c)?;
            let z = read_f32_bits(&mut c)?;
            polygon_bits.push([x, y, z]);
            p = p + 1;
        }

        c.seek_relative(4)?;

        let mut connections: Vec<Vec<NavAreaConnectionData>> = Vec::new();
        let mut d: usize = 0;
        while d < NAV_DIRECTIONS
            invariant
                connections@.len() == d,
                d <= NAV_DIRECTIONS,
                c.bytes() == data@,
                spec_nav_header_good(data@),
            decreases NAV_DIRECTIONS - d,
        {
            let connection_count = read_u32(&mut c)?;
            let mut conns: Vec<NavAreaConnectionData> = Vec::new();
            let mut k: u32 = 0;
            while k < connection_count
                invariant
                    conns@.len() == k,
                    c.bytes() == data@,
                    spec_nav_header_good(data@),
                decreases connection_count - k,
            {
                let area_id = read_u32(&mut c)?;
                let edge_index = read_u32(&mut c)?;
                conns.push(NavAreaConnectionData { area_id, edge_index });
                k = k + 1;
            }
            connections.push(conns);
            d = d + 1;
        }

        f.nav_areas.push(NavArea { id, attributes, polygon_bits, connections });

        // Ladder data this parser does not use.
        c.seek_relative(13)?;
        i = i + 1;
    }

    Ok(f)
}

/// The kind of ground a navigation point marks.
#[derive(Debug, Clone, Copy, PartialEq, Eq, Structural)]
pub enum NavType {
    Walkable,
    Obstacle,
}

impl NavType {
    pub fn to_int(&self) -> (r: u8)
        ensures
            r == (if *self is Walkable {
                0int
            } else {
                1int
            }),
    {
        match self {
            NavType::Walkable => 0,
            NavType::Obstacle => 1,
        }
    }

    /// Inverse of `to_int`; unknown codes fall back to `Obstacle`.
    pub fn from_int(value: u8) -> (r: Self)
        ensures
            r == (if value == 0 {
                NavType::Walkable
            } else {
                NavType::Obstacle
            }),
    {
        match value {
            0 => NavType::Walkable,
            _ => NavType::Obstacle,
        }
    }
}

/// What a click does in the in-game navigation editor.
#[derive(Debug, Clone, Copy, PartialEq, Eq, Structural)]
pub enum NavEditorMode {
    Add,
    Remove,
    Toggle,
}

impl NavEditorMode {
    pub fn to_int(&self) -> (r: u8)
        ensures
            r == (match *self {
                NavEditorMode::Add => 0int,
                NavEditorMode::Remove => 1int,
                NavEditorMode::Toggle => 2int,
            }),
    {
        match self {
            NavEditorMode::Add => 0,
            NavEditorMode::Remove => 1,
            NavEditorMode::Toggle => 2,
        }
    }

    /// The mode after cycling once: add, remove, toggle, and around.
    pub fn next(&self) -> (r: Self)
        ensures
            r == (match *self {
                NavEditorMode::Add => NavEditorMode::Remove,
                NavEditorMode::Remove => NavEditorMode::Toggle,
                NavEditorMode::Toggle => NavEditorMode::Add,
            }),
    {
        match self {
            NavEditorMode::Add => NavEditorMode::Remove,
            NavEditorMode::Remove => NavEditorMode::Toggle,
            NavEditorMode::Toggle => NavEditorMode::Add,
        }
    }
}

/// Collision masks game traces can use.
#[derive(Debug, Clone, Copy, PartialEq, Eq, Structural)]
pub enum TraceMask {
    TraceMaskPlayerSolid,
}

impl TraceMask {
    /// The engine's numeric value for this mask.
    pub fn to_int(&self) -> (r: i64)
        ensures
            r == 33636363,
    {
        33636363
    }
}

} // verus!
