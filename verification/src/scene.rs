//! A scene as text: the tile grid and the material of each tile id, in a
//! small line-oriented format that parses back to the same scene.
//!
//! ```text
//! v1
//! grid <W>x<H>
//! <H rows of tile characters>
//! mat <tile_id> <surface> <seed> <r>,<g>,<b>
//! ...
//! ```
//! The surface is one of wood, marble, tile, plaster, brick. Lines are
//! trimmed and blank lines skipped; lines after the grid that do not begin
//! with "mat " are ignored.

use vstd::prelude::*;
use crate::space::{grid_cells, is_tile_char, rows_ok, Tile, TileGrid};
use crate::text::{
    append_decimal, content_lines, decimal, has_prefix, is_white, lemma_content_append_line,
    lemma_decimal_reads_back, lemma_split_char_extend, lemma_split_first_at, lemma_trim_plain,
    lemma_words_append, lines_of, parse_number, parse_unsigned, plain_digits, push_char,
    same_chars, split_char, split_commas, split_first, split_once, split_white, starts_with,
    tail_from, trim,
    words, words_of,
};
use crate::texture::{Material, Surface};

verus! {

/// A grid and the material of each tile id (0 to 7).
pub struct Scene {
    pub grid: TileGrid,
    /// Material per tile id; tile 0 is floor and its entry goes unused.
    pub materials: [Material; 8],
}

/// The material of a tile id no `mat` line sets.
pub open spec fn default_material() -> Material {
    Material { surface: Surface::Plaster, seed: 1, tint: (170, 170, 170) }
}

/// Every tile id with the default material.
pub open spec fn default_materials() -> Seq<Material> {
    Seq::new(8, |i: int| default_material())
}

/// The surface a word names.
pub open spec fn surface_named(s: Seq<char>) -> Option<Surface> {
    if s == "wood"@ {
        Some(Surface::Wood)
    } else if s == "marble"@ {
        Some(Surface::Marble)
    } else if s == "tile"@ {
        Some(Surface::Tile)
    } else if s == "plaster"@ {
        Some(Surface::Plaster)
    } else if s == "brick"@ {
        Some(Surface::Brick)
    } else {
        None
    }
}

/// The word for a surface.
pub open spec fn surface_word(s: Surface) -> Seq<char> {
    match s {
        Surface::Wood => "wood"@,
        Surface::Marble => "marble"@,
        Surface::Tile => "tile"@,
        Surface::Plaster => "plaster"@,
        Surface::Brick => "brick"@,
    }
}

/// What a line after the grid does to the materials.
pub enum MatLine {
    /// Not a `mat` line: ignored.
    Other,
    /// A malformed `mat` line: the scene is refused.
    Bad,
    /// Sets the material of a tile id.
    Assign(int, Material),
}

/// Every comma-separated piece is a byte.
pub open spec fn all_bytes(pieces: Seq<Seq<char>>) -> bool {
    forall|k: int| 0 <= k < pieces.len() ==> parse_unsigned(#[trigger] pieces[k], 255) is Some
}

/// The value of the `k`-th piece as a byte.
pub open spec fn byte_at(pieces: Seq<Seq<char>>, k: int) -> u8 {
    parse_unsigned(pieces[k], 255)->0 as u8
}

/// How a line after the grid reads: `mat <id> <surface> <seed> <r>,<g>,<b>`
/// with an id below 8, a known surface, a `u32` seed and three bytes.
pub open spec fn mat_line(line: Seq<char>) -> MatLine {
    if !has_prefix(line, "mat "@) {
        MatLine::Other
    } else {
        let parts = words(line.skip(4));
        if parts.len() != 4 {
            MatLine::Bad
        } else {
            let rgb = split_char(parts[3], ',');
            match (
                parse_unsigned(parts[0], usize::MAX as int),
                surface_named(parts[1]),
                parse_unsigned(parts[2], u32::MAX as int),
            ) {
                (Some(id), Some(surface), Some(seed)) => {
                    if id >= 8 || !all_bytes(rgb) || rgb.len() != 3 {
                        MatLine::Bad
                    } else {
                        MatLine::Assign(
                            id,
                            Material {
                                surface,
                                seed: seed as u32,
                                tint: (byte_at(rgb, 0), byte_at(rgb, 1), byte_at(rgb, 2)),
                            },
                        )
                    }
                },
                _ => MatLine::Bad,
            }
        }
    }
}

/// The materials after reading `lines` in order from `ms`; `None` once a
/// line is malformed.
pub open spec fn read_mats(ms: Seq<Material>, lines: Seq<Seq<char>>) -> Option<Seq<Material>>
    decreases lines.len(),
{
    if lines.len() == 0 {
        Some(ms)
    } else {
        match read_mats(ms, lines.drop_last()) {
            None => None,
            Some(m2) => match mat_line(lines.last()) {
                MatLine::Other => Some(m2),
                MatLine::Bad => None,
                MatLine::Assign(id, m) => Some(m2.update(id, m)),
            },
        }
    }
}

/// The UTF-8 length of a character.
pub open spec fn char_bytes(c: char) -> nat {
    let u = c as u32;
    if u < 0x80 {
        1
    } else if u < 0x800 {
        2
    } else if u < 0x10000 {
        3
    } else {
        4
    }
}

/// The UTF-8 length of a string (`str::len`).
pub open spec fn byte_len(s: Seq<char>) -> nat
    decreases s.len(),
{
    if s.len() == 0 {
        0
    } else {
        byte_len(s.drop_last()) + char_bytes(s.last())
    }
}

/// What reading a scene text comes to.
pub enum SceneParse {
    /// The text is refused (the parser returns an error).
    Refused,
    /// A grid row that passed the width check holds a character that is no
    /// tile, on which the grid constructor panics.
    Panics,
    /// The scene: grid width, height, cells, and the eight materials.
    Parsed(nat, nat, Seq<Tile>, Seq<Material>),
}

/// How a scene text reads: the trimmed non-blank lines must be "v1", then
/// "grid WxH", then H rows of W bytes each, then any lines, of which the
/// `mat` lines set materials.
pub open spec fn scene_parse(t: Seq<char>) -> SceneParse {
    let ls = content_lines(t);
    if ls.len() < 2 || ls[0] != "v1"@ || !has_prefix(ls[1], "grid "@) {
        SceneParse::Refused
    } else {
        match split_first(ls[1].skip(5), 'x') {
            None => SceneParse::Refused,
            Some((ws, hs)) => match (
                parse_unsigned(ws, usize::MAX as int),
                parse_unsigned(hs, usize::MAX as int),
            ) {
                (Some(w), Some(h)) => {
                    if ls.len() < 2 + h || exists|k: int|
                        0 <= k < h && byte_len(#[trigger] ls[2 + k]) != w {
                        SceneParse::Refused
                    } else if exists|k: int, j: int|
                        0 <= k < h && 0 <= j < ls[2 + k].len() && !is_tile_char(
                            #[trigger] ls[2 + k][j],
                        ) {
                        SceneParse::Panics
                    } else {
                        match read_mats(default_materials(), ls.skip(2 + h)) {
                            None => SceneParse::Refused,
                            Some(ms) => SceneParse::Parsed(
                                if h == 0 {
                                    0
                                } else {
                                    w as nat
                                },
                                h as nat,
                                grid_cells(ls.subrange(2, 2 + h)),
                                ms,
                            ),
                        }
                    }
                },
                _ => SceneParse::Refused,
            },
        }
    }
}


/// The surface a word names (see `surface_named`).
fn surface_from(s: &Vec<char>) -> (r: Option<Surface>)
    ensures
        r == surface_named(s@),
{
    if same_chars(s, "wood") {
        Some(Surface::Wood)
    } else if same_chars(s, "marble") {
        Some(Surface::Marble)
    } else if same_chars(s, "tile") {
        Some(Surface::Tile)
    } else if same_chars(s, "plaster") {
        Some(Surface::Plaster)
    } else if same_chars(s, "brick") {
        Some(Surface::Brick)
    } else {
        None
    }
}

/// The word for a surface (see `surface_word`).
fn surface_name(s: Surface) -> (r: &'static str)
    ensures
        r@ == surface_word(s),
{
    match s {
        Surface::Wood => "wood",
        Surface::Marble => "marble",
        Surface::Tile => "tile",
        Surface::Plaster => "plaster",
        Surface::Brick => "brick",
    }
}

proof fn lemma_byte_len_grows(s: Seq<char>, k: int)
    requires
        0 <= k <= s.len(),
    ensures
        byte_len(s.subrange(0, k)) <= byte_len(s),
    decreases s.len() - k,
{
    if k < s.len() {
        lemma_byte_len_grows(s, k + 1);
        assert(s.subrange(0, k + 1).drop_last() =~= s.subrange(0, k));
    } else {
        assert(s.subrange(0, k) =~= s);
    }
}

/// Whether the UTF-8 length of `v` is `w`.
fn byte_len_is(v: &Vec<char>, w: usize) -> (b: bool)
    ensures
        b == (byte_len(v@) == w),
{
    let mut acc: usize = 0;
    let mut i: usize = 0;
    assert(v@.subrange(0, 0) =~= Seq::<char>::empty());
    while i < v.len()
        invariant
            i <= v.len(),
            acc == byte_len(v@.subrange(0, i as int)),
            acc <= w,
        decreases v.len() - i,
    {
        let u = v[i] as u32;
        let cb: usize = if u < 0x80 {
            1
        } else if u < 0x800 {
            2
        } else if u < 0x10000 {
            3
        } else {
            4
        };
        assert(v@.subrange(0, i + 1).drop_last() =~= v@.subrange(0, i as int));
        assert(v@.subrange(0, i + 1).last() == v@[i as int]);
        if cb > w - acc {
            proof {
                lemma_byte_len_grows(v@, i + 1);
            }
            return false;
        }
        acc = acc + cb;
        i = i + 1;
    }
    assert(v@.subrange(0, v.len() as int) =~= v@);
    acc == w
}

/// The UTF-8 length of `v`, or `u64::MAX` where it would not fit.
fn byte_len_capped(v: &Vec<char>) -> (n: u64)
    ensures
        n == (if byte_len(v@) <= u64::MAX { byte_len(v@) } else { u64::MAX as nat }),
{
    let mut acc: u64 = 0;
    let mut i: usize = 0;
    assert(v@.subrange(0, 0) =~= Seq::<char>::empty());
    while i < v.len()
        invariant
            i <= v.len(),
            acc == (if byte_len(v@.subrange(0, i as int)) <= u64::MAX {
                byte_len(v@.subrange(0, i as int))
            } else {
                u64::MAX as nat
            }),
        decreases v.len() - i,
    {
        let u = v[i] as u32;
        let cb: u64 = if u < 0x80 {
            1
        } else if u < 0x800 {
            2
        } else if u < 0x10000 {
            3
        } else {
            4
        };
        assert(v@.subrange(0, i + 1).drop_last() =~= v@.subrange(0, i as int));
        assert(v@.subrange(0, i + 1).last() == v@[i as int]);
        acc = acc.saturating_add(cb);
        i = i + 1;
    }
    assert(v@.subrange(0, v.len() as int) =~= v@);
    acc
}

/// How a line after the grid was read.
enum LineRead {
    Other,
    Bad(String),
    Assign(usize, Material),
}

/// The line was read as the format says.
spec fn read_as(r: LineRead, m: MatLine) -> bool {
    match m {
        MatLine::Other => r is Other,
        MatLine::Bad => r is Bad,
        MatLine::Assign(id, mat) => r matches LineRead::Assign(i, x) && i == id && x == mat,
    }
}

/// A message naming a problem, with a number.
fn message(text: &str, n: u64) -> (s: String)
    ensures
        s@ == text@ + decimal(n as nat),
{
    let mut s = text.to_owned();
    append_decimal(&mut s, n);
    s
}

/// Read a line after the grid (see `mat_line`).
#[verifier::loop_isolation(false)]
fn read_mat_line(line: &Vec<char>) -> (r: LineRead)
    ensures
        read_as(r, mat_line(line@)),
{
    proof {
        reveal_strlit("mat ");
    }
    if !starts_with(line, "mat ") {
        return LineRead::Other;
    }
    let rest = tail_from(line, 4);
    let parts = words_of(&rest);
    let ghost pv = parts@.map_values(|x: Vec<char>| x@);
    if parts.len() != 4 {
        return LineRead::Bad(message("mat line needs 4 fields, got ", parts.len() as u64));
    }
    assert(pv[0] == parts@[0]@ && pv[1] == parts@[1]@ && pv[2] == parts@[2]@ && pv[3]
        == parts@[3]@);
    let ghost rgb = split_char(pv[3], ',');
    let id = match parse_number(&parts[0], usize::MAX as u64) {
        Some(n) => n,
        None => {
            return LineRead::Bad("bad tile id".to_owned());
        },
    };
    let surface = match surface_from(&parts[1]) {
        Some(sf) => sf,
        None => {
            return LineRead::Bad("bad surface".to_owned());
        },
    };
    let seed = match parse_number(&parts[2], u32::MAX as u64) {
        Some(n) => n,
        None => {
            return LineRead::Bad("bad seed".to_owned());
        },
    };
    if id >= 8 {
        let mut msg = message("tile id ", id);
        msg.append(" out of range 0..8");
        return LineRead::Bad(msg);
    }
    let pieces = split_commas(&parts[3]);
    let ghost qv = pieces@.map_values(|x: Vec<char>| x@);
    assert(qv == rgb);
    let mut bytes: Vec<u8> = Vec::new();
    let mut k: usize = 0;
    while k < pieces.len()
        invariant
            k <= pieces.len(),
            qv == pieces@.map_values(|x: Vec<char>| x@),
            bytes@.len() == k,
            forall|j: int|
                0 <= j < k ==> parse_unsigned(#[trigger] qv[j], 255) == Some(bytes@[j] as int),
        decreases pieces.len() - k,
    {
        assert(qv[k as int] == pieces@[k as int]@);
        match parse_number(&pieces[k], 255) {
            Some(b) => {
                bytes.push(b as u8);
            },
            None => {
                assert(!all_bytes(rgb));
                return LineRead::Bad("bad rgb".to_owned());
            },
        }
        k = k + 1;
    }
    if bytes.len() != 3 {
        return LineRead::Bad("tint must be r,g,b".to_owned());
    }
    assert(all_bytes(rgb)) by {
        assert forall|j: int| 0 <= j < rgb.len() implies parse_unsigned(#[trigger] rgb[j], 255) is Some by {
            assert(parse_unsigned(qv[j], 255) == Some(bytes@[j] as int));
        }
    }
    assert(parse_unsigned(qv[0], 255) == Some(bytes@[0] as int));
    assert(parse_unsigned(qv[1], 255) == Some(bytes@[1] as int));
    assert(parse_unsigned(qv[2], 255) == Some(bytes@[2] as int));
    LineRead::Assign(
        id as usize,
        Material { surface, seed: seed as u32, tint: (bytes[0], bytes[1], bytes[2]) },
    )
}


proof fn lemma_read_mats_refusal_stays(ms: Seq<Material>, lines: Seq<Seq<char>>, k: int)
    requires
        0 <= k <= lines.len(),
        read_mats(ms, lines.subrange(0, k)) is None,
    ensures
        read_mats(ms, lines) is None,
    decreases lines.len() - k,
{
    if k < lines.len() {
        assert(lines.subrange(0, k + 1).drop_last() =~= lines.subrange(0, k));
        lemma_read_mats_refusal_stays(ms, lines, k + 1);
    } else {
        assert(lines.subrange(0, k) =~= lines);
    }
}

proof fn lemma_tile_chars_one_byte(s: Seq<char>)
    requires
        forall|j: int| 0 <= j < s.len() ==> is_tile_char(#[trigger] s[j]),
    ensures
        byte_len(s) == s.len(),
    decreases s.len(),
{
    if s.len() > 0 {
        assert(is_tile_char(s[s.len() - 1]));
        lemma_tile_chars_one_byte(s.drop_last());
    }
}

impl Scene {
    /// Read a scene from its text (see `scene_parse`). Texts on which the
    /// grid constructor would panic (a tile row of the right byte width
    /// holding a character that is no tile) are excluded.
    #[verifier::loop_isolation(false)]
    pub fn parse(text: &str) -> (r: Result<Scene, String>)
        requires
            !(scene_parse(text@) is Panics),
        ensures
            match r {
                Ok(s) => s.grid.wf() && scene_parse(text@) == SceneParse::Parsed(
                    s.grid.width as nat,
                    s.grid.height as nat,
                    s.grid.cells(),
                    s.materials@,
                ),
                Err(_) => scene_parse(text@) is Refused,
            },
    {
        let ls = lines_of(text);
        let ghost lv = ls@.map_values(|l: Vec<char>| l@);
        proof {
            reveal_strlit("v1");
            reveal_strlit("grid ");
        }
        if ls.len() == 0 {
            return Err("empty scene".to_owned());
        }
        assert(lv[0] == ls@[0]@);
        if !same_chars(&ls[0], "v1") {
            return Err("unknown scene version".to_owned());
        }
        if ls.len() < 2 {
            return Err("missing grid line".to_owned());
        }
        assert(lv[1] == ls@[1]@);
        if !starts_with(&ls[1], "grid ") {
            return Err("expected `grid WxH`".to_owned());
        }
        let dims = tail_from(&ls[1], 5);
        let (ws, hs) = match split_once(&dims, 'x') {
            Some(p) => p,
            None => {
                return Err("grid dims must be WxH".to_owned());
            },
        };
        let w = match parse_number(&ws, usize::MAX as u64) {
            Some(n) => n as usize,
            None => {
                return Err("bad grid width".to_owned());
            },
        };
        let h = match parse_number(&hs, usize::MAX as u64) {
            Some(n) => n as usize,
            None => {
                return Err("bad grid height".to_owned());
            },
        };
        let mut rows: Vec<Vec<char>> = Vec::new();
        let mut k: usize = 0;
        assert(lv.subrange(2, 2) =~= Seq::<Seq<char>>::empty());
        while k < h
            invariant
                k <= h,
                2 + k <= ls.len(),
                lv == ls@.map_values(|l: Vec<char>| l@),
                rows@.map_values(|r: Vec<char>| r@) == lv.subrange(2, 2 + k),
                forall|j: int| 0 <= j < k ==> byte_len(#[trigger] lv[2 + j]) == w,
            decreases h - k,
        {
            if 2 + k >= ls.len() {
                return Err("scene ended before all grid rows".to_owned());
            }
            let row = &ls[2 + k];
            assert(lv[2 + k] == row@);
            if !byte_len_is(row, w) {
                let mut msg = message("grid row width ", byte_len_capped(row));
                msg.append(" != ");
                append_decimal(&mut msg, w as u64);
                return Err(msg);
            }
            let copy = tail_from(row, 0);
            assert(copy@ =~= row@);
            let ghost before = rows@.map_values(|r: Vec<char>| r@);
            rows.push(copy);
            assert(rows@.map_values(|r: Vec<char>| r@) =~= before.push(row@));
            assert(lv.subrange(2, 2 + k + 1) =~= lv.subrange(2, 2 + k as int).push(row@));
            k = k + 1;
        }
        let ghost rv = rows@.map_values(|r: Vec<char>| r@);
        proof {
            assert(forall|j: int| 0 <= j < h ==> rv[j] == lv[2 + j]);
            assert forall|j: int| 0 <= j < rv.len() implies (#[trigger] rv[j]).len() == w
                && forall|c: int| 0 <= c < rv[j].len() ==> is_tile_char(rv[j][c]) by {
                assert(rv[j] == lv[2 + j]);
                assert forall|c: int| 0 <= c < rv[j].len() implies is_tile_char(rv[j][c]) by {
                    assert(rv[j][c] == lv[2 + j][c]);
                }
                lemma_tile_chars_one_byte(rv[j]);
            }
            if rows@.len() > 0 {
                assert(rv[0] == rows@[0]@);
            }
        }
        let grid = TileGrid::from_rows(&rows);
        let mut materials = [Material { surface: Surface::Plaster, seed: 1, tint: (170, 170, 170) }; 8];
        assert(materials@ =~= default_materials());
        let start: usize = 2 + h;
        let mut i: usize = start;
        assert(lv.subrange(start as int, start as int) =~= Seq::<Seq<char>>::empty());
        while i < ls.len()
            invariant
                start <= i <= ls.len(),
                lv == ls@.map_values(|l: Vec<char>| l@),
                materials@.len() == 8,
                read_mats(default_materials(), lv.subrange(start as int, i as int)) == Some(
                    materials@,
                ),
            decreases ls.len() - i,
        {
            assert(lv[i as int] == ls@[i as int]@);
            assert(lv.subrange(start as int, i + 1).drop_last() =~= lv.subrange(
                start as int,
                i as int,
            ));
            assert(lv.subrange(start as int, i + 1).last() == lv[i as int]);
            match read_mat_line(&ls[i]) {
                LineRead::Other => {},
                LineRead::Bad(msg) => {
                    proof {
                        assert(lv.skip(start as int).subrange(0, i + 1 - start) =~= lv.subrange(
                            start as int,
                            i + 1,
                        ));
                        lemma_read_mats_refusal_stays(
                            default_materials(),
                            lv.skip(start as int),
                            i + 1 - start,
                        );
                    }
                    return Err(msg);
                },
                LineRead::Assign(id, m) => {
                    materials[id] = m;
                },
            }
            i = i + 1;
        }
        assert(lv.subrange(start as int, ls.len() as int) =~= lv.skip(start as int));
        assert(lv.subrange(2, 2 + h as int) == rv);
        Ok(Scene { grid, materials })
    }

    /// The material of a tile: the entry of its id modulo 8.
    pub fn material(&self, tile: Tile) -> (m: Material)
        ensures
            m == self.materials@[(tile.0 % 8) as int],
    {
        self.materials[(tile.0 % 8) as usize]
    }
}


/// The character a tile is written as; ids beyond the four walls are
/// written '0'.
pub open spec fn tile_out(t: Tile) -> char {
    if t.0 == 0 {
        '.'
    } else if t.0 == 1 {
        '1'
    } else if t.0 == 2 {
        '2'
    } else if t.0 == 3 {
        '3'
    } else if t.0 == 4 {
        '4'
    } else {
        '0'
    }
}

/// The first `h` rows of a grid `w` wide, each followed by a newline.
pub open spec fn rows_text(cells: Seq<Tile>, w: nat, h: nat) -> Seq<char>
    decreases h,
{
    if h == 0 {
        Seq::empty()
    } else {
        rows_text(cells, w, (h - 1) as nat) + cells.subrange(((h - 1) * w) as int, (h * w) as int).map_values(
            |t: Tile| tile_out(t),
        ) + seq!['\n']
    }
}

/// The `mat` line of a tile id.
pub open spec fn mat_text(id: nat, m: Material) -> Seq<char> {
    "mat "@ + decimal(id) + " "@ + surface_word(m.surface) + " "@ + decimal(m.seed as nat) + " "@
        + decimal(m.tint.0 as nat) + ","@ + decimal(m.tint.1 as nat) + ","@ + decimal(
        m.tint.2 as nat,
    ) + "\n"@
}

/// The `mat` lines of tile ids 1 up to (not including) `n`.
pub open spec fn mats_text(ms: Seq<Material>, n: nat) -> Seq<char>
    decreases n,
{
    if n <= 1 {
        Seq::empty()
    } else {
        mats_text(ms, (n - 1) as nat) + mat_text((n - 1) as nat, ms[n - 1])
    }
}

/// The text of a scene: version, grid line, rows, and the `mat` lines of
/// tile ids 1 to 7.
pub open spec fn scene_text(w: nat, h: nat, cells: Seq<Tile>, ms: Seq<Material>) -> Seq<char> {
    "v1\n"@ + "grid "@ + decimal(w) + "x"@ + decimal(h) + "\n"@ + rows_text(cells, w, h)
        + mats_text(ms, 8)
}

/// The character a tile is written as (see `tile_out`).
fn tile_char(t: Tile) -> (c: char)
    ensures
        c == tile_out(t),
{
    if t.0 == 0 {
        '.'
    } else if t.0 == 1 {
        '1'
    } else if t.0 == 2 {
        '2'
    } else if t.0 == 3 {
        '3'
    } else if t.0 == 4 {
        '4'
    } else {
        '0'
    }
}

impl Scene {
    /// The scene as text (see `scene_text`); it reads back as the same
    /// scene.
    pub fn to_text(&self) -> (s: String)
        requires
            self.grid.wf(),
        ensures
            s@ == scene_text(
                self.grid.width as nat,
                self.grid.height as nat,
                self.grid.cells(),
                self.materials@,
            ),
    {
        let w = self.grid.width;
        let h = self.grid.height;
        let ghost cells = self.grid.cells();
        let mut out = "v1\n".to_owned();
        out.append("grid ");
        append_decimal(&mut out, w as u64);
        out.append("x");
        append_decimal(&mut out, h as u64);
        out.append("\n");
        let ghost head = out@;
        let mut y: usize = 0;
        let mut base: usize = 0;
        while y < h
            invariant
                y <= h,
                w == self.grid.width,
                h == self.grid.height,
                cells == self.grid.cells(),
                self.grid.wf(),
                base == y * w,
                out@ == head + rows_text(cells, w as nat, y as nat),
            decreases h - y,
        {
            assert((y + 1) * w == y * w + w) by (nonlinear_arith);
            assert((y + 1) * w <= h * w) by (nonlinear_arith)
                requires
                    y < h,
            ;
            assert(cells.len() == h * w) by (nonlinear_arith)
                requires
                    cells.len() == w * h,
            ;
            let n = self.grid.cells.len();
            let ghost before = out@;
            let mut x: usize = 0;
            while x < w
                invariant
                    x <= w,
                    w == self.grid.width,
                    cells == self.grid.cells(),
                    self.grid.wf(),
                    n == cells.len(),
                    base + w <= n,
                    out@ == before + cells.subrange(base as int, base + x).map_values(
                        |t: Tile| tile_out(t),
                    ),
                decreases w - x,
            {
                let c = tile_char(self.grid.cells[base + x]);
                push_char(&mut out, c);
                assert(cells.subrange(base as int, base + x + 1).map_values(|t: Tile| tile_out(t))
                    =~= cells.subrange(base as int, base + x).map_values(|t: Tile| tile_out(t)).push(
                    c,
                ));
                x = x + 1;
            }
            push_char(&mut out, '\n');
            assert(out@ =~= head + rows_text(cells, w as nat, (y + 1) as nat));
            base = base + w;
            y = y + 1;
        }
        let ghost mid = out@;
        let mut id: usize = 1;
        while id < 8
            invariant
                1 <= id <= 8,
                self.materials@.len() == 8,
                out@ == mid + mats_text(self.materials@, id as nat),
            decreases 8 - id,
        {
            let m = self.materials[id];
            let ghost before = out@;
            out.append("mat ");
            append_decimal(&mut out, id as u64);
            out.append(" ");
            out.append(surface_name(m.surface));
            out.append(" ");
            append_decimal(&mut out, m.seed as u64);
            out.append(" ");
            append_decimal(&mut out, m.tint.0 as u64);
            out.append(",");
            append_decimal(&mut out, m.tint.1 as u64);
            out.append(",");
            append_decimal(&mut out, m.tint.2 as u64);
            out.append("\n");
            assert(out@ =~= before + mat_text(id as nat, m));
            assert(mats_text(self.materials@, (id + 1) as nat) =~= mats_text(self.materials@, id as nat)
                + mat_text(id as nat, self.materials@[id as int]));
            id = id + 1;
        }
        out
    }
}


// ---------- Reading back what was written ----------

/// The characters of row `k` of a grid `w` wide.
pub open spec fn row_chars(cells: Seq<Tile>, w: nat, k: nat) -> Seq<char> {
    cells.subrange((k * w) as int, ((k + 1) * w) as int).map_values(|t: Tile| tile_out(t))
}

/// The first `k` rows of a grid `w` wide, as lines.
pub open spec fn grid_lines(cells: Seq<Tile>, w: nat, k: nat) -> Seq<Seq<char>>
    decreases k,
{
    if k == 0 {
        Seq::empty()
    } else {
        grid_lines(cells, w, (k - 1) as nat).push(row_chars(cells, w, (k - 1) as nat))
    }
}

/// The tint of a material as written: "r,g,b".
pub open spec fn tint_chars(m: Material) -> Seq<char> {
    decimal(m.tint.0 as nat) + ","@ + decimal(m.tint.1 as nat) + ","@ + decimal(m.tint.2 as nat)
}

/// The `mat` line of a tile id, without its newline.
pub open spec fn mat_line_chars(id: nat, m: Material) -> Seq<char> {
    "mat "@ + decimal(id) + " "@ + surface_word(m.surface) + " "@ + decimal(m.seed as nat) + " "@
        + tint_chars(m)
}

/// The `mat` lines of tile ids 1 up to (not including) `n`.
pub open spec fn mat_lines(ms: Seq<Material>, n: nat) -> Seq<Seq<char>>
    decreases n,
{
    if n <= 1 {
        Seq::empty()
    } else {
        mat_lines(ms, (n - 1) as nat).push(mat_line_chars((n - 1) as nat, ms[n - 1]))
    }
}

/// The materials once ids 1 up to (not including) `n` are set from `ms`.
pub open spec fn partly_set(ms: Seq<Material>, n: nat) -> Seq<Material> {
    Seq::new(8, |i: int| if 1 <= i < n { ms[i] } else { default_material() })
}

/// The written grid line.
pub open spec fn grid_line(w: nat, h: nat) -> Seq<char> {
    "grid "@ + decimal(w) + "x"@ + decimal(h)
}

proof fn lemma_rows_lines(pre: Seq<char>, cells: Seq<Tile>, w: nat, k: nat)
    requires
        pre.len() > 0,
        pre.last() == '\n',
        w > 0,
        k * w <= cells.len(),
        forall|i: int| 0 <= i < cells.len() ==> (#[trigger] cells[i]).0 <= 4,
    ensures
        content_lines(pre + rows_text(cells, w, k)) == content_lines(pre) + grid_lines(cells, w, k),
        (pre + rows_text(cells, w, k)).len() > 0,
        (pre + rows_text(cells, w, k)).last() == '\n',
    decreases k,
{
    if k == 0 {
        assert(pre + rows_text(cells, w, k) =~= pre);
        assert(content_lines(pre) + grid_lines(cells, w, k) =~= content_lines(pre));
    } else {
        let j = (k - 1) as nat;
        assert(j * w <= k * w) by (nonlinear_arith)
            requires
                j <= k,
        ;
        assert((j + 1) * w == k * w);
        lemma_rows_lines(pre, cells, w, j);
        let x = pre + rows_text(cells, w, j);
        let r = row_chars(cells, w, j);
        assert(j * w + w == k * w) by (nonlinear_arith)
            requires
                j + 1 == k,
        ;
        assert(r.len() == w);
        assert forall|i: int| 0 <= i < r.len() implies r[i] != '\n' && !is_white(r[i])
            && is_tile_char(r[i]) by {
            assert(r[i] == tile_out(cells[j * w + i]));
            assert(cells[j * w + i].0 <= 4);
        }
        lemma_trim_plain(r);
        lemma_content_append_line(x, r);
        assert(pre + rows_text(cells, w, k) =~= x + r + seq!['\n']);
        assert(content_lines(pre) + grid_lines(cells, w, k) =~= (content_lines(pre) + grid_lines(
            cells,
            w,
            j,
        )).push(r));
    }
}

proof fn lemma_grid_lines_cells(cells: Seq<Tile>, w: nat, k: nat)
    requires
        k * w <= cells.len(),
        forall|i: int| 0 <= i < cells.len() ==> (#[trigger] cells[i]).0 <= 4,
    ensures
        grid_cells(grid_lines(cells, w, k)) == cells.subrange(0, (k * w) as int),
    decreases k,
{
    if k == 0 {
        assert(cells.subrange(0, 0) =~= Seq::<Tile>::empty());
    } else {
        let j = (k - 1) as nat;
        assert(j * w + w == k * w) by (nonlinear_arith)
            requires
                j + 1 == k,
        ;
        assert((j + 1) * w == k * w);
        lemma_grid_lines_cells(cells, w, j);
        let g = grid_lines(cells, w, k);
        assert(g.drop_last() =~= grid_lines(cells, w, j));
        let r = row_chars(cells, w, j);
        assert(r.map_values(|c: char| crate::space::tile_of_char(c)) =~= cells.subrange(
            (j * w) as int,
            (k * w) as int,
        )) by {
            assert forall|i: int| 0 <= i < w implies crate::space::tile_of_char(#[trigger] r[i])
                == cells[j * w + i] by {
                assert(r[i] == tile_out(cells[j * w + i]));
                assert(cells[j * w + i].0 <= 4);
            }
        }
        assert(cells.subrange(0, (j * w) as int) + cells.subrange((j * w) as int, (k * w) as int)
            =~= cells.subrange(0, (k * w) as int));
    }
}

proof fn lemma_surface_reads_back(sf: Surface)
    ensures
        surface_named(surface_word(sf)) == Some(sf),
        surface_word(sf).len() > 0,
        forall|i: int|
            0 <= i < surface_word(sf).len() ==> !is_white(#[trigger] surface_word(sf)[i])
                && surface_word(sf)[i] != '\n' && surface_word(sf)[i] != ',',
{
    reveal_strlit("wood");
    reveal_strlit("marble");
    reveal_strlit("tile");
    reveal_strlit("plaster");
    reveal_strlit("brick");
    assert("wood"@[0] != "marble"@[0]);
    assert("wood"@[0] != "tile"@[0]);
    assert("wood"@[0] != "plaster"@[0]);
    assert("wood"@[0] != "brick"@[0]);
    assert("marble"@[0] != "tile"@[0]);
    assert("marble"@[0] != "plaster"@[0]);
    assert("marble"@[0] != "brick"@[0]);
    assert("tile"@[0] != "plaster"@[0]);
    assert("tile"@[0] != "brick"@[0]);
    assert("plaster"@[0] != "brick"@[0]);
}

proof fn lemma_no_words()
    ensures
        words(Seq::<char>::empty()) == Seq::<Seq<char>>::empty(),
{
    let e = Seq::<char>::empty();
    assert(split_white(e) =~= seq![e]);
    assert(seq![e].drop_last() =~= Seq::<Seq<char>>::empty());
    assert(crate::text::non_empty(Seq::<Seq<char>>::empty()) == Seq::<Seq<char>>::empty());
    assert(crate::text::non_empty(seq![e]) == crate::text::non_empty(seq![e].drop_last()));
}

proof fn lemma_tint_reads_back(m: Material)
    ensures
        split_char(tint_chars(m), ',') == seq![
            decimal(m.tint.0 as nat),
            decimal(m.tint.1 as nat),
            decimal(m.tint.2 as nat),
        ],
        all_bytes(split_char(tint_chars(m), ',')),
        byte_at(split_char(tint_chars(m), ','), 0) == m.tint.0,
        byte_at(split_char(tint_chars(m), ','), 1) == m.tint.1,
        byte_at(split_char(tint_chars(m), ','), 2) == m.tint.2,
        tint_chars(m).len() > 0,
        forall|i: int|
            0 <= i < tint_chars(m).len() ==> !is_white(#[trigger] tint_chars(m)[i])
                && tint_chars(m)[i] != '\n',
{
    reveal_strlit(",");
    lemma_decimal_reads_back(m.tint.0 as nat, 255);
    lemma_decimal_reads_back(m.tint.1 as nat, 255);
    lemma_decimal_reads_back(m.tint.2 as nat, 255);
    let dr = decimal(m.tint.0 as nat);
    let dg = decimal(m.tint.1 as nat);
    let db = decimal(m.tint.2 as nat);
    let tc = tint_chars(m);
    assert(","@ =~= seq![',']);
    assert(split_char(Seq::<char>::empty(), ',') =~= seq![Seq::<char>::empty()]);
    lemma_split_char_extend(Seq::<char>::empty(), dr, ',');
    assert(Seq::<char>::empty() + dr =~= dr);
    let a1 = dr + seq![','];
    assert(a1.drop_last() =~= dr);
    lemma_split_char_extend(a1, dg, ',');
    let a2 = a1 + dg + seq![','];
    assert(a2.drop_last() =~= a1 + dg);
    lemma_split_char_extend(a2, db, ',');
    assert(tc =~= a2 + db);
    assert(split_char(tc, ',') =~= seq![dr, dg, db]);
    assert forall|i: int| 0 <= i < tc.len() implies !is_white(#[trigger] tc[i]) && tc[i] != '\n' by {
        if i < dr.len() {
            assert(tc[i] == dr[i]);
        } else if i < dr.len() + 1 {
        } else if i < dr.len() + 1 + dg.len() {
            assert(tc[i] == dg[i - dr.len() - 1]);
        } else if i < dr.len() + 2 + dg.len() {
        } else {
            assert(tc[i] == db[i - dr.len() - 2 - dg.len()]);
        }
    }
}

proof fn lemma_mat_words(id: nat, m: Material)
    ensures
        words(mat_line_chars(id, m).skip(4)) == seq![
            decimal(id),
            surface_word(m.surface),
            decimal(m.seed as nat),
            tint_chars(m),
        ],
        has_prefix(mat_line_chars(id, m), "mat "@),
{
    reveal_strlit("mat ");
    reveal_strlit(" ");
    lemma_decimal_reads_back(id, id as int);
    lemma_decimal_reads_back(m.seed as nat, m.seed as int);
    lemma_surface_reads_back(m.surface);
    lemma_tint_reads_back(m);
    lemma_no_words();
    let d_id = decimal(id);
    let sw = surface_word(m.surface);
    let d_seed = decimal(m.seed as nat);
    let tc = tint_chars(m);
    let line = mat_line_chars(id, m);
    let sp = seq![' '];
    assert(" "@ =~= sp);
    lemma_words_append(Seq::<char>::empty(), d_id);
    assert(Seq::<char>::empty() + d_id =~= d_id);
    let w1 = d_id + sp;
    lemma_words_append(w1, sw);
    let w2 = w1 + sw + sp;
    lemma_words_append(w2, d_seed);
    let w3 = w2 + d_seed + sp;
    lemma_words_append(w3, tc);
    assert(line =~= "mat "@ + (w3 + tc));
    assert(line.skip(4) =~= w3 + tc);
    assert(line.subrange(0, 4) =~= "mat "@);
}

proof fn lemma_mat_line_reads_back(id: nat, m: Material)
    requires
        1 <= id < 8,
    ensures
        mat_line(mat_line_chars(id, m)) == MatLine::Assign(id as int, m),
        mat_line_chars(id, m).len() > 0,
        forall|i: int|
            0 <= i < mat_line_chars(id, m).len() ==> #[trigger] mat_line_chars(id, m)[i] != '\n',
        trim(mat_line_chars(id, m)) == mat_line_chars(id, m),
{
    lemma_mat_words(id, m);
    lemma_tint_reads_back(m);
    lemma_decimal_reads_back(id, usize::MAX as int);
    lemma_decimal_reads_back(m.seed as nat, u32::MAX as int);
    lemma_surface_reads_back(m.surface);
    let line = mat_line_chars(id, m);
    assert(mat_line(line) == MatLine::Assign(id as int, m));
    lemma_mat_line_plain(id, m);
}

proof fn lemma_mat_line_plain(id: nat, m: Material)
    ensures
        mat_line_chars(id, m).len() > 0,
        forall|i: int|
            0 <= i < mat_line_chars(id, m).len() ==> #[trigger] mat_line_chars(id, m)[i] != '\n',
        trim(mat_line_chars(id, m)) == mat_line_chars(id, m),
{
    reveal_strlit("mat ");
    reveal_strlit(" ");
    lemma_decimal_reads_back(id, id as int);
    lemma_decimal_reads_back(m.seed as nat, m.seed as int);
    lemma_surface_reads_back(m.surface);
    lemma_tint_reads_back(m);
    let d_id = decimal(id);
    let sw = surface_word(m.surface);
    let d_seed = decimal(m.seed as nat);
    let tc = tint_chars(m);
    let line = mat_line_chars(id, m);
    assert forall|i: int| 0 <= i < line.len() implies #[trigger] line[i] != '\n' by {
        if i < 4 {
        } else if i < 4 + d_id.len() {
            assert(line[i] == d_id[i - 4]);
        } else if i < 5 + d_id.len() {
        } else if i < 5 + d_id.len() + sw.len() {
            assert(line[i] == sw[i - 5 - d_id.len()]);
        } else if i < 6 + d_id.len() + sw.len() {
        } else if i < 6 + d_id.len() + sw.len() + d_seed.len() {
            assert(line[i] == d_seed[i - 6 - d_id.len() - sw.len()]);
        } else if i < 7 + d_id.len() + sw.len() + d_seed.len() {
        } else {
            assert(line[i] == tc[i - 7 - d_id.len() - sw.len() - d_seed.len()]);
        }
    }
    assert(line.last() == tc.last());
    assert(line[0] == 'm');
    lemma_trim_plain(line);
}

proof fn lemma_mats_lines(pre: Seq<char>, ms: Seq<Material>, n: nat)
    requires
        pre.len() > 0,
        pre.last() == '\n',
        1 <= n <= 8,
        ms.len() == 8,
    ensures
        content_lines(pre + mats_text(ms, n)) == content_lines(pre) + mat_lines(ms, n),
        read_mats(default_materials(), mat_lines(ms, n)) == Some(partly_set(ms, n)),
    decreases n,
{
    reveal_strlit("\n");
    if n == 1 {
        assert(pre + mats_text(ms, n) =~= pre);
        assert(content_lines(pre) + mat_lines(ms, n) =~= content_lines(pre));
        assert(partly_set(ms, n) =~= default_materials());
    } else {
        let j = (n - 1) as nat;
        lemma_mats_lines(pre, ms, j);
        let x = pre + mats_text(ms, j);
        let l = mat_line_chars(j, ms[j as int]);
        lemma_mat_line_reads_back(j, ms[j as int]);
        assert(x.len() > 0 && x.last() == '\n') by {
            if j > 1 {
                assert(x.last() == mat_text((j - 1) as nat, ms[j - 1]).last());
            }
        }
        lemma_content_append_line(x, l);
        assert(mat_text(j, ms[j as int]) =~= l + seq!['\n']);
        assert(pre + mats_text(ms, n) =~= x + l + seq!['\n']);
        assert(content_lines(pre) + mat_lines(ms, n) =~= (content_lines(pre) + mat_lines(
            ms,
            j,
        )).push(l));
        assert(mat_lines(ms, n).drop_last() =~= mat_lines(ms, j));
        assert(partly_set(ms, n) =~= partly_set(ms, j).update(j as int, ms[j as int]));
    }
}


proof fn lemma_grid_lines_index(cells: Seq<Tile>, w: nat, k: nat)
    ensures
        grid_lines(cells, w, k).len() == k,
        forall|j: int| 0 <= j < k ==> #[trigger] grid_lines(cells, w, k)[j] == row_chars(cells, w, j as nat),
    decreases k,
{
    if k > 0 {
        lemma_grid_lines_index(cells, w, (k - 1) as nat);
    }
}

proof fn lemma_mat_lines_len(ms: Seq<Material>, n: nat)
    requires
        n >= 1,
    ensures
        mat_lines(ms, n).len() == n - 1,
    decreases n,
{
    if n > 1 {
        lemma_mat_lines_len(ms, (n - 1) as nat);
    }
}

/// The lines of a written scene: version, grid line, the rows, and the
/// `mat` lines of tile ids 1 to 7.
proof fn lemma_text_lines(w: nat, h: nat, cells: Seq<Tile>, ms: Seq<Material>)
    requires
        cells.len() == w * h,
        forall|i: int| 0 <= i < cells.len() ==> (#[trigger] cells[i]).0 <= 4,
        (w == 0) == (h == 0),
        ms.len() == 8,
    ensures
        content_lines(scene_text(w, h, cells, ms)) == seq!["v1"@, grid_line(w, h)] + grid_lines(
            cells,
            w,
            h,
        ) + mat_lines(ms, 8),
{
    reveal_strlit("v1\n");
    reveal_strlit("v1");
    reveal_strlit("grid ");
    reveal_strlit("x");
    reveal_strlit("\n");
    let e = Seq::<char>::empty();
    assert(split_char(e, '\n') =~= seq![e]);
    assert(trim(e) == e);
    assert(seq![e].map_values(|l: Seq<char>| trim(l)) =~= seq![e]);
    assert(seq![e].drop_last() =~= Seq::<Seq<char>>::empty());
    assert(crate::text::non_empty(seq![e]) == crate::text::non_empty(Seq::<Seq<char>>::empty()));
    assert(content_lines(e) =~= Seq::<Seq<char>>::empty());
    let v1 = "v1"@;
    lemma_trim_plain(v1);
    lemma_content_append_line(e, v1);
    let p1 = e + v1 + seq!['\n'];
    assert(p1 =~= "v1\n"@);
    let gl = grid_line(w, h);
    lemma_decimal_reads_back(w, w as int);
    lemma_decimal_reads_back(h, h as int);
    let dw = decimal(w);
    let dh = decimal(h);
    assert forall|i: int| 0 <= i < gl.len() implies #[trigger] gl[i] != '\n' by {
        if i < 5 {
        } else if i < 5 + dw.len() {
            assert(gl[i] == dw[i - 5]);
        } else if i < 6 + dw.len() {
        } else {
            assert(gl[i] == dh[i - 6 - dw.len()]);
        }
    }
    assert(gl.last() == dh.last());
    lemma_trim_plain(gl);
    lemma_content_append_line(p1, gl);
    let p2 = p1 + gl + seq!['\n'];
    assert(content_lines(p2) =~= seq![v1, gl]);
    let p3 = p2 + rows_text(cells, w, h);
    if h > 0 {
        assert(h * w == w * h) by (nonlinear_arith);
        lemma_rows_lines(p2, cells, w, h);
    } else {
        assert(p3 =~= p2);
        assert(seq![v1, gl] + grid_lines(cells, w, h) =~= seq![v1, gl]);
    }
    lemma_mats_lines(p3, ms, 8);
    assert(scene_text(w, h, cells, ms) =~= p3 + mats_text(ms, 8));
}

/// Writing a scene and reading the text back gives the same scene: the
/// grid's width, height and cells, and the materials of tile ids 1 to 7.
/// Tile 0 (floor) gets no `mat` line, so it reads back with the default
/// material. This holds of every grid whose rows are not empty.
pub proof fn lemma_scene_round_trip(w: nat, h: nat, cells: Seq<Tile>, ms: Seq<Material>)
    requires
        cells.len() == w * h,
        forall|i: int| 0 <= i < cells.len() ==> (#[trigger] cells[i]).0 <= 4,
        (w == 0) == (h == 0),
        w <= usize::MAX,
        h <= usize::MAX,
        ms.len() == 8,
    ensures
        scene_parse(scene_text(w, h, cells, ms)) == SceneParse::Parsed(
            w,
            h,
            cells,
            ms.update(0, default_material()),
        ),
{
    reveal_strlit("v1");
    reveal_strlit("grid ");
    reveal_strlit("x");
    lemma_text_lines(w, h, cells, ms);
    lemma_grid_lines_index(cells, w, h);
    lemma_mat_lines_len(ms, 8);
    lemma_mats_lines(seq!['\n'], ms, 8);
    let ls = content_lines(scene_text(w, h, cells, ms));
    let gl = grid_line(w, h);
    let rows = grid_lines(cells, w, h);
    let mats = mat_lines(ms, 8);
    assert(ls[0] == "v1"@);
    assert(ls[1] == gl);
    assert(gl.subrange(0, 5) =~= "grid "@);
    lemma_decimal_reads_back(w, usize::MAX as int);
    lemma_decimal_reads_back(h, usize::MAX as int);
    let dw = decimal(w);
    let dh = decimal(h);
    let dims = gl.skip(5);
    assert(dims =~= dw + "x"@ + dh);
    assert(dims[dw.len() as int] == 'x');
    assert forall|j: int| 0 <= j < dw.len() implies dims[j] != 'x' by {
        assert(dims[j] == dw[j]);
    }
    lemma_split_first_at(dims, 'x', dw.len() as int);
    assert(dims.subrange(0, dw.len() as int) =~= dw);
    assert(dims.skip((dw.len() + 1) as int) =~= dh);
    assert forall|k: int| 0 <= k < h implies #[trigger] ls[2 + k] == row_chars(cells, w, k as nat)
        && byte_len(ls[2 + k]) == w && forall|j: int|
        0 <= j < ls[2 + k].len() ==> is_tile_char(#[trigger] ls[2 + k][j]) by {
        assert(ls[2 + k] == rows[k]);
        let r = row_chars(cells, w, k as nat);
        assert((k + 1) * w <= h * w) by (nonlinear_arith)
            requires
                k < h,
        ;
        assert(k * w + w == (k + 1) * w) by (nonlinear_arith);
        assert(h * w == w * h) by (nonlinear_arith);
        assert(r.len() == w);
        assert forall|j: int| 0 <= j < r.len() implies is_tile_char(#[trigger] r[j]) by {
            assert(r[j] == tile_out(cells[k * w + j]));
            assert(cells[k * w + j].0 <= 4);
        }
        lemma_tile_chars_one_byte(r);
    }
    assert(!(exists|k: int| 0 <= k < h && byte_len(#[trigger] ls[2 + k]) != w));
    assert(!(exists|k: int, j: int|
        0 <= k < h && 0 <= j < ls[2 + k].len() && !is_tile_char(#[trigger] ls[2 + k][j])));
    assert(ls.skip((2 + h) as int) =~= mats);
    assert(ls.subrange(2, (2 + h) as int) =~= rows);
    assert(h * w == w * h) by (nonlinear_arith);
    lemma_grid_lines_cells(cells, w, h);
    assert(cells.subrange(0, (h * w) as int) =~= cells);
    assert(partly_set(ms, 8) =~= ms.update(0, default_material()));
}

} // verus!
