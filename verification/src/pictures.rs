use vstd::prelude::*;

use crate::bitmap::Bitmap;
use crate::bytes::{bytes_eq, spec_i16_at, spec_u32_at, spec_upper_seq, upper_bytes};
use crate::errors::WadError;
use crate::wad::{lemma_find_last_some, spec_find_last, WadFile};

verus! {

// -------------------------------------------------------------------------
// The column-major "picture format": after an 8-byte header and a table of
// `width` column offsets, each column is a run of posts. A post is a y
// offset byte, a length byte, a padding byte, `length` palette bytes, and a
// trailing padding byte; a y offset of 0xFF ends the column.
// -------------------------------------------------------------------------

/// One parsed post: a vertical run of opaque pixels in a column.
pub struct Post {
    pub y_offset: u8,
    pub data: Vec<u8>,
}

/// The mathematical image of one post.
pub ghost struct SpecPost {
    pub y: int,
    pub data: Seq<u8>,
}

impl Post {
    pub open spec fn view_post(self) -> SpecPost {
        SpecPost { y: self.y_offset as int, data: self.data@ }
    }
}

pub open spec fn spec_posts_view(posts: Seq<Post>) -> Seq<SpecPost> {
    posts.map_values(|p: Post| p.view_post())
}

/// The byte walk over a column's posts stays in bounds and ends at 0xFF.
pub open spec fn spec_posts_ok(b: Seq<u8>, off: int) -> bool
    decreases b.len() - off,
{
    if off < 0 || off >= b.len() {
        false
    } else if b[off] == 0xFF {
        true
    } else if off + 4 + b[off + 1] <= b.len() {
        spec_posts_ok(b, off + 4 + b[off + 1])
    } else {
        false
    }
}

/// The posts of the column starting at `off`, in file order.
pub open spec fn spec_posts(b: Seq<u8>, off: int) -> Seq<SpecPost>
    decreases b.len() - off,
{
    if off < 0 || off >= b.len() {
        Seq::empty()
    } else if b[off] == 0xFF {
        Seq::empty()
    } else if off + 4 + b[off + 1] <= b.len() {
        seq![
            SpecPost { y: b[off] as int, data: b.subrange(off + 3, off + 3 + b[off + 1]) },
        ] + spec_posts(b, off + 4 + b[off + 1])
    } else {
        Seq::empty()
    }
}

/// Does a post cover screen row `y` of its column?
pub open spec fn spec_covers(p: SpecPost, y: int) -> bool {
    p.y <= y < p.y + p.data.len()
}

/// The cell a column of posts leaves at row `y`, starting from `init`:
/// the byte of the last post covering `y`, or `init` when none does.
pub open spec fn spec_cell(posts: Seq<SpecPost>, init: Option<u8>, y: int) -> Option<u8>
    decreases posts.len(),
{
    if posts.len() == 0 {
        init
    } else if spec_covers(posts.last(), y) {
        Some(posts.last().data[y - posts.last().y])
    } else {
        spec_cell(posts.drop_last(), init, y)
    }
}

/// Every post of the column fits the picture's height.
pub open spec fn spec_column_fits(b: Seq<u8>, off: int, height: int) -> bool {
    &&& spec_posts_ok(b, off)
    &&& forall|i: int|
        0 <= i < spec_posts(b, off).len() ==> (#[trigger] spec_posts(b, off)[i]).y + spec_posts(
            b,
            off,
        )[i].data.len() <= height
}

/// Where column `x`'s posts start: the lump offset plus the x-th entry of
/// the column offset table.
pub open spec fn spec_column_start(b: Seq<u8>, lump_off: int, x: int) -> int {
    lump_off + spec_u32_at(b, lump_off + 8 + 4 * x)
}

/// The picture lump decodes without running out of bounds.
pub open spec fn spec_picture_ok(b: Seq<u8>, off: int, size: int) -> bool {
    &&& size >= 8
    &&& spec_i16_at(b, off) >= 0
    &&& spec_i16_at(b, off + 2) >= 0
    &&& 8 + 4 * spec_i16_at(b, off) <= size
    &&& forall|x: int|
        0 <= x < spec_i16_at(b, off) ==> spec_column_fits(
            b,
            #[trigger] spec_column_start(b, off, x),
            spec_i16_at(b, off + 2),
        )
}

/// Parse the posts of one column.
fn read_posts(file: &Vec<u8>, start: usize) -> (r: Result<Vec<Post>, WadError>)
    ensures
        match r {
            Ok(posts) => spec_posts_ok(file@, start as int) && spec_posts_view(posts@)
                == spec_posts(file@, start as int),
            Err(e) => e == WadError::MalformedRecord && !spec_posts_ok(file@, start as int),
        },
{
    let flen = file.len();
    if start >= flen {
        return Err(WadError::MalformedRecord);
    }
    let mut posts: Vec<Post> = Vec::new();
    let mut cur: usize = start;
    loop
        invariant
            flen == file@.len(),
            cur < flen,
            spec_posts_ok(file@, start as int) <==> spec_posts_ok(file@, cur as int),
            spec_posts_ok(file@, cur as int) ==> spec_posts(file@, start as int)
                == spec_posts_view(posts@) + spec_posts(file@, cur as int),
        decreases flen - cur,
    {
        let y_offset = file[cur];
        if y_offset == 0xFF {
            proof {
                assert(spec_posts(file@, cur as int) =~= Seq::<SpecPost>::empty());
                assert(spec_posts_view(posts@) + Seq::<SpecPost>::empty() =~= spec_posts_view(
                    posts@,
                ));
            }
            return Ok(posts);
        }
        if flen - cur < 2 {
            return Err(WadError::MalformedRecord);
        }
        let length = file[cur + 1] as usize;
        if 4 + length > flen - cur {
            return Err(WadError::MalformedRecord);
        }
        if 4 + length == flen - cur {
            // The next walk position would sit exactly at the end of the
            // file, where no terminator byte can follow.
            proof {
                assert(!spec_posts_ok(file@, flen as int));
            }
            return Err(WadError::MalformedRecord);
        }

        let mut data: Vec<u8> = Vec::new();
        let mut j: usize = 0;
        while j < length
            invariant
                flen == file@.len(),
                cur + 4 + length <= flen,
                j <= length,
                data@.len() == j,
                forall|k: int| 0 <= k < j ==> data@[k] == file@[cur + 3 + k],
            decreases length - j,
        {
            data.push(file[cur + 3 + j]);
            j = j + 1;
        }
        proof {
            assert(data@ =~= file@.subrange(cur + 3, cur + 3 + file@[cur as int + 1]));
        }
        let ghost old_posts = posts@;
        posts.push(Post { y_offset, data });
        proof {
            assert(spec_posts_view(posts@) =~= spec_posts_view(old_posts) + seq![
                posts@.last().view_post(),
            ]);
            if spec_posts_ok(file@, cur as int) {
                assert(spec_posts(file@, cur as int) == seq![
                    SpecPost {
                        y: file@[cur as int] as int,
                        data: file@.subrange(cur + 3, cur + 3 + file@[cur as int + 1]),
                    },
                ] + spec_posts(file@, cur + 4 + file@[cur as int + 1]));
                assert(spec_posts_view(old_posts) + spec_posts(file@, cur as int)
                    =~= spec_posts_view(posts@) + spec_posts(
                    file@,
                    cur + 4 + file@[cur as int + 1],
                ));
            }
        }
        cur = cur + 4 + length;
    }
}

/// Decode one column into a vector of `height` cells.
/// Succeeds exactly when the column's byte walk stays in bounds and every
/// post fits the height.
fn decode_column(file: &Vec<u8>, lump_off: usize, col_ofs: u32, height: usize) -> (r: Result<
    Vec<Option<u8>>,
    WadError,
>)
    requires
        height <= 32767,
    ensures
        match r {
            Ok(col) => {
                &&& spec_column_fits(file@, lump_off + col_ofs, height as int)
                &&& col@.len() == height
                &&& forall|y: int|
                    0 <= y < height ==> col@[y] == spec_cell(
                        spec_posts(file@, lump_off + col_ofs),
                        None,
                        y,
                    )
            },
            Err(e) => e == WadError::MalformedRecord && !spec_column_fits(
                file@,
                lump_off + col_ofs,
                height as int,
            ),
        },
{
    let flen = file.len();
    if (lump_off as u128) + (col_ofs as u128) >= flen as u128 {
        return Err(WadError::MalformedRecord);
    }
    let start: usize = lump_off + (col_ofs as usize);
    let posts = match read_posts(file, start) {
        Ok(p) => p,
        Err(e) => {
            return Err(e);
        },
    };
    let ghost pv = spec_posts(file@, start as int);

    let mut col: Vec<Option<u8>> = Vec::new();
    let mut y: usize = 0;
    while y < height
        invariant
            col@.len() == y,
            y <= height,
            forall|k: int| 0 <= k < y ==> col@[k] is None,
        decreases height - y,
    {
        col.push(None);
        y = y + 1;
    }
    proof {
        assert forall|yy: int| 0 <= yy < height implies col@[yy] == spec_cell(
            pv.take(0),
            None,
            yy,
        ) by {
            assert(pv.take(0) =~= Seq::<SpecPost>::empty());
        }
    }

    let mut i: usize = 0;
    while i < posts.len()
        invariant
            spec_posts_view(posts@) == pv,
            pv == spec_posts(file@, lump_off + col_ofs),
            spec_posts_ok(file@, lump_off + col_ofs),
            height <= 32767,
            col@.len() == height,
            i <= posts@.len(),
            forall|k: int|
                0 <= k < i ==> (#[trigger] pv[k]).y + pv[k].data.len() <= height,
            forall|yy: int|
                0 <= yy < height ==> col@[yy] == spec_cell(pv.take(i as int), None, yy),
        decreases posts@.len() - i,
    {
        let y0 = posts[i].y_offset as usize;
        let len = posts[i].data.len();
        if len > height || y0 > height - len {
            proof {
                assert(pv[i as int] == posts@[i as int].view_post());
                assert(spec_posts(file@, lump_off + col_ofs) == pv);
                assert(spec_posts(file@, lump_off + col_ofs)[i as int].y + spec_posts(
                    file@,
                    lump_off + col_ofs,
                )[i as int].data.len() > height);
                assert(!spec_column_fits(file@, lump_off + col_ofs, height as int));
            }
            return Err(WadError::MalformedRecord);
        }
        let ghost col_before = col@;
        let mut j: usize = 0;
        while j < len
            invariant
                col@.len() == height,
                y0 + len <= height,
                j <= len,
                len == posts@[i as int].data@.len(),
                y0 == posts@[i as int].y_offset,
                i < posts@.len(),
                forall|yy: int|
                    0 <= yy < height && !(y0 <= yy < y0 + j) ==> col@[yy] == col_before[yy],
                forall|yy: int|
                    y0 <= yy < y0 + j ==> col@[yy] == Some(posts@[i as int].data@[yy - y0]),
            decreases len - j,
        {
            let v = posts[i].data[j];
            col.set(y0 + j, Some(v));
            j = j + 1;
        }
        proof {
            assert(pv.take(i + 1).drop_last() =~= pv.take(i as int));
            assert(pv.take(i + 1).last() == pv[i as int]);
            assert forall|yy: int| 0 <= yy < height implies col@[yy] == spec_cell(
                pv.take(i + 1),
                None,
                yy,
            ) by {
                if spec_covers(pv[i as int], yy) {
                    assert(col@[yy] == Some(posts@[i as int].data@[yy - y0]));
                } else {
                    assert(col@[yy] == col_before[yy]);
                }
            }
        }
        i = i + 1;
    }
    proof {
        assert(pv.take(posts@.len() as int) =~= pv);
    }
    Ok(col)
}

/// A decoded picture: a bitmap plus its anchor offsets.
pub struct Picture {
    /// Canonical lump name.
    pub name: Vec<u8>,
    pub bitmap: Bitmap,
    /// Offset in pixels to the left of the origin.
    pub left_offset: i16,
    /// Offset in pixels below the origin.
    pub top_offset: i16,
}

/// The grid mirrored horizontally: row `y` of the result at column `x` is
/// row `y` of the input at column `w - 1 - x`.
pub open spec fn spec_mirrored(g: Seq<Seq<Option<u8>>>, w: int) -> Seq<Seq<Option<u8>>> {
    g.map_values(|row: Seq<Option<u8>>| Seq::new(w as nat, |x: int| row[w - 1 - x]))
}

impl Picture {
    /// The picture is the exact decode of the lump at `off`: the header
    /// fields, and every cell of every column per `spec_cell`.
    pub open spec fn matches(self, b: Seq<u8>, off: int) -> bool {
        &&& self.bitmap.wf()
        &&& self.bitmap.width == spec_i16_at(b, off)
        &&& self.bitmap.height == spec_i16_at(b, off + 2)
        &&& self.left_offset == spec_i16_at(b, off + 4)
        &&& self.top_offset == spec_i16_at(b, off + 6)
        &&& forall|x: int, y: int|
            0 <= x < self.bitmap.width && 0 <= y < self.bitmap.height
                ==> self.bitmap.grid()[y][x] == spec_cell(
                spec_posts(b, spec_column_start(b, off, x)),
                None,
                y,
            )
    }

    /// Decode a picture lump by name. Fails with `MissingLump` when no lump
    /// carries the name, and with `MalformedRecord` exactly when the lump's
    /// header, column table or posts run out of bounds.
    pub fn new(wad: &WadFile, name: &Vec<u8>) -> (r: Result<Picture, WadError>)
        requires
            wad.wf(),
        ensures
            match r {
                Ok(p) => {
                    &&& spec_find_last(wad.dirs@, spec_upper_seq(name@)) matches Some(d)
                    &&& p.matches(wad.file@, wad.dirs@[d].offset as int)
                    &&& p.name@ == spec_upper_seq(name@)
                },
                Err(e) => match spec_find_last(wad.dirs@, spec_upper_seq(name@)) {
                    Some(d) => e == WadError::MalformedRecord && !spec_picture_ok(
                        wad.file@,
                        wad.dirs@[d].offset as int,
                        wad.dirs@[d].size as int,
                    ),
                    None => e == WadError::MissingLump,
                },
            },
    {
        let entry = match wad.get_dir_entry(name) {
            Ok(e) => e,
            Err(e) => {
                return Err(e);
            },
        };
        proof {
            lemma_find_last_some(wad.dirs@, spec_upper_seq(name@));
            let d = spec_find_last(wad.dirs@, spec_upper_seq(name@)).unwrap();
            assert(wad.dirs@[d].matches(wad.file@, wad.header.dir_offset as int, d));
        }
        let off = entry.offset as usize;
        let size = entry.size as usize;
        let lump_name = entry.name.clone();
        let flen = wad.file.len();

        if size < 8 {
            return Err(WadError::MalformedRecord);
        }
        let width = wad.read_i16(off);
        let height = wad.read_i16(off + 2);
        let left_offset = wad.read_i16(off + 4);
        let top_offset = wad.read_i16(off + 6);
        if width < 0 || height < 0 {
            return Err(WadError::MalformedRecord);
        }
        if (8 + 4 * (width as u64)) > size as u64 {
            return Err(WadError::MalformedRecord);
        }

        // Decode the columns, then transpose into row-major order.
        let mut columns: Vec<Vec<Option<u8>>> = Vec::new();
        let mut x: usize = 0;
        while x < width as usize
            invariant
                wad.wf(),
                flen == wad.file@.len(),
                columns@.len() == x,
                x <= width,
                0 <= width,
                0 <= height,
                height <= 32767,
                off + 8 + 4 * width <= wad.file@.len(),
                off == entry.offset,
                size == entry.size,
                size >= 8,
                8 + 4 * width <= size,
                width == spec_i16_at(wad.file@, off as int),
                height == spec_i16_at(wad.file@, off as int + 2),
                spec_find_last(wad.dirs@, spec_upper_seq(name@)) is Some,
                wad.dirs@[spec_find_last(wad.dirs@, spec_upper_seq(name@)).unwrap()].offset
                    == entry.offset,
                wad.dirs@[spec_find_last(wad.dirs@, spec_upper_seq(name@)).unwrap()].size
                    == entry.size,
                forall|c: int|
                    0 <= c < x ==> spec_column_fits(
                        wad.file@,
                        #[trigger] spec_column_start(wad.file@, off as int, c),
                        height as int,
                    ),
                forall|c: int, y: int|
                    0 <= c < x && 0 <= y < height ==> #[trigger] columns@[c]@[y] == spec_cell(
                        spec_posts(wad.file@, spec_column_start(wad.file@, off as int, c)),
                        None,
                        y,
                    ),
                forall|c: int| 0 <= c < x ==> (#[trigger] columns@[c])@.len() == height,
            decreases width - x,
    {
            let col_ofs = wad.read_u32(off + 8 + 4 * x);
            let col = match decode_column(&wad.file, off, col_ofs, height as usize) {
                Ok(c) => c,
                Err(e) => {
                    proof {
                        let d = spec_find_last(wad.dirs@, spec_upper_seq(name@)).unwrap();
                        assert(wad.dirs@[d].offset == entry.offset);
                        assert(wad.dirs@[d].size == entry.size);
                        assert(!spec_column_fits(
                            wad.file@,
                            spec_column_start(wad.file@, off as int, x as int),
                            height as int,
                        ));
                        assert(!spec_picture_ok(wad.file@, off as int, size as int));
                    }
                    return Err(e);
                },
            };
            columns.push(col);
            x = x + 1;
        }

        let mut pixels: Vec<Vec<Option<u8>>> = Vec::new();
        let mut y: usize = 0;
        while y < height as usize
            invariant
                pixels@.len() == y,
                y <= height,
                0 <= width,
                columns@.len() == width,
                forall|c: int| 0 <= c < width ==> (#[trigger] columns@[c])@.len() == height,
                forall|j: int| 0 <= j < y ==> (#[trigger] pixels@[j])@.len() == width,
                forall|j: int, c: int|
                    0 <= j < y && 0 <= c < width ==> #[trigger] pixels@[j]@[c] == columns@[c]@[j],
            decreases height - y,
        {
            let mut row: Vec<Option<u8>> = Vec::new();
            let mut c: usize = 0;
            while c < width as usize
                invariant
                    row@.len() == c,
                    c <= width,
                    y < height,
                    columns@.len() == width,
                    forall|k: int| 0 <= k < width ==> (#[trigger] columns@[k])@.len() == height,
                    forall|k: int| 0 <= k < c ==> row@[k] == (#[trigger] columns@[k])@[y as int],
                decreases width - c,
            {
                row.push(columns[c][y as usize]);
                c = c + 1;
            }
            pixels.push(row);
            y = y + 1;
        }

        let bitmap = Bitmap::new(width, height, pixels);
        Ok(Picture { name: lump_name, bitmap, left_offset, top_offset })
    }

    /// A horizontally mirrored copy of the picture.
    pub fn mirror(&self) -> (r: Picture)
        requires
            self.bitmap.wf(),
        ensures
            r.bitmap.wf(),
            r.bitmap.width == self.bitmap.width,
            r.bitmap.height == self.bitmap.height,
            r.left_offset == self.left_offset,
            r.top_offset == self.top_offset,
            r.name@ == self.name@,
            r.bitmap.grid() == spec_mirrored(self.bitmap.grid(), self.bitmap.width as int),
    {
        let w = self.bitmap.width as usize;
        let h = self.bitmap.height as usize;
        let mut pixels: Vec<Vec<Option<u8>>> = Vec::new();
        let mut y: usize = 0;
        while y < h
            invariant
                self.bitmap.wf(),
                w == self.bitmap.width,
                h == self.bitmap.height,
                pixels@.len() == y,
                y <= h,
                forall|j: int| 0 <= j < y ==> (#[trigger] pixels@[j])@.len() == w,
                forall|j: int, x: int|
                    0 <= j < y && 0 <= x < w ==> #[trigger] pixels@[j]@[x]
                        == self.bitmap.grid()[j][w - 1 - x],
            decreases h - y,
        {
            let mut row: Vec<Option<u8>> = Vec::new();
            let mut x: usize = 0;
            while x < w
                invariant
                    self.bitmap.wf(),
                    w == self.bitmap.width,
                    h == self.bitmap.height,
                    y < h,
                    row@.len() == x,
                    x <= w,
                    forall|k: int|
                        0 <= k < x ==> #[trigger] row@[k] == self.bitmap.grid()[y as int][w - 1
                            - k],
                decreases w - x,
            {
                row.push(self.bitmap.pixels[y][w - 1 - x]);
                x = x + 1;
            }
            pixels.push(row);
            y = y + 1;
        }
        let bitmap = Bitmap::new(self.bitmap.width, self.bitmap.height, pixels);
        proof {
            assert(bitmap.grid() =~~= spec_mirrored(self.bitmap.grid(), self.bitmap.width as int));
        }
        Picture {
            name: self.name.clone(),
            bitmap,
            left_offset: self.left_offset,
            top_offset: self.top_offset,
        }
    }
}

impl Picture {
    /// Decode the posts of a picture lump at `wad_offset` into an already
    /// sized bitmap: afterwards every cell is the lump's decode. Succeeds
    /// exactly when every column's byte walk stays in bounds and every
    /// post fits the bitmap's height.
    pub fn read_pixels(wad: &WadFile, wad_offset: u32, bitmap: &mut Bitmap) -> (r: Result<
        (),
        WadError,
    >)
        requires
            wad.wf(),
            old(bitmap).wf(),
            wad_offset + 8 + 4 * old(bitmap).width <= wad.file@.len(),
        ensures
            final(bitmap).width == old(bitmap).width,
            final(bitmap).height == old(bitmap).height,
            final(bitmap).wf(),
            r matches Ok(_) ==> forall|x: int, y: int|
                0 <= x < final(bitmap).width && 0 <= y < final(bitmap).height
                    ==> final(bitmap).grid()[y][x] == spec_cell(
                    spec_posts(
                        wad.file@,
                        spec_column_start(wad.file@, wad_offset as int, x),
                    ),
                    None,
                    y,
                ),
            r matches Err(e) ==> e == WadError::MalformedRecord && final(bitmap).pixels@
                == old(bitmap).pixels@ && !(forall|x: int|
                0 <= x < old(bitmap).width ==> spec_column_fits(
                    wad.file@,
                    #[trigger] spec_column_start(wad.file@, wad_offset as int, x),
                    old(bitmap).height as int,
                )),
            (forall|x: int|
                0 <= x < old(bitmap).width ==> spec_column_fits(
                    wad.file@,
                    #[trigger] spec_column_start(wad.file@, wad_offset as int, x),
                    old(bitmap).height as int,
                )) ==> r is Ok,
    {
        let off = wad_offset as usize;
        let width = bitmap.width;
        let height = bitmap.height;
        let flen = wad.file.len();

        let mut columns: Vec<Vec<Option<u8>>> = Vec::new();
        let mut x: usize = 0;
        while x < width as usize
            invariant
                wad.wf(),
                *bitmap == *old(bitmap),
                bitmap.wf(),
                width == bitmap.width,
                height == bitmap.height,
                flen == wad.file@.len(),
                columns@.len() == x,
                x <= width,
                0 <= width,
                0 <= height,
                height <= 32767,
                off + 8 + 4 * width <= wad.file@.len(),
                off == wad_offset,
                forall|c: int, y: int|
                    0 <= c < x && 0 <= y < height ==> #[trigger] columns@[c]@[y] == spec_cell(
                        spec_posts(wad.file@, spec_column_start(wad.file@, off as int, c)),
                        None,
                        y,
                    ),
                forall|c: int| 0 <= c < x ==> (#[trigger] columns@[c])@.len() == height,
            decreases width - x,
        {
            let col_ofs = wad.read_u32(off + 8 + 4 * x);
            let col = match decode_column(&wad.file, off, col_ofs, height as usize) {
                Ok(c) => c,
                Err(e) => {
                    proof {
                        assert(!spec_column_fits(
                            wad.file@,
                            spec_column_start(wad.file@, off as int, x as int),
                            height as int,
                        ));
                    }
                    return Err(e);
                },
            };
            columns.push(col);
            x = x + 1;
        }

        let mut pixels: Vec<Vec<Option<u8>>> = Vec::new();
        let mut y: usize = 0;
        while y < height as usize
            invariant
                pixels@.len() == y,
                y <= height,
                0 <= width,
                columns@.len() == width,
                forall|c: int| 0 <= c < width ==> (#[trigger] columns@[c])@.len() == height,
                forall|j: int| 0 <= j < y ==> (#[trigger] pixels@[j])@.len() == width,
                forall|j: int, c: int|
                    0 <= j < y && 0 <= c < width ==> #[trigger] pixels@[j]@[c] == columns@[c]@[j],
            decreases height - y,
        {
            let mut row: Vec<Option<u8>> = Vec::new();
            let mut c: usize = 0;
            while c < width as usize
                invariant
                    row@.len() == c,
                    c <= width,
                    y < height,
                    columns@.len() == width,
                    forall|k: int| 0 <= k < width ==> (#[trigger] columns@[k])@.len() == height,
                    forall|k: int| 0 <= k < c ==> row@[k] == (#[trigger] columns@[k])@[y as int],
                decreases width - c,
            {
                row.push(columns[c][y]);
                c = c + 1;
            }
            pixels.push(row);
            y = y + 1;
        }
        bitmap.pixels = pixels;
        Ok(())
    }
}

/// A lazy store of decoded pictures, bound to one WAD file.
pub struct Pictures {
    /// Decoded pictures, in load order.
    pub entries: Vec<Picture>,
    /// The WAD file this store decodes from.
    pub wad_snap: Ghost<WadFile>,
}

impl Pictures {
    /// Every cached picture is the decode of its name from the bound WAD.
    pub open spec fn wf(self) -> bool {
        &&& self.wad_snap@.wf()
        &&& forall|i: int|
            0 <= i < self.entries@.len() ==> {
                &&& spec_find_last(self.wad_snap@.dirs@, (#[trigger] self.entries@[i]).name@)
                    matches Some(d)
                &&& self.entries@[i].matches(
                    self.wad_snap@.file@,
                    self.wad_snap@.dirs@[spec_find_last(
                        self.wad_snap@.dirs@,
                        self.entries@[i].name@,
                    ).unwrap()].offset as int,
                )
            }
    }

    /// An empty store bound to `wad`.
    pub fn new(wad: &WadFile) -> (r: Pictures)
        requires
            wad.wf(),
        ensures
            r.wf(),
            r.wad_snap@ == *wad,
            r.entries@.len() == 0,
    {
        Pictures { entries: Vec::new(), wad_snap: Ghost(*wad) }
    }

    /// Fetch a picture by name, decoding and caching it on first request.
    /// Returns the index of the picture in the store; the cache only
    /// grows, and a cached name is served without re-decoding. Succeeds
    /// exactly when the name is cached or its lump exists and decodes.
    pub fn get(&mut self, wad: &WadFile, name: &Vec<u8>) -> (r: Result<usize, WadError>)
        requires
            old(self).wf(),
            *wad == old(self).wad_snap@,
        ensures
            final(self).wf(),
            final(self).wad_snap@ == old(self).wad_snap@,
            old(self).entries@.len() <= final(self).entries@.len(),
            forall|j: int|
                0 <= j < old(self).entries@.len() ==> #[trigger] final(self).entries@[j] == old(
                    self,
                ).entries@[j],
            match r {
                Ok(i) => {
                    &&& i < final(self).entries@.len()
                    &&& final(self).entries@[i as int].name@ == spec_upper_seq(name@)
                    &&& final(self).entries@[i as int].bitmap.wf()
                },
                Err(e) => final(self).entries@ == old(self).entries@ && (match spec_find_last(
                    wad.dirs@,
                    spec_upper_seq(name@),
                ) {
                    Some(d) => e == WadError::MalformedRecord && !spec_picture_ok(
                        wad.file@,
                        wad.dirs@[d].offset as int,
                        wad.dirs@[d].size as int,
                    ),
                    None => e == WadError::MissingLump,
                }),
            },
            ((exists|j: int|
                0 <= j < old(self).entries@.len() && (#[trigger] old(self).entries@[j]).name@
                    == spec_upper_seq(name@)) || (spec_find_last(
                wad.dirs@,
                spec_upper_seq(name@),
            ) matches Some(d) && spec_picture_ok(
                wad.file@,
                wad.dirs@[d].offset as int,
                wad.dirs@[d].size as int,
            ))) ==> r is Ok,
    {
        let canonical = upper_bytes(name);
        let mut i: usize = 0;
        while i < self.entries.len()
            invariant
                *self == *old(self),
                old(self).wf(),
                *wad == old(self).wad_snap@,
                i <= self.entries@.len(),
                canonical@ == spec_upper_seq(name@),
                forall|k: int|
                    0 <= k < i ==> (#[trigger] self.entries@[k]).name@ != canonical@,
            decreases self.entries@.len() - i,
        {
            if bytes_eq(&self.entries[i].name, &canonical) {
                proof {
                    assert(self.entries@[i as int].matches(
                        self.wad_snap@.file@,
                        self.wad_snap@.dirs@[spec_find_last(
                            self.wad_snap@.dirs@,
                            self.entries@[i as int].name@,
                        ).unwrap()].offset as int,
                    ));
                }
                return Ok(i);
            }
            i = i + 1;
        }
        let picture = match Picture::new(wad, name) {
            Ok(p) => p,
            Err(e) => {
                return Err(e);
            },
        };
        self.entries.push(picture);
        Ok(self.entries.len() - 1)
    }

    /// Access a cached picture.
    pub fn picture(&self, index: usize) -> (r: &Picture)
        requires
            index < self.entries@.len(),
        ensures
            *r == self.entries@[index as int],
    {
        &self.entries[index]
    }
}

/// Mirror identity: mirroring a grid twice restores every pixel, for any
/// grid whose rows have the mirrored width.
pub proof fn lemma_mirror_involution(g: Seq<Seq<Option<u8>>>, w: int)
    requires
        w >= 0,
        forall|y: int| 0 <= y < g.len() ==> (#[trigger] g[y]).len() == w,
    ensures
        spec_mirrored(spec_mirrored(g, w), w) == g,
{
    assert(spec_mirrored(spec_mirrored(g, w), w) =~~= g);
}

/// Picture decode, transparency direction: a decoded cell is opaque exactly
/// when some post of its source column covers it; a cell left transparent
/// is covered by no post, and an opaque cell holds the byte of the last
/// covering post.
pub proof fn lemma_picture_cells(posts: Seq<SpecPost>, y: int)
    ensures
        (spec_cell(posts, None, y) is Some) <==> (exists|i: int|
            0 <= i < posts.len() && spec_covers(#[trigger] posts[i], y)),
        spec_cell(posts, None, y) matches Some(v) ==> (exists|i: int|
            {
                &&& 0 <= i < posts.len()
                &&& spec_covers(#[trigger] posts[i], y)
                &&& v == posts[i].data[y - posts[i].y]
                &&& forall|j: int| i < j < posts.len() ==> !spec_covers(#[trigger] posts[j], y)
            }),
    decreases posts.len(),
{
    if posts.len() > 0 {
        if spec_covers(posts.last(), y) {
            assert(spec_covers(posts[posts.len() - 1], y));
        } else {
            lemma_picture_cells(posts.drop_last(), y);
            if spec_cell(posts, None, y) is Some {
                let i = choose|i: int|
                    {
                        &&& 0 <= i < posts.drop_last().len()
                        &&& spec_covers(#[trigger] posts.drop_last()[i], y)
                        &&& spec_cell(posts.drop_last(), None, y).unwrap() == posts.drop_last()[i].data[y
                            - posts.drop_last()[i].y]
                        &&& forall|j: int|
                            i < j < posts.drop_last().len() ==> !spec_covers(
                                #[trigger] posts.drop_last()[j],
                                y,
                            )
                    };
                assert(posts[i] == posts.drop_last()[i]);
                assert forall|j: int| i < j < posts.len() implies !spec_covers(
                    #[trigger] posts[j],
                    y,
                ) by {
                    if j < posts.len() - 1 {
                        assert(posts.drop_last()[j] == posts[j]);
                    }
                }
            }
            if exists|i: int| 0 <= i < posts.len() && spec_covers(#[trigger] posts[i], y) {
                let i = choose|i: int| 0 <= i < posts.len() && spec_covers(#[trigger] posts[i], y);
                assert(i < posts.len() - 1);
                assert(spec_covers(posts.drop_last()[i], y));
            }
        }
    }
}

} // verus!
