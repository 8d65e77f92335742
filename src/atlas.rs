//! Placement of glyph bitmaps in a square texture atlas.

use vstd::prelude::*;

verus! {

/// Places bitmaps left to right along rows ("shelves") of a square atlas,
/// one pixel apart; a shelf is as tall as its tallest bitmap.
#[derive(Clone, Copy, Debug, PartialEq, Eq, Structural)]
pub struct ShelfPacker {
    /// Side of the atlas in pixels.
    pub size: u32,
    /// Column where the next bitmap of the current shelf goes.
    pub next_x: u32,
    /// Top row of the current shelf.
    pub next_y: u32,
    /// Height of the tallest bitmap on the current shelf.
    pub row_height: u32,
}

impl ShelfPacker {
    pub open spec fn wf(self) -> bool {
        &&& self.next_x <= self.size
        &&& self.next_y <= self.size
        &&& self.row_height <= self.size
    }

    /// The packer after moving to a new shelf when a bitmap `w` wide does not
    /// fit on the current one. The top of the new shelf is never past `size`,
    /// where nothing fits anyway.
    pub open spec fn shelf_for(self, w: nat) -> ShelfPacker {
        if self.next_x + w >= self.size {
            let top = self.next_y + self.row_height + 1;
            ShelfPacker {
                next_x: 0,
                next_y: if top < self.size { top as u32 } else { self.size },
                row_height: 0,
                ..self
            }
        } else {
            self
        }
    }

    /// Where a `w` x `h` bitmap goes, if it fits, and the packer after it.
    /// A bitmap as wide as the atlas never fits.
    pub open spec fn placed(self, w: nat, h: nat) -> (ShelfPacker, Option<(u32, u32)>) {
        let s = self.shelf_for(w);
        if s.next_y + h >= s.size || s.next_x + w >= s.size {
            (s, None)
        } else {
            (
                ShelfPacker {
                    next_x: (s.next_x + w + 1) as u32,
                    row_height: if s.row_height >= h { s.row_height } else { h as u32 },
                    ..s
                },
                Some((s.next_x, s.next_y)),
            )
        }
    }

    /// An empty atlas of side `size`.
    pub fn new(size: u32) -> (p: ShelfPacker)
        ensures
            p.wf(),
            p == (ShelfPacker { size, next_x: 0, next_y: 0, row_height: 0 }),
    {
        ShelfPacker { size, next_x: 0, next_y: 0, row_height: 0 }
    }

    /// The top-left corner for a `w` x `h` bitmap, or `None` when the atlas
    /// is full. A placed bitmap lies inside the atlas.
    pub fn place(&mut self, w: u32, h: u32) -> (r: Option<(u32, u32)>)
        requires
            old(self).wf(),
        ensures
            final(self).wf(),
            (*final(self), r) == old(self).placed(w as nat, h as nat),
            r matches Some((x, y)) ==> x + w < old(self).size && y + h < old(self).size,
    {
        if self.next_x as u64 + w as u64 >= self.size as u64 {
            let top = self.next_y as u64 + self.row_height as u64 + 1;
            self.next_x = 0;
            self.next_y = if top < self.size as u64 { top as u32 } else { self.size };
            self.row_height = 0;
        }
        if self.next_y as u64 + h as u64 >= self.size as u64 || self.next_x as u64 + w as u64
            >= self.size as u64 {
            None
        } else {
            let x = self.next_x;
            let y = self.next_y;
            self.next_x = x + w + 1;
            if self.row_height < h {
                self.row_height = h;
            }
            Some((x, y))
        }
    }
}

/// Index of the first byte of pixel `(x + c, y + r)` in an RGBA atlas
/// `size` pixels wide, rows one after another.
pub open spec fn pixel_at(size: int, x: int, y: int, c: int, r: int) -> int {
    ((y + r) * size + x + c) * 4
}

/// Index of byte `k` of that pixel.
pub open spec fn byte_at(size: int, x: int, y: int, c: int, r: int, k: int) -> int {
    pixel_at(size, x, y, c, r) + k
}

/// Whether byte `i` lies outside rows `0..rows` of a window `w` pixels wide
/// at `(x, y)`.
pub open spec fn outside_rows(size: int, x: int, y: int, w: int, rows: int, i: int) -> bool {
    forall|r: int|
        0 <= r < rows ==> !(#[trigger] pixel_at(size, x, y, 0, r) <= i < pixel_at(size, x, y, w, r))
}

/// Row `r` of the `w` x `h` window at `(x, y)`: its `4 * w` bytes.
pub open spec fn window_row(atlas: Seq<u8>, size: int, x: int, y: int, w: int, r: int) -> Seq<u8> {
    atlas.subrange(pixel_at(size, x, y, 0, r), pixel_at(size, x, y, w, r))
}

/// The bytes of the `w` x `h` window at `(x, y)`, row after row.
pub open spec fn window(atlas: Seq<u8>, size: int, x: int, y: int, w: int, h: int) -> Seq<u8> {
    Seq::new(h as nat, |r: int| window_row(atlas, size, x, y, w, r)).flatten()
}

/// Different pixels of a window that fits across the atlas use different
/// bytes, and each row of it ends before the next begins.
proof fn lemma_pixels_apart(size: int, x: int, y: int, w: int, c1: int, r1: int, c2: int, r2: int)
    requires
        0 <= x,
        0 <= y,
        x + w <= size,
        0 <= c1 <= w,
        0 <= c2 <= w,
        0 <= r1,
        0 <= r2,
        r1 < r2 || (r1 == r2 && c1 < c2),
    ensures
        c1 < w ==> pixel_at(size, x, y, c1, r1) + 4 <= pixel_at(size, x, y, c2, r2),
        r1 < r2 ==> pixel_at(size, x, y, c1, r1) <= pixel_at(size, x, y, 0, r2),
{
    if r1 < r2 {
        assert((y + r2) * size >= (y + r1) * size + size) by (nonlinear_arith)
            requires
                r1 < r2,
                size >= 0,
        ;
    }
}

/// Copies a `w` x `h` coverage bitmap (row after row) into an RGBA atlas
/// `size` pixels wide with its top-left corner at `(x, y)`: each pixel
/// becomes white with its coverage as alpha. A pixel is skipped when the
/// bitmap is too short for it or it lies past the atlas's end. Bytes outside
/// the window's rows do not change.
pub fn blit_coverage(atlas: &mut Vec<u8>, size: u32, x: u32, y: u32, w: u32, h: u32, bitmap: &[u8])
    requires
        x + w <= size,
    ensures
        final(atlas)@.len() == old(atlas)@.len(),
        forall|c: int, r: int, k: int|
            0 <= c < w && 0 <= r < h && 0 <= k < 4 ==> {
                let i = #[trigger] byte_at(size as int, x as int, y as int, c, r, k);
                if r * w + c < bitmap@.len() && i - k + 3 < old(atlas)@.len() {
                    final(atlas)@[i] == if k == 3 {
                        bitmap@[r * w + c]
                    } else {
                        255u8
                    }
                } else {
                    i < old(atlas)@.len() ==> final(atlas)@[i] == old(atlas)@[i]
                }
            },
        forall|i: int|
            0 <= i < old(atlas)@.len() && outside_rows(size as int, x as int, y as int, w as int, h as int, i)
                ==> final(atlas)@[i] == old(atlas)@[i],
{
    let ghost orig = atlas@;
    let n = atlas.len();
    let mut r: u32 = 0;
    while r < h
        invariant
            r <= h,
            x + w <= size,
            n == orig.len(),
            atlas@.len() == orig.len(),
            forall|c: int, r2: int, k: int|
                0 <= c < w && 0 <= r2 < r && 0 <= k < 4 ==> {
                    let i = #[trigger] byte_at(size as int, x as int, y as int, c, r2, k);
                    if r2 * w + c < bitmap@.len() && i - k + 3 < orig.len() {
                        atlas@[i] == if k == 3 {
                            bitmap@[r2 * w + c]
                        } else {
                            255u8
                        }
                    } else {
                        i < orig.len() ==> atlas@[i] == orig[i]
                    }
                },
            forall|i: int|
                0 <= i < orig.len() && outside_rows(size as int, x as int, y as int, w as int, r as int, i)
                    ==> atlas@[i] == orig[i],
        decreases h - r,
    {
        let mut c: u32 = 0;
        while c < w
            invariant
                r < h,
                c <= w,
                x + w <= size,
                n == orig.len(),
                atlas@.len() == orig.len(),
                forall|c2: int, r2: int, k: int|
                    0 <= c2 < w && 0 <= r2 < h && (r2 < r || (r2 == r && c2 < c)) && 0 <= k < 4 ==> {
                        let i = #[trigger] byte_at(size as int, x as int, y as int, c2, r2, k);
                        if r2 * w + c2 < bitmap@.len() && i - k + 3 < orig.len() {
                            atlas@[i] == if k == 3 {
                                bitmap@[r2 * w + c2]
                            } else {
                                255u8
                            }
                        } else {
                            i < orig.len() ==> atlas@[i] == orig[i]
                        }
                    },
                forall|i: int|
                    0 <= i < orig.len() && outside_rows(size as int, x as int, y as int, w as int, r as int, i)
                        && !(pixel_at(size as int, x as int, y as int, 0, r as int) <= i < pixel_at(
                        size as int,
                        x as int,
                        y as int,
                        c as int,
                        r as int,
                    )) ==> atlas@[i] == orig[i],
            decreases w - c,
        {
            let ghost before = atlas@;
            proof {
                let ri = r as int;
                let wi = w as int;
                let ti = y as int + r as int;
                let si = size as int;
                assert(ri * wi <= 0xffff_ffff * 0xffff_ffff) by (nonlinear_arith)
                    requires
                        0 <= ri <= 0xffff_ffff,
                        0 <= wi <= 0xffff_ffff,
                ;
                assert(ti * si <= 0x1_ffff_fffe * 0xffff_ffff) by (nonlinear_arith)
                    requires
                        0 <= ti <= 0x1_ffff_fffe,
                        0 <= si <= 0xffff_ffff,
                ;
            }
            let src = r as u128 * w as u128 + c as u128;
            let dst = ((y as u128 + r as u128) * size as u128 + x as u128 + c as u128) * 4;
            assert(src == r * w + c);
            assert(dst == pixel_at(size as int, x as int, y as int, c as int, r as int));
            if src < bitmap.len() as u128 && dst + 3 < n as u128 {
                let d = dst as usize;
                atlas.set(d, 255);
                atlas.set(d + 1, 255);
                atlas.set(d + 2, 255);
                atlas.set(d + 3, bitmap[src as usize]);
            }
            proof {
                assert forall|c2: int, r2: int|
                    0 <= c2 < w && 0 <= r2 < h && (r2 < r || (r2 == r && c2 < c)) implies pixel_at(
                    size as int,
                    x as int,
                    y as int,
                    c2,
                    r2,
                ) + 4 <= dst by {
                    lemma_pixels_apart(size as int, x as int, y as int, w as int, c2, r2, c as int, r as int);
                }
                assert forall|k: int| 0 <= k < 4 && dst + k < orig.len() implies #[trigger] before[dst + k] == orig[dst + k] by {
                    assert forall|r2: int| 0 <= r2 < r implies !(#[trigger] pixel_at(
                        size as int,
                        x as int,
                        y as int,
                        0,
                        r2,
                    ) <= dst + k < pixel_at(size as int, x as int, y as int, w as int, r2)) by {
                        lemma_pixels_apart(size as int, x as int, y as int, w as int, w as int, r2, 0, r as int);
                    }
                }
            }
            c = c + 1;
        }
        proof {
            assert forall|i: int|
                0 <= i < orig.len() && outside_rows(size as int, x as int, y as int, w as int, r + 1, i) implies atlas@[i]
                == orig[i] by {
                assert(!(pixel_at(size as int, x as int, y as int, 0, r as int) <= i < pixel_at(
                    size as int,
                    x as int,
                    y as int,
                    w as int,
                    r as int,
                )));
            }
        }
        r = r + 1;
    }
}

/// The bytes of the `w` x `h` window at `(x, y)` of an RGBA atlas `size`
/// pixels wide, row after row.
pub fn extract_region(atlas: &Vec<u8>, size: u32, x: u32, y: u32, w: u32, h: u32) -> (data: Vec<u8>)
    requires
        x + w <= size,
        h == 0 || pixel_at(size as int, x as int, y as int, w as int, h - 1) <= atlas@.len(),
    ensures
        data@ == window(atlas@, size as int, x as int, y as int, w as int, h as int),
{
    let ghost rows = |r: int| window_row(atlas@, size as int, x as int, y as int, w as int, r);
    let mut data: Vec<u8> = Vec::new();
    let mut r: u32 = 0;
    while r < h
        invariant
            r <= h,
            x + w <= size,
            h == 0 || pixel_at(size as int, x as int, y as int, w as int, h - 1) <= atlas@.len(),
            rows == (|r: int| window_row(atlas@, size as int, x as int, y as int, w as int, r)),
            data@ == Seq::new(r as nat, rows).flatten(),
        decreases h - r,
    {
        proof {
            let ti = y as int + r as int;
            let si = size as int;
            assert(ti * si <= 0x1_ffff_fffe * 0xffff_ffff) by (nonlinear_arith)
                requires
                    0 <= ti <= 0x1_ffff_fffe,
                    0 <= si <= 0xffff_ffff,
            ;
            if r + 1 < h {
                lemma_pixels_apart(size as int, x as int, y as int, w as int, w as int, r as int, 0, h - 1);
            }
            assert(pixel_at(size as int, x as int, y as int, w as int, r as int) <= atlas@.len());
        }
        let s128 = ((y as u128 + r as u128) * size as u128 + x as u128) * 4;
        let e128 = s128 + w as u128 * 4;
        assert(s128 == pixel_at(size as int, x as int, y as int, 0, r as int));
        assert(e128 == pixel_at(size as int, x as int, y as int, w as int, r as int));
        assert(e128 <= atlas.len());
        let start = s128 as usize;
        let end = e128 as usize;
        let ghost prefix = data@;
        let mut i = start;
        while i < end
            invariant
                start <= i <= end,
                end <= atlas@.len(),
                start == pixel_at(size as int, x as int, y as int, 0, r as int),
                data@ == prefix + atlas@.subrange(start as int, i as int),
            decreases end - i,
        {
            data.push(atlas[i]);
            i = i + 1;
            assert(data@ =~= prefix + atlas@.subrange(start as int, i as int));
        }
        proof {
            assert(end == pixel_at(size as int, x as int, y as int, w as int, r as int));
            assert(data@ == prefix + rows(r as int));
            assert(Seq::new((r + 1) as nat, rows) =~= Seq::new(r as nat, rows).push(rows(r as int)));
            Seq::new(r as nat, rows).lemma_flatten_push(rows(r as int));
        }
        r = r + 1;
    }
    data
}

} // verus!
