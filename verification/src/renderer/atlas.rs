use vstd::prelude::*;
use crate::util::text::{owned, str_eq};

verus! {

/// Lexicographic order of character sequences by code point, which is the
/// order of `String`s.
pub open spec fn seq_lt(a: Seq<char>, b: Seq<char>) -> bool
    decreases a.len(),
{
    if a.len() == 0 {
        b.len() > 0
    } else if b.len() == 0 {
        false
    } else if a[0] != b[0] {
        a[0] < b[0]
    } else {
        seq_lt(a.drop_first(), b.drop_first())
    }
}

proof fn lemma_lt_irreflexive(a: Seq<char>)
    ensures
        !seq_lt(a, a),
    decreases a.len(),
{
    if a.len() > 0 {
        lemma_lt_irreflexive(a.drop_first());
    }
}

proof fn lemma_lt_total(a: Seq<char>, b: Seq<char>)
    ensures
        a == b || seq_lt(a, b) || seq_lt(b, a),
        !(seq_lt(a, b) && seq_lt(b, a)),
    decreases a.len(),
{
    if a.len() > 0 && b.len() > 0 {
        if a[0] == b[0] {
            lemma_lt_total(a.drop_first(), b.drop_first());
            if a.drop_first() == b.drop_first() {
                assert(a =~= seq![a[0]] + a.drop_first());
                assert(b =~= seq![b[0]] + b.drop_first());
            }
        }
    } else if a.len() == 0 && b.len() == 0 {
        assert(a =~= b);
    }
}

proof fn lemma_lt_transitive(a: Seq<char>, b: Seq<char>, c: Seq<char>)
    requires
        seq_lt(a, b),
        seq_lt(b, c),
    ensures
        seq_lt(a, c),
    decreases a.len(),
{
    if a.len() > 0 && b.len() > 0 && c.len() > 0 {
        if a[0] == b[0] && b[0] == c[0] {
            lemma_lt_transitive(a.drop_first(), b.drop_first(), c.drop_first());
        }
    }
}

/// Whether `a` comes strictly before `b` (see `seq_lt`).
pub fn str_lt(a: &str, b: &str) -> (r: bool)
    ensures
        r == seq_lt(a@, b@),
{
    let n = a.unicode_len();
    let m = b.unicode_len();
    assert(a@.subrange(0, n as int) =~= a@);
    assert(b@.subrange(0, m as int) =~= b@);
    let mut i: usize = 0;
    while i < n && i < m
        invariant
            n == a@.len(),
            m == b@.len(),
            i <= n && i <= m,
            seq_lt(a@, b@) == seq_lt(a@.subrange(i as int, n as int), b@.subrange(i as int, m as int)),
        decreases n - i,
    {
        let ca = a.get_char(i);
        let cb = b.get_char(i);
        let ghost ra = a@.subrange(i as int, n as int);
        let ghost rb = b@.subrange(i as int, m as int);
        assert(ra[0] == ca && rb[0] == cb);
        if ca != cb {
            return ca < cb;
        }
        assert(ra.drop_first() =~= a@.subrange(i as int + 1, n as int));
        assert(rb.drop_first() =~= b@.subrange(i as int + 1, m as int));
        i = i + 1;
    }
    proof {
        assert(a@.subrange(0, n as int) =~= a@);
    }
    i == n && i < m
}

/// A list of strings as plain values.
pub open spec fn names_view(v: Seq<String>) -> Seq<Seq<char>> {
    v.map_values(|s: String| s@)
}

/// Whether a list is strictly increasing.
pub open spec fn strictly_sorted(s: Seq<Seq<char>>) -> bool {
    forall|i: int, j: int| 0 <= i < j < s.len() ==> seq_lt(#[trigger] s[i], #[trigger] s[j])
}

/// The texture names of the atlas, each once, in increasing order; an
/// error when there is none.
pub fn atlas_texture_order(names: &Vec<String>) -> (r: Result<Vec<String>, String>)
    ensures
        match r {
            Ok(v) => {
                &&& strictly_sorted(names_view(v@))
                &&& forall|x: Seq<char>| #[trigger] names_view(v@).contains(x)
                    <==> names_view(names@).contains(x)
                &&& v.len() > 0
            },
            Err(e) => names.len() == 0 && e@ == "No textures to load"@,
        },
{
    let ghost src = names_view(names@);
    let mut out: Vec<String> = Vec::new();
    let mut k: usize = 0;
    while k < names.len()
        invariant
            k <= names.len(),
            src == names_view(names@),
            strictly_sorted(names_view(out@)),
            forall|x: Seq<char>| #[trigger] names_view(out@).contains(x) <==> src.take(k as int).contains(x),
        decreases names.len() - k,
    {
        let ghost before = names_view(out@);
        let name = &names[k];
        assert(src[k as int] == name@);
        let mut i: usize = 0;
        while i < out.len() && str_lt(out[i].as_str(), name.as_str())
            invariant
                i <= out.len(),
                before == names_view(out@),
                forall|j: int| 0 <= j < i ==> seq_lt(#[trigger] before[j], name@),
            decreases out.len() - i,
        {
            i = i + 1;
        }
        let present = i < out.len() && str_eq(out[i].as_str(), name.as_str());
        if !present {
            proof {
                assert forall|j: int| i <= j < before.len() implies seq_lt(name@, #[trigger] before[j]) by {
                    lemma_lt_total(before[i as int], name@);
                    if j > i {
                        lemma_lt_transitive(name@, before[i as int], before[j]);
                    }
                }
            }
            out.insert(i, name.clone());
            proof {
                let after = names_view(out@);
                assert(after =~= before.subrange(0, i as int).push(name@) + before.subrange(i as int, before.len() as int));
                assert forall|a: int, b: int| 0 <= a < b < after.len() implies seq_lt(#[trigger] after[a], #[trigger] after[b]) by {
                    if a < i && b == i {
                        assert(after[a] == before[a]);
                    } else if a < i && b > i {
                        assert(after[a] == before[a] && after[b] == before[b - 1]);
                    } else if a == i && b > i {
                        assert(after[b] == before[b - 1]);
                    } else if b < i {
                        assert(after[a] == before[a] && after[b] == before[b]);
                    } else {
                        assert(after[a] == before[a - 1] && after[b] == before[b - 1]);
                    }
                }
                assert forall|x: Seq<char>| #[trigger] after.contains(x) <==> src.take(k as int + 1).contains(x) by {
                    let t = src.take(k as int);
                    let t1 = src.take(k as int + 1);
                    assert(t1 =~= t.push(name@));
                    if after.contains(x) {
                        let p = choose|p: int| 0 <= p < after.len() && after[p] == x;
                        if p == i {
                            assert(t1[k as int] == x);
                        } else {
                            let q = if p < i { p } else { p - 1 };
                            assert(before[q] == x);
                            assert(before.contains(x));
                            assert(names_view(out@) == after);
                            assert(t.contains(x));
                            let r = choose|r: int| 0 <= r < t.len() && t[r] == x;
                            assert(t1[r] == x);
                        }
                    }
                    if t1.contains(x) {
                        let r = choose|r: int| 0 <= r < t1.len() && t1[r] == x;
                        if r == k {
                            assert(after[i as int] == x);
                        } else {
                            assert(t[r] == x);
                            assert(t.contains(x));
                            assert(before.contains(x));
                            let p = choose|p: int| 0 <= p < before.len() && before[p] == x;
                            if p < i {
                                assert(after[p] == x);
                            } else {
                                assert(after[p + 1] == x);
                            }
                        }
                    }
                }
            }
        } else {
            proof {
                assert(src.take(k as int + 1) =~= src.take(k as int).push(name@));
                assert(before[i as int] == name@);
                assert forall|x: Seq<char>| #[trigger] before.contains(x) <==> src.take(k as int + 1).contains(x) by {
                    if x == name@ {
                        assert(before.contains(x));
                    }
                }
            }
        }
        k = k + 1;
    }
    proof {
        assert(src.take(names.len() as int) =~= src);
    }
    if out.len() == 0 {
        proof {
            if names.len() > 0 {
                assert(src.take(names.len() as int).contains(src[0]));
                assert(names_view(out@).contains(src[0]));
            }
        }
        return Err(owned("No textures to load"));
    }
    Ok(out)
}

/// Where the texture at `index` goes in an atlas laid out as a square grid
/// of `grid_size` cells a side, each `texture_size` pixels: row by row.
pub fn atlas_cell_origin(index: u32, grid_size: u32, texture_size: u32) -> (p: (u32, u32))
    requires
        grid_size > 0,
        (grid_size as int) * (texture_size as int) <= u32::MAX,
        index / grid_size < grid_size,
    ensures
        p.0 == (index % grid_size) * texture_size,
        p.1 == (index / grid_size) * texture_size,
{
    let col = index % grid_size;
    let row = index / grid_size;
    proof {
        assert(col * texture_size <= grid_size * texture_size) by (nonlinear_arith)
            requires
                col < grid_size,
        ;
        assert(row * texture_size <= grid_size * texture_size) by (nonlinear_arith)
            requires
                row < grid_size,
        ;
    }
    (col * texture_size, row * texture_size)
}

/// The side, in cells, of the smallest square grid with room for `count`
/// textures.
pub open spec fn is_grid_size(count: int, g: int) -> bool {
    g * g >= count && (g == 0 || (g - 1) * (g - 1) < count)
}

/// The side of the smallest square grid with room for `count` textures: the
/// ceiling of the square root of `count`.
pub fn atlas_grid_size(count: u32) -> (g: u32)
    ensures
        is_grid_size(count as int, g as int),
        g <= 65536,
{
    let mut g: u64 = 0;
    while g * g < count as u64
        invariant
            g <= 65536,
            g * g <= 4294967296,
            g == 0 || (g - 1) * (g - 1) < count,
        decreases 65536 - g,
    {
        proof {
            assert(g < 65536) by (nonlinear_arith)
                requires
                    g * g < count,
                    count <= 4294967295,
            ;
            assert((g + 1) * (g + 1) <= 4294967296) by (nonlinear_arith)
                requires
                    g < 65536,
            ;
        }
        g = g + 1;
    }
    g as u32
}

/// The RGBA bytes of the texture used for a missing file: `size` by `size`
/// magenta pixels.
pub fn missing_texture(size: u32) -> (px: Vec<u8>)
    requires
        (size as int) * (size as int) * 4 <= usize::MAX,
    ensures
        px.len() == size * size * 4,
        forall|k: int| 0 <= k < px.len() ==> #[trigger] px@[k] == if k % 4 == 1 { 0u8 } else { 255u8 },
{
    let n: usize = (size as usize) * (size as usize) * 4;
    let mut px: Vec<u8> = Vec::new();
    let mut k: usize = 0;
    while k < n
        invariant
            k <= n,
            px.len() == k,
            forall|j: int| 0 <= j < k ==> #[trigger] px@[j] == if j % 4 == 1 { 0u8 } else { 255u8 },
        decreases n - k,
    {
        px.push(if k % 4 == 1 { 0u8 } else { 255u8 });
        k = k + 1;
    }
    px
}

/// Channel `ch` of the atlas pixel at column `x`, row `y`: the atlas is a
/// `g` by `g` grid of `t` by `t` RGBA textures laid out row by row; the
/// cells past the last texture are zero.
pub open spec fn atlas_pixel(images: Seq<Seq<u8>>, g: int, t: int, x: int, y: int, ch: int) -> u8 {
    let i = (y / t) * g + x / t;
    if i < images.len() {
        images[i][((y % t) * t + x % t) * 4 + ch]
    } else {
        0u8
    }
}

/// The bytes of the RGBA textures.
pub open spec fn pixels_view(images: Seq<Vec<u8>>) -> Seq<Seq<u8>> {
    images.map_values(|v: Vec<u8>| v@)
}

proof fn lemma_decode_byte(k: int, a: int, x: int, y: int, ch: int)
    requires
        a > 0,
        0 <= x < a,
        0 <= y,
        0 <= ch < 4,
        k == (y * a + x) * 4 + ch,
    ensures
        k % 4 == ch,
        (k / 4) % a == x,
        (k / 4) / a == y,
{
    vstd::arithmetic::div_mod::lemma_fundamental_div_mod_converse(k, 4, y * a + x, ch);
    vstd::arithmetic::div_mod::lemma_fundamental_div_mod_converse(y * a + x, a, y, x);
}

/// Channel `ch` of pixel `(x, y)` of the atlas is byte `(y * a + x) * 4 + ch`
/// of its bytes, where `a = g * t` is the atlas side.
pub open spec fn atlas_byte(images: Seq<Seq<u8>>, g: int, t: int, k: int) -> u8 {
    let a = g * t;
    atlas_pixel(images, g, t, (k / 4) % a, (k / 4) / a, k % 4)
}

proof fn lemma_cell_in_grid(x: int, y: int, g: int, t: int)
    requires
        t > 0,
        g > 0,
        0 <= x < g * t,
        0 <= y < g * t,
    ensures
        0 <= (y / t) * g + x / t < g * g,
        0 <= ((y % t) * t + x % t) * 4 + 3 < t * t * 4,
{
    assert(x / t < g) by (nonlinear_arith)
        requires
            0 <= x < g * t,
            t > 0,
    ;
    assert(y / t < g) by (nonlinear_arith)
        requires
            0 <= y < g * t,
            t > 0,
    ;
    assert(0 <= x / t && 0 <= y / t) by (nonlinear_arith)
        requires
            0 <= x,
            0 <= y,
            t > 0,
    ;
    assert((y / t) * g + x / t < g * g) by (nonlinear_arith)
        requires
            0 <= y / t < g,
            0 <= x / t < g,
    ;
    assert(0 <= (y / t) * g) by (nonlinear_arith)
        requires
            0 <= y / t,
            g > 0,
    ;
    assert(((y % t) * t + x % t) * 4 + 3 < t * t * 4) by (nonlinear_arith)
        requires
            0 <= y % t < t,
            0 <= x % t < t,
    ;
    assert(0 <= (y % t) * t) by (nonlinear_arith)
        requires
            0 <= y % t,
            t > 0,
    ;
}

/// Lays `images` (each `t` by `t` RGBA pixels, at most `g * g` of them) out
/// in a `g` by `g` grid, row by row, as the bytes of one square RGBA image of
/// side `g * t`; the cells past the last texture stay zero.
pub fn compose_atlas(images: &Vec<Vec<u8>>, g: u32, t: u32) -> (atlas: Vec<u8>)
    requires
        t > 0,
        images.len() <= (g as int) * (g as int),
        ((g as int) * (t as int)) * ((g as int) * (t as int)) * 4 <= usize::MAX,
        forall|i: int| 0 <= i < images.len() ==> (#[trigger] images@[i]).len() == (t as int) * (t as int) * 4,
    ensures
        atlas.len() == ((g as int) * (t as int)) * ((g as int) * (t as int)) * 4,
        forall|x: int, y: int, ch: int| 0 <= x < g * t && 0 <= y < g * t && 0 <= ch < 4 ==>
            #[trigger] atlas@[(y * (g * t) + x) * 4 + ch] == atlas_pixel(pixels_view(images@), g as int, t as int, x, y, ch),
{
    let ghost imgs = pixels_view(images@);
    let ghost gi = g as int;
    let ghost ti = t as int;
    proof {
        assert(gi * ti <= usize::MAX) by (nonlinear_arith)
            requires
                (gi * ti) * (gi * ti) * 4 <= usize::MAX,
                gi >= 0,
                ti > 0,
        ;
    }
    let a: usize = (g as usize) * (t as usize);
    let ghost ai = a as int;
    let mut atlas: Vec<u8> = Vec::new();
    let mut y: usize = 0;
    while y < a
        invariant
            ai == gi * ti,
            a == ai,
            t == ti,
            g == gi,
            ti > 0,
            imgs == pixels_view(images@),
            images.len() <= gi * gi,
            (ai * ai) * 4 <= usize::MAX,
            forall|i: int| 0 <= i < images.len() ==> (#[trigger] images@[i]).len() == ti * ti * 4,
            y <= a,
            atlas.len() == y * a * 4,
            forall|k: int| 0 <= k < atlas.len() ==> #[trigger] atlas@[k] == atlas_byte(imgs, gi, ti, k),
        decreases a - y,
    {
        let mut x: usize = 0;
        while x < a
            invariant
                ai == gi * ti,
                a == ai,
                t == ti,
                g == gi,
                ti > 0,
                imgs == pixels_view(images@),
                images.len() <= gi * gi,
                (ai * ai) * 4 <= usize::MAX,
                (gi * ti) * (gi * ti) * 4 <= usize::MAX,
                forall|i: int| 0 <= i < images.len() ==> (#[trigger] images@[i]).len() == ti * ti * 4,
                y < a,
                x <= a,
                atlas.len() == (y * a + x) * 4,
                forall|k: int| 0 <= k < atlas.len() ==> #[trigger] atlas@[k] == atlas_byte(imgs, gi, ti, k),
            decreases a - x,
        {
            proof {
                assert(gi > 0) by (nonlinear_arith)
                    requires
                        x < gi * ti,
                        ti > 0,
                        gi >= 0,
                ;
                lemma_cell_in_grid(x as int, y as int, gi, ti);
                assert(ti * ti * 4 <= usize::MAX) by (nonlinear_arith)
                    requires
                        (gi * ti) * (gi * ti) * 4 <= usize::MAX,
                        ti >= 1,
                        gi >= 1,
                ;
                assert((y * a + x) * 4 + 4 <= (ai * ai) * 4) by (nonlinear_arith)
                    requires
                        y < ai,
                        x < ai,
                        a == ai,
                ;
                assert(gi * gi <= usize::MAX) by (nonlinear_arith)
                    requires
                        (gi * ti) * (gi * ti) * 4 <= usize::MAX,
                        ti >= 1,
                        gi >= 0,
                ;
            }
            let cell: usize = (y / (t as usize)) * (g as usize) + x / (t as usize);
            let within: usize = ((y % (t as usize)) * (t as usize) + x % (t as usize)) * 4;
            let mut ch: usize = 0;
            while ch < 4
                invariant
                    ai == gi * ti,
                    a == ai,
                    t == ti,
                    g == gi,
                    ti > 0,
                    gi > 0,
                    imgs == pixels_view(images@),
                    forall|i: int| 0 <= i < images.len() ==> (#[trigger] images@[i]).len() == ti * ti * 4,
                    y < a,
                    x < a,
                    cell == (y as int / ti) * gi + x as int / ti,
                    within == ((y as int % ti) * ti + x as int % ti) * 4,
                    within + 3 < ti * ti * 4,
                    ch <= 4,
                    atlas.len() == (y * a + x) * 4 + ch,
                    (y * a + x) * 4 + 4 <= (ai * ai) * 4,
                    (ai * ai) * 4 <= usize::MAX,
                    forall|k: int| 0 <= k < atlas.len() ==> #[trigger] atlas@[k] == atlas_byte(imgs, gi, ti, k),
                decreases 4 - ch,
            {
                let b: u8 = if cell < images.len() {
                    images[cell][within + ch]
                } else {
                    0u8
                };
                proof {
                    let k = (y * a + x) * 4 + ch;
                    lemma_decode_byte(k, ai, x as int, y as int, ch as int);
                    assert(b == atlas_pixel(imgs, gi, ti, x as int, y as int, ch as int));
                }
                atlas.push(b);
                ch = ch + 1;
            }
            x = x + 1;
        }
        proof {
            assert((y * a + a) * 4 == (y + 1) * a * 4) by (nonlinear_arith);
        }
        y = y + 1;
    }
    proof {
        assert(atlas.len() == (ai * ai) * 4) by (nonlinear_arith)
            requires
                atlas.len() == y * a * 4,
                y == a,
                a == ai,
        ;
        assert forall|x: int, y: int, ch: int| 0 <= x < g * t && 0 <= y < g * t && 0 <= ch < 4 implies
            #[trigger] atlas@[(y * (g * t) + x) * 4 + ch] == atlas_pixel(imgs, gi, ti, x, y, ch) by {
            let k = (y * ai + x) * 4 + ch;
            lemma_decode_byte(k, ai, x, y, ch);
            assert(k < (ai * ai) * 4) by (nonlinear_arith)
                requires
                    k == (y * ai + x) * 4 + ch,
                    0 <= x < ai,
                    0 <= y < ai,
                    0 <= ch < 4,
            ;
            assert(0 <= k) by (nonlinear_arith)
                requires
                    k == (y * ai + x) * 4 + ch,
                    0 <= x,
                    0 <= y,
                    ai > 0,
                    0 <= ch,
            ;
        }
    }
    atlas
}

/// The RGBA bytes that `image::imageops::resize` with the nearest-neighbour
/// filter makes of a `width` by `height` RGBA image scaled to `size` by
/// `size`.
pub uninterp spec fn nearest_resized(pixels: Seq<u8>, width: u32, height: u32, size: u32) -> Seq<u8>;

/// Scales an RGBA image (`width` by `height`, row by row) to `size` by `size`
/// with `image::imageops::resize` and `FilterType::Nearest`. Trusted: the
/// result is the named function of the arguments, and it holds `size * size`
/// pixels, as the buffer that `resize` builds does. `resize` first scales
/// the height into a `width` by `size` buffer, whose length must fit in a
/// `usize` (it panics otherwise).
#[verifier::external_body]
fn resize_nearest(pixels: Vec<u8>, width: u32, height: u32, size: u32) -> (r: Vec<u8>)
    requires
        pixels.len() == (width as int) * (height as int) * 4,
        (size as int) * (size as int) * 4 <= usize::MAX,
        (width as int) * (size as int) * 4 <= usize::MAX,
    ensures
        r@ == nearest_resized(pixels@, width, height, size),
        r.len() == (size as int) * (size as int) * 4,
{
    let img = image::RgbaImage::from_raw(width, height, pixels).unwrap();
    image::imageops::resize(&img, size, size, image::imageops::FilterType::Nearest).into_raw()
}

/// Brings a loaded RGBA texture to `size` by `size`: kept as it is when it
/// already has that size, scaled with the nearest-neighbour filter otherwise.
pub fn normalize_texture(pixels: Vec<u8>, width: u32, height: u32, size: u32) -> (r: Vec<u8>)
    requires
        pixels.len() == (width as int) * (height as int) * 4,
        (size as int) * (size as int) * 4 <= usize::MAX,
        (width as int) * (size as int) * 4 <= usize::MAX,
    ensures
        r@ == if width == size && height == size {
            pixels@
        } else {
            nearest_resized(pixels@, width, height, size)
        },
        r.len() == (size as int) * (size as int) * 4,
{
    if width == size && height == size {
        pixels
    } else {
        resize_nearest(pixels, width, height, size)
    }
}

} // verus!
