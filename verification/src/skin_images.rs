//! Skin and cape pictures as RGBA bytes (four per pixel, rows from the
//! top): which arm model a skin has, the front of a cape, and the file
//! name a skin is kept under.
use vstd::prelude::*;
use crate::text::{chars_of, is_suffix, string_of};

verus! {

/// The byte of channel `c` of pixel `(x, y)` in a picture `w` pixels wide.
pub open spec fn px(rgba: Seq<u8>, w: int, x: int, y: int, c: int) -> u8 {
    rgba[(y * w + x) * 4 + c]
}

/// A 64x64 skin uses the slim arm model when the pixel at `(54, 20)`, which
/// only the wide model fills, is transparent; old 64x32 skins and other
/// sizes are wide.
pub open spec fn slim_spec(rgba: Seq<u8>, w: u32, h: u32) -> bool {
    if h == 32 {
        false
    } else if w >= 64 && h >= 64 {
        px(rgba, w as int, 54, 20, 3) == 0
    } else {
        false
    }
}

/// Whether a skin picture uses the slim arm model.
pub fn skin_is_slim(rgba: &Vec<u8>, w: u32, h: u32) -> (b: bool)
    requires
        rgba@.len() == w * h * 4,
    ensures
        b == slim_spec(rgba@, w, h),
{
    if h == 32 {
        false
    } else if w >= 64 && h >= 64 {
        assert((20 * w + 54) * 4 + 3 < w * h * 4) by (nonlinear_arith)
            requires
                w >= 64,
                h >= 64,
        ;
        let n: usize = rgba.len();
        let wu = w as usize;
        assert(20 * wu + 54 < n) by (nonlinear_arith)
            requires
                n == w * h * 4,
                wu == w,
                w >= 64,
                h >= 64,
        ;
        let row: usize = 20 * wu + 54;
        let i: usize = row * 4 + 3;
        rgba[i] == 0
    } else {
        false
    }
}

/// The front of a 64x32 cape, 22x16 pixels: its outer side (10x16 from
/// `(1, 1)`) on the left, a transparent gap of two columns, and its inner
/// side (10x16 from `(12, 1)`) on the right.
pub open spec fn cape_front_byte(src: Seq<u8>, i: int) -> u8 {
    let p = i / 4;
    let c = i % 4;
    let x = p % 22;
    let y = p / 22;
    if x < 10 {
        px(src, 64, 1 + x, 1 + y, c)
    } else if x >= 12 {
        px(src, 64, x, 1 + y, c)
    } else {
        0
    }
}

/// The picture shown for a cape: for a 64x32 cape its 22x16 front, any
/// other picture as it is.
pub open spec fn cape_preview_spec(rgba: Seq<u8>, w: u32, h: u32) -> (Seq<u8>, u32, u32) {
    if w == 64 && h == 32 {
        (Seq::new(22 * 16 * 4, |i: int| cape_front_byte(rgba, i)), 22, 16)
    } else {
        (rgba, w, h)
    }
}

/// The picture shown for a cape, with its width and height.
pub fn cape_preview(rgba: Vec<u8>, w: u32, h: u32) -> (r: (Vec<u8>, u32, u32))
    requires
        rgba@.len() == w * h * 4,
    ensures
        (r.0@, r.1, r.2) == cape_preview_spec(rgba@, w, h),
{
    if !(w == 64 && h == 32) {
        return (rgba, w, h);
    }
    let ghost src = rgba@;
    let mut out: Vec<u8> = Vec::new();
    let mut i: usize = 0;
    while i < 22 * 16 * 4
        invariant
            src == rgba@,
            src.len() == 64 * 32 * 4,
            i <= 22 * 16 * 4,
            out@.len() == i,
            forall|k: int| 0 <= k < i ==> out@[k] == #[trigger] cape_front_byte(src, k),
        decreases 22 * 16 * 4 - i,
    {
        let p = i / 4;
        let c = i % 4;
        let x = p % 22;
        let y = p / 22;
        assert(y < 16 && x < 22 && c < 4);
        let b: u8 = if x < 10 {
            let j = ((1 + y) * 64 + (1 + x)) * 4 + c;
            assert(j < 64 * 32 * 4);
            rgba[j]
        } else if x >= 12 {
            let j = ((1 + y) * 64 + x) * 4 + c;
            assert(j < 64 * 32 * 4);
            rgba[j]
        } else {
            0
        };
        assert(b == cape_front_byte(src, i as int));
        out.push(b);
        i = i + 1;
    }
    assert(out@ =~= Seq::new(22 * 16 * 4, |k: int| cape_front_byte(src, k)));
    (out, 22, 16)
}

/// `s` with every trailing `.png` removed (std's `trim_end_matches`).
pub open spec fn trim_png(s: Seq<char>) -> Seq<char>
    decreases s.len(),
{
    if s.len() >= 4 && is_suffix(".png"@, s) {
        trim_png(s.take(s.len() - 4))
    } else {
        s
    }
}

/// What follows the last `/` of `s` (all of it without one).
pub open spec fn last_segment(s: Seq<char>) -> Seq<char>
    decreases s.len(),
{
    if s.len() == 0 {
        s
    } else if s.last() == '/' {
        Seq::empty()
    } else {
        last_segment(s.drop_last()).push(s.last())
    }
}

/// The name a skin's files are kept under: the last part of its URL,
/// without `.png`.
pub open spec fn skin_stem_spec(url: Seq<char>) -> Seq<char> {
    trim_png(last_segment(url))
}

/// Where the last segment of `c` begins: after its last `/`, or at 0.
fn last_segment_start(c: &Vec<char>) -> (start: usize)
    ensures
        start <= c@.len(),
        last_segment(c@) == c@.skip(start as int),
{
    let mut start: usize = c.len();
    assert(c@.take(start as int) =~= c@);
    assert(c@.skip(start as int) =~= Seq::<char>::empty());
    while start > 0 && c[start - 1] != '/'
        invariant
            start <= c@.len(),
            last_segment(c@) == last_segment(c@.take(start as int)) + c@.skip(start as int),
        decreases start,
    {
        let ghost t = c@.take(start as int);
        assert(t.drop_last() =~= c@.take(start - 1));
        assert(t.last() == c@[start - 1]);
        assert(c@.skip(start - 1) =~= seq![c@[start - 1]] + c@.skip(start as int));
        assert(last_segment(t) + c@.skip(start as int) =~= last_segment(c@.take(start - 1)) + c@.skip(
            start - 1,
        ));
        start = start - 1;
    }
    proof {
        let t = c@.take(start as int);
        if start > 0 {
            assert(t.last() == c@[start - 1]);
        }
        assert(last_segment(t) =~= Seq::<char>::empty());
        assert(last_segment(c@) =~= c@.skip(start as int));
    }
    start
}

/// Where the text from `start` ends once every trailing `.png` is removed.
fn trimmed_png_end(c: &Vec<char>, start: usize) -> (end: usize)
    requires
        start <= c@.len(),
    ensures
        start <= end <= c@.len(),
        trim_png(c@.skip(start as int)) == c@.subrange(start as int, end as int),
{
    let mut end: usize = c.len();
    assert(c@.skip(start as int) =~= c@.subrange(start as int, end as int));
    while end - start >= 4 && c[end - 4] == '.' && c[end - 3] == 'p' && c[end - 2] == 'n' && c[end - 1] == 'g'
        invariant
            start <= end <= c@.len(),
            trim_png(c@.skip(start as int)) == trim_png(c@.subrange(start as int, end as int)),
        decreases end,
    {
        proof {
            reveal_strlit(".png");
        }
        let ghost s = c@.subrange(start as int, end as int);
        assert(is_suffix(".png"@, s)) by {
            assert(s.subrange(s.len() - 4, s.len() as int) =~= ".png"@);
        }
        assert(s.take(s.len() - 4) =~= c@.subrange(start as int, end - 4));
        end = end - 4;
    }
    proof {
        reveal_strlit(".png");
        let s = c@.subrange(start as int, end as int);
        if s.len() >= 4 && is_suffix(".png"@, s) {
            let t = s.subrange(s.len() - 4, s.len() as int);
            assert(t == ".png"@);
            assert(s[s.len() - 4] == t[0]);
            assert(s[s.len() - 3] == t[1]);
            assert(s[s.len() - 2] == t[2]);
            assert(s[s.len() - 1] == t[3]);
        }
    }
    end
}

/// The name a skin's files are kept under (`<name>.png` and
/// `<name>_render.png` in the skins folder).
pub fn skin_file_stem(url: &str) -> (r: String)
    ensures
        r@ == skin_stem_spec(url@),
{
    let c = chars_of(url);
    let start = last_segment_start(&c);
    let end = trimmed_png_end(&c, start);
    let mut out: Vec<char> = Vec::new();
    let mut k: usize = start;
    while k < end
        invariant
            start <= k <= end <= c@.len(),
            out@ == c@.subrange(start as int, k as int),
        decreases end - k,
    {
        out.push(c[k]);
        k = k + 1;
        assert(out@ =~= c@.subrange(start as int, k as int));
    }
    string_of(out.as_slice())
}

} // verus!
