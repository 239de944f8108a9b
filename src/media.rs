//! Video metadata as the download tool reports it, the formats offered, and
//! the choices made among them.

use vstd::prelude::*;
use crate::digits::{all_digits, digits_value, decimal, is_digit, digit_char, digit_char_exec, digit_value_exec, push_decimal};
use crate::error::AppError;
use crate::text::{chars_of, concat, has_suffix, ends_with_text, same_text, push_char};

verus! {

/// One format as the tool's metadata document describes it; each field is
/// present when the document holds a value of the right type for it.
pub struct RawFormat {
    pub format_id: Option<String>,
    pub vcodec: Option<String>,
    pub acodec: Option<String>,
    pub ext: Option<String>,
    pub resolution: Option<String>,
    pub width: Option<u64>,
    pub height: Option<u64>,
    pub format_note: Option<String>,
    pub filesize: Option<u64>,
    pub filesize_approx: Option<u64>,
    pub fps: Option<u64>,
}

/// A video as the tool's metadata document describes it; `formats` is
/// present when the document holds a list there.
pub struct RawVideo {
    pub id: Option<String>,
    pub title: Option<String>,
    pub duration: Option<u64>,
    pub thumbnail: Option<String>,
    pub uploader: Option<String>,
    pub formats: Option<Vec<RawFormat>>,
}

/// A format that carries video.
#[derive(Debug)]
pub struct Format {
    pub format_id: String,
    /// `1920x1080`, `1080p` or `unknown`.
    pub resolution: String,
    pub ext: String,
    /// Size in bytes, exact or estimated, when known.
    pub filesize: Option<u64>,
    pub fps: Option<u32>,
    pub vcodec: String,
    pub acodec: String,
}

/// A video and the formats with video that it is offered in.
#[derive(Debug)]
pub struct VideoInfo {
    pub id: String,
    pub title: String,
    /// Length in seconds.
    pub duration: u32,
    pub thumbnail: String,
    pub uploader: String,
    pub formats: Vec<Format>,
}

/// The text of an optional field, or `default`.
pub open spec fn text_or(v: Option<String>, default: Seq<char>) -> Seq<char> {
    match v {
        Some(s) => s@,
        None => default,
    }
}

/// The resolution shown for a format: its `resolution` field unless that is
/// empty or `audio only`; else `WIDTHxHEIGHT`; else a format note ending in
/// `p`; else `unknown`.
pub open spec fn resolution_of(f: RawFormat) -> Seq<char> {
    if f.resolution is Some && f.resolution.unwrap()@ != "audio only"@ && f.resolution.unwrap()@.len()
        > 0 {
        f.resolution.unwrap()@
    } else if f.width is Some && f.height is Some {
        decimal(f.width.unwrap() as nat) + "x"@ + decimal(f.height.unwrap() as nat)
    } else if f.format_note is Some && has_suffix(f.format_note.unwrap()@, "p"@) {
        f.format_note.unwrap()@
    } else {
        "unknown"@
    }
}

/// Whether `out` is the format that `raw` describes.
pub open spec fn format_from(out: Format, raw: RawFormat) -> bool {
    &&& out.format_id@ == text_or(raw.format_id, Seq::empty())
    &&& out.resolution@ == resolution_of(raw)
    &&& out.ext@ == text_or(raw.ext, "mp4"@)
    &&& out.filesize == match raw.filesize {
        Some(s) => Some(s),
        None => raw.filesize_approx,
    }
    &&& out.fps == match raw.fps {
        Some(f) => Some(f as u32),
        None => None,
    }
    &&& out.vcodec@ == text_or(raw.vcodec, "none"@)
    &&& out.acodec@ == text_or(raw.acodec, "none"@)
}

/// Whether a described format carries video: its video codec is given and is
/// not `none`.
pub open spec fn has_video(raw: RawFormat) -> bool {
    text_or(raw.vcodec, "none"@) != "none"@
}

/// The formats with video among `raws`, in order.
pub open spec fn video_formats(raws: Seq<RawFormat>) -> Seq<RawFormat> {
    raws.filter(|r: RawFormat| has_video(r))
}

/// The value of a decimal number as `str::parse::<u64>` reads it: an optional
/// `+`, then one or more digits, with a value that fits in 64 bits.
pub open spec fn parse_u64(s: Seq<char>) -> Option<nat> {
    let body = number_body(s);
    if body.len() > 0 && all_digits(body) && digits_value(body) <= u64::MAX {
        Some(digits_value(body))
    } else {
        None
    }
}

/// A number without its leading `+`, if it has one.
pub open spec fn number_body(s: Seq<char>) -> Seq<char> {
    if s.len() > 0 && s[0] == '+' {
        s.skip(1)
    } else {
        s
    }
}

/// The parsed number, or zero.
pub open spec fn number_or_zero(s: Seq<char>) -> nat {
    match parse_u64(s) {
        Some(n) => n,
        None => 0,
    }
}

/// `n`, capped at the largest 64-bit value.
pub open spec fn capped(n: nat) -> nat {
    if n > u64::MAX {
        u64::MAX as nat
    } else {
        n
    }
}

/// The position of the first `c` in `s`, if any.
pub open spec fn first_index_of(s: Seq<char>, c: char, from: int) -> Option<int>
    decreases s.len() - from,
{
    if from < 0 || from >= s.len() {
        None
    } else if s[from] == c {
        Some(from)
    } else {
        first_index_of(s, c, from + 1)
    }
}

/// The number of pixels of a resolution: `W * H` for `WxH` (a side that is
/// not a number counts as zero), `(H * 16 / 9) * H` for `Hp`, and zero for
/// anything else; capped at the largest 64-bit value.
pub open spec fn pixel_count(r: Seq<char>) -> nat {
    match first_index_of(r, 'x', 0) {
        Some(i) => capped(number_or_zero(r.take(i)) * number_or_zero(r.skip(i + 1))),
        None => if has_suffix(r, "p"@) {
            match parse_u64(r.drop_last()) {
                Some(h) => capped((h * 16 / 9) * h),
                None => 0,
            }
        } else {
            0
        },
    }
}

/// The pixels of a 1920x1080 picture.
pub const FULL_HD_PIXELS: u64 = 2073600;

/// How far a pixel count is from full HD.
pub open spec fn distance_to_full_hd(p: nat) -> nat {
    if p >= FULL_HD_PIXELS {
        (p - FULL_HD_PIXELS) as nat
    } else {
        (FULL_HD_PIXELS - p) as nat
    }
}

/// Whether format `i` of `fs` is the default choice: the first of the formats
/// with a known pixel count that is closest to full HD.
pub open spec fn is_default_choice(fs: Seq<Format>, i: int) -> bool {
    &&& 0 <= i < fs.len()
    &&& pixel_count(fs[i].resolution@) > 0
    &&& forall|j: int|
        0 <= j < fs.len() && pixel_count(fs[j].resolution@) > 0 ==> distance_to_full_hd(
            pixel_count(fs[i].resolution@),
        ) <= distance_to_full_hd(pixel_count(#[trigger] fs[j].resolution@))
    &&& forall|j: int|
        0 <= j < i && pixel_count(fs[j].resolution@) > 0 ==> distance_to_full_hd(
            pixel_count(fs[i].resolution@),
        ) < distance_to_full_hd(pixel_count(#[trigger] fs[j].resolution@))
}

/// Whether `out` holds the formats of `input` sorted by pixel count, largest
/// first, keeping the order of formats with equal counts; `perm` says where
/// each came from.
pub open spec fn is_stable_sort(input: Seq<Format>, out: Seq<Format>, perm: Seq<int>) -> bool {
    &&& out.len() == input.len()
    &&& perm.len() == out.len()
    &&& forall|k: int| 0 <= k < out.len() ==> 0 <= #[trigger] perm[k] < input.len() && out[k]
        == input[perm[k]]
    &&& forall|a: int, b: int| 0 <= a < b < out.len() ==> perm[a] != perm[b]
    &&& forall|a: int, b: int|
        0 <= a < b < out.len() ==> pixel_count(out[a].resolution@) >= pixel_count(
            out[b].resolution@,
        )
    &&& forall|a: int, b: int|
        0 <= a < b < out.len() && pixel_count(out[a].resolution@) == pixel_count(
            out[b].resolution@,
        ) ==> perm[a] < perm[b]
}

/// The value of a decimal number, as `str::parse::<u64>` reads it.
pub fn parse_u64_exec(s: &Vec<char>, from: usize, to: usize) -> (r: Option<u64>)
    requires
        from <= to <= s@.len(),
    ensures
        r matches Some(n) ==> parse_u64(s@.subrange(from as int, to as int)) == Some(n as nat),
        r is None ==> parse_u64(s@.subrange(from as int, to as int)) is None,
{
    let ghost whole = s@.subrange(from as int, to as int);
    let mut start = from;
    if from < to && s[from] == '+' {
        start = from + 1;
        assert(whole.skip(1) =~= s@.subrange(start as int, to as int));
    } else {
        assert(whole =~= s@.subrange(start as int, to as int));
    }
    if start == to {
        return None;
    }
    let mut acc: u64 = 0;
    let mut k: usize = start;
    assert(s@.subrange(start as int, start as int) =~= Seq::<char>::empty());
    while k < to
        invariant
            from <= start <= k <= to <= s@.len(),
            number_body(s@.subrange(from as int, to as int)) == s@.subrange(start as int, to as int),
            all_digits(s@.subrange(start as int, k as int)),
            acc as nat == digits_value(s@.subrange(start as int, k as int)),
        decreases to - k,
    {
        let ghost prev = s@.subrange(start as int, k as int);
        let ghost next = s@.subrange(start as int, k + 1);
        assert(next.drop_last() =~= prev);
        if !('0' <= s[k] && s[k] <= '9') {
            assert(!all_digits(s@.subrange(start as int, to as int))) by {
                assert(s@.subrange(start as int, to as int)[k - start] == s@[k as int]);
            }
            return None;
        }
        let d = digit_value_exec(s[k]);
        assert(digits_value(next) == digits_value(prev) * 10 + d);
        if acc > (u64::MAX - d) / 10 {
            proof {
                let a = acc as int;
                let dd = d as int;
                assert(a * 10 + dd > u64::MAX) by (nonlinear_arith)
                    requires
                        a > (u64::MAX - dd) / 10,
                        0 <= dd < 10,
                ;
                lemma_digits_value_grows(s@.subrange(start as int, to as int), (k + 1 - start) as int);
                assert(s@.subrange(start as int, to as int).take((k + 1 - start) as int) =~= next);
            }
            return None;
        }
        acc = acc * 10 + d;
        k = k + 1;
        assert(all_digits(s@.subrange(start as int, k as int))) by {
            assert forall|i: int| 0 <= i < next.len() implies is_digit(#[trigger] next[i]) by {
                if i < prev.len() {
                    assert(next[i] == prev[i]);
                }
            }
        }
    }
    Some(acc)
}

/// A number's digits never have a smaller value than any of their prefixes.
proof fn lemma_digits_value_grows(d: Seq<char>, k: int)
    requires
        0 <= k <= d.len(),
    ensures
        digits_value(d) >= digits_value(d.take(k)),
    decreases d.len(),
{
    if d.len() > k {
        assert(d.drop_last().take(k) =~= d.take(k));
        lemma_digits_value_grows(d.drop_last(), k);
    } else {
        assert(d.take(k) =~= d);
    }
}

fn first_index_exec(s: &Vec<char>, c: char) -> (r: Option<usize>)
    ensures
        r matches Some(i) ==> i < s@.len() && first_index_of(s@, c, 0) == Some(i as int),
        r is None ==> first_index_of(s@, c, 0) is None,
{
    let mut i: usize = 0;
    while i < s.len()
        invariant
            i <= s@.len(),
            first_index_of(s@, c, 0) == first_index_of(s@, c, i as int),
        decreases s.len() - i,
    {
        if s[i] == c {
            return Some(i);
        }
        i = i + 1;
    }
    None
}

fn cap_product(a: u64, b: u64) -> (r: u64)
    ensures
        r as nat == capped(a as nat * b as nat),
{
    proof {
        let x = a as int;
        let y = b as int;
        assert(x * y <= (u64::MAX as int) * (u64::MAX as int)) by (nonlinear_arith)
            requires
                0 <= x <= u64::MAX,
                0 <= y <= u64::MAX,
        ;
    }
    let p = (a as u128) * (b as u128);
    if p > u64::MAX as u128 {
        u64::MAX
    } else {
        p as u64
    }
}

/// Formats with video, as the tool's metadata describes them.
fn extract_formats(raws: &Vec<RawFormat>) -> (r: Vec<Format>)
    ensures
        r@.len() == video_formats(raws@).len(),
        forall|i: int| 0 <= i < r@.len() ==> format_from(#[trigger] r@[i], video_formats(raws@)[i]),
{
    let mut out: Vec<Format> = Vec::new();
    let mut i: usize = 0;
    while i < raws.len()
        invariant
            i <= raws@.len(),
            out@.len() == video_formats(raws@.take(i as int)).len(),
            forall|k: int|
                0 <= k < out@.len() ==> format_from(#[trigger] out@[k], video_formats(raws@.take(i as int))[k]),
        decreases raws.len() - i,
    {
        let ghost before = raws@.take(i as int);
        assert(raws@.take(i + 1) =~= before.push(raws@[i as int]));
        let raw = &raws[i];
        let vcodec = match &raw.vcodec {
            Some(v) => v.clone(),
            None => "none".to_owned(),
        };
        let keep = !same_text(vcodec.as_str(), "none");
        if keep {
            let f = Format {
                format_id: match &raw.format_id {
                    Some(v) => v.clone(),
                    None => String::new(),
                },
                resolution: parse_resolution(raw),
                ext: match &raw.ext {
                    Some(v) => v.clone(),
                    None => "mp4".to_owned(),
                },
                filesize: match raw.filesize {
                    Some(s) => Some(s),
                    None => raw.filesize_approx,
                },
                fps: match raw.fps {
                    Some(f) => Some(f as u32),
                    None => None,
                },
                vcodec,
                acodec: match &raw.acodec {
                    Some(v) => v.clone(),
                    None => "none".to_owned(),
                },
            };
            out.push(f);
        }
        proof {
            before.lemma_filter_push(raws@[i as int], |r: RawFormat| has_video(r));
        }
        i = i + 1;
    }
    assert(raws@.take(raws@.len() as int) =~= raws@);
    out
}

/// The resolution shown for a described format; see [`resolution_of`].
fn parse_resolution(f: &RawFormat) -> (r: String)
    ensures
        r@ == resolution_of(*f),
{
    match &f.resolution {
        Some(res) => {
            if !same_text(res.as_str(), "audio only") && !res.as_str().is_empty() {
                return res.clone();
            }
        },
        None => {},
    }
    match (f.width, f.height) {
        (Some(w), Some(h)) => {
            let mut s = String::new();
            push_decimal(&mut s, w);
            s.append("x");
            push_decimal(&mut s, h);
            return s;
        },
        _ => {},
    }
    match &f.format_note {
        Some(note) => {
            if ends_with_text(note.as_str(), "p") {
                return note.clone();
            }
        },
        None => {},
    }
    "unknown".to_owned()
}

/// The number of pixels of a resolution; see [`pixel_count`].
fn extract_pixel_count(resolution: &str) -> (r: u64)
    ensures
        r as nat == pixel_count(resolution@),
{
    let s = chars_of(resolution);
    match first_index_exec(&s, 'x') {
        Some(i) => {
            let w = match parse_u64_exec(&s, 0, i) {
                Some(n) => n,
                None => 0,
            };
            let h = match parse_u64_exec(&s, i + 1, s.len()) {
                Some(n) => n,
                None => 0,
            };
            assert(s@.subrange(0, i as int) =~= s@.take(i as int));
            assert(s@.subrange(i + 1, s@.len() as int) =~= s@.skip(i + 1));
            cap_product(w, h)
        },
        None => {
            if s.len() > 0 && s[s.len() - 1] == 'p' {
                proof {
                    reveal_strlit("p");
                    assert(s@.subrange(s@.len() - 1, s@.len() as int) =~= "p"@);
                    assert(s@.subrange(0, s@.len() - 1) =~= s@.drop_last());
                }
                match parse_u64_exec(&s, 0, s.len() - 1) {
                    Some(h) => {
                        if h >= 4294967296 {
                            proof {
                                let hh = h as nat;
                                assert((hh * 16 / 9) * hh > u64::MAX) by (nonlinear_arith)
                                    requires
                                        hh >= 4294967296,
                                ;
                            }
                            u64::MAX
                        } else {
                            let width = (h * 16) / 9;
                            cap_product(width, h)
                        }
                    },
                    None => 0,
                }
            } else {
                proof {
                    reveal_strlit("p");
                    if has_suffix(s@, "p"@) {
                        assert(s@.subrange(s@.len() - 1, s@.len() as int)[0] == s@[s@.len() - 1]);
                    }
                }
                0
            }
        },
    }
}

/// Inserting `x`, the format at position `i` of the input, at position `p` of
/// a stably sorted arrangement of the first `i` formats keeps it one, of the
/// first `i + 1`, provided that `p` is after every larger or equal count and
/// before every smaller one.
proof fn lemma_insert_sorted(input: Seq<Format>, out: Seq<Format>, perm: Seq<int>, i: int, p: int)
    requires
        0 <= i < input.len(),
        is_stable_sort(input.take(i), out, perm),
        0 <= p <= out.len(),
        forall|q: int|
            0 <= q < p ==> pixel_count(#[trigger] out[q].resolution@) >= pixel_count(
                input[i].resolution@,
            ),
        forall|q: int|
            p <= q < out.len() ==> pixel_count(#[trigger] out[q].resolution@) < pixel_count(
                input[i].resolution@,
            ),
    ensures
        is_stable_sort(input.take(i + 1), out.insert(p, input[i]), perm.insert(p, i)),
{
    let out2 = out.insert(p, input[i]);
    let perm2 = perm.insert(p, i);
    let t = input.take(i + 1);
    assert forall|k: int| 0 <= k < out2.len() implies 0 <= #[trigger] perm2[k] < t.len() && out2[k]
        == t[perm2[k]] by {
        if k < p {
            assert(out2[k] == out[k] && perm2[k] == perm[k]);
            assert(input.take(i)[perm[k]] == t[perm[k]]);
        } else if k > p {
            assert(out2[k] == out[k - 1] && perm2[k] == perm[k - 1]);
            assert(0 <= perm[k - 1] < i);
            assert(input.take(i)[perm[k - 1]] == t[perm[k - 1]]);
        }
    }
    assert forall|a: int, b: int| 0 <= a < b < out2.len() implies perm2[a] != perm2[b] by {
        if a != p && b != p {
            let a1 = if a < p { a } else { a - 1 };
            let b1 = if b < p { b } else { b - 1 };
            assert(perm2[a] == perm[a1] && perm2[b] == perm[b1]);
        } else if a == p {
            assert(perm2[b] == perm[b - 1]);
            assert(0 <= perm[b - 1] < i);
        } else {
            assert(perm2[a] == perm[a]);
            assert(0 <= perm[a] < i);
        }
    }
    assert forall|a: int, b: int| 0 <= a < b < out2.len() implies pixel_count(
        out2[a].resolution@,
    ) >= pixel_count(out2[b].resolution@) by {
        if a != p && b != p {
            let a1 = if a < p { a } else { a - 1 };
            let b1 = if b < p { b } else { b - 1 };
            assert(out2[a] == out[a1] && out2[b] == out[b1]);
        } else if a == p {
            assert(out2[b] == out[b - 1]);
        } else {
            assert(out2[a] == out[a]);
        }
    }
    assert forall|a: int, b: int|
        0 <= a < b < out2.len() && pixel_count(out2[a].resolution@) == pixel_count(
            out2[b].resolution@,
        ) implies perm2[a] < perm2[b] by {
        if a != p && b != p {
            let a1 = if a < p { a } else { a - 1 };
            let b1 = if b < p { b } else { b - 1 };
            assert(out2[a] == out[a1] && out2[b] == out[b1]);
            assert(perm2[a] == perm[a1] && perm2[b] == perm[b1]);
        } else if a == p {
            assert(out2[b] == out[b - 1]);
        } else {
            assert(out2[a] == out[a] && perm2[a] == perm[a]);
            assert(0 <= perm[a] < i);
        }
    }
}

/// The full-HD distance of a pixel count.
fn distance_exec(p: u64) -> (d: u64)
    ensures
        d as nat == distance_to_full_hd(p as nat),
{
    if p >= FULL_HD_PIXELS {
        p - FULL_HD_PIXELS
    } else {
        FULL_HD_PIXELS - p
    }
}

/// The number of bytes in a kibibyte, a mebibyte and a gibibyte.
pub const KIB: u64 = 1024;
pub const MIB: u64 = 1048576;
pub const GIB: u64 = 1073741824;

/// `size / unit` in hundredths, rounded to the nearest, ties to even.
pub open spec fn hundredths(size: nat, unit: nat) -> nat
    recommends
        unit > 0,
{
    let q = size * 100 / unit;
    let r = size * 100 % unit;
    if 2 * r > unit || (2 * r == unit && q % 2 == 1) {
        q + 1
    } else {
        q
    }
}

/// `h` hundredths written with two decimals (`2.00`).
pub open spec fn two_decimals(h: nat) -> Seq<char> {
    decimal(h / 100) + seq!['.', digit_char((h % 100) / 10), digit_char(h % 10)]
}

/// How a file size is shown: in GB, MB or KB with two decimals from a
/// gibibyte, a mebibyte or a kibibyte on, else in bytes; an unknown size
/// reads `未知大小`.
pub open spec fn filesize_text(size: Option<u64>) -> Seq<char> {
    match size {
        None => "未知大小"@,
        Some(s) => if s >= GIB {
            two_decimals(hundredths(s as nat, GIB as nat)) + " GB"@
        } else if s >= MIB {
            two_decimals(hundredths(s as nat, MIB as nat)) + " MB"@
        } else if s >= KIB {
            two_decimals(hundredths(s as nat, KIB as nat)) + " KB"@
        } else {
            decimal(s as nat) + " B"@
        },
    }
}

fn two_decimals_of(size: u64, unit: u64) -> (r: String)
    requires
        unit >= KIB,
    ensures
        r@ == two_decimals(hundredths(size as nat, unit as nat)),
{
    let scaled = (size as u128) * 100;
    let q = scaled / (unit as u128);
    let rem = scaled % (unit as u128);
    let h = if 2 * rem > unit as u128 || (2 * rem == unit as u128 && q % 2 == 1) {
        q + 1
    } else {
        q
    };
    proof {
        let sz = size as int;
        let un = unit as int;
        assert(sz * 100 / un < sz || sz == 0) by (nonlinear_arith)
            requires
                un >= 1024,
                sz >= 0,
        ;
        assert(q as int == sz * 100 / un);
        assert(rem as int == sz * 100 % un);
        assert(h as nat == hundredths(size as nat, unit as nat));
    }
    let h = h as u64;
    let mut out = String::new();
    push_decimal(&mut out, h / 100);
    push_char(&mut out, '.');
    push_char(&mut out, digit_char_exec((h % 100) / 10));
    push_char(&mut out, digit_char_exec(h % 10));
    assert(out@ =~= two_decimals(hundredths(size as nat, unit as nat)));
    out
}

/// What parsing a metadata document gives: the video, or an error that
/// says what is missing.
pub open spec fn video_info_matches(r: Result<VideoInfo, AppError>, raw: RawVideo) -> bool {
    match raw.id {
        None => r matches Err(AppError::ParseError(m)) && m@ == "缺少视频 ID"@,
        Some(id) => match raw.title {
            None => r matches Err(AppError::ParseError(m)) && m@ == "缺少视频标题"@,
            Some(title) => match raw.formats {
                None => r matches Err(AppError::ParseError(m)) && m@ == "缺少格式列表"@,
                Some(fs) => if video_formats(fs@).len() == 0 {
                    r matches Err(AppError::ParseError(m)) && m@ == "没有可用的视频格式"@
                } else {
                    r matches Ok(v) && v.id@ == id@ && v.title@ == title@ && v.duration == (match raw.duration {
                        Some(d) => d as u32,
                        None => 0u32,
                    }) && v.thumbnail@ == text_or(raw.thumbnail, Seq::empty()) && v.uploader@
                        == text_or(raw.uploader, "Unknown"@) && v.formats@.len() == video_formats(
                        fs@,
                    ).len() && forall|i: int|
                        0 <= i < v.formats@.len() ==> format_from(
                            #[trigger] v.formats@[i],
                            video_formats(fs@)[i],
                        )
                },
            },
        },
    }
}

/// The download tool, at one executable path.
pub struct YtdlpService {
    ytdlp_path: String,
}

impl YtdlpService {
    /// The path of the tool's executable.
    pub closed spec fn path(&self) -> Seq<char> {
        self.ytdlp_path@
    }

    /// The tool at `ytdlp_path` (which the caller has found and checked).
    pub fn with_path(ytdlp_path: String) -> (r: YtdlpService)
        ensures
            r.path() == ytdlp_path@,
    {
        YtdlpService { ytdlp_path }
    }

    /// The path of the tool's executable.
    pub fn ytdlp_path(&self) -> (r: &String)
        ensures
            r@ == self.path(),
    {
        &self.ytdlp_path
    }

    /// The video that a metadata document describes, with its formats that
    /// carry video; `decoded` is the document, or why it could not be read.
    pub fn parse_video_info(&self, decoded: Result<RawVideo, String>) -> (r: Result<
        VideoInfo,
        AppError,
    >)
        ensures
            match decoded {
                Err(e) => r matches Err(AppError::ParseError(m)) && m@ == "JSON 解析失败: "@ + e@,
                Ok(raw) => video_info_matches(r, raw),
            },
    {
        let raw = match decoded {
            Err(e) => return Err(AppError::ParseError(concat("JSON 解析失败: ", e.as_str()))),
            Ok(raw) => raw,
        };
        let id = match raw.id {
            Some(v) => v,
            None => return Err(AppError::ParseError("缺少视频 ID".to_owned())),
        };
        let title = match raw.title {
            Some(v) => v,
            None => return Err(AppError::ParseError("缺少视频标题".to_owned())),
        };
        let duration: u32 = match raw.duration {
            Some(d) => d as u32,
            None => 0,
        };
        let thumbnail = match raw.thumbnail {
            Some(v) => v,
            None => String::new(),
        };
        let uploader = match raw.uploader {
            Some(v) => v,
            None => "Unknown".to_owned(),
        };
        let formats = match &raw.formats {
            Some(fs) => self.extract_formats(fs),
            None => return Err(AppError::ParseError("缺少格式列表".to_owned())),
        };
        if formats.len() == 0 {
            return Err(AppError::ParseError("没有可用的视频格式".to_owned()));
        }
        Ok(VideoInfo { id, title, duration, thumbnail, uploader, formats })
    }

    /// Formats with video, as the tool's metadata describes them.
    pub fn extract_formats(&self, raws: &Vec<RawFormat>) -> (r: Vec<Format>)
        ensures
            r@.len() == video_formats(raws@).len(),
            forall|i: int|
                0 <= i < r@.len() ==> format_from(#[trigger] r@[i], video_formats(raws@)[i]),
    {
        extract_formats(raws)
    }

    /// The resolution shown for a described format; see [`resolution_of`].
    pub fn parse_resolution(&self, f: &RawFormat) -> (r: String)
        ensures
            r@ == resolution_of(*f),
    {
        parse_resolution(f)
    }

    /// The number of pixels of a resolution; see [`pixel_count`].
    pub fn extract_pixel_count(&self, resolution: &str) -> (r: u64)
        ensures
            r as nat == pixel_count(resolution@),
    {
        extract_pixel_count(resolution)
    }

    /// The formats sorted by pixel count, largest first; formats with equal
    /// counts keep their order.
    pub fn sort_formats_by_resolution(&self, formats: Vec<Format>) -> (r: Vec<Format>)
        ensures
            exists|perm: Seq<int>| is_stable_sort(formats@, r@, perm),
    {
        let n = formats.len();
        let mut rest = formats;
        let mut out: Vec<Format> = Vec::new();
        let mut keys: Vec<u64> = Vec::new();
        let ghost mut perm: Seq<int> = Seq::empty();
        let mut i: usize = 0;
        assert(formats@.take(0) =~= Seq::<Format>::empty());
        while i < n
            invariant
                n == formats@.len(),
                i <= n,
                rest@ == formats@.skip(i as int),
                keys@.len() == out@.len(),
                forall|k: int|
                    0 <= k < keys@.len() ==> #[trigger] keys@[k] as nat == pixel_count(
                        out@[k].resolution@,
                    ),
                is_stable_sort(formats@.take(i as int), out@, perm),
            decreases n - i,
        {
            let x = rest.remove(0);
            assert(x == formats@[i as int]);
            let kx = self.extract_pixel_count(x.resolution.as_str());
            let mut p: usize = 0;
            while p < out.len() && keys[p] >= kx
                invariant
                    p <= out@.len(),
                    keys@.len() == out@.len(),
                    forall|k: int|
                        0 <= k < keys@.len() ==> #[trigger] keys@[k] as nat == pixel_count(
                            out@[k].resolution@,
                        ),
                    forall|q: int| 0 <= q < p ==> #[trigger] keys@[q] >= kx,
                decreases out.len() - p,
            {
                p = p + 1;
            }
            proof {
                assert forall|q: int| 0 <= q < p implies pixel_count(
                    #[trigger] out@[q].resolution@,
                ) >= pixel_count(formats@[i as int].resolution@) by {
                    assert(keys@[q] >= kx);
                }
                assert forall|q: int| p <= q < out@.len() implies pixel_count(
                    #[trigger] out@[q].resolution@,
                ) < pixel_count(formats@[i as int].resolution@) by {
                    assert(keys@[p as int] < kx);
                    if q > p {
                        assert(pixel_count(out@[p as int].resolution@) >= pixel_count(
                            out@[q].resolution@,
                        ));
                    }
                }
                lemma_insert_sorted(formats@, out@, perm, i as int, p as int);
            }
            let ghost keys_before = keys@;
            out.insert(p, x);
            keys.insert(p, kx);
            proof {
                perm = perm.insert(p as int, i as int);
                assert forall|k: int| 0 <= k < keys@.len() implies #[trigger] keys@[k] as nat
                    == pixel_count(out@[k].resolution@) by {
                    if k < p {
                    } else if k > p {
                        assert(keys@[k] == keys_before[k - 1]);
                    }
                }
            }
            assert(rest@ =~= formats@.skip(i + 1));
            i = i + 1;
        }
        assert(formats@.take(n as int) =~= formats@);
        out
    }

    /// The identifier of the default format: the first of those closest to
    /// full HD among the formats whose pixel count is known; none when no
    /// format has a known count.
    pub fn select_default_resolution(&self, formats: &Vec<Format>) -> (r: Option<String>)
        ensures
            r is None <==> forall|j: int|
                0 <= j < formats@.len() ==> pixel_count(#[trigger] formats@[j].resolution@) == 0,
            r matches Some(id) ==> exists|i: int|
                is_default_choice(formats@, i) && id@ == formats@[i].format_id@,
    {
        let mut best: Option<usize> = None;
        let mut best_d: u64 = 0;
        let mut i: usize = 0;
        while i < formats.len()
            invariant
                i <= formats@.len(),
                best is None ==> forall|j: int|
                    0 <= j < i ==> pixel_count(#[trigger] formats@[j].resolution@) == 0,
                best matches Some(b) ==> {
                    &&& b < i
                    &&& pixel_count(formats@[b as int].resolution@) > 0
                    &&& best_d as nat == distance_to_full_hd(pixel_count(formats@[b as int].resolution@))
                    &&& forall|j: int|
                        0 <= j < i && pixel_count(formats@[j].resolution@) > 0 ==> best_d
                            <= distance_to_full_hd(pixel_count(#[trigger] formats@[j].resolution@))
                    &&& forall|j: int|
                        0 <= j < b && pixel_count(formats@[j].resolution@) > 0 ==> best_d
                            < distance_to_full_hd(pixel_count(#[trigger] formats@[j].resolution@))
                },
            decreases formats.len() - i,
        {
            let p = self.extract_pixel_count(formats[i].resolution.as_str());
            if p > 0 {
                let d = distance_exec(p);
                let better = match best {
                    None => true,
                    Some(_) => d < best_d,
                };
                if better {
                    best = Some(i);
                    best_d = d;
                }
            }
            i = i + 1;
        }
        match best {
            None => None,
            Some(b) => {
                assert(is_default_choice(formats@, b as int));
                Some(formats[b].format_id.clone())
            },
        }
    }

    /// Whether a format has video but no audio, so that an audio stream must
    /// be merged in.
    pub fn needs_audio_merge(&self, format: &Format) -> (r: bool)
        ensures
            r == (format.vcodec@ != "none"@ && format.acodec@ == "none"@),
    {
        !same_text(format.vcodec.as_str(), "none") && same_text(format.acodec.as_str(), "none")
    }

    /// How a file size is shown; see [`filesize_text`].
    pub fn format_filesize(&self, filesize: Option<u64>) -> (r: String)
        ensures
            r@ == filesize_text(filesize),
    {
        match filesize {
            None => "未知大小".to_owned(),
            Some(size) => {
                let (num, unit) = if size >= GIB {
                    (two_decimals_of(size, GIB), " GB")
                } else if size >= MIB {
                    (two_decimals_of(size, MIB), " MB")
                } else if size >= KIB {
                    (two_decimals_of(size, KIB), " KB")
                } else {
                    (crate::digits::decimal_string(size), " B")
                };
                concat(num.as_str(), unit)
            },
        }
    }

    /// The progress record for task `task_id` in one line of the tool's
    /// output; see [`crate::progress::parse_progress`].
    pub fn parse_progress(task_id: &str, line: &str) -> (r: Option<crate::progress::ProgressData>)
        ensures
            r is Some <==> crate::progress::progress_of(task_id@, line@) is Some,
            r matches Some(p) ==> crate::progress::progress_of(task_id@, line@) == Some(p@),
    {
        crate::progress::parse_progress(task_id, line)
    }
}

} // verus!
