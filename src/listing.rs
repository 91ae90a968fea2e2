//! Reading the audio server's listing of playback streams.
//!
//! Audio counts as active when some line of the listing, once surrounding
//! whitespace is trimmed and ASCII letter case is ignored, reads `corked: no`:
//! the property line of a stream that is not paused.
use vstd::prelude::*;

verus! {

/// Unicode `White_Space`, the set that `str::trim` strips.
pub open spec fn is_space(c: char) -> bool {
    let v = c as u32;
    (9 <= v <= 13) || v == 32 || v == 0x85 || v == 0xA0 || v == 0x1680 || (0x2000 <= v <= 0x200A)
        || v == 0x2028 || v == 0x2029 || v == 0x202F || v == 0x205F || v == 0x3000
}

/// A character's code point after mapping `A`..=`Z` to `a`..=`z`.
pub open spec fn fold_ascii(c: char) -> u32 {
    let v = c as u32;
    if 65 <= v <= 90 {
        (v + 32) as u32
    } else {
        v
    }
}

/// Equality of two texts up to ASCII letter case.
pub open spec fn eq_ignore_ascii_case(x: Seq<char>, y: Seq<char>) -> bool {
    &&& x.len() == y.len()
    &&& forall|k: int| 0 <= k < x.len() ==> fold_ascii(x[k]) == fold_ascii(y[k])
}

/// The property line of a stream that plays, in lower case.
pub open spec fn unpaused_marker() -> Seq<char> {
    seq!['c', 'o', 'r', 'k', 'e', 'd', ':', ' ', 'n', 'o']
}

/// `line.subrange(a, b)` is what trimming the whitespace on both ends of `line` leaves.
pub open spec fn trim_bounds(line: Seq<char>, a: int, b: int) -> bool {
    &&& 0 <= a <= b <= line.len()
    &&& forall|k: int| 0 <= k < a ==> is_space(line[k])
    &&& forall|k: int| b <= k < line.len() ==> is_space(line[k])
    &&& a < b ==> !is_space(line[a]) && !is_space(line[b - 1])
}

/// The trimmed line equals the marker, ignoring ASCII case.
pub open spec fn is_marker_line(line: Seq<char>) -> bool {
    exists|a: int, b: int|
        #[trigger] trim_bounds(line, a, b) && eq_ignore_ascii_case(
            line.subrange(a, b),
            unpaused_marker(),
        )
}

/// `text.subrange(i, j)` is one line of `text`: a maximal run without `'\n'`.
pub open spec fn is_line(text: Seq<char>, i: int, j: int) -> bool {
    &&& 0 <= i <= j <= text.len()
    &&& i == 0 || text[i - 1] == '\n'
    &&& j == text.len() || text[j] == '\n'
    &&& forall|k: int| i <= k < j ==> text[k] != '\n'
}

/// Some line of the listing marks a stream that is not paused.
pub open spec fn reports_unpaused(text: Seq<char>) -> bool {
    exists|i: int, j: int| #[trigger] is_line(text, i, j) && is_marker_line(text.subrange(i, j))
}

/// Trimming is unique: two trims of one line leave the same text.
proof fn lemma_trim_unique(line: Seq<char>, a: int, b: int, a2: int, b2: int)
    requires
        trim_bounds(line, a, b),
        trim_bounds(line, a2, b2),
    ensures
        line.subrange(a, b) == line.subrange(a2, b2),
{
    if a < b {
        if a2 == b2 {
            assert(a < a2 || a >= b2);
            assert(is_space(line[a]));
        }
        assert(a2 <= a) by {
            if a2 > a {
                assert(is_space(line[a]));
            }
        }
        assert(a <= a2) by {
            if a > a2 {
                assert(is_space(line[a2]));
            }
        }
        assert(b2 >= b) by {
            if b2 < b {
                assert(is_space(line[b - 1]));
            }
        }
        assert(b >= b2) by {
            if b < b2 {
                assert(is_space(line[b2 - 1]));
            }
        }
    } else if a2 < b2 {
        assert(a2 < a || a2 >= b);
        assert(is_space(line[a2]));
    }
    assert(line.subrange(a, b) =~= line.subrange(a2, b2));
}

fn is_space_char(c: char) -> (r: bool)
    ensures
        r == is_space(c),
{
    let v = c as u32;
    (9 <= v && v <= 13) || v == 32 || v == 0x85 || v == 0xA0 || v == 0x1680 || (0x2000 <= v && v
        <= 0x200A) || v == 0x2028 || v == 0x2029 || v == 0x202F || v == 0x205F || v == 0x3000
}

fn fold_char(c: char) -> (r: u32)
    ensures
        r == fold_ascii(c),
{
    let v = c as u32;
    if 65 <= v && v <= 90 {
        v + 32
    } else {
        v
    }
}

fn marker_chars() -> (r: Vec<char>)
    ensures
        r@ == unpaused_marker(),
{
    let r = vec!['c', 'o', 'r', 'k', 'e', 'd', ':', ' ', 'n', 'o'];
    assert(r@ =~= unpaused_marker());
    r
}

fn collect_chars(text: &str) -> (r: Vec<char>)
    ensures
        r@ == text@,
{
    let mut out: Vec<char> = Vec::new();
    for c in it: text.chars()
        invariant
            out@ == it.seq().take(it.index() as int),
            it.seq() == text@,
    {
        out.push(c);
    }
    assert(out@ =~= text@);
    out
}

/// Whether `chars[start..end]`, trimmed, is the marker up to ASCII case.
fn span_is_marker(chars: &Vec<char>, start: usize, end: usize, marker: &Vec<char>) -> (r: bool)
    requires
        start <= end <= chars.len(),
        marker@ == unpaused_marker(),
    ensures
        r == is_marker_line(chars@.subrange(start as int, end as int)),
{
    let ghost line = chars@.subrange(start as int, end as int);
    let mut a: usize = start;
    while a < end && is_space_char(chars[a])
        invariant
            start <= a <= end <= chars.len(),
            forall|k: int| start <= k < a ==> is_space(chars@[k]),
        decreases end - a,
    {
        a += 1;
    }
    let mut b: usize = end;
    while b > a && is_space_char(chars[b - 1])
        invariant
            start <= a <= b <= end <= chars.len(),
            forall|k: int| b <= k < end ==> is_space(chars@[k]),
        decreases b - a,
    {
        b -= 1;
    }
    let ghost (ta, tb) = ((a - start) as int, (b - start) as int);
    assert(trim_bounds(line, ta, tb));
    assert(line.subrange(ta, tb) =~= chars@.subrange(a as int, b as int));
    if b - a != marker.len() {
        proof {
            assert forall|a2: int, b2: int| #[trigger]
                trim_bounds(line, a2, b2) implies !eq_ignore_ascii_case(
                line.subrange(a2, b2),
                unpaused_marker(),
            ) by {
                lemma_trim_unique(line, ta, tb, a2, b2);
            }
        }
        return false;
    }
    let mut k: usize = 0;
    while k < marker.len()
        invariant
            0 <= k <= marker.len(),
            b - a == marker.len(),
            start <= a <= b <= end <= chars.len(),
            marker@ == unpaused_marker(),
            line == chars@.subrange(start as int, end as int),
            ta == a - start,
            tb == b - start,
            trim_bounds(line, ta, tb),
            forall|m: int| 0 <= m < k ==> fold_ascii(chars@[a + m]) == fold_ascii(marker@[m]),
        decreases marker.len() - k,
    {
        if fold_char(chars[a + k]) != fold_char(marker[k]) {
            proof {
                assert forall|a2: int, b2: int| #[trigger]
                    trim_bounds(line, a2, b2) implies !eq_ignore_ascii_case(
                    line.subrange(a2, b2),
                    unpaused_marker(),
                ) by {
                    lemma_trim_unique(line, ta, tb, a2, b2);
                    assert(line.subrange(a2, b2)[k as int] == chars@[a + k]);
                }
            }
            return false;
        }
        k += 1;
    }
    assert(eq_ignore_ascii_case(line.subrange(ta, tb), unpaused_marker()));
    true
}

/// Whether a listing of playback streams shows a stream that is not paused.
pub fn is_audio_active(listing: &str) -> (r: bool)
    ensures
        r == reports_unpaused(listing@),
{
    let chars = collect_chars(listing);
    let marker = marker_chars();
    let ghost text = chars@;
    let mut start: usize = 0;
    let mut pos: usize = 0;
    let mut found = false;
    while pos < chars.len()
        invariant
            text == chars@,
            marker@ == unpaused_marker(),
            start <= pos <= chars.len(),
            start == 0 || text[start - 1] == '\n',
            forall|k: int| start <= k < pos ==> text[k] != '\n',
            found == exists|i: int, j: int|
                #[trigger] is_line(text, i, j) && j < pos && is_marker_line(text.subrange(i, j)),
        decreases chars.len() - pos,
    {
        if chars[pos] == '\n' {
            let m = span_is_marker(&chars, start, pos, &marker);
            proof {
                assert(is_line(text, start as int, pos as int));
                assert forall|i: int, j: int| #[trigger] is_line(text, i, j) && j == pos implies i
                    == start by {
                    if i < start {
                        assert(text[start - 1] == '\n');
                    }
                    if i > start {
                        assert(text[i - 1] == '\n');
                    }
                }
            }
            found = found || m;
            start = pos + 1;
        }
        pos += 1;
    }
    let last = span_is_marker(&chars, start, chars.len(), &marker);
    proof {
        assert(is_line(text, start as int, text.len() as int));
        assert forall|i: int, j: int| #[trigger] is_line(text, i, j) && j == text.len() implies i
            == start by {
            if i < start {
                assert(text[start - 1] == '\n');
            }
            if i > start {
                assert(text[i - 1] == '\n');
            }
        }
    }
    found || last
}

} // verus!
