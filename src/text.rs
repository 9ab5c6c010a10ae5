//! Size limits on text: cutting at a character boundary and marking the cut.
use vstd::prelude::*;
use vstd::utf8::{decode_utf8, encode_utf8, is_char_boundary};
use vstd::string::{StrSliceExecFns, StringSliceAdditionalSpecFns};
use crate::strings::{copy_str, decimal, push_decimal, push_str};

verus! {

broadcast use vstd::utf8::encode_utf8_valid_utf8, vstd::utf8::encode_utf8_decode_utf8;

/// The largest character boundary of `bytes` at or below `i`.
pub open spec fn floor_boundary(bytes: Seq<u8>, i: int) -> int
    decreases i,
{
    if i <= 0 {
        0
    } else if is_char_boundary(bytes, i) {
        i
    } else {
        floor_boundary(bytes, i - 1)
    }
}

pub proof fn lemma_floor_boundary(bytes: Seq<u8>, i: int)
    requires
        vstd::utf8::valid_utf8(bytes),
    ensures
        is_char_boundary(bytes, floor_boundary(bytes, i)),
        0 <= floor_boundary(bytes, i),
        i >= 0 ==> floor_boundary(bytes, i) <= i,
    decreases i,
{
    if i > 0 && !is_char_boundary(bytes, i) {
        lemma_floor_boundary(bytes, i - 1);
    }
}

pub open spec fn min(a: int, b: int) -> int {
    if a < b {
        a
    } else {
        b
    }
}

/// The largest character boundary of `s` at or below `idx` (and the end of `s`).
pub fn floor_char_boundary(s: &str, idx: usize) -> (r: usize)
    ensures
        r == floor_boundary(s.spec_bytes(), min(idx as int, s.len() as int)),
{
    let n = s.len();
    let mut i = if idx < n { idx } else { n };
    while i > 0 && !s.is_char_boundary(i)
        invariant
            i <= n,
            n == s.len(),
            floor_boundary(s.spec_bytes(), min(idx as int, n as int)) == floor_boundary(
                s.spec_bytes(),
                i as int,
            ),
        decreases i,
    {
        i = i - 1;
    }
    i
}

/// The line appended where content was cut at `max_kb` KiB.
pub open spec fn truncation_marker(max_kb: nat) -> Seq<char> {
    "\n\n[TRUNCATED by ai-fdocs at "@ + decimal(max_kb) + "KB]\n"@
}

/// Whether text of `len` bytes is over a limit of `max_kb` KiB.
pub open spec fn over_limit(len: nat, max_kb: nat) -> bool {
    len > max_kb * 1024
}

/// The characters that fit in `max_kb` KiB: the text before the last character boundary
/// within the limit.
pub open spec fn kept_within(s: Seq<char>, max_kb: nat) -> Seq<char> {
    decode_utf8(encode_utf8(s).take(floor_boundary(encode_utf8(s), (max_kb * 1024) as int)))
}

/// What size limiting makes of `s`: `s` itself within the limit, else the part that fits
/// followed by the marker.
pub open spec fn limited(s: Seq<char>, len: nat, max_kb: nat) -> Seq<char> {
    if over_limit(len, max_kb) {
        kept_within(s, max_kb) + truncation_marker(max_kb)
    } else {
        s
    }
}

/// What size limiting makes of the text `s`.
pub open spec fn limited_text(s: Seq<char>, max_kb: nat) -> Seq<char> {
    limited(s, (encode_utf8(s).len() as usize) as nat, max_kb)
}

/// Cuts `content` to at most `max_kb` KiB at a character boundary and appends the marker;
/// content within the limit comes back unchanged. The flag tells whether it was cut.
pub fn truncate_markdown(content: &str, max_kb: usize) -> (r: (String, bool))
    ensures
        r.1 == over_limit(content.len() as nat, max_kb as nat),
        r.0@ == limited_text(content@, max_kb as nat),
{
    let max_bytes: usize = if max_kb > usize::MAX / 1024 { usize::MAX } else { max_kb * 1024 };
    if content.len() <= max_bytes {
        return (copy_str(content), false);
    }
    let b = floor_char_boundary(content, max_bytes);
    proof {
        lemma_floor_boundary(content.spec_bytes(), min(max_bytes as int, content.len() as int));
    }
    let (head, _) = content.split_at(b);
    let mut out = copy_str(head);
    let ghost kept = out@;
    push_str(&mut out, "\n\n[TRUNCATED by ai-fdocs at ");
    push_decimal(&mut out, max_kb);
    push_str(&mut out, "KB]\n");
    proof {
        let m = truncation_marker(max_kb as nat);
        assert(out@ =~= kept + m);
        assert(encode_utf8(kept) =~= content.spec_bytes().take(b as int));
        assert(min(max_bytes as int, content.len() as int) == max_kb * 1024);
        assert(kept == decode_utf8(encode_utf8(kept)));
    }
    (out, true)
}

/// Cuts `content` to at most `max_kb` KiB as `truncate_markdown` does, without the flag.
pub fn truncate_if_needed(content: &str, max_kb: usize) -> (r: String)
    ensures
        r@ == limited_text(content@, max_kb as nat),
{
    truncate_markdown(content, max_kb).0
}

} // verus!
verus! {

/// Size limiting never keeps more than the limit and never splits a character: the kept
/// part is the text's encoding up to a character boundary within `max_kb` KiB, followed
/// by the marker alone.
pub proof fn truncation_law(s: Seq<char>, max_kb: nat)
    requires
        over_limit((encode_utf8(s).len() as usize) as nat, max_kb),
        encode_utf8(s).len() <= usize::MAX,
    ensures
        ({
            let b = encode_utf8(s);
            let k = floor_boundary(b, (max_kb * 1024) as int);
            &&& limited_text(s, max_kb) == kept_within(s, max_kb) + truncation_marker(max_kb)
            &&& encode_utf8(kept_within(s, max_kb)) == b.take(k)
            &&& 0 <= k <= max_kb * 1024
            &&& is_char_boundary(b, k)
        }),
{
    let b = encode_utf8(s);
    let k = floor_boundary(b, (max_kb * 1024) as int);
    lemma_floor_boundary(b, (max_kb * 1024) as int);
    lemma_boundary_in_range(b, k);
    vstd::utf8::valid_utf8_split(b, k);
    assert(b.take(k) =~= b.subrange(0, k));
    vstd::utf8::decode_utf8_encode_utf8(b.take(k));
}

proof fn lemma_boundary_in_range(b: Seq<u8>, k: int)
    requires
        vstd::utf8::valid_utf8(b),
        is_char_boundary(b, k),
    ensures
        0 <= k <= b.len(),
{
}

} // verus!
