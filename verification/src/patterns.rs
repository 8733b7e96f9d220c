//! Wildcard pattern matching over channel names, and the fast-path
//! classifier that buckets a channel name into a group key through a fixed
//! table of well-known prefixes.
//!
//! Pattern semantics are deliberately small: `*` matches anything, `P*`
//! any name with prefix `P`, `*S` any name with suffix `S`, and any other
//! pattern only its exact self.  No multi-wildcard forms exist.

use vstd::prelude::*;

verus! {

/// What it means for `text` to match `pat`: an empty pattern matches only
/// the empty text, a pattern ending in `*` matches by prefix, one starting
/// with `*` matches by suffix, and any other pattern by equality.  (The
/// lone pattern `*` ends in `*` with the empty prefix, so it matches
/// everything.)
pub open spec fn spec_matches_pattern(text: Seq<char>, pat: Seq<char>) -> bool {
    if pat.len() == 0 {
        text.len() == 0
    } else if pat.last() == '*' {
        pat.drop_last().is_prefix_of(text)
    } else if pat.first() == '*' {
        pat.drop_first().is_suffix_of(text)
    } else {
        text == pat
    }
}

/// Whether two string slices hold the same characters.
pub fn str_eq(a: &str, b: &str) -> (r: bool)
    ensures
        r == (a@ == b@),
{
    let sa: String = a.to_owned();
    let sb: String = b.to_owned();
    sa == sb
}

/// Whether `prefix` is a prefix of `text`.
pub fn matches_prefix_simd(text: &str, prefix: &str) -> (r: bool)
    ensures
        r == prefix@.is_prefix_of(text@),
{
    let tl = text.unicode_len();
    let pl = prefix.unicode_len();
    if pl > tl {
        return false;
    }
    let head = text.substring_char(0, pl);
    str_eq(head, prefix)
}

/// Whether `suffix` is a suffix of `text`.
pub fn matches_suffix_simd(text: &str, suffix: &str) -> (r: bool)
    ensures
        r == suffix@.is_suffix_of(text@),
{
    let tl = text.unicode_len();
    let sl = suffix.unicode_len();
    if sl > tl {
        return false;
    }
    let tail = text.substring_char(tl - sl, tl);
    str_eq(tail, suffix)
}

/// Whether `text` matches the wildcard pattern `pattern`.
pub fn matches_pattern_simd(text: &str, pattern: &str) -> (r: bool)
    ensures
        r == spec_matches_pattern(text@, pattern@),
{
    let pl = pattern.unicode_len();
    if pl == 0 {
        return text.unicode_len() == 0;
    }
    if pattern.get_char(pl - 1) == '*' {
        let prefix = pattern.substring_char(0, pl - 1);
        proof {
            assert(pattern@.drop_last() =~= pattern@.subrange(0, pattern@.len() - 1));
        }
        return matches_prefix_simd(text, prefix);
    }
    if pattern.get_char(0) == '*' {
        let suffix = pattern.substring_char(1, pl);
        proof {
            assert(pattern@.drop_first() =~= pattern@.subrange(1, pattern@.len() as int));
        }
        return matches_suffix_simd(text, suffix);
    }
    str_eq(text, pattern)
}

/// Index of the first `.` in a name at or after `i`, or the name's length
/// if the rest holds none.
pub open spec fn dot_pos(s: Seq<char>, i: int) -> int
    decreases s.len() - i when 0 <= i <= s.len()
{
    if i >= s.len() {
        s.len() as int
    } else if s[i] == '.' {
        i
    } else {
        dot_pos(s, i + 1)
    }
}

/// Basic facts about `dot_pos`: it stays within `[i, s.len()]`, no
/// character before it is a dot, and the character at it (when in bounds)
/// is a dot.
pub proof fn lemma_dot_pos(s: Seq<char>, i: int)
    requires
        0 <= i <= s.len(),
    ensures
        i <= dot_pos(s, i) <= s.len(),
        forall|j: int| i <= j < dot_pos(s, i) ==> s[j] != '.',
        dot_pos(s, i) < s.len() ==> s[dot_pos(s, i)] == '.',
    decreases s.len() - i,
{
    if i < s.len() && s[i] != '.' {
        lemma_dot_pos(s, i + 1);
    }
}

/// The classification key of a channel name: everything before its first
/// `.`, or the whole name when it has none.
pub open spec fn spec_prefix_of(s: Seq<char>) -> Seq<char> {
    s.subrange(0, dot_pos(s, 0))
}

/// The part of a channel name before its first `.` (the whole name when it
/// has none).
pub fn channel_prefix(name: &str) -> (r: &str)
    ensures
        r@ == spec_prefix_of(name@),
{
    let n = name.unicode_len();
    let mut i: usize = 0;
    while i < n && name.get_char(i) != '.'
        invariant
            0 <= i <= n,
            n == name@.len(),
            dot_pos(name@, 0) == dot_pos(name@, i as int),
        decreases n - i,
    {
        i = i + 1;
    }
    proof {
        assert(dot_pos(name@, i as int) == i as int);
    }
    name.substring_char(0, i)
}

/// The group key the fast path assigns a channel name: the basic RGB names
/// and a fixed table of well-known prefixes decide directly; a prefix
/// matching `Light*` goes to the light group; everything else — including
/// prefixes matching `ID*` or `_*` — lands in the scene-objects group.
pub open spec fn spec_fast_group(name: Seq<char>) -> Seq<char> {
    if name == "R"@ || name == "G"@ || name == "B"@ || name == "A"@ {
        "base"@
    } else {
        let p = spec_prefix_of(name);
        if p == "Beauty"@ || p == "R"@ || p == "G"@ || p == "B"@ || p == "A"@ {
            "base"@
        } else if p == "Background"@ || p == "Translucency"@ || p == "Translucency0"@ || p
            == "VirtualBeauty"@ || p == "ZDepth"@ {
            "scene"@
        } else if p == "RenderStamp"@ || p == "RenderStamp0"@ {
            "technical"@
        } else if p == "Sky"@ || p == "Sun"@ || p == "LightMix"@ {
            "light"@
        } else if p == "Cryptomatte"@ || p == "Cryptomatte0"@ {
            "cryptomatte"@
        } else if spec_matches_pattern(p, "Light*"@) {
            "light"@
        } else {
            "scene_objects"@
        }
    }
}

/// Bucket a channel name into a group key along the fast path.
pub fn determine_channel_group_ultra_fast(channel_name: &str) -> (r: &'static str)
    ensures
        r@ == spec_fast_group(channel_name@),
{
    if str_eq(channel_name, "R") || str_eq(channel_name, "G") || str_eq(channel_name, "B")
        || str_eq(channel_name, "A") {
        return "base";
    }
    let prefix = channel_prefix(channel_name);
    if str_eq(prefix, "Beauty") || str_eq(prefix, "R") || str_eq(prefix, "G") || str_eq(
        prefix,
        "B",
    ) || str_eq(prefix, "A") {
        return "base";
    }
    if str_eq(prefix, "Background") || str_eq(prefix, "Translucency") || str_eq(
        prefix,
        "Translucency0",
    ) || str_eq(prefix, "VirtualBeauty") || str_eq(prefix, "ZDepth") {
        return "scene";
    }
    if str_eq(prefix, "RenderStamp") || str_eq(prefix, "RenderStamp0") {
        return "technical";
    }
    if str_eq(prefix, "Sky") || str_eq(prefix, "Sun") || str_eq(prefix, "LightMix") {
        return "light";
    }
    if str_eq(prefix, "Cryptomatte") || str_eq(prefix, "Cryptomatte0") {
        return "cryptomatte";
    }
    if matches_pattern_simd(prefix, "Light*") {
        return "light";
    }
    // Prefixes matching `ID*` or `_*` and every unmatched prefix all land
    // in the scene-objects group.
    "scene_objects"
}

} // verus!
