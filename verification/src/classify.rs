//! Classification and slicing: find a category's signature inside a
//! buffer, compute the format-specific backward offset, slice the payload,
//! and assign a file extension.

use vstd::prelude::*;
use vstd::string::StringSliceAdditionalSpecFns;
use vstd::utf8::is_ascii_chars;
use crate::category::Category;
use crate::catalog::{ascii_bytes, get_headers, lemma_headers_ascii, spec_header_bytes,
    spec_headers, str_bytes};
use crate::search::{bytes_contains, bytes_eq, bytes_search, contains_seq, is_first_match_at,
    is_match_at, lemma_first_match_exists, lemma_first_match_unique};

verus! {

/// The first pattern of the list that occurs in the bytes, in list order
/// (first match by pattern order, not by byte offset).
pub open spec fn first_contained(pats: Seq<Seq<char>>, bytes: Seq<u8>) -> Option<Seq<char>>
    decreases pats.len(),
{
    if pats.len() == 0 {
        None
    } else if contains_seq(bytes, ascii_bytes(pats[0])) {
        Some(pats[0])
    } else {
        first_contained(pats.drop_first(), bytes)
    }
}

/// The header that `find_header` reports for a buffer, if any.
pub open spec fn spec_find_header(cat: Category, bytes: Seq<u8>) -> Option<Seq<char>> {
    first_contained(spec_headers(cat), bytes)
}

/// A found header is one of the listed patterns and occurs in the bytes.
pub proof fn lemma_first_contained_is_element(pats: Seq<Seq<char>>, bytes: Seq<u8>)
    ensures
        first_contained(pats, bytes) matches Some(h) ==> exists|k: int|
            0 <= k < pats.len() && #[trigger] pats[k] == h && contains_seq(bytes, ascii_bytes(h)),
    decreases pats.len(),
{
    if pats.len() > 0 && !contains_seq(bytes, ascii_bytes(pats[0])) {
        lemma_first_contained_is_element(pats.drop_first(), bytes);
        match first_contained(pats, bytes) {
            Some(h) => {
                let k = choose|k: int|
                    0 <= k < pats.drop_first().len() && #[trigger] pats.drop_first()[k] == h
                        && contains_seq(bytes, ascii_bytes(h));
                assert(pats[k + 1] == h);
            },
            None => {},
        }
    }
}

/// The first pattern of `category` (in catalog order) that occurs anywhere
/// in `bytes`.  If two patterns both occur, the one listed first in the
/// catalog wins even if it occurs later in the buffer.
pub fn find_header(category: Category, bytes: &[u8]) -> (r: Result<String, String>)
    ensures
        match r {
            Ok(h) => spec_find_header(category, bytes@) == Some(h@),
            Err(m) => spec_find_header(category, bytes@) is None && m@ == "Headers not found in bytes"@,
        },
{
    proof {
        lemma_headers_ascii(category);
        assert(spec_headers(category).skip(0) =~= spec_headers(category));
    }
    let headers = get_headers(&category);
    let n = headers.len();
    let mut k: usize = 0;
    while k < n
        invariant
            n == headers@.len() == spec_headers(category).len(),
            forall|i: int| 0 <= i < n ==> headers@[i]@ == spec_headers(category)[i],
            forall|i: int|
                0 <= i < spec_headers(category).len() ==> is_ascii_chars(
                    #[trigger] spec_headers(category)[i],
                ),
            0 <= k <= n,
            spec_find_header(category, bytes@) == first_contained(
                spec_headers(category).skip(k as int),
                bytes@,
            ),
        decreases n - k,
    {
        proof {
            assert(is_ascii_chars(headers@[k as int]@));
        }
        let hb = str_bytes(headers[k].as_str());
        proof {
            assert(spec_headers(category).skip(k as int)[0] == spec_headers(category)[k as int]);
        }
        if bytes_contains(bytes, hb) {
            return Ok(headers[k].clone());
        }
        proof {
            assert(spec_headers(category).skip(k as int).drop_first() =~= spec_headers(
                category,
            ).skip(k as int + 1));
        }
        k = k + 1;
    }
    proof {
        assert(spec_headers(category).skip(n as int) =~= Seq::<Seq<char>>::empty());
    }
    Err("Headers not found in bytes".to_owned())
}

/// A needle found in a suffix of a buffer is found in the buffer.
pub proof fn lemma_contains_in_suffix(d: Seq<u8>, p: Seq<u8>, s: int)
    requires
        0 <= s <= d.len(),
        contains_seq(d.skip(s), p),
    ensures
        contains_seq(d, p),
{
    let i = choose|i: int| is_match_at(d.skip(s), p, i);
    assert(is_match_at(d, p, i + s)) by {
        assert(d.subrange(i + s, i + s + p.len() as int) =~= d.skip(s).subrange(
            i,
            i + p.len() as int,
        ));
    }
}

/// A buffer whose pattern occurrences all come from a larger buffer
/// reports the same first pattern, as long as that pattern still occurs.
pub proof fn lemma_first_contained_preserved(
    pats: Seq<Seq<char>>,
    d: Seq<u8>,
    out: Seq<u8>,
    h: Seq<char>,
)
    requires
        first_contained(pats, d) == Some(h),
        contains_seq(out, ascii_bytes(h)),
        forall|k: int|
            0 <= k < pats.len() ==> (contains_seq(out, ascii_bytes(#[trigger] pats[k]))
                ==> contains_seq(d, ascii_bytes(pats[k]))),
    ensures
        first_contained(pats, out) == Some(h),
    decreases pats.len(),
{
    if pats.len() > 0 {
        if contains_seq(d, ascii_bytes(pats[0])) {
            assert(h == pats[0]);
        } else {
            assert(!contains_seq(out, ascii_bytes(pats[0])));
            assert(forall|k: int|
                0 <= k < pats.drop_first().len() ==> #[trigger] pats.drop_first()[k] == pats[k
                    + 1]);
            lemma_first_contained_preserved(pats.drop_first(), d, out, h);
        }
    }
}

/// The backward offset applied in front of a matched pattern: it accounts
/// for container bytes that precede the literal signature string.
pub open spec fn spec_sig_offset(pat: Seq<u8>) -> int {
    if pat == ascii_bytes("PNG"@) {
        1
    } else if pat == ascii_bytes("KTX"@) {
        1
    } else if pat == ascii_bytes("WEBP"@) {
        8
    } else {
        0
    }
}

/// The payload slice: from the earliest occurrence of the pattern, minus
/// the pattern's backward offset, to the end of the buffer.  If the
/// pattern does not occur, or occurs too close to the start for the
/// offset, the buffer is returned unchanged.
pub open spec fn spec_extract(pat: Seq<u8>, bytes: Seq<u8>) -> Seq<u8> {
    if contains_seq(bytes, pat) {
        let i = choose|i: int| is_first_match_at(bytes, pat, i);
        if i >= spec_sig_offset(pat) {
            bytes.skip(i - spec_sig_offset(pat))
        } else {
            bytes
        }
    } else {
        bytes
    }
}

/// The exec offset for a pattern.
fn sig_offset(pat: &[u8]) -> (r: usize)
    ensures
        r as int == spec_sig_offset(pat@),
{
    proof {
        reveal_strlit("PNG");
        reveal_strlit("KTX");
        reveal_strlit("WEBP");
        assert(is_ascii_chars("PNG"@));
        assert(is_ascii_chars("KTX"@));
        assert(is_ascii_chars("WEBP"@));
    }
    if bytes_eq(pat, str_bytes("PNG")) {
        1
    } else if bytes_eq(pat, str_bytes("KTX")) {
        1
    } else if bytes_eq(pat, str_bytes("WEBP")) {
        8
    } else {
        0
    }
}

/// The suffix of a vector from `start` to its end.
fn vec_suffix(v: &Vec<u8>, start: usize) -> (r: Vec<u8>)
    requires
        start <= v@.len(),
    ensures
        r@ == v@.skip(start as int),
{
    let n = v.len();
    let mut r: Vec<u8> = Vec::new();
    let mut j: usize = start;
    while j < n
        invariant
            start <= j <= n == v@.len(),
            r@ =~= v@.subrange(start as int, j as int),
        decreases n - j,
    {
        r.push(v[j]);
        j = j + 1;
    }
    proof {
        assert(r@ =~= v@.skip(start as int));
    }
    r
}

/// Slices the payload out of a buffer: everything from the earliest
/// occurrence of `header`, corrected by the signature's backward offset,
/// to the end.  Returns the buffer unchanged when the header cannot be
/// located at a valid offset.
pub fn extract_bytes(header: &str, bytes: Vec<u8>) -> (r: Vec<u8>)
    ensures
        r@ == spec_extract(header.spec_bytes(), bytes@),
{
    let pat = header.as_bytes();
    let off = sig_offset(pat);
    match bytes_search(bytes.as_slice(), pat) {
        Some(i) => {
            proof {
                lemma_first_match_exists(bytes@, pat@, i as int);
                let c = choose|j: int| is_first_match_at(bytes@, pat@, j);
                lemma_first_match_unique(bytes@, pat@, c, i as int);
            }
            if i >= off {
                vec_suffix(&bytes, i - off)
            } else {
                bytes
            }
        },
        None => bytes,
    }
}

/// Payload slicing is idempotent: applying `spec_extract` to its own
/// output yields that output again, so re-trimming an already-trimmed
/// buffer changes nothing.
pub proof fn lemma_extract_idempotent(pat: Seq<u8>, bytes: Seq<u8>)
    ensures
        spec_extract(pat, spec_extract(pat, bytes)) == spec_extract(pat, bytes),
{
    if contains_seq(bytes, pat) {
        let w = choose|w: int| is_match_at(bytes, pat, w);
        lemma_first_match_exists(bytes, pat, w);
        let i = choose|i: int| is_first_match_at(bytes, pat, i);
        assert(is_first_match_at(bytes, pat, i));
        let off = spec_sig_offset(pat);
        if i >= off {
            let out = bytes.skip(i - off);
            assert(spec_extract(pat, bytes) == out);
            let plen = pat.len() as int;
            assert(is_match_at(out, pat, off)) by {
                assert(out.subrange(off, off + plen) =~= bytes.subrange(i, i + plen));
            }
            assert forall|j: int| 0 <= j < off implies !is_match_at(out, pat, j) by {
                if is_match_at(out, pat, j) {
                    assert(is_match_at(bytes, pat, j + (i - off))) by {
                        assert(bytes.subrange(j + (i - off), j + (i - off) + plen) =~= out.subrange(
                            j,
                            j + plen,
                        ));
                    }
                }
            }
            assert(is_first_match_at(out, pat, off));
            assert(contains_seq(out, pat));
            let c2 = choose|c: int| is_first_match_at(out, pat, c);
            lemma_first_match_unique(out, pat, c2, off);
            assert(spec_extract(pat, out) == out.skip(0));
            assert(out.skip(0) =~= out);
        }
    }
}

/// The file extension assigned to each signature; an unmapped signature
/// defaults to "ogg".
pub open spec fn spec_extension(pat: Seq<u8>) -> Seq<char> {
    if pat == ascii_bytes("ID3"@) {
        "mp3"@
    } else if pat == ascii_bytes("PNG"@) {
        "png"@
    } else if pat == ascii_bytes("WEBP"@) {
        "webp"@
    } else if pat == ascii_bytes("KTX"@) {
        "ktx"@
    } else if pat == ascii_bytes("<roblox!"@) {
        "rbxm"@
    } else {
        "ogg"@
    }
}

/// The extension for a matched header.
pub fn extension_for(header: &str) -> (r: &'static str)
    ensures
        r@ == spec_extension(header.spec_bytes()),
{
    proof {
        reveal_strlit("ID3");
        reveal_strlit("PNG");
        reveal_strlit("WEBP");
        reveal_strlit("KTX");
        reveal_strlit("<roblox!");
        assert(is_ascii_chars("ID3"@));
        assert(is_ascii_chars("PNG"@));
        assert(is_ascii_chars("WEBP"@));
        assert(is_ascii_chars("KTX"@));
        assert(is_ascii_chars("<roblox!"@));
    }
    let pat = header.as_bytes();
    if bytes_eq(pat, str_bytes("ID3")) {
        "mp3"
    } else if bytes_eq(pat, str_bytes("PNG")) {
        "png"
    } else if bytes_eq(pat, str_bytes("WEBP")) {
        "webp"
    } else if bytes_eq(pat, str_bytes("KTX")) {
        "ktx"
    } else if bytes_eq(pat, str_bytes("<roblox!")) {
        "rbxm"
    } else {
        "ogg"
    }
}

/// Whether one pattern of the buffer accepts it, with the ID3 exception:
/// an ID3 match counts only if the buffer also holds the literal
/// `binary/` substring, since the bare marker is a common false positive.
pub open spec fn header_accepts(bytes: Seq<u8>, patb: Seq<u8>) -> bool {
    if patb == ascii_bytes("ID3"@) {
        contains_seq(bytes, patb) && contains_seq(bytes, ascii_bytes("binary/"@))
    } else {
        contains_seq(bytes, patb)
    }
}

/// Whether some pattern of the category accepts the buffer.
pub open spec fn cat_accepts(bytes: Seq<u8>, cat: Category) -> bool {
    exists|k: int|
        0 <= k < spec_header_bytes(cat).len() && header_accepts(
            bytes,
            #[trigger] spec_header_bytes(cat)[k],
        )
}

/// The category reported for a buffer: the first accepting category in
/// catalog order, skipping `Music` (indistinguishable from `Sounds` by
/// signature) and falling back to `All`.
pub open spec fn spec_determine_category(bytes: Seq<u8>) -> Category {
    if cat_accepts(bytes, Category::Sounds) {
        Category::Sounds
    } else if cat_accepts(bytes, Category::Images) {
        Category::Images
    } else if cat_accepts(bytes, Category::Ktx) {
        Category::Ktx
    } else if cat_accepts(bytes, Category::Rbxm) {
        Category::Rbxm
    } else {
        Category::All
    }
}

/// Whether some pattern of `cat` accepts the buffer.
fn category_accepted(bytes: &[u8], cat: Category) -> (r: bool)
    ensures
        r == cat_accepts(bytes@, cat),
{
    proof {
        lemma_headers_ascii(cat);
        reveal_strlit("ID3");
        reveal_strlit("binary/");
        assert(is_ascii_chars("ID3"@));
        assert(is_ascii_chars("binary/"@));
    }
    let id3 = str_bytes("ID3");
    let binary_marker = str_bytes("binary/");
    let headers = get_headers(&cat);
    let n = headers.len();
    let mut k: usize = 0;
    while k < n
        invariant
            n == headers@.len() == spec_header_bytes(cat).len(),
            n == spec_headers(cat).len(),
            forall|i: int| 0 <= i < n ==> headers@[i]@ == spec_headers(cat)[i],
            forall|i: int|
                0 <= i < spec_headers(cat).len() ==> is_ascii_chars(
                    #[trigger] spec_headers(cat)[i],
                ),
            id3@ == ascii_bytes("ID3"@),
            binary_marker@ == ascii_bytes("binary/"@),
            0 <= k <= n,
            forall|j: int| 0 <= j < k ==> !header_accepts(bytes@, #[trigger] spec_header_bytes(cat)[j]),
        decreases n - k,
    {
        proof {
            assert(headers@[k as int]@ == spec_headers(cat)[k as int]);
            assert(is_ascii_chars(spec_headers(cat)[k as int]));
        }
        let hb = str_bytes(headers[k].as_str());
        proof {
            assert(spec_header_bytes(cat)[k as int] == ascii_bytes(spec_headers(cat)[k as int]));
        }
        if bytes_eq(hb, id3) {
            if bytes_contains(bytes, hb) && bytes_contains(bytes, binary_marker) {
                return true;
            }
        } else {
            if bytes_contains(bytes, hb) {
                return true;
            }
        }
        k = k + 1;
    }
    false
}

/// A bare ID3 marker is not enough: when a buffer holds no `binary/`
/// substring and none of the other signatures, classification reports the
/// wildcard `All`, never a music category, whether or not an ID3 marker
/// occurs.
pub proof fn lemma_id3_without_binary_is_all(bytes: Seq<u8>)
    requires
        !contains_seq(bytes, ascii_bytes("binary/"@)),
        !contains_seq(bytes, ascii_bytes("OggS"@)),
        !contains_seq(bytes, ascii_bytes("PNG"@)),
        !contains_seq(bytes, ascii_bytes("WEBP"@)),
        !contains_seq(bytes, ascii_bytes("KTX"@)),
        !contains_seq(bytes, ascii_bytes("<roblox!"@)),
    ensures
        spec_determine_category(bytes) == Category::All,
{
    assert forall|cat: Category| cat != Category::All implies !cat_accepts(bytes, cat) by {
        assert forall|k: int| 0 <= k < spec_header_bytes(cat).len() implies !header_accepts(
            bytes,
            #[trigger] spec_header_bytes(cat)[k],
        ) by {
            assert(spec_header_bytes(cat)[k] == ascii_bytes(spec_headers(cat)[k]));
            let p = spec_headers(cat)[k];
            if p == "ID3"@ {
                assert(!header_accepts(bytes, ascii_bytes(p)));
            } else {
                assert(p == "OggS"@ || p == "PNG"@ || p == "WEBP"@ || p == "KTX"@ || p
                    == "<roblox!"@);
                assert(ascii_bytes(p) != ascii_bytes("ID3"@)) by {
                    reveal_strlit("ID3");
                    reveal_strlit("OggS");
                    reveal_strlit("PNG");
                    reveal_strlit("WEBP");
                    reveal_strlit("KTX");
                    reveal_strlit("<roblox!");
                    assert(ascii_bytes(p).len() == p.len());
                    if p == "PNG"@ {
                        assert(ascii_bytes(p)[0] == 'P' as u8 && ascii_bytes("ID3"@)[0] == 'I'
                            as u8);
                    }
                    if p == "KTX"@ {
                        assert(ascii_bytes(p)[0] == 'K' as u8 && ascii_bytes("ID3"@)[0] == 'I'
                            as u8);
                    }
                }
                assert(!header_accepts(bytes, ascii_bytes(p)));
            }
        }
    }
}

/// Determines the category of a buffer by scanning every concrete
/// category except `Music` in catalog order; `All` when nothing matches.
pub fn determine_category(bytes: &[u8]) -> (r: Category)
    ensures
        r == spec_determine_category(bytes@),
{
    if category_accepted(bytes, Category::Sounds) {
        return Category::Sounds;
    }
    if category_accepted(bytes, Category::Images) {
        return Category::Images;
    }
    if category_accepted(bytes, Category::Ktx) {
        return Category::Ktx;
    }
    if category_accepted(bytes, Category::Rbxm) {
        return Category::Rbxm;
    }
    Category::All
}

} // verus!
