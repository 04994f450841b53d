//! The signature catalog: each category's ordered list of magic byte
//! patterns, as ASCII strings.

use vstd::prelude::*;
use vstd::string::StringSliceAdditionalSpecFns;
use vstd::utf8::is_ascii_chars;
use crate::category::Category;

verus! {

/// The patterns of one category, in catalog order.  `All` is the
/// deduplicated, order-preserving union of every concrete category's
/// patterns, excluding empty patterns.
pub open spec fn spec_headers(cat: Category) -> Seq<Seq<char>> {
    match cat {
        Category::Music => seq!["OggS"@, "ID3"@],
        Category::Sounds => seq!["OggS"@, "ID3"@],
        Category::Images => seq!["PNG"@, "WEBP"@],
        Category::Ktx => seq!["KTX"@],
        Category::Rbxm => seq!["<roblox!"@],
        Category::All => seq!["OggS"@, "ID3"@, "PNG"@, "WEBP"@, "KTX"@, "<roblox!"@],
    }
}

/// The bytes of an ASCII string, character by character.
pub open spec fn ascii_bytes(s: Seq<char>) -> Seq<u8> {
    Seq::new(s.len(), |i: int| s[i] as u8)
}

/// The patterns of one category as byte sequences.
pub open spec fn spec_header_bytes(cat: Category) -> Seq<Seq<u8>> {
    spec_headers(cat).map_values(|p: Seq<char>| ascii_bytes(p))
}

/// The bytes of an ASCII string slice.
pub fn str_bytes(s: &str) -> (r: &[u8])
    requires
        is_ascii_chars(s@),
    ensures
        r@ == ascii_bytes(s@),
{
    proof {
        vstd::string::is_ascii_spec_bytes(s);
        assert(s.spec_bytes() =~= ascii_bytes(s@));
    }
    s.as_bytes()
}

/// Every pattern of every category is ASCII.
pub proof fn lemma_headers_ascii(cat: Category)
    ensures
        forall|k: int|
            0 <= k < spec_headers(cat).len() ==> is_ascii_chars(#[trigger] spec_headers(cat)[k]),
{
    reveal_strlit("OggS");
    reveal_strlit("ID3");
    reveal_strlit("PNG");
    reveal_strlit("WEBP");
    reveal_strlit("KTX");
    reveal_strlit("<roblox!");
    assert(is_ascii_chars("OggS"@));
    assert(is_ascii_chars("ID3"@));
    assert(is_ascii_chars("PNG"@));
    assert(is_ascii_chars("WEBP"@));
    assert(is_ascii_chars("KTX"@));
    assert(is_ascii_chars("<roblox!"@));
}

/// File signature patterns for each category: an Ogg container marker, an
/// ID3 marker, a PNG marker, a WEBP marker, a KTX marker and a Roblox
/// binary-model marker.
pub fn get_headers(category: &Category) -> (r: Vec<String>)
    ensures
        r@.len() == spec_headers(*category).len(),
        forall|i: int| 0 <= i < r@.len() ==> r@[i]@ == spec_headers(*category)[i],
{
    let mut r: Vec<String> = Vec::new();
    match category {
        Category::Music | Category::Sounds => {
            r.push("OggS".to_owned());
            r.push("ID3".to_owned());
        },
        Category::Images => {
            r.push("PNG".to_owned());
            r.push("WEBP".to_owned());
        },
        Category::Ktx => {
            r.push("KTX".to_owned());
        },
        Category::Rbxm => {
            r.push("<roblox!".to_owned());
        },
        Category::All => {
            r.push("OggS".to_owned());
            r.push("ID3".to_owned());
            r.push("PNG".to_owned());
            r.push("WEBP".to_owned());
            r.push("KTX".to_owned());
            r.push("<roblox!".to_owned());
        },
    }
    r
}

/// The concrete categories' patterns concatenated in catalog order.
pub open spec fn catalog_union() -> Seq<Seq<char>> {
    spec_headers(Category::Music) + spec_headers(Category::Sounds) + spec_headers(
        Category::Images,
    ) + spec_headers(Category::Ktx) + spec_headers(Category::Rbxm)
}

/// Drops every element that occurred earlier in the sequence, keeping the
/// first occurrence of each and the original order.
pub open spec fn dedup_first(s: Seq<Seq<char>>) -> Seq<Seq<char>>
    decreases s.len(),
{
    if s.len() == 0 {
        Seq::empty()
    } else {
        let rest = dedup_first(s.drop_last());
        if s.drop_last().contains(s.last()) {
            rest
        } else {
            rest.push(s.last())
        }
    }
}

/// Drops empty elements, keeping the original order.
pub open spec fn drop_empty(s: Seq<Seq<char>>) -> Seq<Seq<char>>
    decreases s.len(),
{
    if s.len() == 0 {
        Seq::empty()
    } else {
        let rest = drop_empty(s.drop_last());
        if s.last().len() == 0 {
            rest
        } else {
            rest.push(s.last())
        }
    }
}

/// The wildcard's pattern list is exactly the deduplicated union of the
/// concrete categories' pattern lists, preserving first-seen order and
/// excluding empty patterns.
#[verifier::rlimit(100)]
pub proof fn lemma_headers_for_all_is_dedup_union()
    ensures
        spec_headers(Category::All) == dedup_first(drop_empty(catalog_union())),
{
    reveal_strlit("OggS");
    reveal_strlit("ID3");
    reveal_strlit("PNG");
    reveal_strlit("WEBP");
    reveal_strlit("KTX");
    reveal_strlit("<roblox!");
    let o = "OggS"@;
    let d = "ID3"@;
    let p = "PNG"@;
    let w = "WEBP"@;
    let k = "KTX"@;
    let rb = "<roblox!"@;
    let u = seq![o, d, o, d, p, w, k, rb];
    assert(catalog_union() =~= u);
    assert(drop_empty(u) =~= u) by {
        reveal_with_fuel(drop_empty, 10);
    }
    let s1 = seq![o];
    let s2 = seq![o, d];
    let s3 = seq![o, d, o];
    let s4 = seq![o, d, o, d];
    let s5 = seq![o, d, o, d, p];
    let s6 = seq![o, d, o, d, p, w];
    let s7 = seq![o, d, o, d, p, w, k];
    assert(o != d && o != p && o != w && o != k && o != rb) by {
        assert(o.len() == 4 && d.len() == 3 && p.len() == 3 && k.len() == 3 && rb.len() == 8);
        assert(o[0] == 'O' && w[0] == 'W');
    }
    assert(d != p && d != w && d != k && d != rb) by {
        assert(d.len() == 3 && w.len() == 4 && rb.len() == 8);
        assert(d[0] == 'I' && p[0] == 'P' && k[0] == 'K');
    }
    assert(p != w && p != k && p != rb) by {
        assert(p.len() == 3 && w.len() == 4 && rb.len() == 8);
        assert(p[0] == 'P' && k[0] == 'K');
    }
    assert(w != k && w != rb) by {
        assert(w.len() == 4 && k.len() == 3 && rb.len() == 8);
    }
    assert(k != rb) by {
        assert(k.len() == 3 && rb.len() == 8);
    }
    assert(dedup_first(u) =~= spec_headers(Category::All)) by {
        reveal_with_fuel(dedup_first, 3);
        assert(s1.drop_last() =~= Seq::<Seq<char>>::empty());
        assert(dedup_first(s1) =~= seq![o]);
        assert(s2.drop_last() =~= s1);
        assert(!s1.contains(d));
        assert(dedup_first(s2) =~= seq![o, d]);
        assert(s3.drop_last() =~= s2);
        assert(s2.contains(o)) by {
            assert(s2[0] == o);
        }
        assert(dedup_first(s3) =~= seq![o, d]);
        assert(s4.drop_last() =~= s3);
        assert(s3.contains(d)) by {
            assert(s3[1] == d);
        }
        assert(dedup_first(s4) =~= seq![o, d]);
        assert(s5.drop_last() =~= s4);
        assert(!s4.contains(p));
        assert(dedup_first(s5) =~= seq![o, d, p]);
        assert(s6.drop_last() =~= s5);
        assert(!s5.contains(w));
        assert(dedup_first(s6) =~= seq![o, d, p, w]);
        assert(s7.drop_last() =~= s6);
        assert(!s6.contains(k));
        assert(dedup_first(s7) =~= seq![o, d, p, w, k]);
        assert(u.drop_last() =~= s7);
        assert(!s7.contains(rb));
        assert(dedup_first(u) =~= seq![o, d, p, w, k, rb]);
    }
}

} // verus!
