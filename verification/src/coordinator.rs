//! The operations exposed to collaborators: payload extraction, the
//! dual-backend swap/copy policy, direct asset resolution, and the end
//! of a cache clear.
//!
//! The directory backend performs its work outside this crate; each
//! dual-backend operation here takes that backend's outcome as an
//! argument and combines it with the database backend's own.

use vstd::prelude::*;
use vstd::string::StringSliceAdditionalSpecFns;
use vstd::utf8::is_ascii_chars;
use crate::catalog::ascii_bytes;
use crate::category::{spec_placeholder_info, AssetInfo, AssetInfoV, Category};
use crate::classify::{extension_for, extract_bytes, find_header, lemma_contains_in_suffix,
    lemma_first_contained_is_element, lemma_first_contained_preserved, spec_extension, spec_extract,
    spec_find_header, spec_sig_offset};
use crate::search::{contains_seq, is_first_match_at, is_match_at};
use crate::catalog::{lemma_headers_ascii, spec_headers};
use crate::db::{spec_copy_post, spec_swap_post, DbError, DbSource};
use crate::engine::{create_no_files, Engine, EngineView};
use crate::hexid::{spec_hex_decode, valid_hex};
use crate::shim::{maybe_decompress, spec_maybe_decompress};

verus! {

/// The payload recovered from an asset's raw stored bytes: the bytes go
/// through the decompression shim, the category's first occurring
/// signature is found, and the slice from the signature's corrected
/// offset runs to the end.  With no signature present the decompressed
/// bytes come back whole.
pub open spec fn spec_extract_payload(category: Category, raw: Seq<u8>) -> Seq<u8> {
    let d = spec_maybe_decompress(raw);
    match spec_find_header(category, d) {
        Some(h) => spec_extract(ascii_bytes(h), d),
        None => d,
    }
}

/// Payload extraction is idempotent on already-trimmed input: running it
/// on its own output yields that output again, as long as the trimmed
/// bytes do not themselves begin with the compression container magic
/// number (a payload that is itself a compressed frame would be
/// decompressed once more).
pub proof fn lemma_extract_payload_idempotent(category: Category, raw: Seq<u8>)
    requires
        !crate::shim::has_zstd_magic(spec_extract_payload(category, raw)),
    ensures
        spec_extract_payload(category, spec_extract_payload(category, raw)) == spec_extract_payload(
            category,
            raw,
        ),
{
    let d = spec_maybe_decompress(raw);
    let out = spec_extract_payload(category, raw);
    crate::shim::lemma_shim_passthrough(out);
    match spec_find_header(category, d) {
        None => {
            assert(out == d);
        },
        Some(h) => {
            let pat = ascii_bytes(h);
            lemma_first_contained_is_element(spec_headers(category), d);
            assert(contains_seq(d, pat));
            let w = choose|w: int| is_match_at(d, pat, w);
            crate::search::lemma_first_match_exists(d, pat, w);
            let i = choose|i: int| is_first_match_at(d, pat, i);
            assert(is_first_match_at(d, pat, i));
            let off = spec_sig_offset(pat);
            crate::classify::lemma_extract_idempotent(pat, d);
            if i >= off {
                let s = i - off;
                assert(out == d.skip(s));
                assert(is_match_at(out, pat, off)) by {
                    assert(out.subrange(off, off + pat.len() as int) =~= d.subrange(
                        i,
                        i + pat.len() as int,
                    ));
                }
                assert(contains_seq(out, pat));
                assert forall|k: int|
                    0 <= k < spec_headers(category).len() implies (contains_seq(
                    out,
                    ascii_bytes(#[trigger] spec_headers(category)[k]),
                ) ==> contains_seq(d, ascii_bytes(spec_headers(category)[k]))) by {
                    if contains_seq(out, ascii_bytes(spec_headers(category)[k])) {
                        lemma_contains_in_suffix(d, ascii_bytes(spec_headers(category)[k]), s);
                    }
                }
                lemma_first_contained_preserved(spec_headers(category), d, out, h);
                assert(spec_find_header(category, out) == Some(h));
                assert(spec_extract(pat, out) == out);
            } else {
                assert(out == d);
                assert(spec_extract(pat, out) == out);
            }
        },
    }
}

/// Recovers an asset's true payload from its raw stored bytes:
/// decompression first, then signature search, then the offset-correct
/// slice to the end of the buffer; best effort throughout, never a hard
/// failure.
pub fn extract_payload(category: Category, raw: Vec<u8>) -> (r: Vec<u8>)
    ensures
        r@ == spec_extract_payload(category, raw@),
{
    let d = maybe_decompress(raw);
    match find_header(category, d.as_slice()) {
        Ok(h) => {
            let hs = h.as_str();
            proof {
                lemma_first_contained_is_element(spec_headers(category), d@);
                lemma_headers_ascii(category);
                assert(is_ascii_chars(hs@));
                vstd::string::is_ascii_spec_bytes(hs);
                assert(hs.spec_bytes() =~= ascii_bytes(hs@));
            }
            extract_bytes(hs, d)
        },
        Err(_) => d,
    }
}

/// The payload together with the extension assigned to the matched
/// signature; no extension when no signature was found.
pub fn extract_plan(category: Category, raw: Vec<u8>) -> (r: (Vec<u8>, Option<&'static str>))
    ensures
        r.0@ == spec_extract_payload(category, raw@),
        match spec_find_header(category, spec_maybe_decompress(raw@)) {
            Some(h) => r.1 matches Some(e) && e@ == spec_extension(ascii_bytes(h)),
            None => r.1 is None,
        },
{
    let d = maybe_decompress(raw);
    match find_header(category, d.as_slice()) {
        Ok(h) => {
            let hs = h.as_str();
            proof {
                lemma_first_contained_is_element(spec_headers(category), d@);
                lemma_headers_ascii(category);
                assert(is_ascii_chars(hs@));
                vstd::string::is_ascii_spec_bytes(hs);
                assert(hs.spec_bytes() =~= ascii_bytes(hs@));
            }
            let ext = extension_for(hs);
            (extract_bytes(hs, d), Some(ext))
        },
        Err(_) => (d, None),
    }
}

/// The payload of a database-backed asset: its raw row content, read and
/// run through the decompression shim and the slicing engine.  Assets
/// that belong to the directory backend are turned away; their caller
/// reads the file itself and hands the bytes to [`extract_payload`].
pub fn extract_asset_to_bytes(db: &DbSource, asset: &AssetInfo) -> (r: Result<Vec<u8>, DbError>)
    ensures
        match r {
            Ok(v) => asset@.from_sql && db.is_open() && valid_hex(asset.name@) && db.files().dom()
                .contains(spec_hex_decode(asset.name@)) && v@ == spec_extract_payload(
                asset.category,
                db.files()[spec_hex_decode(asset.name@)].2,
            ),
            Err(DbError::NotDatabaseAsset) => !asset@.from_sql,
            Err(DbError::NoConnection) => asset@.from_sql && !db.is_open(),
            Err(DbError::InvalidId) => asset@.from_sql && db.is_open() && !valid_hex(asset.name@),
            Err(DbError::NotFound) => asset@.from_sql && db.is_open() && valid_hex(asset.name@)
                && !db.files().dom().contains(spec_hex_decode(asset.name@)),
            Err(DbError::Failure(_)) => asset@.from_sql && db.is_open() && valid_hex(asset.name@),
        },
{
    if !asset.from_sql {
        return Err(DbError::NotDatabaseAsset);
    }
    let raw = db.read_asset(asset)?;
    Ok(extract_payload(asset.category, raw))
}

/// Swaps two assets' stored content against both backends
/// unconditionally; the non-owning backend's attempt fails harmlessly.
/// Success is declared, and the status line says so, exactly when either
/// backend's attempt succeeded; only when both fail does the status
/// report the failure.  `dir_ok` is the directory backend's outcome, as
/// its caller observed it.
pub fn swap_assets(
    engine: &mut Engine,
    db: &mut DbSource,
    asset_a: &AssetInfo,
    asset_b: &AssetInfo,
    dir_ok: bool,
    swapped_status: String,
    failed_status: String,
) -> (r: (bool, Result<(), DbError>))
    ensures
        final(db).is_open() == old(db).is_open(),
        final(db).path() == old(db).path(),
        spec_swap_post(
            old(db).is_open(),
            old(db).files(),
            final(db).files(),
            asset_a.name@,
            asset_b.name@,
            r.1,
        ),
        r.0 == (dir_ok || r.1 is Ok),
        r.0 ==> final(engine)@ == (EngineView {
            status: swapped_status@,
            repaint: true,
            ..old(engine)@
        }),
        !r.0 ==> final(engine)@ == (EngineView {
            status: failed_status@,
            repaint: true,
            ..old(engine)@
        }),
{
    let db_result = db.swap_assets(asset_a, asset_b);
    let ok = dir_ok || db_result.is_ok();
    if ok {
        engine.update_status(swapped_status);
    } else {
        engine.update_status(failed_status);
    }
    (ok, db_result)
}

/// Overwrites asset `b`'s content with asset `a`'s against both backends
/// unconditionally, with the same either-succeeds policy and status
/// reporting as [`swap_assets`].
pub fn copy_assets(
    engine: &mut Engine,
    db: &mut DbSource,
    asset_a: &AssetInfo,
    asset_b: &AssetInfo,
    dir_ok: bool,
    copied_status: String,
    failed_status: String,
) -> (r: (bool, Result<(), DbError>))
    ensures
        final(db).is_open() == old(db).is_open(),
        final(db).path() == old(db).path(),
        spec_copy_post(
            old(db).is_open(),
            old(db).files(),
            final(db).files(),
            asset_a.name@,
            asset_b.name@,
            r.1,
        ),
        r.0 == (dir_ok || r.1 is Ok),
        r.0 ==> final(engine)@ == (EngineView {
            status: copied_status@,
            repaint: true,
            ..old(engine)@
        }),
        !r.0 ==> final(engine)@ == (EngineView {
            status: failed_status@,
            repaint: true,
            ..old(engine)@
        }),
{
    let db_result = db.copy_assets(asset_a, asset_b);
    let ok = dir_ok || db_result.is_ok();
    if ok {
        engine.update_status(copied_status);
    } else {
        engine.update_status(failed_status);
    }
    (ok, db_result)
}

/// Resolves an asset by identifier without a full scan: the database
/// backend is asked first, then the directory backend's answer is
/// taken, and when neither resolves it a placeholder descriptor is made
/// up, since info is needed anyway.  `dir_info` is the directory
/// backend's answer, as its caller resolved it.
pub fn create_asset_info(
    db: &DbSource,
    asset: &str,
    category: Category,
    dir_info: Option<AssetInfo>,
) -> (r: AssetInfo)
    ensures
        r@ == spec_placeholder_info(asset@, category) || (dir_info matches Some(d) && r@ == d@) || (
        db.is_open() && valid_hex(asset@) && db.files().dom().contains(spec_hex_decode(asset@))
            && r@ == crate::db::spec_meta_info(
            asset@,
            db.files()[spec_hex_decode(asset@)],
            category,
        )),
        !(db.is_open() && valid_hex(asset@) && db.files().dom().contains(spec_hex_decode(asset@)))
            && dir_info is None ==> r@ == spec_placeholder_info(asset@, category),
        dir_info matches Some(d) ==> (r@ == d@ || (db.is_open() && valid_hex(asset@) && db.files()
            .dom().contains(spec_hex_decode(asset@)) && r@ == crate::db::spec_meta_info(
            asset@,
            db.files()[spec_hex_decode(asset@)],
            category,
        ))),
{
    match db.create_asset_info(asset, category) {
        Some(info) => info,
        None => {
            match dir_info {
                Some(info) => info,
                None => AssetInfo {
                    name: asset.to_owned(),
                    size: 0,
                    last_modified: None,
                    from_file: false,
                    from_sql: false,
                    category,
                },
            }
        },
    }
}

/// Ends a cache clear: resets the shared index to the single placeholder
/// "no assets" entry for immediate feedback, independent of whether
/// either backend's delete succeeded, then releases the mutating flag
/// and restores the idle status.
pub fn clear_cache_finish(engine: &mut Engine, no_files_name: String, idle_status: String)
    ensures
        final(engine)@ == (EngineView {
            file_list: seq![spec_placeholder_info(no_files_name@, Category::All)],
            mutating: false,
            status: idle_status@,
            repaint: true,
            ..old(engine)@
        }),
{
    let ghost name_view = no_files_name@;
    engine.clear_file_list();
    engine.update_file_list(create_no_files(no_files_name));
    engine.finish_mutating(idle_status);
    proof {
        assert(Seq::<AssetInfoV>::empty().push(spec_placeholder_info(name_view, Category::All))
            =~= seq![spec_placeholder_info(name_view, Category::All)]);
    }
}

/// The passes an extract-everything run performs, in order: the music
/// directory first, then the wildcard pass, which already spans every
/// signature.
pub fn extract_all_categories() -> (r: Vec<Category>)
    ensures
        r@ == seq![Category::Music, Category::All],
{
    let mut r: Vec<Category> = Vec::new();
    r.push(Category::Music);
    r.push(Category::All);
    proof {
        assert(r@ =~= seq![Category::Music, Category::All]);
    }
    r
}

} // verus!
