//! The index and task coordinator.
//!
//! One `Engine` per process owns the shared asset index, the filtered
//! view of it, the status message, the progress pair, and the three task
//! flags that serialize refresh, extract and clear operations.  There is
//! no task queue: a call rejected because its flag is already set is
//! dropped, never deferred, and only the listing task is cancellable.

use vstd::prelude::*;
use vstd::utf8::encode_utf8;
use crate::category::{AssetInfo, AssetInfoV, Category};
use crate::search::contains_seq;

verus! {

/// Mathematical state of the engine.
pub struct EngineView {
    /// The shared asset index, in insertion order.
    pub file_list: Seq<AssetInfoV>,
    /// The filtered view: always a by-value subset of the index, fully
    /// recomputed on each query change.
    pub filtered: Seq<AssetInfoV>,
    /// The human-readable status line.
    pub status: Seq<char>,
    /// Progress through the current operation: items done.
    pub progress_done: u64,
    /// Progress through the current operation: items in total.
    pub progress_total: u64,
    /// A listing task is in flight.
    pub listing: bool,
    /// The listing task has been asked to yield.
    pub stop_listing: bool,
    /// A mutating task (extract or clear) is in flight.
    pub mutating: bool,
    /// A display refresh has been requested and not yet acknowledged.
    pub repaint: bool,
    /// The temporary directory handed out to extraction callers.
    pub temp_dir: Seq<char>,
}

/// The shared state behind every refresh, extract and clear operation.
pub struct Engine {
    file_list: Vec<AssetInfo>,
    filtered_file_list: Vec<AssetInfo>,
    status: String,
    progress_done: u64,
    progress_total: u64,
    list_task_running: bool,
    stop_list_running: bool,
    task_running: bool,
    request_repaint: bool,
    temp_dir: String,
}

impl View for Engine {
    type V = EngineView;

    closed spec fn view(&self) -> EngineView {
        EngineView {
            file_list: self.file_list.deep_view(),
            filtered: self.filtered_file_list.deep_view(),
            status: self.status@,
            progress_done: self.progress_done,
            progress_total: self.progress_total,
            listing: self.list_task_running,
            stop_listing: self.stop_list_running,
            mutating: self.task_running,
            repaint: self.request_repaint,
            temp_dir: self.temp_dir@,
        }
    }
}

/// What the lowercasing collaborator hands back for given characters: a
/// function of the characters alone.
pub uninterp spec fn lower_of(s: Seq<char>) -> Seq<char>;

/// Relies on str::to_lowercase: the result depends on the characters
/// alone, and an empty string stays empty.
#[verifier::external_body]
fn to_lowercase(s: &str) -> (r: String)
    ensures
        r@ == lower_of(s@),
        s@.len() == 0 ==> r@.len() == 0,
{
    s.to_lowercase()
}

/// Whether the needle occurs in the haystack, both taken as the UTF-8
/// bytes of their characters; an empty needle occurs everywhere.
pub open spec fn str_contains_chars(hay: Seq<char>, needle: Seq<char>) -> bool {
    needle.len() == 0 || contains_seq(encode_utf8(hay), encode_utf8(needle))
}

/// Whether one index entry survives a filter query: its name holds the
/// lowercased query, or its lowercased alias does.
pub open spec fn spec_keeps_entry(info: AssetInfoV, alias: Seq<char>, query_lower: Seq<char>) -> bool {
    str_contains_chars(info.name, query_lower) || str_contains_chars(lower_of(alias), query_lower)
}

/// The entries of `files` that survive the query, in order; `aliases`
/// runs parallel to `files`.
pub open spec fn spec_filter_list(
    files: Seq<AssetInfoV>,
    aliases: Seq<Seq<char>>,
    query_lower: Seq<char>,
) -> Seq<AssetInfoV>
    decreases files.len(),
{
    if files.len() == 0 {
        Seq::empty()
    } else {
        let rest = spec_filter_list(files.drop_last(), aliases.drop_last(), query_lower);
        if spec_keeps_entry(files.last(), aliases.last(), query_lower) {
            rest.push(files.last())
        } else {
            rest
        }
    }
}

/// An empty query keeps every entry: filtering by it is the identity on
/// the index.
proof fn lemma_filter_empty_query(
    files: Seq<AssetInfoV>,
    aliases: Seq<Seq<char>>,
    query_lower: Seq<char>,
)
    requires
        query_lower.len() == 0,
    ensures
        spec_filter_list(files, aliases, query_lower) == files,
    decreases files.len(),
{
    if files.len() == 0 {
        assert(spec_filter_list(files, aliases, query_lower) =~= files);
    } else {
        lemma_filter_empty_query(files.drop_last(), aliases.drop_last(), query_lower);
        assert(spec_filter_list(files, aliases, query_lower) =~= files) by {
            assert(files.drop_last().push(files.last()) =~= files);
        }
    }
}

/// The filtered view is always a by-value subset of the index it was
/// computed from: filtering never invents an entry.
pub proof fn lemma_filtered_is_subset(
    files: Seq<AssetInfoV>,
    aliases: Seq<Seq<char>>,
    query_lower: Seq<char>,
)
    ensures
        forall|k: int|
            0 <= k < spec_filter_list(files, aliases, query_lower).len() ==> files.contains(
                #[trigger] spec_filter_list(files, aliases, query_lower)[k],
            ),
    decreases files.len(),
{
    if files.len() > 0 {
        lemma_filtered_is_subset(files.drop_last(), aliases.drop_last(), query_lower);
        let filtered = spec_filter_list(files, aliases, query_lower);
        let rest = spec_filter_list(files.drop_last(), aliases.drop_last(), query_lower);
        assert forall|k: int| 0 <= k < filtered.len() implies files.contains(#[trigger] filtered[k]) by {
            if k < rest.len() {
                assert(files.drop_last().contains(rest[k]));
                let j = choose|j: int| 0 <= j < files.drop_last().len() && files.drop_last()[j]
                    == rest[k];
                assert(files[j] == rest[k]);
            } else {
                assert(filtered[k] == files.last());
                assert(files[files.len() - 1] == files.last());
            }
        }
    }
}

/// The engine state after a refresh request, and whether the request was
/// granted.  A request made while a listing task is in flight is
/// dropped: it only signals that task to yield, so that the newer
/// request wins once the older one has stopped.  A granted request
/// claims the listing flag and clears the index, so a tab never shows
/// stale entries mixed with new ones.
pub open spec fn spec_refresh_request(v: EngineView) -> (EngineView, bool) {
    if v.listing {
        (EngineView { stop_listing: true, ..v }, false)
    } else {
        (
            EngineView {
                listing: true,
                stop_listing: false,
                file_list: Seq::empty(),
                ..v
            },
            true,
        )
    }
}

/// The engine state after asking to start a mutating task, and whether
/// the claim succeeded.  While one mutating task runs, another request
/// changes nothing at all: no flag, no index, no status.
pub open spec fn spec_begin_mutating(v: EngineView) -> (EngineView, bool) {
    if v.mutating {
        (v, false)
    } else {
        (EngineView { mutating: true, ..v }, true)
    }
}

/// Two back-to-back refresh requests grant at most the first: the second
/// leaves the index exactly as the first left it and signals the older
/// task to stop, so only one completed listing pass ever populates the
/// index.
pub proof fn lemma_refresh_preempts(v: EngineView)
    ensures
        ({
            let (v1, granted1) = spec_refresh_request(v);
            let (v2, granted2) = spec_refresh_request(v1);
            granted1 ==> !granted2 && v2.stop_listing && v2.file_list == v1.file_list && v2.filtered
                == v1.filtered && v2.status == v1.status
        }),
{
}

/// A mutating request made while a mutating task is already flagged
/// changes nothing: the index, the filtered view and the status are left
/// untouched and the caller is turned away.
pub proof fn lemma_mutating_guard(v: EngineView)
    requires
        v.mutating,
    ensures
        spec_begin_mutating(v) == (v, false),
{
}

impl Engine {
    /// A fresh engine: empty index, idle flags, full progress, and the
    /// given temporary directory and initial status line.
    pub fn new(temp_dir: String, initial_status: String) -> (r: Engine)
        ensures
            r@ == (EngineView {
                file_list: Seq::empty(),
                filtered: Seq::empty(),
                status: initial_status@,
                progress_done: 1,
                progress_total: 1,
                listing: false,
                stop_listing: false,
                mutating: false,
                repaint: false,
                temp_dir: temp_dir@,
            }),
    {
        let r = Engine {
            file_list: Vec::new(),
            filtered_file_list: Vec::new(),
            status: initial_status,
            progress_done: 1,
            progress_total: 1,
            list_task_running: false,
            stop_list_running: false,
            task_running: false,
            request_repaint: false,
            temp_dir,
        };
        proof {
            assert(r.file_list.deep_view() =~= Seq::<AssetInfoV>::empty());
            assert(r.filtered_file_list.deep_view() =~= Seq::<AssetInfoV>::empty());
        }
        r
    }

    /// Replaces the status line and requests a repaint.
    pub fn update_status(&mut self, value: String)
        ensures
            final(self)@ == (EngineView { status: value@, repaint: true, ..old(self)@ }),
    {
        self.status = value;
        self.request_repaint = true;
    }

    /// Replaces the progress pair (items done out of items in total) and
    /// requests a repaint.
    pub fn update_progress(&mut self, done: u64, total: u64)
        ensures
            final(self)@ == (EngineView {
                progress_done: done,
                progress_total: total,
                repaint: true,
                ..old(self)@
            }),
    {
        self.progress_done = done;
        self.progress_total = total;
        self.request_repaint = true;
    }

    /// A copy of the shared asset index.
    pub fn get_file_list(&self) -> (r: Vec<AssetInfo>)
        ensures
            r.deep_view() == self@.file_list,
    {
        let r = self.file_list.clone();
        proof {
            assert(r.deep_view() =~= self.file_list.deep_view());
        }
        r
    }

    /// A copy of the filtered index.
    pub fn get_filtered_file_list(&self) -> (r: Vec<AssetInfo>)
        ensures
            r.deep_view() == self@.filtered,
    {
        let r = self.filtered_file_list.clone();
        proof {
            assert(r.deep_view() =~= self.filtered_file_list.deep_view());
        }
        r
    }

    /// The current status line.
    pub fn get_status(&self) -> (r: String)
        ensures
            r@ == self@.status,
    {
        self.status.clone()
    }

    /// The current progress pair: items done, items in total.
    pub fn get_progress(&self) -> (r: (u64, u64))
        ensures
            r.0 == self@.progress_done,
            r.1 == self@.progress_total,
    {
        (self.progress_done, self.progress_total)
    }

    /// The temporary directory extraction callers should use.
    pub fn get_temp_dir(&self) -> (r: String)
        ensures
            r@ == self@.temp_dir,
    {
        self.temp_dir.clone()
    }

    /// Whether a listing task is in flight.
    pub fn get_list_task_running(&self) -> (r: bool)
        ensures
            r == self@.listing,
    {
        self.list_task_running
    }

    /// Whether the listing task has been asked to yield.
    pub fn get_stop_list_running(&self) -> (r: bool)
        ensures
            r == self@.stop_listing,
    {
        self.stop_list_running
    }

    /// Whether a mutating task (extract or clear) is in flight.
    pub fn get_task_running(&self) -> (r: bool)
        ensures
            r == self@.mutating,
    {
        self.task_running
    }

    /// Polls and clears the repaint request: hands back whether a
    /// repaint was pending and acknowledges it.
    pub fn get_request_repaint(&mut self) -> (r: bool)
        ensures
            r == old(self)@.repaint,
            final(self)@ == (EngineView { repaint: false, ..old(self)@ }),
    {
        let old_request = self.request_repaint;
        self.request_repaint = false;
        old_request
    }

    /// Empties the shared asset index.
    pub fn clear_file_list(&mut self)
        ensures
            final(self)@ == (EngineView { file_list: Seq::empty(), ..old(self)@ }),
    {
        self.file_list = Vec::new();
        proof {
            assert(self.file_list.deep_view() =~= Seq::<AssetInfoV>::empty());
        }
    }

    /// Appends one freshly produced descriptor to the shared index.
    pub fn update_file_list(&mut self, value: AssetInfo)
        ensures
            final(self)@ == (EngineView {
                file_list: old(self)@.file_list.push(value@),
                ..old(self)@
            }),
    {
        let ghost v = value@;
        self.file_list.push(value);
        proof {
            assert(self.file_list.deep_view() =~= old(self).file_list.deep_view().push(v));
        }
    }

    /// Requests a listing pass.  While an older listing task is in
    /// flight the request is dropped and the older task is signalled to
    /// stop; the caller polls until the flag clears.  A granted request
    /// claims the listing flag, resets the stop signal and clears the
    /// index.
    pub fn refresh_request(&mut self) -> (granted: bool)
        ensures
            final(self)@ == spec_refresh_request(old(self)@).0,
            granted == spec_refresh_request(old(self)@).1,
    {
        if self.list_task_running {
            self.stop_list_running = true;
            false
        } else {
            self.list_task_running = true;
            self.stop_list_running = false;
            self.file_list = Vec::new();
            proof {
                assert(self.file_list.deep_view() =~= Seq::<AssetInfoV>::empty());
            }
            true
        }
    }

    /// Ends a listing pass: releases the listing flag, restores the
    /// status line and requests a repaint.
    pub fn refresh_finish(&mut self, idle_status: String)
        ensures
            final(self)@ == (EngineView {
                listing: false,
                status: idle_status@,
                repaint: true,
                ..old(self)@
            }),
    {
        self.list_task_running = false;
        self.update_status(idle_status);
    }

    /// Claims the mutating flag for an extract or clear task.  While one
    /// is already flagged the engine is left entirely untouched and the
    /// caller is turned away: rejected calls are dropped, not queued.
    pub fn begin_mutating(&mut self) -> (granted: bool)
        ensures
            final(self)@ == spec_begin_mutating(old(self)@).0,
            granted == spec_begin_mutating(old(self)@).1,
    {
        if self.task_running {
            false
        } else {
            self.task_running = true;
            true
        }
    }

    /// Ends a mutating task: releases the flag, restores the status line
    /// and requests a repaint.
    pub fn finish_mutating(&mut self, status: String)
        ensures
            final(self)@ == (EngineView {
                mutating: false,
                status: status@,
                repaint: true,
                ..old(self)@
            }),
    {
        self.task_running = false;
        self.update_status(status);
    }

    /// Recomputes the filtered index from the full index: an entry
    /// survives when its name holds the lowercased query or its
    /// lowercased alias does.  `aliases` runs parallel to the index,
    /// one display alias per entry, as the configuration collaborator
    /// hands them out.
    pub fn filter_file_list(&mut self, query: &str, aliases: &Vec<String>)
        requires
            aliases@.len() == old(self)@.file_list.len(),
        ensures
            final(self)@ == (EngineView {
                filtered: spec_filter_list(
                    old(self)@.file_list,
                    aliases.deep_view(),
                    lower_of(query@),
                ),
                ..old(self)@
            }),
            query@.len() == 0 ==> final(self)@.filtered == old(self)@.file_list,
    {
        let query_lower = to_lowercase(query);
        let mut filtered: Vec<AssetInfo> = Vec::new();
        let n = self.file_list.len();
        proof {
            assert(filtered.deep_view() =~= Seq::<AssetInfoV>::empty());
            assert(self.file_list.deep_view().take(0) =~= Seq::<AssetInfoV>::empty());
            assert(aliases.deep_view().take(0) =~= Seq::<Seq<char>>::empty());
            assert(spec_filter_list(
                Seq::<AssetInfoV>::empty(),
                Seq::<Seq<char>>::empty(),
                lower_of(query@),
            ) =~= Seq::<AssetInfoV>::empty());
        }
        let mut i: usize = 0;
        while i < n
            invariant
                n == self.file_list@.len(),
                aliases@.len() == n,
                query_lower@ == lower_of(query@),
                0 <= i <= n,
                filtered.deep_view() =~= spec_filter_list(
                    self.file_list.deep_view().take(i as int),
                    aliases.deep_view().take(i as int),
                    lower_of(query@),
                ),
            decreases n - i,
        {
            let entry = &self.file_list[i];
            let alias_lower = to_lowercase(aliases[i].as_str());
            let empty_query = query_lower.as_str().is_empty();
            let name_hit = empty_query || crate::search::bytes_contains(
                entry.name.as_str().as_bytes(),
                query_lower.as_str().as_bytes(),
            );
            let alias_hit = empty_query || crate::search::bytes_contains(
                alias_lower.as_str().as_bytes(),
                query_lower.as_str().as_bytes(),
            );
            proof {
                assert(self.file_list.deep_view()[i as int] == self.file_list@[i as int]@);
                assert(aliases.deep_view()[i as int] == aliases@[i as int]@);
            }
            if name_hit || alias_hit {
                filtered.push(self.file_list[i].clone());
            }
            proof {
                let files = self.file_list.deep_view();
                let als = aliases.deep_view();
                let ql = lower_of(query@);
                assert(files.take(i + 1).drop_last() =~= files.take(i as int));
                assert(als.take(i + 1).drop_last() =~= als.take(i as int));
                assert(files.take(i + 1).last() == files[i as int]);
                assert(als.take(i + 1).last() == als[i as int]);
            }
            i = i + 1;
        }
        proof {
            assert(self.file_list.deep_view().take(n as int) =~= self.file_list.deep_view());
            assert(aliases.deep_view().take(n as int) =~= aliases.deep_view());
            if query@.len() == 0 {
                lemma_filter_empty_query(
                    self.file_list.deep_view(),
                    aliases.deep_view(),
                    lower_of(query@),
                );
            }
        }
        self.filtered_file_list = filtered;
    }
}

/// The placeholder descriptor shown after a cache clear, carrying the
/// collaborator-provided "no files" text.
pub fn create_no_files(name: String) -> (r: AssetInfo)
    ensures
        r@ == (AssetInfoV {
            name: name@,
            size: 0,
            last_modified: None,
            from_file: false,
            from_sql: false,
            category: Category::All,
        }),
{
    AssetInfo {
        name,
        size: 0,
        last_modified: None,
        from_file: false,
        from_sql: false,
        category: Category::All,
    }
}

} // verus!
