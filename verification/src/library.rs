//! The log of past broadcasts. A row is created when a broadcast starts (its
//! YouTube video id is known then, because the broadcast was provisioned through
//! the API) and finalised when it ends.
use vstd::prelude::*;

use crate::error::{is_other, Error};
use crate::text::opt_text;
use crate::time::{instant_le, Timestamp};

verus! {

broadcast use vstd::string::group_string_axioms;

/// One broadcast of the log.
#[derive(Debug, Clone)]
pub struct Broadcast {
    /// The RFC 3339 text of `started_at`; unique per user because two broadcasts
    /// cannot start in the same nanosecond.
    pub id: String,
    pub started_at: Timestamp,
    /// `None` while the broadcast is still running.
    pub ended_at: Option<Timestamp>,
    pub youtube_video_id: Option<String>,
    pub title: Option<String>,
    /// "private", "unlisted" or "public", as the YouTube video's privacy; `None` for
    /// rows written before privacy was tracked.
    pub privacy: Option<String>,
}

/// A broadcast row as plain values.
pub struct BroadcastView {
    pub id: Seq<char>,
    pub started_at: Timestamp,
    pub ended_at: Option<Timestamp>,
    pub youtube_video_id: Option<Seq<char>>,
    pub title: Option<Seq<char>>,
    pub privacy: Option<Seq<char>>,
}

impl View for Broadcast {
    type V = BroadcastView;

    open spec fn view(&self) -> BroadcastView {
        BroadcastView {
            id: self.id@,
            started_at: self.started_at,
            ended_at: self.ended_at,
            youtube_video_id: opt_text(self.youtube_video_id),
            title: opt_text(self.title),
            privacy: opt_text(self.privacy),
        }
    }
}

/// A copy of an optional string.
pub fn copy_opt(o: &Option<String>) -> (r: Option<String>)
    ensures
        opt_text(r) == opt_text(*o),
{
    match o {
        Some(s) => Some(s.clone()),
        None => None,
    }
}

impl Broadcast {
    /// A copy of the row.
    pub fn duplicate(&self) -> (r: Broadcast)
        ensures
            r@ == self@,
    {
        Broadcast {
            id: self.id.clone(),
            started_at: self.started_at,
            ended_at: self.ended_at,
            youtube_video_id: copy_opt(&self.youtube_video_id),
            title: copy_opt(&self.title),
            privacy: copy_opt(&self.privacy),
        }
    }
}

/// The rows of a vector, as plain values.
pub open spec fn rows_view(v: Seq<Broadcast>) -> Seq<BroadcastView> {
    v.map_values(|b: Broadcast| b@)
}

/// The broadcast log, in the order rows were added.
pub struct Library {
    items: Vec<Broadcast>,
}

impl View for Library {
    type V = Seq<BroadcastView>;

    closed spec fn view(&self) -> Seq<BroadcastView> {
        rows_view(self.items@)
    }
}

// ---------------------------------------------------------------------------
// Ordering of rows: newest first, ties kept in log order.
/// Where `r` goes in `s` (sorted newest first): after every row that started no
/// earlier than `r`.
pub open spec fn insert_pos(s: Seq<BroadcastView>, r: BroadcastView) -> nat
    decreases s.len(),
{
    if s.len() == 0 {
        0
    } else if instant_le(r.started_at, s.last().started_at) {
        s.len()
    } else {
        insert_pos(s.drop_last(), r)
    }
}

/// `rows` sorted newest first by `started_at`, rows that started at the same instant
/// kept in their log order (a stable sort).
pub open spec fn newest_first(rows: Seq<BroadcastView>) -> Seq<BroadcastView>
    decreases rows.len(),
{
    if rows.len() == 0 {
        rows
    } else {
        let s = newest_first(rows.drop_last());
        s.insert(insert_pos(s, rows.last()) as int, rows.last())
    }
}

/// Every row of `s` started no earlier than every row after it.
pub open spec fn sorted_newest_first(s: Seq<BroadcastView>) -> bool {
    forall|i: int, j: int|
        0 <= i < j < s.len() ==> instant_le(#[trigger] s[j].started_at, #[trigger] s[i].started_at)
}

/// The rows of `s` that started at instant `t`, in order.
pub open spec fn started_at_instant(s: Seq<BroadcastView>, t: Timestamp) -> Seq<BroadcastView> {
    s.filter(|r: BroadcastView| r.started_at == t)
}

proof fn lemma_insert_pos(s: Seq<BroadcastView>, r: BroadcastView)
    requires
        sorted_newest_first(s),
    ensures
        insert_pos(s, r) <= s.len(),
        forall|i: int| 0 <= i < insert_pos(s, r) ==> instant_le(r.started_at, #[trigger] s[i].started_at),
        forall|i: int|
            insert_pos(s, r) <= i < s.len() ==> !instant_le(r.started_at, #[trigger] s[i].started_at),
    decreases s.len(),
{
    if s.len() > 0 {
        if instant_le(r.started_at, s.last().started_at) {
            assert forall|i: int| 0 <= i < s.len() implies instant_le(
                r.started_at,
                #[trigger] s[i].started_at,
            ) by {
                if i < s.len() - 1 {
                    assert(instant_le(s[s.len() - 1].started_at, s[i].started_at));
                }
            }
        } else {
            let d = s.drop_last();
            assert(sorted_newest_first(d)) by {
                assert forall|i: int, j: int| 0 <= i < j < d.len() implies instant_le(
                    #[trigger] d[j].started_at,
                    #[trigger] d[i].started_at,
                ) by {
                    assert(d[i] == s[i] && d[j] == s[j]);
                }
            }
            lemma_insert_pos(d, r);
            assert forall|i: int| insert_pos(s, r) <= i < s.len() implies !instant_le(
                r.started_at,
                #[trigger] s[i].started_at,
            ) by {
                if i < s.len() - 1 {
                    assert(s[i] == d[i]);
                    assert(instant_le(s[s.len() - 1].started_at, s[i].started_at));
                }
            }
            assert forall|i: int| 0 <= i < insert_pos(s, r) implies instant_le(
                r.started_at,
                #[trigger] s[i].started_at,
            ) by {
                assert(s[i] == d[i]);
            }
        }
    }
}

proof fn lemma_filter_insert(s: Seq<BroadcastView>, p: int, r: BroadcastView, t: Timestamp)
    requires
        0 <= p <= s.len(),
        forall|i: int| p <= i < s.len() ==> #[trigger] s[i].started_at != r.started_at,
    ensures
        started_at_instant(s.insert(p, r), t) == if r.started_at == t {
            started_at_instant(s, t).push(r)
        } else {
            started_at_instant(s, t)
        },
{
    let pred = |x: BroadcastView| x.started_at == t;
    let a = s.subrange(0, p);
    let b = s.subrange(p, s.len() as int);
    assert(s =~= a + b);
    assert(s.insert(p, r) =~= a.push(r) + b);
    Seq::filter_distributes_over_add(a, b, pred);
    Seq::filter_distributes_over_add(a.push(r), b, pred);
    a.lemma_filter_push(r, pred);
    if r.started_at == t {
        assert forall|i: int| 0 <= i < b.len() implies !pred(#[trigger] b[i]) by {
            assert(b[i] == s[p + i]);
        }
        b.lemma_all_neg_filter_empty(pred);
        assert(b.filter(pred) =~= Seq::<BroadcastView>::empty());
        assert(a.filter(pred).push(r) + b.filter(pred) =~= (a.filter(pred) + b.filter(pred)).push(r));
    }
}

/// The order `Library::list` gives: newest first, every row of the log exactly
/// once, and rows that started at the same instant in the order they were added.
pub proof fn lemma_newest_first(rows: Seq<BroadcastView>)
    ensures
        newest_first(rows).len() == rows.len(),
        sorted_newest_first(newest_first(rows)),
        forall|t: Timestamp| #[trigger]
            started_at_instant(newest_first(rows), t) == started_at_instant(rows, t),
        newest_first(rows).to_multiset() == rows.to_multiset(),
    decreases rows.len(),
{
    if rows.len() > 0 {
        let d = rows.drop_last();
        let r = rows.last();
        let s = newest_first(d);
        lemma_newest_first(d);
        lemma_insert_pos(s, r);
        let p = insert_pos(s, r) as int;
        let out = s.insert(p, r);
        assert(out == newest_first(rows));
        assert(sorted_newest_first(out)) by {
            assert forall|i: int, j: int| 0 <= i < j < out.len() implies instant_le(
                #[trigger] out[j].started_at,
                #[trigger] out[i].started_at,
            ) by {
                if j < p {
                    assert(out[i] == s[i] && out[j] == s[j]);
                } else if j == p {
                    assert(out[i] == s[i]);
                } else if i < p {
                    assert(out[i] == s[i] && out[j] == s[j - 1]);
                    assert(instant_le(r.started_at, s[i].started_at));
                    assert(!instant_le(r.started_at, s[j - 1].started_at));
                } else if i == p {
                    assert(out[j] == s[j - 1]);
                    assert(!instant_le(r.started_at, s[j - 1].started_at));
                } else {
                    assert(out[i] == s[i - 1] && out[j] == s[j - 1]);
                }
            }
        }
        assert forall|i: int| p <= i < s.len() implies #[trigger] s[i].started_at != r.started_at by {
            assert(!instant_le(r.started_at, s[i].started_at));
        }
        assert forall|t: Timestamp| #[trigger]
            started_at_instant(out, t) == started_at_instant(rows, t) by {
            lemma_filter_insert(s, p, r, t);
            assert(rows =~= d.push(r));
            d.lemma_filter_push(r, |x: BroadcastView| x.started_at == t);
            assert(started_at_instant(s, t) == started_at_instant(d, t));
        }
        let a = s.subrange(0, p);
        let b = s.subrange(p, s.len() as int);
        assert(s =~= a + b);
        assert(out =~= a + seq![r] + b);
        assert(rows =~= d + seq![r]);
        vstd::seq_lib::lemma_multiset_commutative(a, b);
        vstd::seq_lib::lemma_multiset_commutative(a + seq![r], b);
        vstd::seq_lib::lemma_multiset_commutative(a, seq![r]);
        vstd::seq_lib::lemma_multiset_commutative(d, seq![r]);
        assert(out.to_multiset() =~= rows.to_multiset());
    }
}

/// Listing puts later starts first: of two listed rows, the one further down started
/// at an earlier Unix second, or at the same second and no later within it.
pub proof fn lemma_list_later_first(rows: Seq<BroadcastView>)
    ensures
        forall|i: int, j: int|
            0 <= i < j < newest_first(rows).len() ==> {
                let a = #[trigger] newest_first(rows)[i].started_at;
                let b = #[trigger] newest_first(rows)[j].started_at;
                b.unix_secs() < a.unix_secs() || (b.unix_secs() == a.unix_secs()
                    && b.subsec_nanos() <= a.subsec_nanos())
            },
{
    lemma_newest_first(rows);
}

// ---------------------------------------------------------------------------
// Finding rows by id.
/// Whether some row of `rows` has id `id`.
pub open spec fn has_id(rows: Seq<BroadcastView>, id: Seq<char>) -> bool {
    exists|k: int| 0 <= k < rows.len() && #[trigger] rows[k].id == id
}

/// Whether `k` is the first row of `rows` with id `id`.
pub open spec fn is_first_with_id(rows: Seq<BroadcastView>, id: Seq<char>, k: int) -> bool {
    &&& 0 <= k < rows.len()
    &&& rows[k].id == id
    &&& forall|j: int| 0 <= j < k ==> #[trigger] rows[j].id != id
}

/// Index of the first row with id `id` (meaningful where `has_id(rows, id)`).
pub open spec fn first_with_id(rows: Seq<BroadcastView>, id: Seq<char>) -> int {
    choose|k: int| is_first_with_id(rows, id, k)
}

proof fn lemma_first_unique(rows: Seq<BroadcastView>, id: Seq<char>, k: int)
    requires
        is_first_with_id(rows, id, k),
    ensures
        has_id(rows, id),
        first_with_id(rows, id) == k,
{
    let c = first_with_id(rows, id);
    assert(is_first_with_id(rows, id, c));
    if c < k {
        assert(rows[c].id != id);
    } else if c > k {
        assert(rows[k].id != id);
    }
}

proof fn lemma_first_below(rows: Seq<BroadcastView>, id: Seq<char>, k: int)
    requires
        0 <= k < rows.len(),
        rows[k].id == id,
    ensures
        is_first_with_id(rows, id, first_with_id(rows, id)),
    decreases k,
{
    if exists|j: int| 0 <= j < k && #[trigger] rows[j].id == id {
        let j = choose|j: int| 0 <= j < k && #[trigger] rows[j].id == id;
        lemma_first_below(rows, id, j);
    } else {
        lemma_first_unique(rows, id, k);
    }
}

/// Where some row has id `id`, `first_with_id` is the index of the first such row.
pub proof fn lemma_first_with_id(rows: Seq<BroadcastView>, id: Seq<char>)
    requires
        has_id(rows, id),
    ensures
        is_first_with_id(rows, id, first_with_id(rows, id)),
{
    let k = choose|k: int| 0 <= k < rows.len() && #[trigger] rows[k].id == id;
    lemma_first_below(rows, id, k);
}

/// `row` with `ended_at` set to `t`.
pub open spec fn with_end(row: BroadcastView, t: Timestamp) -> BroadcastView {
    BroadcastView { ended_at: Some(t), ..row }
}

/// `row` with privacy `p`.
pub open spec fn with_privacy(row: BroadcastView, p: Seq<char>) -> BroadcastView {
    BroadcastView { privacy: Some(p), ..row }
}

/// `row` with title `t`.
pub open spec fn with_title(row: BroadcastView, t: Seq<char>) -> BroadcastView {
    BroadcastView { title: Some(t), ..row }
}

/// The privacy a broadcast is created with, recorded on its log row.
pub open spec fn created_privacy() -> Seq<char> {
    "private"@
}

/// The row `add_at_start` creates.
pub open spec fn new_row(started_at: Timestamp, video_id: Seq<char>, title: Seq<char>) -> BroadcastView {
    BroadcastView {
        id: crate::time::spec_rfc3339(started_at.unix_secs(), started_at.subsec_nanos()),
        started_at,
        ended_at: None,
        youtube_video_id: Some(video_id),
        title: Some(title),
        privacy: Some(created_privacy()),
    }
}

/// Text of the error for an unknown id.
pub open spec fn unknown_id_text() -> Seq<char> {
    "no broadcast with that id"@
}

/// The outcome of changing the first row with id `id` by `f`: the changed row, or
/// the unknown-id error.
pub open spec fn update_outcome(
    old: Seq<BroadcastView>,
    new: Seq<BroadcastView>,
    id: Seq<char>,
    r: Result<Broadcast, Error>,
    f: spec_fn(BroadcastView) -> BroadcastView,
) -> bool {
    if has_id(old, id) {
        let k = first_with_id(old, id);
        &&& r matches Ok(row) && row@ == f(old[k])
        &&& new == old.update(k, f(old[k]))
    } else {
        &&& r matches Err(e) && is_other(e, unknown_id_text())
        &&& new == old
    }
}

impl Library {
    /// A log holding `items`, in that order.
    pub fn with_items(items: Vec<Broadcast>) -> (lib: Library)
        ensures
            lib@ == rows_view(items@),
    {
        Library { items }
    }

    /// The rows in log order (what gets persisted).
    pub fn items(&self) -> (r: &Vec<Broadcast>)
        ensures
            rows_view(r@) == self@,
    {
        &self.items
    }

    /// All rows, newest first; rows that started at the same instant stay in log order.
    pub fn list(&self) -> (r: Vec<Broadcast>)
        ensures
            rows_view(r@) == newest_first(self@),
    {
        let n = self.items.len();
        let mut out: Vec<Broadcast> = Vec::new();
        let mut i: usize = 0;
        while i < n
            invariant
                n == self.items.len(),
                i <= n,
                rows_view(out@) == newest_first(rows_view(self.items@.subrange(0, i as int))),
            decreases n - i,
        {
            let row = self.items[i].duplicate();
            let ghost prefix = rows_view(self.items@.subrange(0, i as int));
            let ghost s = rows_view(out@);
            proof {
                lemma_newest_first(prefix);
                lemma_insert_pos(s, row@);
            }
            let mut p = out.len();
            proof {
                assert(s.subrange(0, p as int) =~= s);
            }
            while p > 0 && !row.started_at.le(&out[p - 1].started_at)
                invariant
                    p <= out.len(),
                    s == rows_view(out@),
                    insert_pos(s, row@) == insert_pos(s.subrange(0, p as int), row@),
                decreases p,
            {
                proof {
                    assert(s.subrange(0, p as int).drop_last() =~= s.subrange(0, p - 1));
                }
                p = p - 1;
            }
            proof {
                if p > 0 {
                    assert(s.subrange(0, p as int).last() == s[p - 1]);
                }
                assert(self.items@.subrange(0, i + 1).drop_last() =~= self.items@.subrange(0, i as int));
                assert(rows_view(self.items@.subrange(0, i + 1)).drop_last() =~= prefix);
            }
            out.insert(p, row);
            proof {
                assert(rows_view(out@) =~= s.insert(p as int, row@));
            }
            i = i + 1;
        }
        proof {
            assert(self.items@.subrange(0, n as int) =~= self.items@);
        }
        out
    }

    /// Adds the row of a broadcast that started at `started_at`: its id is the RFC 3339
    /// text of that instant, its privacy "private", and it has not ended.
    pub fn add_at_start(&mut self, started_at: Timestamp, video_id: &str, title: &str) -> (row:
        Broadcast)
        ensures
            row@ == new_row(started_at, video_id@, title@),
            final(self)@ == old(self)@.push(row@),
    {
        let row = Broadcast {
            id: started_at.to_rfc3339(),
            started_at,
            ended_at: None,
            youtube_video_id: Some(video_id.to_string()),
            title: Some(title.to_string()),
            privacy: Some("private".to_string()),
        };
        proof {
            reveal_strlit("private");
        }
        let ghost before = self.items@;
        self.items.push(row.duplicate());
        proof {
            assert(rows_view(self.items@) =~= rows_view(before).push(row@));
        }
        row
    }

    /// Marks the first row with id `id` as ended at `ended_at`.
    pub fn set_ended(&mut self, id: &str, ended_at: Timestamp) -> (r: Result<Broadcast, Error>)
        ensures
            update_outcome(old(self)@, final(self)@, id@, r, |row: BroadcastView| with_end(row, ended_at)),
    {
        let ghost f = |row: BroadcastView| with_end(row, ended_at);
        match first_row_with_id(&self.items, id) {
            Some(k) => {
                let mut row = self.items[k].duplicate();
                row.ended_at = Some(ended_at);
                let out = row.duplicate();
                self.replace_row(k, row);
                proof {
                    lemma_first_unique(old(self)@, id@, k as int);
                    assert(out@ == f(old(self)@[k as int]));
                }
                Ok(out)
            },
            None => Err(crate::error::other("no broadcast with that id")),
        }
    }

    /// Sets the privacy of the first row with id `id`.
    pub fn set_privacy(&mut self, id: &str, privacy: &str) -> (r: Result<Broadcast, Error>)
        ensures
            update_outcome(
                old(self)@,
                final(self)@,
                id@,
                r,
                |row: BroadcastView| with_privacy(row, privacy@),
            ),
    {
        let ghost f = |row: BroadcastView| with_privacy(row, privacy@);
        match first_row_with_id(&self.items, id) {
            Some(k) => {
                let mut row = self.items[k].duplicate();
                row.privacy = Some(privacy.to_string());
                let out = row.duplicate();
                self.replace_row(k, row);
                proof {
                    lemma_first_unique(old(self)@, id@, k as int);
                    assert(out@ == f(old(self)@[k as int]));
                }
                Ok(out)
            },
            None => Err(crate::error::other("no broadcast with that id")),
        }
    }

    /// Sets the title of the first row with id `id`.
    pub fn set_title(&mut self, id: &str, title: &str) -> (r: Result<Broadcast, Error>)
        ensures
            update_outcome(old(self)@, final(self)@, id@, r, |row: BroadcastView| with_title(row, title@)),
    {
        let ghost f = |row: BroadcastView| with_title(row, title@);
        match first_row_with_id(&self.items, id) {
            Some(k) => {
                let mut row = self.items[k].duplicate();
                row.title = Some(title.to_string());
                let out = row.duplicate();
                self.replace_row(k, row);
                proof {
                    lemma_first_unique(old(self)@, id@, k as int);
                    assert(out@ == f(old(self)@[k as int]));
                }
                Ok(out)
            },
            None => Err(crate::error::other("no broadcast with that id")),
        }
    }

    fn replace_row(&mut self, k: usize, row: Broadcast)
        requires
            k < old(self)@.len(),
        ensures
            final(self)@ == old(self)@.update(k as int, row@),
    {
        let ghost before = self.items@;
        self.items.set(k, row);
        proof {
            assert(rows_view(self.items@) =~= rows_view(before).update(k as int, row@));
        }
    }

    /// Drops every row with id `id`.
    pub fn remove(&mut self, id: &str)
        ensures
            final(self)@ == old(self)@.filter(|row: BroadcastView| row.id != id@),
    {
        let ghost pred = |row: BroadcastView| row.id != id@;
        let key = id.to_string();
        let n = self.items.len();
        let mut kept: Vec<Broadcast> = Vec::new();
        let mut i: usize = 0;
        while i < n
            invariant
                n == self.items.len(),
                i <= n,
                key@ == id@,
                pred == (|row: BroadcastView| row.id != id@),
                rows_view(kept@) == rows_view(self.items@.subrange(0, i as int)).filter(pred),
            decreases n - i,
        {
            let ghost prefix = rows_view(self.items@.subrange(0, i as int));
            let ghost before = kept@;
            let row = self.items[i].duplicate();
            if row.id != key {
                kept.push(row);
                proof {
                    assert(rows_view(kept@) =~= rows_view(before).push(self.items@[i as int]@));
                }
            }
            proof {
                assert(rows_view(self.items@.subrange(0, i + 1)) =~= prefix.push(self.items@[i as int]@));
                prefix.lemma_filter_push(self.items@[i as int]@, pred);
            }
            i = i + 1;
        }
        proof {
            assert(self.items@.subrange(0, n as int) =~= self.items@);
        }
        self.items = kept;
    }

    /// The YouTube video linked to the row with id `id`, looked up in `list` order.
    pub fn linked_video_id(&self, id: &str) -> (r: Result<String, Error>)
        ensures
            ({
                let rows = newest_first(self@);
                if has_id(rows, id@) && rows[first_with_id(rows, id@)].youtube_video_id is Some {
                    r matches Ok(v) && v@ == rows[first_with_id(rows, id@)].youtube_video_id->0
                } else {
                    r matches Err(e) && is_other(e, "broadcast has no linked YouTube video"@)
                }
            }),
    {
        let rows = self.list();
        match first_row_with_id(&rows, id) {
            Some(k) => {
                proof {
                    lemma_first_unique(rows_view(rows@), id@, k as int);
                }
                match &rows[k].youtube_video_id {
                    Some(v) => Ok(v.clone()),
                    None => Err(crate::error::other("broadcast has no linked YouTube video")),
                }
            },
            None => Err(crate::error::other("broadcast has no linked YouTube video")),
        }
    }

    /// Rows of broadcasts that never ended but have a YouTube video, newest first:
    /// what a previous run left live.
    pub fn unfinished(&self) -> (r: Vec<Broadcast>)
        ensures
            rows_view(r@) == newest_first(self@).filter(
                |row: BroadcastView| row.ended_at is None && row.youtube_video_id is Some,
            ),
    {
        let ghost pred = |row: BroadcastView| row.ended_at is None && row.youtube_video_id is Some;
        let rows = self.list();
        let n = rows.len();
        let mut out: Vec<Broadcast> = Vec::new();
        let mut i: usize = 0;
        while i < n
            invariant
                n == rows.len(),
                i <= n,
                pred == (|row: BroadcastView| row.ended_at is None && row.youtube_video_id is Some),
                rows_view(out@) == rows_view(rows@.subrange(0, i as int)).filter(pred),
            decreases n - i,
        {
            let ghost prefix = rows_view(rows@.subrange(0, i as int));
            let ghost before = out@;
            if rows[i].ended_at.is_none() && rows[i].youtube_video_id.is_some() {
                out.push(rows[i].duplicate());
                proof {
                    assert(rows_view(out@) =~= rows_view(before).push(rows@[i as int]@));
                }
            }
            proof {
                assert(rows_view(rows@.subrange(0, i + 1)) =~= prefix.push(rows@[i as int]@));
                prefix.lemma_filter_push(rows@[i as int]@, pred);
            }
            i = i + 1;
        }
        proof {
            assert(rows@.subrange(0, n as int) =~= rows@);
        }
        out
    }

    /// Settles a row that a previous run left live, once YouTube has answered the
    /// request to complete its broadcast: the first row with id `id` is marked ended
    /// at `now` only where YouTube `confirmed` it; otherwise the log is left for a later
    /// run. Returns whether the log changed.
    pub fn settle_orphan(&mut self, id: &str, confirmed: bool, now: Timestamp) -> (changed: bool)
        ensures
            changed == (confirmed && has_id(old(self)@, id@)),
            changed ==> final(self)@ == old(self)@.update(
                first_with_id(old(self)@, id@),
                with_end(old(self)@[first_with_id(old(self)@, id@)], now),
            ),
            !changed ==> final(self)@ == old(self)@,
    {
        if confirmed {
            let r = self.set_ended(id, now);
            r.is_ok()
        } else {
            false
        }
    }
}

/// Index of the first row of `rows` with id `id`, if any.
pub fn first_row_with_id(rows: &Vec<Broadcast>, id: &str) -> (r: Option<usize>)
    ensures
        match r {
            Some(k) => is_first_with_id(rows_view(rows@), id@, k as int),
            None => !has_id(rows_view(rows@), id@),
        },
{
    let key = id.to_string();
    let n = rows.len();
    let mut i: usize = 0;
    while i < n
        invariant
            n == rows.len(),
            i <= n,
            key@ == id@,
            forall|j: int| 0 <= j < i ==> #[trigger] rows_view(rows@)[j].id != id@,
        decreases n - i,
    {
        if rows[i].id == key {
            return Some(i);
        }
        i = i + 1;
    }
    None
}

} // verus!

verus! {

/// A broadcast added at start and then ended by its id: when no earlier row had that
/// id, the added row is the one that ends, with every other row untouched.
pub proof fn lemma_add_then_end(
    rows: Seq<BroadcastView>,
    started_at: Timestamp,
    video_id: Seq<char>,
    title: Seq<char>,
    ended_at: Timestamp,
)
    requires
        !has_id(rows, new_row(started_at, video_id, title).id),
    ensures
        ({
            let row = new_row(started_at, video_id, title);
            let added = rows.push(row);
            &&& has_id(added, row.id)
            &&& first_with_id(added, row.id) == rows.len()
            &&& added.update(rows.len() as int, with_end(row, ended_at)) == rows.push(
                with_end(row, ended_at),
            )
            &&& with_end(row, ended_at).ended_at == Some(ended_at)
            &&& with_end(row, ended_at).id == row.id
        }),
{
    let row = new_row(started_at, video_id, title);
    let added = rows.push(row);
    assert(added[rows.len() as int].id == row.id);
    assert forall|j: int| 0 <= j < rows.len() implies #[trigger] added[j].id != row.id by {
        assert(added[j] == rows[j]);
    }
    lemma_first_unique(added, row.id, rows.len() as int);
    assert(added.update(rows.len() as int, with_end(row, ended_at)) =~= rows.push(
        with_end(row, ended_at),
    ));
}

/// After `remove(id)` no row has that id, and the rows with other ids keep their order.
pub proof fn lemma_remove_drops(rows: Seq<BroadcastView>, id: Seq<char>)
    ensures
        !has_id(rows.filter(|row: BroadcastView| row.id != id), id),
        rows.filter(|row: BroadcastView| row.id != id).len() <= rows.len(),
{
    let pred = |row: BroadcastView| row.id != id;
    rows.lemma_filter_len(pred);
    let f = rows.filter(pred);
    assert forall|k: int| 0 <= k < f.len() implies #[trigger] f[k].id != id by {
        rows.lemma_filter_pred(pred, k);
    }
}

/// Changing the first row with an id leaves the length and every other row as they
/// were.
pub proof fn lemma_update_only_first(
    rows: Seq<BroadcastView>,
    id: Seq<char>,
    f: spec_fn(BroadcastView) -> BroadcastView,
)
    requires
        has_id(rows, id),
    ensures
        ({
            let k = first_with_id(rows, id);
            let out = rows.update(k, f(rows[k]));
            &&& out.len() == rows.len()
            &&& forall|j: int| 0 <= j < rows.len() && j != k ==> #[trigger] out[j] == rows[j]
            &&& out[k] == f(rows[k])
        }),
{
    lemma_first_with_id(rows, id);
}

} // verus!
