//! Preparing the properties of a page created from a Markdown file.
use crate::converter::notion::{
    export_error, exported, first_refused, first_unwritable, properties_json, unwritable_message, NotionToPlatform,
};
use crate::converter::ConverterError;
use crate::ir::blocks::blocks_view;
use crate::ir::metadata::props_view;
use crate::ir::UniversalDocument;
use crate::json::{get_spec, lemma_member_views, member_views, JsonValue, SpecJson};
use crate::models::page::CreatePageRequest;
use vstd::prelude::*;

verus! {

broadcast use vstd::std_specs::vec::group_vec_axioms;

/// The title property written for a file without one: a `title` array with
/// one text span holding the file's name.
pub open spec fn name_title(file_name: Seq<char>) -> SpecJson {
    SpecJson::Object(
        seq![
            ("title"@, SpecJson::Array(
                seq![SpecJson::Object(seq![("text"@, SpecJson::Object(seq![("content"@, SpecJson::Str(file_name))]))])],
            )),
        ],
    )
}

/// Whether some property value has a `title` member.
pub open spec fn has_title(entries: Seq<(Seq<char>, SpecJson)>) -> bool {
    exists|i: int| 0 <= i < entries.len() && get_spec(entries[i].1, "title"@) is Some
}

/// The position of the first member named `key`.
pub open spec fn member_index(entries: Seq<(Seq<char>, SpecJson)>, key: Seq<char>) -> Option<int>
    decreases entries.len(),
{
    if entries.len() == 0 {
        None
    } else {
        match member_index(entries.drop_last(), key) {
            Some(k) => Some(k),
            None => if entries.last().0 == key {
                Some(entries.len() - 1)
            } else {
                None
            },
        }
    }
}

/// `entries` with member `key` set to `v`: replaced in place when present,
/// else added at the end.
pub open spec fn set_member(entries: Seq<(Seq<char>, SpecJson)>, key: Seq<char>, v: SpecJson) -> Seq<(Seq<char>, SpecJson)> {
    match member_index(entries, key) {
        Some(i) => entries.update(i, (key, v)),
        None => entries.push((key, v)),
    }
}

/// Setting a key that no entry has adds it last.
pub proof fn lemma_set_member_new(entries: Seq<(Seq<char>, SpecJson)>, key: Seq<char>, v: SpecJson)
    requires
        forall|i: int| 0 <= i < entries.len() ==> (#[trigger] entries[i]).0 != key,
    ensures
        set_member(entries, key, v) == entries.push((key, v)),
    decreases entries.len(),
{
    lemma_member_index_none(entries, key);
}

/// No entry has the key, so none is found.
proof fn lemma_member_index_none(entries: Seq<(Seq<char>, SpecJson)>, key: Seq<char>)
    requires
        forall|i: int| 0 <= i < entries.len() ==> (#[trigger] entries[i]).0 != key,
    ensures
        member_index(entries, key) is None,
    decreases entries.len(),
{
    if entries.len() > 0 {
        let d = entries.drop_last();
        assert forall|i: int| 0 <= i < d.len() implies (#[trigger] d[i]).0 != key by {
            assert(d[i] == entries[i]);
        }
        lemma_member_index_none(d, key);
        assert(entries.last() == entries[entries.len() - 1]);
    }
}

/// The properties after making sure a title is present: unchanged when some
/// property has a `title` member (or the value is no object), else with a
/// `Name` title holding the file's name.
pub open spec fn with_title(props: SpecJson, file_name: Seq<char>) -> SpecJson {
    match props {
        SpecJson::Object(entries) => if has_title(entries) {
            props
        } else {
            SpecJson::Object(set_member(entries, "Name"@, name_title(file_name)))
        },
        _ => props,
    }
}

/// A name found in a prefix is the first in the whole sequence.
proof fn lemma_member_index_prefix(entries: Seq<(Seq<char>, SpecJson)>, key: Seq<char>, n: int)
    requires
        0 <= n <= entries.len(),
        member_index(entries.take(n), key) is Some,
    ensures
        member_index(entries, key) == member_index(entries.take(n), key),
    decreases entries.len() - n,
{
    if n < entries.len() {
        assert(entries.take(n + 1).drop_last() =~= entries.take(n));
        lemma_member_index_prefix(entries, key, n + 1);
    } else {
        assert(entries.take(n) =~= entries);
    }
}

/// Sets member `key` of an object's members to `v`.
pub fn set_object_member(entries: &mut Vec<(String, JsonValue)>, key: &str, v: JsonValue)
    ensures
        member_views(final(entries)@) == set_member(member_views(old(entries)@), key@, v@),
{
    let ghost mv = member_views(entries@);
    proof {
        lemma_member_views(entries@);
    }
    let k = crate::text::chars_of(key);
    let mut i: usize = 0;
    while i < entries.len()
        invariant
            i <= entries.len(),
            entries@ == old(entries)@,
            mv == member_views(entries@),
            mv.len() == entries.len(),
            forall|q: int| 0 <= q < entries.len() ==> #[trigger] mv[q] == (entries@[q].0@, entries@[q].1@),
            k@ == key@,
            member_index(mv.take(i as int), key@) is None,
        decreases entries.len() - i,
    {
        assert(mv.take(i + 1).drop_last() =~= mv.take(i as int));
        let name = crate::text::chars_of(entries[i].0.as_str());
        if crate::text::chars_eq(name.as_slice(), k.as_slice()) {
            proof {
                assert(member_index(mv.take(i + 1), key@) == Some(i as int));
                lemma_member_index_prefix(mv, key@, i + 1);
            }
            let ghost vv = v@;
            entries.set(i, (String::from_str(key), v));
            proof {
                lemma_member_views(entries@);
                assert(member_views(entries@) =~= mv.update(i as int, (key@, vv)));
            }
            return;
        }
        i = i + 1;
    }
    assert(mv.take(entries.len() as int) =~= mv);
    let ghost vv = v@;
    entries.push((String::from_str(key), v));
    proof {
        lemma_member_views(entries@);
        assert(member_views(entries@) =~= mv.push((key@, vv)));
    }
}

/// Makes sure page properties carry a title: when no property has a
/// `title` member, a `Name` title holding the file's name is set.
pub fn ensure_title(properties: &mut JsonValue, file_name: &str)
    ensures
        final(properties)@ == with_title(old(properties)@, file_name@),
{
    match properties {
        JsonValue::Object(entries) => {
            let ghost mv = member_views(entries@);
            proof {
                lemma_member_views(entries@);
            }
            let mut found = false;
            let mut i: usize = 0;
            while i < entries.len()
                invariant
                    i <= entries.len(),
                    mv == member_views(entries@),
                    mv.len() == entries.len(),
                    forall|q: int| 0 <= q < entries.len() ==> #[trigger] mv[q] == (entries@[q].0@, entries@[q].1@),
                    found == exists|j: int| 0 <= j < i && get_spec(mv[j].1, "title"@) is Some,
                decreases entries.len() - i,
            {
                if entries[i].1.get("title").is_some() {
                    found = true;
                    assert(get_spec(mv[i as int].1, "title"@) is Some);
                }
                i = i + 1;
            }
            if !found {
                let content = JsonValue::single("content", JsonValue::String(String::from_str(file_name)));
                let text = JsonValue::single("text", content);
                let ghost tv = text@;
                let arr = vec![text];
                proof {
                    crate::json::lemma_json_views(arr@);
                    assert(crate::json::json_views(arr@) =~= seq![tv]);
                }
                let title = JsonValue::single("title", JsonValue::Array(arr));
                set_object_member(entries, "Name", title);
            }
        },
        _ => {},
    }
}

/// The parent of a page created in a database: `{"database_id": <id>}`.
pub open spec fn database_parent(db: Seq<char>) -> SpecJson {
    SpecJson::Object(seq![("database_id"@, SpecJson::Str(db))])
}

/// The page-creation request for a Markdown file synced into a database:
/// the document's page request with a title ensured (the file's stem under
/// `Name` when the document has none) and the database as parent. The
/// conversion fails as [`NotionToPlatform::to_platform`] does.
pub fn sync_request(doc: &UniversalDocument, file_stem: &str, notion_db: &str) -> (r: Result<
    CreatePageRequest,
    ConverterError,
>)
    ensures
        first_unwritable(props_view(doc.metadata.properties@), doc.metadata.properties@.len() as int) matches Some(k)
            ==> (r matches Err(ConverterError::ConversionFailed(m)) && m@ == unwritable_message(
            props_view(doc.metadata.properties@)[k].1,
        )),
        first_unwritable(props_view(doc.metadata.properties@), doc.metadata.properties@.len() as int) is None
            ==> match first_refused(blocks_view(doc.blocks@), doc.blocks@.len() as int) {
            Some(k) => r matches Err(ConverterError::ConversionFailed(m)) && m@ == export_error(blocks_view(doc.blocks@)[k]),
            None => r matches Ok(req) && {
                &&& req.parent@ == database_parent(notion_db@)
                &&& req.properties@ == with_title(properties_json(props_view(doc.metadata.properties@)), file_stem@)
                &&& req.children matches Some(c) && c@.len() == doc.blocks@.len() && forall|i: int|
                    0 <= i < c@.len() ==> #[trigger] c@[i]@ == exported(blocks_view(doc.blocks@)[i], c@[i]@.created_time)
                &&& req.icon is None
                &&& req.cover is None
            },
        },
{
    match NotionToPlatform::to_platform(doc) {
        Ok(req) => {
            let mut properties = req.properties;
            ensure_title(&mut properties, file_stem);
            let parent = JsonValue::single("database_id", JsonValue::from_str(notion_db));
            Ok(CreatePageRequest { parent, properties, children: req.children, icon: None, cover: None })
        },
        Err(e) => Err(e),
    }
}

/// Markdown files waiting to be synced, each with the time (in
/// milliseconds) after which it is due; a file is waiting at most once.
#[derive(Debug)]
pub struct SyncQueue {
    pub pending: Vec<(String, u64)>,
}

/// How long a changed file waits, in milliseconds, so that a burst of
/// changes syncs once.
pub const DEBOUNCE_MS: u64 = 500;

/// The content of a queue.
pub open spec fn queue_view(s: Seq<(String, u64)>) -> Seq<(Seq<char>, u64)> {
    Seq::new(s.len(), |i: int| (s[i].0@, s[i].1))
}

/// The position of a file in the queue.
pub open spec fn queue_index(q: Seq<(Seq<char>, u64)>, path: Seq<char>) -> Option<int>
    decreases q.len(),
{
    if q.len() == 0 {
        None
    } else {
        match queue_index(q.drop_last(), path) {
            Some(k) => Some(k),
            None => if q.last().0 == path {
                Some(q.len() - 1)
            } else {
                None
            },
        }
    }
}

/// The queue with a file due at `deadline`: its time replaced when it is
/// waiting already, else added at the end.
pub open spec fn queue_set(q: Seq<(Seq<char>, u64)>, path: Seq<char>, deadline: u64) -> Seq<(Seq<char>, u64)> {
    match queue_index(q, path) {
        Some(i) => q.update(i, (path, deadline)),
        None => q.push((path, deadline)),
    }
}

/// The files of the queue that are due at `now`, in queue order.
pub open spec fn due_files(q: Seq<(Seq<char>, u64)>, now: u64) -> Seq<Seq<char>>
    decreases q.len(),
{
    if q.len() == 0 {
        seq![]
    } else {
        due_files(q.drop_last(), now) + (if now >= q.last().1 {
            seq![q.last().0]
        } else {
            seq![]
        })
    }
}

/// The entries of the queue still waiting at `now`, in order.
pub open spec fn still_waiting(q: Seq<(Seq<char>, u64)>, now: u64) -> Seq<(Seq<char>, u64)>
    decreases q.len(),
{
    if q.len() == 0 {
        seq![]
    } else {
        still_waiting(q.drop_last(), now) + (if now >= q.last().1 {
            seq![]
        } else {
            seq![q.last()]
        })
    }
}

/// A file occurs at most once in the queue.
pub open spec fn queue_unique(q: Seq<(Seq<char>, u64)>) -> bool {
    forall|i: int, j: int| 0 <= i < j < q.len() ==> q[i].0 != q[j].0
}

proof fn lemma_queue_index(q: Seq<(Seq<char>, u64)>, path: Seq<char>, n: int)
    requires
        0 <= n <= q.len(),
        forall|j: int| 0 <= j < n ==> (#[trigger] q[j]).0 != path,
    ensures
        queue_index(q.take(n), path) is None,
    decreases n,
{
    if n > 0 {
        assert(q.take(n).drop_last() =~= q.take(n - 1));
        lemma_queue_index(q, path, n - 1);
    }
}

proof fn lemma_queue_index_found(q: Seq<(Seq<char>, u64)>, path: Seq<char>, i: int)
    requires
        0 <= i < q.len(),
        q[i].0 == path,
        forall|j: int| 0 <= j < i ==> (#[trigger] q[j]).0 != path,
    ensures
        queue_index(q, path) == Some(i),
    decreases q.len(),
{
    if i < q.len() - 1 {
        lemma_queue_index_found(q.drop_last(), path, i);
    } else {
        lemma_queue_index(q, path, i);
        assert(q.take(i) =~= q.drop_last());
    }
}

proof fn lemma_queue_index_absent(q: Seq<(Seq<char>, u64)>, path: Seq<char>)
    requires
        forall|j: int| 0 <= j < q.len() ==> (#[trigger] q[j]).0 != path,
    ensures
        queue_index(q, path) is None,
{
    lemma_queue_index(q, path, q.len() as int);
    assert(q.take(q.len() as int) =~= q);
}

impl SyncQueue {
    /// An empty queue.
    pub fn new() -> (q: Self)
        ensures
            q.pending@.len() == 0,
    {
        SyncQueue { pending: Vec::new() }
    }

    /// Notes a change to a file: a Markdown file becomes due
    /// [`DEBOUNCE_MS`] after `now`, replacing any earlier time; other files
    /// are ignored.
    pub fn note_change(&mut self, path: &str, is_markdown: bool, now: u64)
        requires
            now <= u64::MAX - DEBOUNCE_MS,
            queue_unique(queue_view(old(self).pending@)),
        ensures
            queue_unique(queue_view(final(self).pending@)),
            queue_view(final(self).pending@) == (if is_markdown {
                queue_set(queue_view(old(self).pending@), path@, (now + DEBOUNCE_MS) as u64)
            } else {
                queue_view(old(self).pending@)
            }),
    {
        if !is_markdown {
            return;
        }
        let deadline = now + DEBOUNCE_MS;
        let ghost q0 = queue_view(self.pending@);
        let p = crate::text::chars_of(path);
        let mut i: usize = 0;
        while i < self.pending.len()
            invariant
                i <= self.pending.len(),
                self.pending@ == old(self).pending@,
                q0 == queue_view(self.pending@),
                p@ == path@,
                deadline == now + DEBOUNCE_MS,
                is_markdown,
                queue_unique(q0),
                forall|j: int| 0 <= j < i ==> (#[trigger] q0[j]).0 != path@,
            decreases self.pending.len() - i,
        {
            let c = crate::text::chars_of(self.pending[i].0.as_str());
            if crate::text::chars_eq(c.as_slice(), p.as_slice()) {
                proof {
                    lemma_queue_index_found(q0, path@, i as int);
                }
                let name = self.pending[i].0.clone();
                assert(name@ == path@);
                self.pending.set(i, (name, deadline));
                assert(queue_view(self.pending@) =~= q0.update(i as int, (path@, deadline)));
                assert(queue_unique(queue_view(self.pending@))) by {
                    assert forall|a: int, b: int| 0 <= a < b < q0.len() implies queue_view(self.pending@)[a].0 != queue_view(
                        self.pending@,
                    )[b].0 by {
                        assert(q0[a].0 != q0[b].0);
                    }
                }
                return;
            }
            i = i + 1;
        }
        proof {
            lemma_queue_index_absent(q0, path@);
        }
        self.pending.push((String::from_str(path), deadline));
        assert(queue_view(self.pending@) =~= q0.push((path@, deadline)));
        assert(queue_unique(queue_view(self.pending@))) by {
            assert forall|a: int, b: int| 0 <= a < b < q0.len() + 1 implies queue_view(self.pending@)[a].0 != queue_view(
                self.pending@,
            )[b].0 by {
                if b < q0.len() {
                    assert(q0[a].0 != q0[b].0);
                } else {
                    assert(q0[a].0 != path@);
                }
            }
        }
    }

    /// Removes and returns the files due at `now`, in queue order; the
    /// others keep waiting in order.
    pub fn take_due(&mut self, now: u64) -> (due: Vec<String>)
        requires
            queue_unique(queue_view(old(self).pending@)),
        ensures
            queue_unique(queue_view(final(self).pending@)),
            Seq::new(due@.len(), |i: int| due@[i]@) == due_files(queue_view(old(self).pending@), now),
            queue_view(final(self).pending@) == still_waiting(queue_view(old(self).pending@), now),
    {
        let ghost q0 = queue_view(self.pending@);
        let mut due: Vec<String> = Vec::new();
        let mut keep: Vec<(String, u64)> = Vec::new();
        let mut i: usize = 0;
        while i < self.pending.len()
            invariant
                i <= self.pending.len(),
                self.pending@ == old(self).pending@,
                q0 == queue_view(self.pending@),
                Seq::new(due@.len(), |k: int| due@[k]@) == due_files(q0.take(i as int), now),
                queue_view(keep@) == still_waiting(q0.take(i as int), now),
            decreases self.pending.len() - i,
        {
            assert(q0.take(i + 1).drop_last() =~= q0.take(i as int));
            let (name, deadline) = (&self.pending[i].0, self.pending[i].1);
            if now >= deadline {
                let ghost d0 = due@;
                due.push(name.clone());
                assert(Seq::new(due@.len(), |k: int| due@[k]@) =~= Seq::new(d0.len(), |k: int| d0[k]@).push(name@));
                assert(queue_view(keep@) =~= still_waiting(q0.take(i + 1), now));
            } else {
                let ghost k0 = keep@;
                keep.push((name.clone(), deadline));
                assert(queue_view(keep@) =~= queue_view(k0).push((name@, deadline)));
                assert(Seq::new(due@.len(), |k: int| due@[k]@) =~= due_files(q0.take(i + 1), now));
            }
            i = i + 1;
        }
        assert(q0.take(self.pending.len() as int) =~= q0);
        proof {
            lemma_still_waiting_sub(q0, now);
        }
        self.pending = keep;
        due
    }
}

/// What still waits comes from the queue; so files stay unique.
proof fn lemma_still_waiting_sub(q: Seq<(Seq<char>, u64)>, now: u64)
    requires
        queue_unique(q),
    ensures
        queue_unique(still_waiting(q, now)),
        forall|i: int|
            0 <= i < still_waiting(q, now).len() ==> exists|k: int|
                0 <= k < q.len() && #[trigger] still_waiting(q, now)[i] == q[k],
    decreases q.len(),
{
    if q.len() > 0 {
        let p = q.drop_last();
        assert(queue_unique(p));
        lemma_still_waiting_sub(p, now);
        let w = still_waiting(p, now);
        if now < q.last().1 {
            let w2 = w.push(q.last());
            assert(still_waiting(q, now) =~= w2);
            assert forall|i: int| 0 <= i < w2.len() implies exists|k: int| 0 <= k < q.len() && #[trigger] w2[i] == q[k] by {
                if i == w.len() {
                    assert(w2[i] == q[q.len() - 1]);
                } else {
                    assert(w2[i] == w[i]);
                    let k = choose|k: int| 0 <= k < p.len() && w[i] == p[k];
                    assert(w2[i] == q[k]);
                }
            }
            assert forall|i: int, j: int| 0 <= i < j < w2.len() implies w2[i].0 != w2[j].0 by {
                if j == w.len() {
                    assert(w2[i] == w[i]);
                    let k = choose|k: int| 0 <= k < p.len() && w[i] == p[k];
                    assert(q[k] == p[k]);
                    assert(w2[j] == q[q.len() - 1]);
                } else {
                    assert(w2[i] == w[i]);
                    assert(w2[j] == w[j]);
                }
            }
        } else {
            assert(still_waiting(q, now) =~= w);
            assert forall|i: int| 0 <= i < w.len() implies exists|k: int| 0 <= k < q.len() && #[trigger] w[i] == q[k] by {
                let k = choose|k: int| 0 <= k < p.len() && w[i] == p[k];
                assert(w[i] == q[k]);
            }
        }
    } else {
        assert(still_waiting(q, now) =~= Seq::<(Seq<char>, u64)>::empty());
    }
}

/// An entry that is due shows among the due files.
proof fn lemma_due_contains(q: Seq<(Seq<char>, u64)>, now: u64, k: int)
    requires
        0 <= k < q.len(),
        now >= q[k].1,
    ensures
        due_files(q, now).contains(q[k].0),
    decreases q.len(),
{
    let d = due_files(q, now);
    if k == q.len() - 1 {
        assert(d[d.len() - 1] == q[k].0);
    } else {
        lemma_due_contains(q.drop_last(), now, k);
        let d0 = due_files(q.drop_last(), now);
        let j = choose|j: int| 0 <= j < d0.len() && d0[j] == q[k].0;
        assert(d[j] == d0[j]);
    }
}

/// A file none of whose entries is due is not among the due files.
proof fn lemma_due_absent(q: Seq<(Seq<char>, u64)>, now: u64, path: Seq<char>)
    requires
        forall|j: int| 0 <= j < q.len() && (#[trigger] q[j]).0 == path ==> now < q[j].1,
    ensures
        !due_files(q, now).contains(path),
    decreases q.len(),
{
    if q.len() > 0 {
        let p = q.drop_last();
        assert forall|j: int| 0 <= j < p.len() && (#[trigger] p[j]).0 == path implies now < p[j].1 by {
            assert(p[j] == q[j]);
        }
        lemma_due_absent(p, now, path);
        let d0 = due_files(p, now);
        let d = due_files(q, now);
        if d.contains(path) {
            let j = choose|j: int| 0 <= j < d.len() && d[j] == path;
            if j < d0.len() {
                assert(d0[j] == path);
            } else {
                assert(q[q.len() - 1].0 == path);
            }
        }
    }
}

/// Where [`queue_index`] finds a file, the entry there is that file's;
/// where it finds none, no entry is.
proof fn lemma_queue_index_spec(q: Seq<(Seq<char>, u64)>, path: Seq<char>)
    ensures
        match queue_index(q, path) {
            Some(i) => 0 <= i < q.len() && q[i].0 == path,
            None => forall|j: int| 0 <= j < q.len() ==> (#[trigger] q[j]).0 != path,
        },
    decreases q.len(),
{
    if q.len() > 0 {
        let p = q.drop_last();
        lemma_queue_index_spec(p, path);
        match queue_index(p, path) {
            Some(i) => {
                assert(q[i] == p[i]);
            },
            None => {
                assert forall|j: int| 0 <= j < q.len() - 1 implies (#[trigger] q[j]).0 != path by {
                    assert(q[j] == p[j]);
                }
            },
        }
    }
}

/// Debouncing: after a change to a Markdown file noted at `now`, the file
/// is due exactly from [`DEBOUNCE_MS`] after `now` on, whatever time an
/// earlier change had set for it.
pub proof fn lemma_change_due_after_debounce(q: Seq<(Seq<char>, u64)>, path: Seq<char>, now: u64, t: u64)
    requires
        queue_unique(q),
        now + DEBOUNCE_MS <= u64::MAX,
    ensures
        due_files(queue_set(q, path, (now + DEBOUNCE_MS) as u64), t).contains(path) <==> t >= now + DEBOUNCE_MS,
{
    let d = (now + DEBOUNCE_MS) as u64;
    let q2 = queue_set(q, path, d);
    lemma_queue_index_spec(q, path);
    match queue_index(q, path) {
        Some(i) => {
            assert(q2[i] == (path, d));
            if t >= d {
                lemma_due_contains(q2, t, i);
            } else {
                assert forall|j: int| 0 <= j < q2.len() && (#[trigger] q2[j]).0 == path implies t < q2[j].1 by {
                    if j != i {
                        assert(q2[j] == q[j]);
                        if j < i {
                            assert(q[j].0 != q[i].0);
                        } else {
                            assert(q[i].0 != q[j].0);
                        }
                    }
                }
                lemma_due_absent(q2, t, path);
            }
        },
        None => {
            assert(q2[q.len() as int] == (path, d));
            if t >= d {
                lemma_due_contains(q2, t, q.len() as int);
            } else {
                assert forall|j: int| 0 <= j < q2.len() && (#[trigger] q2[j]).0 == path implies t < q2[j].1 by {
                    if j < q.len() {
                        assert(q2[j] == q[j]);
                    }
                }
                lemma_due_absent(q2, t, path);
            }
        },
    }
}

} // verus!
