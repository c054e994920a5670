//! The entry store: the canonical ordered collection, id reindexing after
//! every structural change, and the atomic write-then-rename persistence.

use vstd::prelude::*;
use crate::codec::{entries_view, file_text, parse_file, parse_file_str, render_file};
use crate::entry::{EntryV, Password};

verus! {

/// Every entry's id equals its position: the invariant that reindexing
/// restores after every structural mutation.
pub open spec fn reindexed(s: Seq<EntryV>) -> bool {
    forall|i: int| 0 <= i < s.len() ==> #[trigger] s[i].id == i
}

/// `s` with every id reassigned to its position, the text fields untouched.
pub open spec fn renumber(s: Seq<EntryV>) -> Seq<EntryV> {
    s.map(
        |i: int, e: EntryV|
            EntryV { id: i as u32, service: e.service, login: e.login, password: e.password },
    )
}

/// Renumbering establishes the reindex invariant and touches no text field.
pub proof fn lemma_renumber(s: Seq<EntryV>)
    requires
        s.len() <= u32::MAX,
    ensures
        reindexed(renumber(s)),
        renumber(s).len() == s.len(),
        forall|i: int|
            0 <= i < s.len() ==> (#[trigger] renumber(s)[i]).service == s[i].service && renumber(
                s,
            )[i].login == s[i].login && renumber(s)[i].password == s[i].password,
{
}

/// Reassigns every entry's id to its position.
pub fn reindex(items: &mut Vec<Password>)
    requires
        old(items)@.len() <= u32::MAX,
    ensures
        entries_view(final(items)@) == renumber(entries_view(old(items)@)),
        reindexed(entries_view(final(items)@)),
        final(items)@.len() == old(items)@.len(),
{
    let ghost orig = items@;
    let mut out: Vec<Password> = Vec::new();
    let mut i: usize = 0;
    while i < items.len()
        invariant
            items@ == orig,
            orig.len() <= u32::MAX,
            i <= orig.len(),
            out@.len() == i,
            forall|j: int|
                0 <= j < i ==> #[trigger] out@[j]@ == (EntryV {
                    id: j as u32,
                    service: orig[j]@.service,
                    login: orig[j]@.login,
                    password: orig[j]@.password,
                }),
        decreases orig.len() - i,
    {
        let e = Password::new(
            i as u32,
            items[i].service.as_str(),
            items[i].login.as_str(),
            items[i].password.as_str(),
        );
        out.push(e);
        i += 1;
    }
    *items = out;
    assert(entries_view(items@) =~= renumber(entries_view(orig)));
}

/// Appends `new` at the end, then reindexes every entry's id to its position.
pub fn add(items: &mut Vec<Password>, new: Password)
    requires
        old(items)@.len() < u32::MAX,
    ensures
        entries_view(final(items)@) == renumber(entries_view(old(items)@).push(new@)),
        reindexed(entries_view(final(items)@)),
        final(items)@.len() == old(items)@.len() + 1,
{
    items.push(new);
    assert(entries_view(items@) =~= entries_view(old(items)@).push(new@));
    reindex(items);
}

/// Overwrites the text fields of the entry at `position`; the id is left as
/// it stands, already equal to the position.
pub fn update(
    items: &mut Vec<Password>,
    position: usize,
    service: &str,
    login: &str,
    password: &str,
)
    requires
        position < old(items)@.len(),
    ensures
        entries_view(final(items)@) == entries_view(old(items)@).update(
            position as int,
            (EntryV {
                id: old(items)@[position as int]@.id,
                service: service@,
                login: login@,
                password: password@,
            }),
        ),
        final(items)@.len() == old(items)@.len(),
{
    let prev = items.remove(position);
    let next = Password::new(prev.id, service, login, password);
    items.insert(position, next);
    assert(entries_view(items@) =~= entries_view(old(items)@).update(
        position as int,
        (EntryV {
            id: old(items)@[position as int]@.id,
            service: service@,
            login: login@,
            password: password@,
        }),
    ));
}

/// Removes the entry at `position`, then reindexes the rest.
pub fn remove(items: &mut Vec<Password>, position: usize)
    requires
        position < old(items)@.len(),
        old(items)@.len() <= u32::MAX,
    ensures
        entries_view(final(items)@) == renumber(entries_view(old(items)@).remove(position as int)),
        reindexed(entries_view(final(items)@)),
        final(items)@.len() == old(items)@.len() - 1,
{
    items.remove(position);
    assert(entries_view(items@) =~= entries_view(old(items)@).remove(position as int));
    reindex(items);
}

/// The entries of `s` whose id differs from `id`, in order.
pub open spec fn without_id(s: Seq<EntryV>, id: u32) -> Seq<EntryV>
    decreases s.len(),
{
    if s.len() == 0 {
        Seq::empty()
    } else if s[0].id == id {
        without_id(s.drop_first(), id)
    } else {
        seq![s[0]] + without_id(s.drop_first(), id)
    }
}

proof fn lemma_without_id_snoc(s: Seq<EntryV>, e: EntryV, id: u32)
    ensures
        without_id(s.push(e), id) == without_id(s, id) + (if e.id == id {
            Seq::<EntryV>::empty()
        } else {
            seq![e]
        }),
    decreases s.len(),
{
    let tail: Seq<EntryV> = if e.id == id {
        Seq::empty()
    } else {
        seq![e]
    };
    if s.len() == 0 {
        assert(s.push(e)[0] == e);
        assert(s.push(e).drop_first() =~= Seq::<EntryV>::empty());
        assert(without_id(Seq::<EntryV>::empty(), id) == Seq::<EntryV>::empty());
        assert(without_id(s.push(e), id) =~= without_id(s, id) + tail);
    } else {
        lemma_without_id_snoc(s.drop_first(), e, id);
        assert(s.push(e).drop_first() =~= s.drop_first().push(e));
        assert(s.push(e)[0] == s[0]);
        assert(without_id(s.push(e), id) =~= without_id(s, id) + tail);
    }
}

/// Drops every entry whose id equals `id`, then reindexes the rest, as the
/// by-id removal flow renumbers what it keeps.
pub fn remove_by_id(items: &mut Vec<Password>, id: u32)
    requires
        old(items)@.len() <= u32::MAX,
    ensures
        entries_view(final(items)@) == renumber(without_id(entries_view(old(items)@), id)),
        reindexed(entries_view(final(items)@)),
{
    let ghost orig = items@;
    let mut kept: Vec<Password> = Vec::new();
    let mut i: usize = 0;
    while i < items.len()
        invariant
            items@ == orig,
            i <= orig.len(),
            entries_view(kept@) == without_id(entries_view(orig.take(i as int)), id),
        decreases orig.len() - i,
    {
        let ghost pre = entries_view(orig.take(i as int));
        proof {
            lemma_without_id_snoc(pre, orig[i as int]@, id);
            assert(entries_view(orig.take(i as int + 1)) =~= pre.push(orig[i as int]@));
        }
        if items[i].id != id {
            let e = Password::new(
                items[i].id,
                items[i].service.as_str(),
                items[i].login.as_str(),
                items[i].password.as_str(),
            );
            kept.push(e);
            assert(entries_view(kept@) =~= without_id(entries_view(orig.take(i as int + 1)), id));
        } else {
            assert(entries_view(kept@) =~= without_id(entries_view(orig.take(i as int + 1)), id));
        }
        i += 1;
    }
    assert(orig.take(orig.len() as int) =~= orig);
    *items = kept;
    proof {
        lemma_without_id_len(entries_view(orig), id);
    }
    reindex(items);
}

proof fn lemma_without_id_len(s: Seq<EntryV>, id: u32)
    ensures
        without_id(s, id).len() <= s.len(),
    decreases s.len(),
{
    if s.len() > 0 {
        lemma_without_id_len(s.drop_first(), id);
    }
}

/// Renumbering twice is renumbering once.
pub proof fn lemma_renumber_idempotent(s: Seq<EntryV>)
    ensures
        renumber(renumber(s)) == renumber(s),
{
    assert(renumber(renumber(s)) =~= renumber(s));
}

/// Round trip: persisting N entries and loading them back yields N entries
/// with identical text fields and ids renumbered to `0..N-1`. `persist`
/// leaves the visible file holding `file_text(renumber(entries))`, and
/// `load` parses exactly that text back.
pub proof fn lemma_persist_load_round_trip(entries: Seq<EntryV>)
    requires
        entries.len() <= u32::MAX,
    ensures
        parse_file(file_text(renumber(entries))) == renumber(entries),
        renumber(entries).len() == entries.len(),
        reindexed(renumber(entries)),
        forall|i: int|
            0 <= i < entries.len() ==> (#[trigger] renumber(entries)[i]).service
                == entries[i].service && renumber(entries)[i].login == entries[i].login && renumber(
                entries,
            )[i].password == entries[i].password,
{
    crate::codec::lemma_file_round_trip(renumber(entries));
    lemma_renumber(entries);
}

/// A model of the two paths the store writes: the visible persisted file and
/// the temporary file beside it, each `None` when absent. The surrounding
/// program mirrors every operation taken here onto the real files in the
/// same order, so what holds of this model holds of the visible file: it
/// changes only at the rename, and then to a complete new rendering.
pub struct StoreFiles {
    /// Contents of the visible persisted file.
    pub main: Option<String>,
    /// Contents of the temporary file.
    pub temp: Option<String>,
}

impl StoreFiles {
    /// The state before any file exists: the file is created lazily on the
    /// first successful write, not at load time.
    pub fn new_absent() -> (f: StoreFiles)
        ensures
            f.main is None,
            f.temp is None,
    {
        StoreFiles { main: None, temp: None }
    }

    /// Writes the whole new rendering to the temporary file. The visible
    /// file is untouched: a failure anywhere after this step and before the
    /// rename leaves the previous visible file byte for byte as it was.
    pub fn write_temp(&mut self, content: String)
        ensures
            final(self).temp == Some(content),
            final(self).main == old(self).main,
    {
        self.temp = Some(content);
    }

    /// The sole atomic commit point: renames the temporary file over the
    /// visible one. The visible file is now exactly the renamed rendering,
    /// never a partial write.
    pub fn commit(&mut self)
        requires
            old(self).temp is Some,
        ensures
            final(self).main == old(self).temp,
            final(self).temp is None,
    {
        let mut moved: Option<String> = None;
        core::mem::swap(&mut moved, &mut self.temp);
        self.main = moved;
    }

    /// Persists the collection: reindexes every id to its position, writes
    /// the full rendering with its header row to the temporary file, then
    /// renames it over the visible file.
    pub fn persist(&mut self, entries: &mut Vec<Password>)
        requires
            old(entries)@.len() <= u32::MAX,
        ensures
            entries_view(final(entries)@) == renumber(entries_view(old(entries)@)),
            reindexed(entries_view(final(entries)@)),
            final(self).main is Some,
            final(self).main->0@ == file_text(entries_view(final(entries)@)),
            final(self).temp is None,
    {
        reindex(entries);
        let content = render_file(entries);
        self.write_temp(content);
        self.commit();
    }

    /// Loads the collection back from the visible file: absent means empty,
    /// and rows that do not parse are skipped.
    pub fn load(&self) -> (r: Vec<Password>)
        ensures
            self.main is Some ==> entries_view(r@) == parse_file(self.main->0@),
            self.main is None ==> r@.len() == 0,
    {
        match &self.main {
            Some(text) => parse_file_str(text.as_str()),
            None => Vec::new(),
        }
    }
}

} // verus!
