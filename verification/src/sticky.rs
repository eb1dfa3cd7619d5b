//! What a sticky note's window is to show when it opens, kept by the label
//! of the window until the window asks for it.

use vstd::prelude::*;
use vstd::string::*;
use crate::text::{chars_of, is_text, text_view};

verus! {

/// What a sticky note's window shows when it opens.
pub struct StickyInitContent {
    pub text: String,
    /// `image` for a note that holds an image; nothing or `text` for a note
    /// that holds text.
    pub content_type: Option<String>,
}

/// The texts of a `StickyInitContent`.
pub struct InitContentView {
    pub text: Seq<char>,
    pub content_type: Option<Seq<char>>,
}

impl View for StickyInitContent {
    type V = InitContentView;

    open spec fn view(&self) -> InitContentView {
        InitContentView { text: self.text@, content_type: text_view(self.content_type) }
    }
}

/// The content of a window that nothing was kept for: no text, no type.
pub open spec fn empty_content() -> InitContentView {
    InitContentView { text: Seq::empty(), content_type: None }
}

/// The contents that wait for their windows, by window label.
pub struct StickyInitStore {
    entries: Vec<(String, StickyInitContent)>,
}

/// What a list of entries holds.
pub open spec fn entry_views(entries: Seq<(String, StickyInitContent)>) -> Seq<
    (Seq<char>, InitContentView),
> {
    Seq::new(entries.len(), |i: int| (entries[i].0@, entries[i].1@))
}

/// No label occurs twice.
pub open spec fn distinct_labels(entries: Seq<(Seq<char>, InitContentView)>) -> bool {
    forall|i: int, j: int|
        0 <= i < j < entries.len() ==> (#[trigger] entries[i]).0 != (#[trigger] entries[j]).0
}

/// Whether an entry is kept for the label.
pub open spec fn has_label(entries: Seq<(Seq<char>, InitContentView)>, label: Seq<char>) -> bool {
    exists|i: int| 0 <= i < entries.len() && (#[trigger] entries[i]).0 == label
}

/// The contents by label.
pub open spec fn contents_of(entries: Seq<(Seq<char>, InitContentView)>) -> Map<
    Seq<char>,
    InitContentView,
> {
    Map::new(
        |label: Seq<char>| has_label(entries, label),
        |label: Seq<char>|
            entries[choose|i: int| 0 <= i < entries.len() && (#[trigger] entries[i]).0 == label].1,
    )
}

impl View for StickyInitStore {
    type V = Map<Seq<char>, InitContentView>;

    closed spec fn view(&self) -> Map<Seq<char>, InitContentView> {
        contents_of(entry_views(self.entries@))
    }
}

impl StickyInitStore {
    /// What every store holds to: no label is kept twice.
    pub closed spec fn wf(&self) -> bool {
        distinct_labels(entry_views(self.entries@))
    }

    /// A store that keeps nothing.
    pub fn new() -> (r: StickyInitStore)
        ensures
            r.wf(),
            r@ == Map::<Seq<char>, InitContentView>::empty(),
    {
        let r = StickyInitStore { entries: Vec::new() };
        assert(r@ =~= Map::<Seq<char>, InitContentView>::empty());
        r
    }

    fn position(&self, label: &str) -> (r: Option<usize>)
        ensures
            match r {
                Some(i) => i < self.entries.len() && self.entries@[i as int].0@ == label@,
                None => !has_label(entry_views(self.entries@), label@),
            },
    {
        let mut i: usize = 0;
        while i < self.entries.len()
            invariant
                i <= self.entries.len(),
                forall|j: int| 0 <= j < i ==> (#[trigger] entry_views(self.entries@)[j]).0 != label@,
            decreases self.entries.len() - i,
        {
            if is_text(chars_of(self.entries[i].0.as_str()).as_slice(), label) {
                return Some(i);
            }
            i += 1;
        }
        None
    }

    /// Keeps `content` for the window `label`, in place of what was kept for
    /// it before.
    pub fn insert(&mut self, label: String, content: StickyInitContent)
        requires
            old(self).wf(),
        ensures
            final(self).wf(),
            final(self)@ == old(self)@.insert(label@, content@),
    {
        let ghost before = entry_views(self.entries@);
        match self.position(label.as_str()) {
            Some(i) => {
                self.entries.remove(i);
                assert(entry_views(self.entries@) =~= before.remove(i as int));
                proof {
                    lemma_contents_after_remove(before, i as int);
                }
            },
            None => {},
        }
        let ghost rest = entry_views(self.entries@);
        self.entries.push((label, content));
        let ghost after = entry_views(self.entries@);
        assert(after =~= rest.push((label@, content@)));
        proof {
            lemma_contents_after_push(before, rest, label@, content@);
        }
    }

    /// Hands out what is kept for the window `label` and keeps it no
    /// longer; hands out empty content where nothing is kept for it.
    pub fn take(&mut self, label: &str) -> (r: StickyInitContent)
        requires
            old(self).wf(),
        ensures
            final(self).wf(),
            final(self)@ == old(self)@.remove(label@),
            r@ == if old(self)@.dom().contains(label@) {
                old(self)@[label@]
            } else {
                empty_content()
            },
    {
        let ghost before = entry_views(self.entries@);
        match self.position(label) {
            Some(i) => {
                let entry = self.entries.remove(i);
                let ghost after = entry_views(self.entries@);
                assert(after =~= before.remove(i as int));
                proof {
                    lemma_contents_after_remove(before, i as int);
                    assert(before[i as int].0 == label@);
                    assert(has_label(before, label@));
                }
                entry.1
            },
            None => {
                assert(self@ =~= old(self)@.remove(label@));
                StickyInitContent { text: String::new(), content_type: None }
            },
        }
    }
}

/// With distinct labels, the content kept for the label of an entry is that
/// of the entry.
proof fn lemma_contents_at(entries: Seq<(Seq<char>, InitContentView)>, i: int)
    requires
        distinct_labels(entries),
        0 <= i < entries.len(),
    ensures
        has_label(entries, entries[i].0),
        contents_of(entries)[entries[i].0] == entries[i].1,
{
    let label = entries[i].0;
    let k = choose|k: int| 0 <= k < entries.len() && (#[trigger] entries[k]).0 == label;
    if k != i {
        if k < i {
            assert(entries[k].0 != entries[i].0);
        } else {
            assert(entries[i].0 != entries[k].0);
        }
    }
}

/// Dropping an entry drops its label from the contents and leaves the rest.
proof fn lemma_contents_after_remove(entries: Seq<(Seq<char>, InitContentView)>, i: int)
    requires
        distinct_labels(entries),
        0 <= i < entries.len(),
    ensures
        distinct_labels(entries.remove(i)),
        !has_label(entries.remove(i), entries[i].0),
        contents_of(entries.remove(i)) == contents_of(entries).remove(entries[i].0),
        contents_of(entries)[entries[i].0] == entries[i].1,
{
    let rest = entries.remove(i);
    let index = |k: int| if k < i { k } else { k + 1 };
    assert forall|k: int| 0 <= k < rest.len() implies #[trigger] rest[k] == entries[index(k)] by {}
    assert forall|a: int, b: int| 0 <= a < b < rest.len() implies (#[trigger] rest[a]).0 != (
    #[trigger] rest[b]).0 by {
        assert(rest[a] == entries[index(a)] && rest[b] == entries[index(b)]);
    }
    assert forall|k: int| 0 <= k < rest.len() implies (#[trigger] rest[k]).0 != entries[i].0 by {
        assert(rest[k] == entries[index(k)]);
        if index(k) < i {
            assert(entries[index(k)].0 != entries[i].0);
        } else {
            assert(entries[i].0 != entries[index(k)].0);
        }
    }
    lemma_contents_at(entries, i);
    let left = contents_of(rest);
    let right = contents_of(entries).remove(entries[i].0);
    assert forall|label: Seq<char>| left.dom().contains(label) <==> right.dom().contains(label) by {
        if has_label(rest, label) {
            let k = choose|k: int| 0 <= k < rest.len() && (#[trigger] rest[k]).0 == label;
            assert(entries[index(k)].0 == label);
        }
        if has_label(entries, label) && label != entries[i].0 {
            let k = choose|k: int| 0 <= k < entries.len() && (#[trigger] entries[k]).0 == label;
            let m = if k < i {
                k
            } else {
                k - 1
            };
            assert(rest[m] == entries[k]);
        }
    }
    assert forall|label: Seq<char>| left.dom().contains(label) implies left[label]
        == right[label] by {
        let k = choose|k: int| 0 <= k < rest.len() && (#[trigger] rest[k]).0 == label;
        lemma_contents_at(rest, k);
        lemma_contents_at(entries, index(k));
        assert(rest[k] == entries[index(k)]);
    }
    assert(left =~= right);
}

/// Keeping content for a label, after what was kept for it was dropped,
/// puts the content in its place and leaves the rest.
proof fn lemma_contents_after_push(
    before: Seq<(Seq<char>, InitContentView)>,
    rest: Seq<(Seq<char>, InitContentView)>,
    label: Seq<char>,
    content: InitContentView,
)
    requires
        distinct_labels(before),
        !has_label(rest, label),
        rest == before || exists|i: int|
            0 <= i < before.len() && before[i].0 == label && rest == before.remove(i),
    ensures
        distinct_labels(rest.push((label, content))),
        contents_of(rest.push((label, content))) == contents_of(before).insert(label, content),
{
    if rest != before {
        let i = choose|i: int|
            0 <= i < before.len() && before[i].0 == label && rest == before.remove(i);
        lemma_contents_after_remove(before, i);
    } else {
        assert(contents_of(rest) =~= contents_of(before).remove(label));
    }
    let after = rest.push((label, content));
    assert forall|a: int, b: int| 0 <= a < b < after.len() implies (#[trigger] after[a]).0 != (
    #[trigger] after[b]).0 by {
        if b == rest.len() {
            assert(after[a] == rest[a]);
        } else {
            assert(after[a] == rest[a] && after[b] == rest[b]);
        }
    }
    let left = contents_of(after);
    let right = contents_of(before).insert(label, content);
    assert(after[rest.len() as int] == (label, content));
    assert(contents_of(rest) == contents_of(before).remove(label));
    assert forall|l: Seq<char>| left.dom().contains(l) <==> right.dom().contains(l) by {
        assert(contents_of(rest).dom().contains(l) == contents_of(before).remove(
            label,
        ).dom().contains(l));
        if l == label {
            assert(has_label(after, l));
        } else {
            if has_label(after, l) {
                let k = choose|k: int| 0 <= k < after.len() && (#[trigger] after[k]).0 == l;
                assert(rest[k] == after[k]);
                assert(has_label(rest, l));
            }
            if has_label(rest, l) {
                let k = choose|k: int| 0 <= k < rest.len() && (#[trigger] rest[k]).0 == l;
                assert(after[k] == rest[k]);
                assert(has_label(after, l));
            }
        }
    }
    assert forall|l: Seq<char>| left.dom().contains(l) implies left[l] == right[l] by {
        let k = choose|k: int| 0 <= k < after.len() && (#[trigger] after[k]).0 == l;
        lemma_contents_at(after, k);
        if l != label {
            assert(rest[k] == after[k]);
            lemma_contents_at(rest, k);
        } else {
            lemma_contents_at(after, rest.len() as int);
        }
    }
    assert(left =~= right);
}

impl Default for StickyInitStore {
    fn default() -> (r: StickyInitStore)
        ensures
            r.wf(),
            r@ == Map::<Seq<char>, InitContentView>::empty(),
    {
        StickyInitStore::new()
    }
}

} // verus!
