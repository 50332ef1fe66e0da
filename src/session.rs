//! The session state holder: the menu navigated to last, so that the core can
//! ask to go back to it; and the order in which entries are listed.
use vstd::prelude::*;
use vstd::multiset::Multiset;
use crate::model::{same_menu, Entry, Menu, UserSelection};

verus! {

broadcast use vstd::seq_lib::group_to_multiset_ensures;

/// The shell's state between calls: the last menu navigated to, if any.
pub struct EditorImpl {
    previous_menu: Option<Menu>,
}

/// A session in which no menu was navigated to yet.
pub fn new() -> (r: EditorImpl)
    ensures
        r.recorded() is None,
{
    EditorImpl { previous_menu: None }
}

impl EditorImpl {
    /// The menu recorded last.
    pub closed spec fn recorded(&self) -> Option<Menu> {
        self.previous_menu
    }

    /// Records the outcome of a call: a navigation is remembered, any other
    /// outcome leaves the record as it was.
    pub fn update_internal_state(&mut self, selection: &UserSelection)
        ensures
            selection matches UserSelection::GoTo(m) ==> (final(self).recorded() matches Some(p)
                && same_menu(p, *m)),
            !(selection is GoTo) ==> final(self).recorded() == old(self).recorded(),
    {
        if let UserSelection::GoTo(menu) = selection {
            self.update_menu(menu.duplicate());
        }
    }

    fn update_menu(&mut self, menu: Menu)
        ensures
            final(self).recorded() == Some(menu),
    {
        self.previous_menu = Some(menu);
    }

    /// A copy of the recorded menu.
    pub fn previous_menu(&self) -> (r: Option<Menu>)
        ensures
            r is None <==> self.recorded() is None,
            r matches Some(m) ==> (self.recorded() matches Some(p) && same_menu(m, p)),
    {
        match &self.previous_menu {
            Some(m) => Some(m.duplicate()),
            None => None,
        }
    }

    /// Going back to where the session was: the recorded menu, or the main
    /// menu where none was recorded.
    pub fn resume(&self) -> (r: UserSelection)
        ensures
            r matches UserSelection::GoTo(m) && match self.recorded() {
                Some(p) => same_menu(m, p),
                None => m == Menu::Main,
            },
    {
        match self.previous_menu() {
            Some(m) => UserSelection::GoTo(m),
            None => UserSelection::GoTo(Menu::Main),
        }
    }

    /// Sorts the entries by name, in lexicographic order of characters
    /// (case-sensitive), keeping the same entries.
    pub fn sort_entries(&self, entries: &mut Vec<Entry>)
        ensures
            sorted_by_name(final(entries)@),
            final(entries)@.to_multiset() == old(entries)@.to_multiset(),
    {
        sort_by_name(entries);
    }
}

/// Lexicographic order of texts, character by character; a prefix comes first.
pub open spec fn text_le(a: Seq<char>, b: Seq<char>) -> bool
    decreases a.len(),
{
    if a.len() == 0 {
        true
    } else if b.len() == 0 {
        false
    } else if a[0] != b[0] {
        a[0] < b[0]
    } else {
        text_le(a.drop_first(), b.drop_first())
    }
}

/// Whether the entries are in order of their names.
pub open spec fn sorted_by_name(s: Seq<Entry>) -> bool {
    forall|a: int, b: int| 0 <= a < b < s.len() ==> text_le(#[trigger] s[a].name@, #[trigger] s[b].name@)
}

/// Any two texts are ordered one way or the other.
pub proof fn lemma_text_le_total(a: Seq<char>, b: Seq<char>)
    ensures
        text_le(a, b) || text_le(b, a),
    decreases a.len(),
{
    if a.len() > 0 && b.len() > 0 && a[0] == b[0] {
        lemma_text_le_total(a.drop_first(), b.drop_first());
    }
}

/// The order is transitive.
pub proof fn lemma_text_le_transitive(a: Seq<char>, b: Seq<char>, c: Seq<char>)
    requires
        text_le(a, b),
        text_le(b, c),
    ensures
        text_le(a, c),
    decreases a.len(),
{
    if a.len() > 0 && b.len() > 0 && c.len() > 0 && a[0] == b[0] && b[0] == c[0] {
        lemma_text_le_transitive(a.drop_first(), b.drop_first(), c.drop_first());
    }
}

/// Compares two names.
pub fn name_le(a: &str, b: &str) -> (r: bool)
    ensures
        r == text_le(a@, b@),
{
    let na = a.unicode_len();
    let nb = b.unicode_len();
    let mut i: usize = 0;
    assert(a@.skip(0) == a@);
    assert(b@.skip(0) == b@);
    while i < na && i < nb
        invariant
            na == a@.len(),
            nb == b@.len(),
            i <= na,
            i <= nb,
            text_le(a@, b@) == text_le(a@.skip(i as int), b@.skip(i as int)),
        decreases na - i,
    {
        let ca = a.get_char(i);
        let cb = b.get_char(i);
        assert(a@.skip(i as int)[0] == ca);
        assert(b@.skip(i as int)[0] == cb);
        if ca != cb {
            return ca < cb;
        }
        assert(a@.skip(i as int).drop_first() == a@.skip(i + 1));
        assert(b@.skip(i as int).drop_first() == b@.skip(i + 1));
        i = i + 1;
    }
    i == na
}

/// Exchanges the entries at `a` and `b`.
fn swap_entries(v: &mut Vec<Entry>, a: usize, b: usize)
    requires
        a < b < old(v)@.len(),
    ensures
        final(v)@ == old(v)@.update(a as int, old(v)@[b as int]).update(b as int, old(v)@[a as int]),
        final(v)@.to_multiset() == old(v)@.to_multiset(),
{
    let ghost s = v@;
    let mut held = Entry::empty();
    v.set_and_swap(a, &mut held);
    v.set_and_swap(b, &mut held);
    v.set_and_swap(a, &mut held);
    proof {
        let x = s[a as int];
        let y = s[b as int];
        let s1 = s.update(a as int, y);
        let s2 = s1.update(b as int, x);
        assert(v@ == s2);
        vstd::seq_lib::to_multiset_update(s, a as int, y);
        vstd::seq_lib::to_multiset_update(s1, b as int, x);
        assert(s1[b as int] == y);
        assert(s.to_multiset().count(x) > 0);
        assert(s.to_multiset().count(y) > 0);
        let m: Multiset<Entry> = s.to_multiset();
        assert(m.insert(y).remove(x).insert(x).remove(y) =~= m);
    }
}

/// Insertion sort by name.
fn sort_by_name(v: &mut Vec<Entry>)
    ensures
        sorted_by_name(final(v)@),
        final(v)@.to_multiset() == old(v)@.to_multiset(),
{
    let n = v.len();
    if n == 0 {
        return;
    }
    let mut i: usize = 1;
    while i < n
        invariant
            n == v@.len(),
            1 <= i <= n,
            sorted_by_name(v@.subrange(0, i as int)),
            v@.to_multiset() == old(v)@.to_multiset(),
        decreases n - i,
    {
        assert forall|a: int, b: int| 0 <= a < b < i implies text_le(
            #[trigger] v@[a].name@,
            #[trigger] v@[b].name@,
        ) by {
            assert(v@.subrange(0, i as int)[a] == v@[a]);
            assert(v@.subrange(0, i as int)[b] == v@[b]);
        }
        let mut j: usize = i;
        while j > 0 && !name_le(v[j - 1].name.as_str(), v[j].name.as_str())
            invariant
                n == v@.len(),
                0 <= j <= i < n,
                forall|a: int, b: int|
                    0 <= a < b <= i && a != j && b != j ==> text_le(
                        #[trigger] v@[a].name@,
                        #[trigger] v@[b].name@,
                    ),
                forall|b: int| j < b <= i ==> text_le(v@[j as int].name@, #[trigger] v@[b].name@),
                v@.to_multiset() == old(v)@.to_multiset(),
            decreases j,
        {
            let ghost s = v@;
            proof {
                lemma_text_le_total(s[j - 1].name@, s[j as int].name@);
            }
            swap_entries(v, j - 1, j);
            j = j - 1;
        }
        proof {
            assert forall|a: int, b: int| 0 <= a < b < i + 1 implies text_le(
                #[trigger] v@.subrange(0, i + 1)[a].name@,
                #[trigger] v@.subrange(0, i + 1)[b].name@,
            ) by {
                assert(v@.subrange(0, i + 1)[a] == v@[a]);
                assert(v@.subrange(0, i + 1)[b] == v@[b]);
                if b == j && a < j - 1 {
                    lemma_text_le_transitive(v@[a].name@, v@[j - 1].name@, v@[j as int].name@);
                }
            }
        }
        i = i + 1;
    }
    assert(v@.subrange(0, n as int) == v@);
}

} // verus!
