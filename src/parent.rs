use vstd::prelude::*;

verus! {

/// `links` without the pairs that `drop` selects, in their order.
pub open spec fn kept(links: Seq<(i64, i64)>, drop: spec_fn((i64, i64)) -> bool) -> Seq<(i64, i64)>
    decreases links.len(),
{
    if links.len() == 0 {
        links
    } else {
        let rest = kept(links.drop_last(), drop);
        if drop(links.last()) {
            rest
        } else {
            rest.push(links.last())
        }
    }
}

/// Whether the link `(parent, child)` is `l`.
pub open spec fn is_link(parent: i64, child: i64) -> spec_fn((i64, i64)) -> bool {
    |l: (i64, i64)| l.0 == parent && l.1 == child
}

/// Whether the link `l` involves `page` on either side.
pub open spec fn touches(page: i64) -> spec_fn((i64, i64)) -> bool {
    |l: (i64, i64)| l.0 == page || l.1 == page
}

/// Parent-child relations between pages, each pair `(parent, child)` held
/// at most once.
pub struct PageParentTable {
    links: Vec<(i64, i64)>,
}

impl View for PageParentTable {
    type V = Seq<(i64, i64)>;

    closed spec fn view(&self) -> Seq<(i64, i64)> {
        self.links@
    }
}

impl PageParentTable {
    pub open spec fn wf(&self) -> bool {
        self@.no_duplicates()
    }

    pub fn new() -> (r: PageParentTable)
        ensures
            r.wf(),
            r@ == Seq::<(i64, i64)>::empty(),
    {
        PageParentTable { links: Vec::new() }
    }

    pub fn contains(&self, parent_page_id: i64, child_page_id: i64) -> (r: bool)
        ensures
            r == self@.contains((parent_page_id, child_page_id)),
    {
        let mut i: usize = 0;
        while i < self.links.len()
            invariant
                i <= self@.len(),
                self@ == self.links@,
                forall|j: int| 0 <= j < i ==> self@[j] != (parent_page_id, child_page_id),
            decreases self@.len() - i,
        {
            let (p, c) = self.links[i];
            if p == parent_page_id && c == child_page_id {
                return true;
            }
            i += 1;
        }
        false
    }

    /// Removes the links that involve page `parent_page_id` (where `by_page`)
    /// or else the link `(parent_page_id, child_page_id)`; returns how many
    /// went.
    fn retain_not(&mut self, parent_page_id: i64, child_page_id: i64, by_page: bool) -> (r: u64)
        requires
            old(self).wf(),
        ensures
            final(self).wf(),
            by_page ==> final(self)@ == kept(old(self)@, touches(parent_page_id)),
            !by_page ==> final(self)@ == kept(old(self)@, is_link(parent_page_id, child_page_id)),
            r == old(self)@.len() - final(self)@.len(),
    {
        let ghost drop = if by_page {
            touches(parent_page_id)
        } else {
            is_link(parent_page_id, child_page_id)
        };
        let ghost before = self@;
        let mut out: Vec<(i64, i64)> = Vec::new();
        let mut i: usize = 0;
        while i < self.links.len()
            invariant
                i <= before.len(),
                self@ == before,
                self.links@ == before,
                out@ == kept(before.take(i as int), drop),
                out@.len() <= i,
                forall|x: (i64, i64)| out@.contains(x) ==> before.take(i as int).contains(x),
                out@.no_duplicates(),
                before.no_duplicates(),
                drop == (if by_page {
                    touches(parent_page_id)
                } else {
                    is_link(parent_page_id, child_page_id)
                }),
            decreases before.len() - i,
        {
            assert(before.take(i as int + 1).drop_last() =~= before.take(i as int));
            let (p, c) = self.links[i];
            let gone = if by_page {
                p == parent_page_id || c == parent_page_id
            } else {
                p == parent_page_id && c == child_page_id
            };
            let ghost prev = out@;
            if !gone {
                assert(!prev.contains((p, c))) by {
                    if prev.contains((p, c)) {
                        assert(before.take(i as int).contains((p, c)));
                        let k = choose|k: int|
                            0 <= k < i && #[trigger] before.take(i as int)[k] == (p, c);
                        assert(before[k] == before[i as int]);
                    }
                }
                out.push((p, c));
                assert forall|a: int, b: int|
                    0 <= a < out@.len() && 0 <= b < out@.len() && a != b implies #[trigger] out@[a]
                    != #[trigger] out@[b] by {
                    if a < prev.len() && b < prev.len() {
                        assert(out@[a] == prev[a] && out@[b] == prev[b]);
                    } else if a < prev.len() {
                        assert(out@[a] == prev[a]);
                        assert(prev.contains(prev[a]));
                    } else {
                        assert(out@[b] == prev[b]);
                        assert(prev.contains(prev[b]));
                    }
                }
            }
            assert forall|x: (i64, i64)| out@.contains(x) implies before.take(
                i as int + 1,
            ).contains(x) by {
                if prev.contains(x) {
                    assert(before.take(i as int).contains(x));
                    let k = choose|k: int| 0 <= k < i && #[trigger] before.take(i as int)[k] == x;
                    assert(before.take(i as int + 1)[k] == x);
                } else {
                    let k = choose|k: int| 0 <= k < out@.len() && #[trigger] out@[k] == x;
                    if k < prev.len() {
                        assert(prev[k] == x);
                    }
                    assert(before.take(i as int + 1)[i as int] == x);
                }
            }
            i += 1;
        }
        assert(before.take(before.len() as int) =~= before);
        let removed = (self.links.len() - out.len()) as u64;
        self.links = out;
        removed
    }
}

/// Maintains which pages are parents of which.
pub struct ParentService;

impl ParentService {
    /// Records `parent_page_id` as a parent of `child_page_id`. Returns
    /// `true` if the link was created and `false` if it already existed.
    pub fn add_child(table: &mut PageParentTable, parent_page_id: i64, child_page_id: i64) -> (r:
        bool)
        requires
            old(table).wf(),
        ensures
            final(table).wf(),
            r == !old(table)@.contains((parent_page_id, child_page_id)),
            r ==> final(table)@ == old(table)@.push((parent_page_id, child_page_id)),
            !r ==> final(table)@ == old(table)@,
    {
        if table.contains(parent_page_id, child_page_id) {
            return false;
        }
        table.links.push((parent_page_id, child_page_id));
        true
    }

    /// Removes the link from `parent_page_id` to `child_page_id`. Returns
    /// `true` if it was there and `false` if it was already absent.
    pub fn remove_child(table: &mut PageParentTable, parent_page_id: i64, child_page_id: i64) -> (r:
        bool)
        requires
            old(table).wf(),
        ensures
            final(table).wf(),
            r == old(table)@.contains((parent_page_id, child_page_id)),
            final(table)@ == kept(old(table)@, is_link(parent_page_id, child_page_id)),
    {
        let present = table.contains(parent_page_id, child_page_id);
        table.retain_not(parent_page_id, child_page_id, false);
        present
    }

    /// Removes every link in which `page_id` is the parent or the child, and
    /// returns how many were removed.
    pub fn remove_all(table: &mut PageParentTable, page_id: i64) -> (r: u64)
        requires
            old(table).wf(),
        ensures
            final(table).wf(),
            final(table)@ == kept(old(table)@, touches(page_id)),
            r == old(table)@.len() - final(table)@.len(),
    {
        table.retain_not(page_id, page_id, true)
    }
}

} // verus!
